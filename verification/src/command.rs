//! The command line of one invocation, and the names of the files around it.
//!
//! The engine takes its arguments by position first and by flag after, and
//! rejects any other order: image, output stem, `-l` language, `--dpi`
//! resolution, `--psm` and `--oem` modes, `-c` sub-option, and the output mode.

use vstd::prelude::*;
use vstd::string::StringExecFns;
use crate::config::{Args, ArgsView};
use crate::text::{decimal_string, decimal_text, ends_with, has_suffix, other_than, without_char};

verus! {

/// The texts that the strings `v` hold, in order.
pub open spec fn texts(v: Seq<String>) -> Seq<Seq<char>> {
    Seq::new(v.len(), |i: int| v[i]@)
}

/// What the option `key` is set to, or `fallback` when it is not set.
pub open spec fn setting(
    config: Map<Seq<char>, Seq<char>>,
    key: Seq<char>,
    fallback: Seq<char>,
) -> Seq<char> {
    if config.contains_key(key) {
        config[key]
    } else {
        fallback
    }
}

/// The last argument: `makebox` in box mode, the empty text in text mode.
pub open spec fn mode_flag(boxfile: bool) -> Seq<char> {
    if boxfile {
        "makebox"@
    } else {
        Seq::empty()
    }
}

/// The arguments of an invocation on `image_arg`, in order.
pub open spec fn argument_list(image_arg: Seq<char>, args: ArgsView) -> Seq<Seq<char>> {
    seq![
        image_arg,
        args.out_filename,
        "-l"@,
        args.lang,
        "--dpi"@,
        decimal_text(args.dpi),
        "--psm"@,
        setting(args.config, "psm"@, "3"@),
        "--oem"@,
        setting(args.config, "oem"@, "3"@),
        "-c"@,
        setting(args.config, "-c"@, "tessedit_create_tsv=0"@),
        mode_flag(args.boxfile),
    ]
}

fn setting_of(args: &Args, key: &'static str, fallback: &'static str) -> (r: String)
    ensures
        r@ == setting(args@.config, key@, fallback@),
{
    match args.config.get(key) {
        Some(v) => String::from_str(v),
        None => String::from_str(fallback),
    }
}

/// The arguments of an invocation on `image_arg` with the settings `args`.
pub fn build_arguments(image_arg: String, args: &Args) -> (r: Vec<String>)
    ensures
        texts(r@) == argument_list(image_arg@, args@),
{
    let mut r: Vec<String> = Vec::new();
    r.push(image_arg);
    r.push(String::from_str(args.out_filename));
    r.push(String::from_str("-l"));
    r.push(String::from_str(args.lang));
    r.push(String::from_str("--dpi"));
    r.push(decimal_string(args.dpi));
    r.push(String::from_str("--psm"));
    r.push(setting_of(args, "psm", "3"));
    r.push(String::from_str("--oem"));
    r.push(setting_of(args, "oem", "3"));
    r.push(String::from_str("-c"));
    r.push(setting_of(args, "-c", "tessedit_create_tsv=0"));
    if args.boxfile {
        r.push(String::from_str("makebox"));
    } else {
        r.push(String::new());
    }
    assert(texts(r@) =~= argument_list(image_arg@, args@));
    r
}

/// The single argument that asks the engine for its version.
pub open spec fn version_argument_list() -> Seq<Seq<char>> {
    seq!["--version"@]
}

/// The arguments of the invocation that asks the engine for its version.
pub fn version_arguments() -> (r: Vec<String>)
    ensures
        texts(r@) == version_argument_list(),
{
    let mut r: Vec<String> = Vec::new();
    r.push(String::from_str("--version"));
    assert(texts(r@) =~= version_argument_list());
    r
}

/// The extension of the file that the engine writes: `.box` in box mode, `.txt` in text mode.
pub open spec fn artifact_extension(boxfile: bool) -> Seq<char> {
    if boxfile {
        ".box"@
    } else {
        ".txt"@
    }
}

/// The name of the file that the engine writes: the output stem, with the
/// mode's extension appended unless the stem already ends with it.
pub open spec fn artifact_name(args: ArgsView) -> Seq<char> {
    if ends_with(args.out_filename, artifact_extension(args.boxfile)) {
        args.out_filename
    } else {
        args.out_filename + artifact_extension(args.boxfile)
    }
}

/// The name of the file that the engine writes with the settings `args`.
pub fn artifact_file(args: &Args) -> (r: String)
    ensures
        r@ == artifact_name(args@),
{
    let ext: &'static str = if args.boxfile {
        ".box"
    } else {
        ".txt"
    };
    if has_suffix(args.out_filename, ext) {
        String::from_str(args.out_filename)
    } else {
        String::from_str(args.out_filename).concat(ext)
    }
}

/// Where the pixels of an image without a path are written: the file
/// `ndarray_converted.png` in the working directory `cwd`.
pub open spec fn materialized_name(cwd: Seq<char>) -> Seq<char> {
    cwd + "/"@ + "ndarray_converted.png"@
}

/// The path of the file that the pixels are written to, in the working directory `cwd`.
pub fn materialized_file(cwd: &str) -> (r: String)
    ensures
        r@ == materialized_name(cwd@),
{
    String::from_str(cwd).concat("/").concat("ndarray_converted.png")
}

/// The argument that names an image file: its path without any double quotes.
pub open spec fn path_argument(path: Seq<char>) -> Seq<char> {
    path.filter(other_than('"'))
}

/// The argument that names the image file at `path`.
pub fn path_argument_of(path: &str) -> (r: String)
    ensures
        r@ == path_argument(path@),
{
    without_char(path, '"')
}

/// The settings of a text pass: `args` in text mode.
pub open spec fn text_settings(args: ArgsView) -> ArgsView {
    ArgsView { boxfile: false, ..args }
}

/// The settings of the box pass of a table run: `args` in box mode.
pub open spec fn box_settings(args: ArgsView) -> ArgsView {
    ArgsView { boxfile: true, ..args }
}

/// The settings of the last pass of a table run: `args` with the sub-option
/// that asks for a table file.
pub open spec fn table_settings(args: ArgsView) -> ArgsView {
    ArgsView { config: args.config.insert("-c"@, "tessedit_create_tsv=1"@), ..args }
}

/// `args` in text mode.
pub fn text_pass_args(args: &Args) -> (r: Args)
    ensures
        r@ == text_settings(args@),
{
    let mut r = args.clone();
    r.boxfile = false;
    r
}

/// `args` in box mode.
pub fn box_pass_args(args: &Args) -> (r: Args)
    ensures
        r@ == box_settings(args@),
{
    let mut r = args.clone();
    r.boxfile = true;
    r
}

/// `args` with the sub-option that asks for a table file.
pub fn table_pass_args(args: &Args) -> (r: Args)
    ensures
        r@ == table_settings(args@),
{
    let mut r = args.clone();
    let mut config = r.config.clone();
    config.insert("-c", "tessedit_create_tsv=1");
    r.config = config;
    r
}

} // verus!
