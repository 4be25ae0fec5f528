use rust_tesseract::command::{
    artifact_file, box_pass_args, build_arguments, materialized_file, path_argument_of,
    table_pass_args, text_pass_args, version_arguments,
};
use rust_tesseract::config::Args;

#[test]
fn arguments_with_defaults() {
    let args = Args::new();
    assert_eq!(
        build_arguments(String::from("scan.png"), &args),
        vec![
            "scan.png", "out", "-l", "eng", "--dpi", "150", "--psm", "3", "--oem", "3", "-c",
            "tessedit_create_tsv=0", ""
        ]
    );
}

#[test]
fn arguments_with_options_from_the_mapping() {
    let mut args = Args::new();
    args.lang = "chi_sim";
    args.dpi = 300;
    args.out_filename = "page";
    args.boxfile = true;
    args.config.insert("psm", "6");
    args.config.insert("oem", "1");
    args.config.insert("-c", "tessedit_char_whitelist=0123");
    assert_eq!(
        build_arguments(String::from("/tmp/ndarray_converted.png"), &args),
        vec![
            "/tmp/ndarray_converted.png", "page", "-l", "chi_sim", "--dpi", "300", "--psm", "6",
            "--oem", "1", "-c", "tessedit_char_whitelist=0123", "makebox"
        ]
    );
}

#[test]
fn arguments_keep_their_order_whatever_is_set() {
    for (psm, oem, c) in [(None, None, None), (Some("7"), None, None), (None, Some("2"), Some("a=b"))] {
        let mut args = Args::new();
        if let Some(v) = psm {
            args.config.insert("psm", v);
        }
        if let Some(v) = oem {
            args.config.insert("oem", v);
        }
        if let Some(v) = c {
            args.config.insert("-c", v);
        }
        let list = build_arguments(String::from("i.png"), &args);
        assert_eq!(list.len(), 13);
        assert_eq!(list[0], "i.png");
        assert_eq!(list[1], "out");
        assert_eq!(list[2], "-l");
        assert_eq!(list[4], "--dpi");
        assert_eq!(list[6], "--psm");
        assert_eq!(list[7], psm.unwrap_or("3"));
        assert_eq!(list[8], "--oem");
        assert_eq!(list[9], oem.unwrap_or("3"));
        assert_eq!(list[10], "-c");
        assert_eq!(list[11], c.unwrap_or("tessedit_create_tsv=0"));
    }
}

#[test]
fn arguments_write_a_negative_resolution_with_its_sign() {
    let mut args = Args::new();
    args.dpi = -72;
    assert_eq!(build_arguments(String::new(), &args)[5], "-72");
}

#[test]
fn version_is_asked_with_one_argument() {
    assert_eq!(version_arguments(), vec!["--version"]);
}

#[test]
fn artifact_gets_the_extension_of_the_mode() {
    let mut args = Args::new();
    assert_eq!(artifact_file(&args), "out.txt");
    args.boxfile = true;
    assert_eq!(artifact_file(&args), "out.box");
}

#[test]
fn artifact_keeps_a_stem_that_ends_with_the_extension() {
    let mut args = Args::new();
    args.out_filename = "page.txt";
    assert_eq!(artifact_file(&args), "page.txt");
    args.boxfile = true;
    assert_eq!(artifact_file(&args), "page.txt.box");
    args.out_filename = "page.box";
    assert_eq!(artifact_file(&args), "page.box");
    args.boxfile = false;
    assert_eq!(artifact_file(&args), "page.box.txt");
}

#[test]
fn artifact_extends_a_stem_that_only_holds_the_extension() {
    let mut args = Args::new();
    args.out_filename = "my.txt.d/page";
    assert_eq!(artifact_file(&args), "my.txt.d/page.txt");
}

#[test]
fn pixels_are_written_to_the_working_directory() {
    assert_eq!(materialized_file("/home/me"), "/home/me/ndarray_converted.png");
    assert_eq!(materialized_file(""), "/ndarray_converted.png");
}

#[test]
fn path_argument_has_no_double_quotes() {
    assert_eq!(path_argument_of("\"a b.png\""), "a b.png");
    assert_eq!(path_argument_of("a.png"), "a.png");
}

#[test]
fn passes_of_a_table_run() {
    let mut args = Args::new();
    args.config.insert("psm", "6");
    args.config.insert("-c", "keep=1");
    let text = text_pass_args(&box_pass_args(&args));
    assert!(!text.boxfile);
    let boxes = box_pass_args(&args);
    assert!(boxes.boxfile);
    assert_eq!(boxes.config.get("-c"), Some("keep=1"));
    assert_eq!(boxes.lang, "eng");
    let table = table_pass_args(&args);
    assert!(!table.boxfile);
    assert_eq!(table.config.get("-c"), Some("tessedit_create_tsv=1"));
    assert_eq!(table.config.get("psm"), Some("6"));
    assert_eq!(args.config.get("-c"), Some("keep=1"));
}
