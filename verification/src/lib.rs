//! Drives the Tesseract command-line engine: where the engine is installed,
//! which image it is pointed at, the arguments of one invocation, and how the
//! files it writes are read back into structured results.
//!
//! The crate performs no input or output itself. Every operation is a small
//! state machine that names the next thing to do (start a process, write a
//! file, read a file) and takes the outcome back as a value.

use vstd::prelude::*;

pub mod command;
pub mod config;
pub mod error;
pub mod facade;
pub mod image;
pub mod locator;
pub mod output;
pub mod pipeline;
pub mod process;
pub mod text;

verus! {

/// Points `locator` at the engine installed at `p`.
pub fn init_ocr_engine(locator: &mut locator::TesseractPath, p: String)
    ensures
        final(locator)@ == Some(p@),
{
    locator::set_tesseract_installed_path(locator, p);
}

/// The image that `get_string_from_image` reads: the file at `path`, beside
/// a buffer of 200 by 200 pixels of three zero bytes each.
pub open spec fn screenshot(path: Seq<char>) -> image::ImageView {
    image::ImageView {
        path,
        shape: (200usize, 200usize, 3usize),
        storage: Seq::new(120000, |i: int| 0u8),
    }
}

/// The settings of `get_string_from_image`: simplified Chinese, 150 dpi,
/// text mode, a single uniform block of text, the default engine mode.
pub open spec fn screenshot_settings() -> config::ArgsView {
    config::ArgsView {
        out_filename: "out"@,
        lang: "chi_sim"@,
        config: Map::<Seq<char>, Seq<char>>::empty().insert("psm"@, "6"@).insert("oem"@, "3"@),
        dpi: 150,
        boxfile: false,
    }
}

/// Starts a job for the Chinese text in the image file at `img_path`, with
/// the engine that `locator` points at.
pub fn get_string_from_image(locator: &locator::TesseractPath, img_path: String) -> (r: (
    facade::Job,
    pipeline::Step,
))
    ensures
        (r.0@, r.1@) == facade::job_begin(
            facade::JobKind::Text,
            locator@,
            screenshot(img_path@),
            screenshot_settings(),
        ),
{
    let img = image::Image::new(img_path, image::PixelBuffer::zeros(200, 200, 3));
    let mut config = config::Config::new();
    config.insert("psm", "6");
    config.insert("oem", "3");
    let args = config::Args { out_filename: "out", lang: "chi_sim", config, dpi: 150, boxfile: false };
    facade::image_to_string(locator, &img, args)
}

} // verus!
