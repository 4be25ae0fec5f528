use rust_tesseract::config::Args;
use rust_tesseract::error::OcrError;
use rust_tesseract::facade::{
    check_if_installed, get_tesseract_version, image_to_boxes, image_to_data, image_to_string,
    Job, VersionQuery, VersionStep,
};
use rust_tesseract::get_string_from_image;
use rust_tesseract::image::{Image, PixelBuffer};
use rust_tesseract::init_ocr_engine;
use rust_tesseract::locator::{set_tesseract_installed_path, TesseractPath};
use rust_tesseract::output::ModelOutput;
use rust_tesseract::pipeline::{Reply, Request, Step};
use rust_tesseract::process::InvocationResult;

/// An engine that is installed, prints `banner`, and writes `text` and
/// `boxes` as its two files. It records the arguments of every run.
struct Engine {
    installed: bool,
    banner: Vec<u8>,
    text: Option<String>,
    boxes: Option<String>,
    runs: Vec<Vec<String>>,
    saved: Vec<String>,
}

fn engine(text: &str, boxes: &str) -> Engine {
    Engine {
        installed: true,
        banner: b"tesseract 5.3.0\n leptonica-1.82.0\n".to_vec(),
        text: Some(String::from(text)),
        boxes: Some(String::from(boxes)),
        runs: Vec::new(),
        saved: Vec::new(),
    }
}

fn answer(engine: &mut Engine, request: Request) -> Reply {
    match request {
        Request::Probe { .. } => Reply::Probed(engine.installed),
        Request::WorkingDirectory => Reply::WorkingDirectory(Some(String::from("/cwd"))),
        Request::SavePng { path, .. } => {
            engine.saved.push(path);
            Reply::Saved(true)
        },
        Request::Run { arguments, .. } => {
            engine.runs.push(arguments);
            Reply::Exited(InvocationResult {
                stdout: engine.banner.clone(),
                stderr: Vec::new(),
                status: Some(0),
            })
        },
        Request::ReadArtifact { path } => {
            if path.ends_with(".box") {
                Reply::Artifact(engine.boxes.clone())
            } else {
                Reply::Artifact(engine.text.clone())
            }
        },
    }
}

fn drive(engine: &mut Engine, start: (Job, Step)) -> Result<ModelOutput, OcrError> {
    run(engine, start).1
}

fn run(engine: &mut Engine, start: (Job, Step)) -> (Job, Result<ModelOutput, OcrError>) {
    let (mut job, mut step) = start;
    loop {
        match step {
            Step::Done(result) => return (job, result),
            Step::Ask(request) => {
                let reply = answer(engine, request);
                assert!(job.accepts(&reply));
                let next = job.advance(reply);
                job = next.0;
                step = next.1;
            },
        }
    }
}

fn drive_version(engine: &mut Engine, start: (VersionQuery, VersionStep)) -> Result<String, OcrError> {
    let (mut query, mut step) = start;
    loop {
        match step {
            VersionStep::Done(result) => return result,
            VersionStep::Ask(request) => {
                let reply = answer(engine, request);
                assert!(query.accepts(&reply));
                let next = query.advance(reply);
                query = next.0;
                step = next.1;
            },
        }
    }
}

fn located() -> TesseractPath {
    TesseractPath::use_certain_path(String::from("tesseract"))
}

fn scan() -> Image {
    Image::new(String::from("scan.png"), PixelBuffer::zeros(0, 0, 0))
}

fn is_empty(out: &ModelOutput) -> bool {
    out.output_info.is_empty()
        && out.output_bytes.is_empty()
        && out.output_dict.is_empty()
        && out.output_string.is_empty()
        && out.output_dataframe.is_empty()
}

#[test]
fn get_tesseract_version_test() {
    let p = String::from(r"D:\tesseract\tesseract.exe");
    let mut locator = TesseractPath::new();
    set_tesseract_installed_path(&mut locator, p);
    let mut e = engine("", "");
    let r = drive_version(&mut e, get_tesseract_version(&locator));
    println!("{:?}", r);
    assert_eq!(r, Ok(String::from("\ntesseract 5.3.0\n leptonica-1.82.0")));
    assert_eq!(e.runs, vec![vec![String::from("--version")]]);
}

#[test]
fn ocr_test() {
    let ip = String::from(r"D:\tesseract\tesseract.exe");
    let p = String::from(r"C:\Users\xiaoshuyui\Desktop\screenshot-20230209-130916.png");
    let mut locator = TesseractPath::new();
    set_tesseract_installed_path(&mut locator, ip);

    let img = Image { path: String::from(p), ndarray: PixelBuffer::zeros(200, 200, 3) };

    let mut image_to_string_args =
        Args { out_filename: "out", lang: "chi_sim", config: rust_tesseract::config::Config::new(), dpi: 150, boxfile: false };

    image_to_string_args.config.insert("psm", "6");
    image_to_string_args.config.insert("oem", "3");

    let mut e = engine("你好", "");
    let output = drive(&mut e, image_to_string(&locator, &img, image_to_string_args)).unwrap();
    println!("\nThe String output is: {:?}", output.output_string);
    assert_eq!(output.output_string, "你好");
    assert_eq!(
        e.runs,
        vec![vec![
            r"C:\Users\xiaoshuyui\Desktop\screenshot-20230209-130916.png",
            "out", "-l", "chi_sim", "--dpi", "150", "--psm", "6", "--oem", "3", "-c",
            "tessedit_create_tsv=0", ""
        ]]
    );
}

#[test]
fn version_of_an_engine_that_is_not_there_is_empty() {
    let mut e = engine("", "");
    assert_eq!(drive_version(&mut e, get_tesseract_version(&TesseractPath::new())), Ok(String::new()));
    e.installed = false;
    assert_eq!(drive_version(&mut e, get_tesseract_version(&located())), Ok(String::new()));
    assert!(e.runs.is_empty());
}

#[test]
fn version_falls_back_to_standard_error() {
    let (query, step) = get_tesseract_version(&located());
    assert!(matches!(step, VersionStep::Ask(Request::Probe { .. })));
    let (query, step) = query.advance(Reply::Probed(true));
    assert!(matches!(step, VersionStep::Ask(Request::Run { .. })));
    let (_, step) = query.advance(Reply::Exited(InvocationResult {
        stdout: Vec::new(),
        stderr: b"tesseract 3.05\n".to_vec(),
        status: Some(0),
    }));
    match step {
        VersionStep::Done(r) => assert_eq!(r, Ok(String::from("\ntesseract 3.05"))),
        _ => panic!("expected the version"),
    }
}

#[test]
fn version_that_is_not_text_is_an_error() {
    let mut e = engine("", "");
    e.banner = vec![0xff];
    assert_eq!(
        drive_version(&mut e, get_tesseract_version(&located())),
        Err(OcrError::DiagnosticDecodeFailure)
    );
}

#[test]
fn text_of_an_image() {
    let mut e = engine("hello world", "h 1 2 3 4 0");
    let out = drive(&mut e, image_to_string(&located(), &scan(), Args::new())).unwrap();
    assert_eq!(out.output_string, "hello world");
    assert!(out.output_dict.is_empty());
    assert_eq!(e.runs.len(), 1);
    assert_eq!(e.runs[0][12], "");
}

#[test]
fn text_job_runs_in_text_mode_whatever_the_flag() {
    let mut args = Args::new();
    args.boxfile = true;
    let mut e = engine("hello", "h 1 2 3 4 0");
    let out = drive(&mut e, image_to_string(&located(), &scan(), args)).unwrap();
    assert_eq!(out.output_string, "hello");
    assert_eq!(e.runs[0][12], "");
}

#[test]
fn boxes_of_an_image() {
    let mut e = engine("hi", "h 1 2 3 4 0\ni 5 6 7 8 0\n");
    let out = drive(&mut e, image_to_boxes(&located(), &scan(), Args::new())).unwrap();
    assert_eq!(out.output_string, "h 1 2 3 4 0\ni 5 6 7 8 0\n");
    assert_eq!(out.output_dict.get_vec("h"), Some(&vec![String::from("1 2 3 4 0")]));
    assert_eq!(out.output_dict.get_vec("i"), Some(&vec![String::from("5 6 7 8 0")]));
    assert_eq!(out.output_dataframe.len(), 2);
    assert_eq!(e.runs.len(), 1);
    assert_eq!(e.runs[0][12], "makebox");
}

#[test]
fn table_joins_the_text_pass_and_the_box_pass() {
    let boxes = "h 1 2 3 4 0\ni 5 6 7 8 0\n";
    let mut e = engine("hi", boxes);
    let table = drive(&mut e, image_to_data(&located(), &scan(), Args::new())).unwrap();
    let runs = e.runs.clone();
    let text_only = drive(&mut e, image_to_string(&located(), &scan(), Args::new())).unwrap();
    let boxes_only = drive(&mut e, image_to_boxes(&located(), &scan(), Args::new())).unwrap();

    assert_eq!(table.output_string, text_only.output_string);
    assert_eq!(table.output_bytes, text_only.output_bytes);
    assert_eq!(table.output_info, text_only.output_info);
    assert_eq!(table.output_dict, boxes_only.output_dict);
    assert_eq!(table.output_dataframe.len(), boxes_only.output_dataframe.len());
    for (a, b) in table.output_dataframe.iter().zip(boxes_only.output_dataframe.iter()) {
        assert!(a.equals(b));
        assert_eq!(a.name(), b.name());
    }
    assert_eq!(table.output_string, "hi");
    assert_eq!(table.output_dict.len(), 2);

    assert_eq!(runs.len(), 3);
    assert_eq!(runs[0][11], "tessedit_create_tsv=0");
    assert_eq!(runs[0][12], "");
    assert_eq!(runs[1][11], "tessedit_create_tsv=0");
    assert_eq!(runs[1][12], "makebox");
    assert_eq!(runs[2][11], "tessedit_create_tsv=1");
    assert_eq!(runs[2][12], "");
    for run in &runs {
        assert_eq!(run[0], "scan.png");
    }
}

#[test]
fn table_of_pixels_saves_the_image_for_every_pass() {
    let img = Image::new(String::new(), PixelBuffer::zeros(2, 2, 3));
    let mut e = engine("x", "x 0 0 1 1 0");
    let out = drive(&mut e, image_to_data(&located(), &img, Args::new())).unwrap();
    assert_eq!(out.output_string, "x");
    assert_eq!(out.output_dict.get_vec("x"), Some(&vec![String::from("0 0 1 1 0")]));
    assert_eq!(e.saved, vec!["/cwd/ndarray_converted.png"; 3]);
    for run in &e.runs {
        assert_eq!(run[0], "/cwd/ndarray_converted.png");
    }
}

#[test]
fn no_engine_gives_the_empty_result() {
    let mut e = engine("hello", "h 1 2 3 4 0");
    for start in [
        image_to_string(&TesseractPath::new(), &scan(), Args::new()),
        image_to_boxes(&TesseractPath::new(), &scan(), Args::new()),
        image_to_data(&TesseractPath::new(), &scan(), Args::new()),
    ] {
        assert!(matches!(start.1, Step::Done(_)));
        assert!(is_empty(&drive(&mut e, start).unwrap()));
    }
    e.installed = false;
    assert!(is_empty(&drive(&mut e, image_to_string(&located(), &scan(), Args::new())).unwrap()));
    assert!(is_empty(&drive(&mut e, image_to_boxes(&located(), &scan(), Args::new())).unwrap()));
    assert!(is_empty(&drive(&mut e, image_to_data(&located(), &scan(), Args::new())).unwrap()));
    assert!(e.runs.is_empty());
}

#[test]
fn an_unusable_image_gives_the_empty_result() {
    let mut e = engine("hello", "h 1 2 3 4 0");
    let nothing = Image::new(String::new(), PixelBuffer::zeros(0, 0, 0));
    let unknown = Image::new(String::from("notes.docx"), PixelBuffer::zeros(2, 2, 3));
    for img in [&nothing, &unknown] {
        assert!(is_empty(&drive(&mut e, image_to_string(&located(), img, Args::new())).unwrap()));
        assert!(is_empty(&drive(&mut e, image_to_boxes(&located(), img, Args::new())).unwrap()));
        assert!(is_empty(&drive(&mut e, image_to_data(&located(), img, Args::new())).unwrap()));
    }
    assert!(e.runs.is_empty());
    assert!(e.saved.is_empty());
}

#[test]
fn a_missing_file_ends_the_job_with_the_error() {
    let mut e = engine("hello", "h 1 2 3 4 0");
    e.text = None;
    assert_eq!(
        drive(&mut e, image_to_string(&located(), &scan(), Args::new())).err(),
        Some(OcrError::ArtifactReadFailure)
    );
    assert!(drive(&mut e, image_to_boxes(&located(), &scan(), Args::new())).is_ok());
    e.runs.clear();
    assert_eq!(
        drive(&mut e, image_to_data(&located(), &scan(), Args::new())).err(),
        Some(OcrError::ArtifactReadFailure)
    );
    assert_eq!(e.runs.len(), 1);
}

#[test]
fn a_malformed_box_file_ends_a_table_job_in_its_second_pass() {
    let mut e = engine("hello", "h 1 2 three 4");
    assert_eq!(
        drive(&mut e, image_to_data(&located(), &scan(), Args::new())).err(),
        Some(OcrError::CoordinateParseFailure)
    );
    assert_eq!(e.runs.len(), 2);
}

#[test]
fn string_from_image_reads_chinese_text_from_the_file() {
    let mut locator = TesseractPath::new();
    init_ocr_engine(&mut locator, String::from("tesseract"));
    let mut e = engine("中文", "");
    let out = drive(&mut e, get_string_from_image(&locator, String::from("shot.png"))).unwrap();
    assert_eq!(out.output_string, "中文");
    assert_eq!(
        e.runs,
        vec![vec![
            "shot.png", "out", "-l", "chi_sim", "--dpi", "150", "--psm", "6", "--oem", "3", "-c",
            "tessedit_create_tsv=0", ""
        ]]
    );
}

#[test]
fn string_from_image_without_a_path_reads_the_black_picture() {
    let mut e = engine("", "");
    let out = drive(&mut e, get_string_from_image(&located(), String::new())).unwrap();
    assert_eq!(out.output_string, "");
    assert_eq!(e.saved, vec!["/cwd/ndarray_converted.png"]);
    assert_eq!(e.runs[0][0], "/cwd/ndarray_converted.png");
}

#[test]
fn installation_is_checked_by_a_probe_of_the_location() {
    assert!(check_if_installed(&TesseractPath::new()).is_none());
    match check_if_installed(&located()) {
        Some(Request::Probe { program }) => assert_eq!(program, "tesseract"),
        _ => panic!("expected a probe"),
    }
}

#[test]
fn a_job_that_ran_has_passed_over_nothing() {
    let mut e = engine("hello", "h 1 2 3 4 0");
    let (job, result) = run(&mut e, image_to_data(&located(), &scan(), Args::new()));
    assert!(result.is_ok());
    assert!(job.passed_over().is_empty());
}

#[test]
fn a_missing_location_is_kept_on_record() {
    let mut e = engine("hello", "");
    for start in [
        image_to_string(&TesseractPath::new(), &scan(), Args::new()),
        image_to_boxes(&TesseractPath::new(), &scan(), Args::new()),
        image_to_data(&TesseractPath::new(), &scan(), Args::new()),
    ] {
        let (job, result) = run(&mut e, start);
        assert!(is_empty(&result.unwrap()));
        assert_eq!(job.passed_over(), &vec![OcrError::EngineNotInstalled]);
    }
}

#[test]
fn an_engine_that_does_not_start_is_kept_on_record_for_every_pass() {
    let mut e = engine("hello", "");
    e.installed = false;
    let (job, result) = run(&mut e, image_to_string(&located(), &scan(), Args::new()));
    assert!(is_empty(&result.unwrap()));
    assert_eq!(job.passed_over(), &vec![OcrError::EngineNotInstalled]);
    let (job, result) = run(&mut e, image_to_data(&located(), &scan(), Args::new()));
    assert!(is_empty(&result.unwrap()));
    assert_eq!(job.passed_over(), &vec![OcrError::EngineNotInstalled; 3]);
}

#[test]
fn an_unusable_image_is_kept_on_record() {
    let mut e = engine("hello", "h 1 2 3 4 0");
    let nothing = Image::new(String::new(), PixelBuffer::zeros(0, 0, 0));
    let unknown = Image::new(String::from("notes.docx"), PixelBuffer::zeros(2, 2, 3));
    let (job, result) = run(&mut e, image_to_string(&located(), &nothing, Args::new()));
    assert!(is_empty(&result.unwrap()));
    assert_eq!(job.passed_over(), &vec![OcrError::ImageNotFound]);
    let (job, result) = run(&mut e, image_to_boxes(&located(), &unknown, Args::new()));
    assert!(is_empty(&result.unwrap()));
    assert_eq!(job.passed_over(), &vec![OcrError::ImageFormat]);
    let (job, result) = run(&mut e, image_to_data(&located(), &unknown, Args::new()));
    assert!(is_empty(&result.unwrap()));
    assert_eq!(job.passed_over(), &vec![OcrError::ImageFormat; 3]);
}

#[test]
fn an_error_that_ends_the_job_is_returned_and_not_passed_over() {
    let mut e = engine("hello", "h 1 2 3 4 0");
    e.text = None;
    let (job, result) = run(&mut e, image_to_string(&located(), &scan(), Args::new()));
    assert_eq!(result.err(), Some(OcrError::ArtifactReadFailure));
    assert!(job.passed_over().is_empty());
}
