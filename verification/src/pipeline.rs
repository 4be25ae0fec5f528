//! One invocation of the engine, step by step.
//!
//! An invocation does nothing by itself. It names what has to be done next
//! as a `Request`, and is told what came of it by a `Reply`: whether the
//! engine starts, where the working directory is, whether the image file was
//! written, what the engine printed, and what stands in the file it wrote.
//! The caller carries out each request and hands the reply to `advance`,
//! until the invocation is done.

use vstd::prelude::*;
use vstd::pervasive::arbitrary;
use crate::command::{
    argument_list, artifact_file, artifact_name, build_arguments, materialized_file,
    materialized_name, path_argument, path_argument_of, texts,
};
use crate::config::{Args, ArgsView};
use crate::error::OcrError;
use crate::image::{
    check_image_format, convertible, format_recognized, has_elements, raster_of, Image, ImageView,
    RasterView, RgbRaster,
};
use crate::locator::{get_tesseract_installed_path, TesseractPath};
use crate::output::{parse_output, parsed, ModelOutput, OutputView};
use crate::process::{diagnostic_of, diagnostic_text, InvocationResult};

verus! {

/// What the caller of an invocation has to do next.
pub enum Request {
    /// Try to start `program` as a child process with its output suppressed,
    /// and report whether it started.
    Probe { program: String },
    /// Report the current working directory.
    WorkingDirectory,
    /// Write `raster` as a PNG file at `path`, over any file of that name,
    /// and report whether that worked.
    SavePng { path: String, raster: RgbRaster },
    /// Run `program` with `arguments`, capture what it prints, wait for it
    /// to end, and report the captured streams.
    Run { program: String, arguments: Vec<String> },
    /// Read the file at `path` as text and report its content.
    ReadArtifact { path: String },
}

/// A `Request` as mathematical values.
pub enum RequestView {
    Probe { program: Seq<char> },
    WorkingDirectory,
    SavePng { path: Seq<char>, raster: RasterView },
    Run { program: Seq<char>, arguments: Seq<Seq<char>> },
    ReadArtifact { path: Seq<char> },
}

impl View for Request {
    type V = RequestView;

    open spec fn view(&self) -> RequestView {
        match self {
            Request::Probe { program } => RequestView::Probe { program: program@ },
            Request::WorkingDirectory => RequestView::WorkingDirectory,
            Request::SavePng { path, raster } => RequestView::SavePng {
                path: path@,
                raster: raster@,
            },
            Request::Run { program, arguments } => RequestView::Run {
                program: program@,
                arguments: texts(arguments@),
            },
            Request::ReadArtifact { path } => RequestView::ReadArtifact { path: path@ },
        }
    }
}

/// What came of a request.
pub enum Reply {
    /// Whether the engine could be started.
    Probed(bool),
    /// The current working directory, if it could be determined.
    WorkingDirectory(Option<String>),
    /// Whether the image file was written.
    Saved(bool),
    /// What the engine left behind when it ended.
    Exited(InvocationResult),
    /// The content of the file, if it could be read.
    Artifact(Option<String>),
}

/// A `Reply` as mathematical values.
pub enum ReplyView {
    Probed(bool),
    WorkingDirectory(Option<Seq<char>>),
    Saved(bool),
    Exited { stdout: Seq<u8>, stderr: Seq<u8> },
    Artifact(Option<Seq<char>>),
}

impl View for Reply {
    type V = ReplyView;

    open spec fn view(&self) -> ReplyView {
        match self {
            Reply::Probed(started) => ReplyView::Probed(*started),
            Reply::WorkingDirectory(Some(dir)) => ReplyView::WorkingDirectory(Some(dir@)),
            Reply::WorkingDirectory(None) => ReplyView::WorkingDirectory(None),
            Reply::Saved(ok) => ReplyView::Saved(*ok),
            Reply::Exited(result) => ReplyView::Exited {
                stdout: result.stdout@,
                stderr: result.stderr@,
            },
            Reply::Artifact(Some(content)) => ReplyView::Artifact(Some(content@)),
            Reply::Artifact(None) => ReplyView::Artifact(None),
        }
    }
}

/// Where an invocation stands after a reply: it asks for the next thing, or
/// it is done, with a result or with the reason why there is none.
pub enum Step {
    Ask(Request),
    Done(Result<ModelOutput, OcrError>),
}

/// A `Step` as mathematical values.
pub enum StepView {
    Ask(RequestView),
    Done(Result<OutputView, OcrError>),
}

impl View for Step {
    type V = StepView;

    open spec fn view(&self) -> StepView {
        match self {
            Step::Ask(request) => StepView::Ask(request@),
            Step::Done(Ok(output)) => StepView::Done(Ok(output@)),
            Step::Done(Err(e)) => StepView::Done(Err(*e)),
        }
    }
}

/// What an image gives the engine to read.
pub enum Source {
    /// Neither a path nor any pixels.
    Missing,
    /// A path that does not end in the extension of a known format.
    Unrecognized,
    /// A file, named by the argument that stands for it.
    File { argument: String },
    /// Pixels, to be written to a file first.
    Pixels { raster: RgbRaster },
    /// Pixels that are too few for an image of their width and height.
    Unconvertible,
}

/// A `Source` as mathematical values.
pub enum SourceView {
    Missing,
    Unrecognized,
    File { argument: Seq<char> },
    Pixels { raster: RasterView },
    Unconvertible,
}

impl View for Source {
    type V = SourceView;

    open spec fn view(&self) -> SourceView {
        match self {
            Source::Missing => SourceView::Missing,
            Source::Unrecognized => SourceView::Unrecognized,
            Source::File { argument } => SourceView::File { argument: argument@ },
            Source::Pixels { raster } => SourceView::Pixels { raster: raster@ },
            Source::Unconvertible => SourceView::Unconvertible,
        }
    }
}

/// What `image` gives the engine to read. A path counts before the pixels:
/// the pixels are used only when the path is empty.
pub open spec fn source_of(image: ImageView) -> SourceView {
    if image.path.len() == 0 {
        if !has_elements(image.shape) {
            SourceView::Missing
        } else if convertible(image) {
            SourceView::Pixels { raster: raster_of(image) }
        } else {
            SourceView::Unconvertible
        }
    } else if format_recognized(image.path) {
        SourceView::File { argument: path_argument(image.path) }
    } else {
        SourceView::Unrecognized
    }
}

/// What `image` gives the engine to read.
pub fn resolve_source(image: &Image) -> (r: Source)
    ensures
        r@ == source_of(image@),
{
    if image.path.as_str().is_empty() {
        if image.is_empty_ndarray() {
            Source::Missing
        } else {
            match image.try_ndarray_to_image() {
                Some(raster) => Source::Pixels { raster },
                None => Source::Unconvertible,
            }
        }
    } else if check_image_format(image) {
        Source::File { argument: path_argument_of(image.path.as_str()) }
    } else {
        Source::Unrecognized
    }
}

/// How far an invocation has come.
pub enum Stage {
    /// Asked whether the engine starts.
    Probing { source: Source },
    /// Asked for the working directory, to write the pixels there.
    Locating { raster: RgbRaster },
    /// Asked to write the pixels to the file at `path`.
    Saving { path: String },
    /// Asked to run the engine.
    Running,
    /// Asked for the file that the engine wrote; `info` is what it printed.
    Reading { info: String },
    /// Done.
    Finished,
}

/// A `Stage` as mathematical values.
pub enum StageView {
    Probing { source: SourceView },
    Locating { raster: RasterView },
    Saving { path: Seq<char> },
    Running,
    Reading { info: Seq<char> },
    Finished,
}

impl View for Stage {
    type V = StageView;

    open spec fn view(&self) -> StageView {
        match self {
            Stage::Probing { source } => StageView::Probing { source: source@ },
            Stage::Locating { raster } => StageView::Locating { raster: raster@ },
            Stage::Saving { path } => StageView::Saving { path: path@ },
            Stage::Running => StageView::Running,
            Stage::Reading { info } => StageView::Reading { info: info@ },
            Stage::Finished => StageView::Finished,
        }
    }
}

/// One invocation of the engine on one image.
pub struct Invocation {
    stage: Stage,
    program: String,
    args: Args,
}

/// An `Invocation` as mathematical values.
pub struct InvocationView {
    pub stage: StageView,
    pub program: Seq<char>,
    pub args: ArgsView,
}

impl View for Invocation {
    type V = InvocationView;

    closed spec fn view(&self) -> InvocationView {
        InvocationView { stage: self.stage@, program: self.program@, args: self.args@ }
    }
}

/// The invocation `inv`, done, with `result`.
pub open spec fn finish(inv: InvocationView, result: Result<OutputView, OcrError>) -> (
    InvocationView,
    StepView,
) {
    (InvocationView { stage: StageView::Finished, ..inv }, StepView::Done(result))
}

/// The invocation `inv` asking for a run of the engine on `argument`.
pub open spec fn run(inv: InvocationView, argument: Seq<char>) -> (InvocationView, StepView) {
    (
        InvocationView { stage: StageView::Running, ..inv },
        StepView::Ask(
            RequestView::Run {
                program: inv.program,
                arguments: argument_list(argument, inv.args),
            },
        ),
    )
}

/// How an invocation starts. Without a location for the engine it is done at
/// once; otherwise it first asks whether the engine starts.
pub open spec fn begin(program: Option<Seq<char>>, image: ImageView, args: ArgsView) -> (
    InvocationView,
    StepView,
) {
    match program {
        None => (
            InvocationView { stage: StageView::Finished, program: Seq::empty(), args },
            StepView::Done(Err(OcrError::EngineNotInstalled)),
        ),
        Some(p) => (
            InvocationView { stage: StageView::Probing { source: source_of(image) }, program: p, args },
            StepView::Ask(RequestView::Probe { program: p }),
        ),
    }
}

/// The reply answers what an invocation at `stage` has asked for.
pub open spec fn expects(stage: StageView, reply: ReplyView) -> bool {
    match stage {
        StageView::Probing { .. } => reply is Probed,
        StageView::Locating { .. } => reply is WorkingDirectory,
        StageView::Saving { .. } => reply is Saved,
        StageView::Running => reply is Exited,
        StageView::Reading { .. } => reply is Artifact,
        StageView::Finished => false,
    }
}

/// How an invocation goes on after a reply to what it asked for.
///
/// * An engine that does not start ends the invocation; only then does the
///   image count. Without a path and without pixels, or with a path of an
///   unknown format, the invocation ends. A path is handed to the engine
///   without its double quotes.
/// * Pixels are written to `ndarray_converted.png` in the working directory,
///   and the engine is run on that file. Where anything on that way fails,
///   the engine is run on the empty path instead.
/// * What the engine printed becomes the diagnostics, and the file it wrote
///   is read and parsed in the mode of the settings.
pub open spec fn next(inv: InvocationView, reply: ReplyView) -> (InvocationView, StepView) {
    match (inv.stage, reply) {
        (StageView::Probing { source }, ReplyView::Probed(started)) => {
            if !started {
                finish(inv, Err(OcrError::EngineNotInstalled))
            } else {
                match source {
                    SourceView::Missing => finish(inv, Err(OcrError::ImageNotFound)),
                    SourceView::Unrecognized => finish(inv, Err(OcrError::ImageFormat)),
                    SourceView::File { argument } => run(inv, argument),
                    SourceView::Pixels { raster } => (
                        InvocationView { stage: StageView::Locating { raster }, ..inv },
                        StepView::Ask(RequestView::WorkingDirectory),
                    ),
                    SourceView::Unconvertible => run(inv, Seq::empty()),
                }
            }
        },
        (StageView::Locating { raster }, ReplyView::WorkingDirectory(Some(dir))) => (
            InvocationView { stage: StageView::Saving { path: materialized_name(dir) }, ..inv },
            StepView::Ask(RequestView::SavePng { path: materialized_name(dir), raster }),
        ),
        (StageView::Locating { .. }, ReplyView::WorkingDirectory(None)) => run(inv, Seq::empty()),
        (StageView::Saving { path }, ReplyView::Saved(ok)) => run(
            inv,
            if ok {
                path
            } else {
                Seq::empty()
            },
        ),
        (StageView::Running, ReplyView::Exited { stdout, stderr }) => {
            match diagnostic_of(stdout, stderr) {
                None => finish(inv, Err(OcrError::DiagnosticDecodeFailure)),
                Some(info) => (
                    InvocationView { stage: StageView::Reading { info }, ..inv },
                    StepView::Ask(RequestView::ReadArtifact { path: artifact_name(inv.args) }),
                ),
            }
        },
        (StageView::Reading { info }, ReplyView::Artifact(content)) => {
            match content {
                None => finish(inv, Err(OcrError::ArtifactReadFailure)),
                Some(text) => finish(inv, parsed(info, text, inv.args.boxfile)),
            }
        },
        _ => arbitrary(),
    }
}

impl Invocation {
    /// Starts an invocation of the engine at `program` on `image` with the settings `args`.
    pub fn start(program: Option<String>, image: &Image, args: Args) -> (r: (Invocation, Step))
        ensures
            (r.0@, r.1@) == begin(program.deep_view(), image@, args@),
    {
        match program {
            None => (
                Invocation { stage: Stage::Finished, program: String::new(), args },
                Step::Done(Err(OcrError::EngineNotInstalled)),
            ),
            Some(p) => {
                let request = Request::Probe { program: p.clone() };
                (
                    Invocation {
                        stage: Stage::Probing { source: resolve_source(image) },
                        program: p,
                        args,
                    },
                    Step::Ask(request),
                )
            },
        }
    }

    /// Whether `reply` answers what the invocation has asked for.
    pub fn accepts(&self, reply: &Reply) -> (r: bool)
        ensures
            r == expects(self@.stage, reply@),
    {
        match (&self.stage, reply) {
            (Stage::Probing { .. }, Reply::Probed(_)) => true,
            (Stage::Locating { .. }, Reply::WorkingDirectory(_)) => true,
            (Stage::Saving { .. }, Reply::Saved(_)) => true,
            (Stage::Running, Reply::Exited(_)) => true,
            (Stage::Reading { .. }, Reply::Artifact(_)) => true,
            _ => false,
        }
    }

    /// Whether the invocation is done.
    pub fn is_finished(&self) -> (r: bool)
        ensures
            r == (self@.stage is Finished),
    {
        match &self.stage {
            Stage::Finished => true,
            _ => false,
        }
    }

    fn finished(program: String, args: Args, result: Result<ModelOutput, OcrError>) -> (r: (
        Invocation,
        Step,
    ))
        ensures
            r.0@ == (InvocationView { stage: StageView::Finished, program: program@, args: args@ }),
            r.1 == Step::Done(result),
    {
        (Invocation { stage: Stage::Finished, program, args }, Step::Done(result))
    }

    fn running(program: String, args: Args, argument: String) -> (r: (Invocation, Step))
        ensures
            (r.0@, r.1@) == run(
                InvocationView { stage: StageView::Finished, program: program@, args: args@ },
                argument@,
            ),
    {
        let arguments = build_arguments(argument, &args);
        let request = Request::Run { program: program.clone(), arguments };
        (Invocation { stage: Stage::Running, program, args }, Step::Ask(request))
    }

    /// Takes the reply to what the invocation asked for, and gives the
    /// invocation as it stands then, with what it asks for next or its result.
    pub fn advance(self, reply: Reply) -> (r: (Invocation, Step))
        requires
            expects(self@.stage, reply@),
        ensures
            (r.0@, r.1@) == next(self@, reply@),
    {
        let Invocation { stage, program, args } = self;
        match (stage, reply) {
            (Stage::Probing { source }, Reply::Probed(started)) => {
                if !started {
                    Invocation::finished(program, args, Err(OcrError::EngineNotInstalled))
                } else {
                    match source {
                        Source::Missing => Invocation::finished(
                            program,
                            args,
                            Err(OcrError::ImageNotFound),
                        ),
                        Source::Unrecognized => Invocation::finished(
                            program,
                            args,
                            Err(OcrError::ImageFormat),
                        ),
                        Source::File { argument } => Invocation::running(program, args, argument),
                        Source::Pixels { raster } => (
                            Invocation { stage: Stage::Locating { raster }, program, args },
                            Step::Ask(Request::WorkingDirectory),
                        ),
                        Source::Unconvertible => Invocation::running(program, args, String::new()),
                    }
                }
            },
            (Stage::Locating { raster }, Reply::WorkingDirectory(Some(dir))) => {
                let path = materialized_file(dir.as_str());
                let request = Request::SavePng { path: path.clone(), raster };
                (Invocation { stage: Stage::Saving { path }, program, args }, Step::Ask(request))
            },
            (Stage::Locating { .. }, Reply::WorkingDirectory(None)) => Invocation::running(
                program,
                args,
                String::new(),
            ),
            (Stage::Saving { path }, Reply::Saved(ok)) => {
                if ok {
                    Invocation::running(program, args, path)
                } else {
                    Invocation::running(program, args, String::new())
                }
            },
            (Stage::Running, Reply::Exited(result)) => {
                match diagnostic_text(&result) {
                    None => Invocation::finished(
                        program,
                        args,
                        Err(OcrError::DiagnosticDecodeFailure),
                    ),
                    Some(info) => {
                        let request = Request::ReadArtifact { path: artifact_file(&args) };
                        (
                            Invocation { stage: Stage::Reading { info }, program, args },
                            Step::Ask(request),
                        )
                    },
                }
            },
            (Stage::Reading { info }, Reply::Artifact(content)) => {
                match content {
                    None => Invocation::finished(program, args, Err(OcrError::ArtifactReadFailure)),
                    Some(text) => {
                        let boxfile = args.boxfile;
                        let result = parse_output(info, text, boxfile);
                        Invocation::finished(program, args, result)
                    },
                }
            },
            _ => {
                assert(false);
                Invocation::finished(program, args, Err(OcrError::EngineNotInstalled))
            },
        }
    }
}

/// Starts an invocation of the engine that `locator` points at, on `image`
/// with the settings `args`.
pub fn run_tesseract(locator: &TesseractPath, image: &Image, args: &Args) -> (r: (
    Invocation,
    Step,
))
    ensures
        (r.0@, r.1@) == begin(locator@, image@, args@),
{
    Invocation::start(get_tesseract_installed_path(locator), image, args.clone())
}

/// An image without a path and without pixels never gets the engine run:
/// the invocation asks whether the engine starts and is done on the reply,
/// and where the engine does start, it is done for want of an image.
pub proof fn lemma_missing_image_never_runs(
    program: Seq<char>,
    image: ImageView,
    args: ArgsView,
    started: bool,
)
    requires
        image.path.len() == 0,
        !has_elements(image.shape),
    ensures
        begin(Some(program), image, args).1 == StepView::Ask(RequestView::Probe { program }),
        next(begin(Some(program), image, args).0, ReplyView::Probed(started)).0.stage is Finished,
        next(begin(Some(program), image, args).0, ReplyView::Probed(started)).1 is Done,
        started ==> next(begin(Some(program), image, args).0, ReplyView::Probed(true)).1
            == StepView::Done(Err(OcrError::ImageNotFound)),
{
}

/// Pixels without a path are written to exactly one file before the engine
/// runs: once the engine has started and the working directory is known, the
/// invocation asks for the pixels to be saved as `ndarray_converted.png` in
/// that directory, and on the reply it asks for the engine to be run, on that
/// file if it was written.
pub proof fn lemma_pixels_saved_once(
    program: Seq<char>,
    image: ImageView,
    args: ArgsView,
    dir: Seq<char>,
    saved: bool,
)
    requires
        image.path.len() == 0,
        has_elements(image.shape),
        convertible(image),
    ensures
        ({
            let probing = begin(Some(program), image, args).0;
            let (locating, first) = next(probing, ReplyView::Probed(true));
            let (saving, second) = next(locating, ReplyView::WorkingDirectory(Some(dir)));
            let (running, third) = next(saving, ReplyView::Saved(saved));
            &&& first == StepView::Ask(RequestView::WorkingDirectory)
            &&& second == StepView::Ask(
                RequestView::SavePng {
                    path: dir + "/"@ + "ndarray_converted.png"@,
                    raster: raster_of(image),
                },
            )
            &&& third == StepView::Ask(
                RequestView::Run {
                    program,
                    arguments: argument_list(
                        if saved {
                            dir + "/"@ + "ndarray_converted.png"@
                        } else {
                            Seq::empty()
                        },
                        args,
                    ),
                },
            )
            &&& running.stage is Running
        }),
{
}

/// The number of replies that an invocation at `stage` can take at most
/// before it is done.
pub open spec fn remaining(stage: StageView) -> nat {
    match stage {
        StageView::Probing { .. } => 5,
        StageView::Locating { .. } => 4,
        StageView::Saving { .. } => 3,
        StageView::Running => 2,
        StageView::Reading { .. } => 1,
        StageView::Finished => 0,
    }
}

/// Every reply brings an invocation closer to its end; it gives a result
/// exactly when it has reached its end; and it keeps its engine and its
/// settings all the way.
pub proof fn lemma_invocation_progress(inv: InvocationView, reply: ReplyView)
    requires
        expects(inv.stage, reply),
    ensures
        remaining(next(inv, reply).0.stage) < remaining(inv.stage),
        next(inv, reply).1 is Done <==> next(inv, reply).0.stage is Finished,
        next(inv, reply).0.program == inv.program,
        next(inv, reply).0.args == inv.args,
{
}

/// Whenever an invocation asks for the engine to be run, it is the engine of
/// the invocation, and the arguments are those of its settings in their
/// fixed order; only the first argument, which names the image, depends on
/// what went before.
pub proof fn lemma_run_arguments(inv: InvocationView, reply: ReplyView)
    requires
        expects(inv.stage, reply),
        next(inv, reply).1 is Ask,
        next(inv, reply).1->Ask_0 is Run,
    ensures
        next(inv, reply).1->Ask_0->Run_program == inv.program,
        next(inv, reply).1->Ask_0->Run_arguments == argument_list(
            next(inv, reply).1->Ask_0->Run_arguments[0],
            inv.args,
        ),
{
    let arguments = next(inv, reply).1->Ask_0->Run_arguments;
    assert(arguments =~= argument_list(arguments[0], inv.args));
}

/// What an invocation comes to when it stands at `step` and is given
/// `replies` one after another: its result, if the replies answer what it
/// asks for and bring it exactly to its end.
pub open spec fn outcome(inv: InvocationView, step: StepView, replies: Seq<ReplyView>) -> Option<
    Result<OutputView, OcrError>,
>
    decreases replies.len(),
{
    match step {
        StepView::Done(result) => if replies.len() == 0 {
            Some(result)
        } else {
            None
        },
        StepView::Ask(_) => if replies.len() > 0 && expects(inv.stage, replies[0]) {
            outcome(next(inv, replies[0]).0, next(inv, replies[0]).1, replies.drop_first())
        } else {
            None
        },
    }
}

} // verus!
