//! The operations that callers ask for: the text of an image, its character
//! boxes, both together, and the version of the engine.
//!
//! Each operation starts a job. A job runs one invocation after another and
//! is driven like an invocation: the caller carries out what it asks for and
//! hands back the reply, until the job is done. A job that could not even
//! try, because no engine is there or the image is unusable, is done with the
//! empty result and keeps the reason on record; a job whose invocation failed
//! half-way is done with the error.

use vstd::prelude::*;
use vstd::pervasive::arbitrary;
use crate::command::{
    box_pass_args, box_settings, table_pass_args, table_settings, text_pass_args, text_settings,
    version_argument_list, version_arguments,
};
use crate::config::{Args, ArgsView};
use crate::error::OcrError;
use crate::image::{Image, ImageView};
use crate::locator::{get_tesseract_installed_path, TesseractPath};
use crate::output::{empty_output, merge_outputs, merged, ModelOutput, OutputView};
use crate::pipeline::{
    begin, expects, lemma_invocation_progress, next, outcome, remaining, Invocation,
    InvocationView, Reply, ReplyView, Request, RequestView, Step, StepView,
};
use crate::process::{diagnostic_of, diagnostic_text};

verus! {

/// What a job is for.
#[derive(Clone, Copy, Debug, PartialEq, Eq, Structural)]
pub enum JobKind {
    /// The text of the image.
    Text,
    /// The boxes of the characters in the image.
    Boxes,
    /// Text and boxes together.
    Table,
}

/// Which invocation of a job is under way, and what the earlier ones gave.
pub enum Phase {
    /// The only invocation of a text or a box job.
    Single,
    /// The text pass of a table job.
    TableText,
    /// The box pass of a table job, after a text pass that gave `text`.
    TableBoxes { text: ModelOutput },
    /// The last pass of a table job, which asks the engine for a table file
    /// that nothing reads.
    TableLast { text: ModelOutput, boxes: ModelOutput },
}

/// A `Phase` as mathematical values.
pub enum PhaseView {
    Single,
    TableText,
    TableBoxes { text: OutputView },
    TableLast { text: OutputView, boxes: OutputView },
}

impl View for Phase {
    type V = PhaseView;

    open spec fn view(&self) -> PhaseView {
        match self {
            Phase::Single => PhaseView::Single,
            Phase::TableText => PhaseView::TableText,
            Phase::TableBoxes { text } => PhaseView::TableBoxes { text: text@ },
            Phase::TableLast { text, boxes } => PhaseView::TableLast { text: text@, boxes: boxes@ },
        }
    }
}

/// One operation on one image.
pub struct Job {
    phase: Phase,
    current: Invocation,
    program: String,
    image: Image,
    args: Args,
    passed_over: Vec<OcrError>,
}

/// A `Job` as mathematical values.
pub struct JobView {
    pub phase: PhaseView,
    pub current: InvocationView,
    pub program: Seq<char>,
    pub image: ImageView,
    pub args: ArgsView,
    /// The errors in whose place the job went on with the empty result,
    /// oldest first.
    pub passed_over: Seq<OcrError>,
}

impl View for Job {
    type V = JobView;

    closed spec fn view(&self) -> JobView {
        JobView {
            phase: self.phase@,
            current: self.current@,
            program: self.program@,
            image: self.image@,
            args: self.args@,
            passed_over: self.passed_over@,
        }
    }
}

/// What an invocation's outcome means to the caller of a job: an error that
/// was found before the engine ran leaves the empty result, any other error stands.
pub open spec fn settled(result: Result<OutputView, OcrError>) -> Result<OutputView, OcrError> {
    match result {
        Ok(output) => Ok(output),
        Err(e) => if e.fatal() {
            Err(e)
        } else {
            Ok(empty_output())
        },
    }
}

/// The job `job` after its invocation under way has come to `result`: an
/// error in whose place the empty result is taken is kept on record.
pub open spec fn noting(job: JobView, result: Result<OutputView, OcrError>) -> JobView {
    match result {
        Ok(_) => job,
        Err(e) => if e.fatal() {
            job
        } else {
            JobView { passed_over: job.passed_over.push(e), ..job }
        },
    }
}

/// The settings of the first invocation of a job: text mode for a text job
/// and for a table job, box mode for a box job.
pub open spec fn first_settings(kind: JobKind, args: ArgsView) -> ArgsView {
    match kind {
        JobKind::Text => text_settings(args),
        JobKind::Boxes => box_settings(args),
        JobKind::Table => text_settings(args),
    }
}

/// The phase in which a job starts.
pub open spec fn first_phase(kind: JobKind) -> PhaseView {
    match kind {
        JobKind::Text => PhaseView::Single,
        JobKind::Boxes => PhaseView::Single,
        JobKind::Table => PhaseView::TableText,
    }
}

/// How a job starts. Without a location for the engine it is done at once,
/// with the empty result, and keeps on record that no engine is installed.
pub open spec fn job_begin(
    kind: JobKind,
    program: Option<Seq<char>>,
    image: ImageView,
    args: ArgsView,
) -> (JobView, StepView) {
    match program {
        None => (
            JobView {
                phase: PhaseView::Single,
                current: begin(None, image, args).0,
                program: Seq::empty(),
                image,
                args,
                passed_over: seq![OcrError::EngineNotInstalled],
            },
            StepView::Done(Ok(empty_output())),
        ),
        Some(p) => (
            JobView {
                phase: first_phase(kind),
                current: begin(Some(p), image, first_settings(kind, args)).0,
                program: p,
                image,
                args,
                passed_over: Seq::empty(),
            },
            begin(Some(p), image, first_settings(kind, args)).1,
        ),
    }
}

/// The job `job` going on with a new invocation, in `phase`, with `settings`.
pub open spec fn next_pass(job: JobView, phase: PhaseView, settings: ArgsView) -> (
    JobView,
    StepView,
) {
    (
        JobView { phase, current: begin(Some(job.program), job.image, settings).0, ..job },
        begin(Some(job.program), job.image, settings).1,
    )
}

/// How a job goes on after a reply to what it asked for. The reply goes to
/// the invocation under way. When that invocation is done, an error that
/// stands ends the job; any other error is kept on record and the empty
/// result is taken in its place. Then a text or a box job is done with what
/// the invocation gave, and a table job goes on with its next pass: text,
/// then boxes, then the pass for the table file. After the last pass a table
/// job is done with the text of its text pass and the boxes of its box pass.
pub open spec fn job_next(job: JobView, reply: ReplyView) -> (JobView, StepView) {
    let (inv, step) = next(job.current, reply);
    match step {
        StepView::Ask(request) => (JobView { current: inv, ..job }, StepView::Ask(request)),
        StepView::Done(result) => match settled(result) {
            Err(e) => (JobView { current: inv, ..job }, StepView::Done(Err(e))),
            Ok(output) => match job.phase {
                PhaseView::Single => (
                    JobView { current: inv, ..noting(job, result) },
                    StepView::Done(Ok(output)),
                ),
                PhaseView::TableText => next_pass(
                    noting(job, result),
                    PhaseView::TableBoxes { text: output },
                    box_settings(job.args),
                ),
                PhaseView::TableBoxes { text } => next_pass(
                    noting(job, result),
                    PhaseView::TableLast { text, boxes: output },
                    table_settings(job.args),
                ),
                PhaseView::TableLast { text, boxes } => (
                    JobView { phase: PhaseView::Single, current: inv, ..noting(job, result) },
                    StepView::Done(Ok(merged(text, boxes))),
                ),
            },
        },
    }
}

impl Job {
    /// Starts a job of `kind` on `image` with the engine at `program`.
    pub fn start(kind: JobKind, program: Option<String>, image: Image, args: Args) -> (r: (
        Job,
        Step,
    ))
        ensures
            (r.0@, r.1@) == job_begin(kind, program.deep_view(), image@, args@),
    {
        match program {
            None => {
                let (current, _) = Invocation::start(None, &image, args.clone());
                let mut passed_over: Vec<OcrError> = Vec::new();
                passed_over.push(OcrError::EngineNotInstalled);
                (
                    Job {
                        phase: Phase::Single,
                        current,
                        program: String::new(),
                        image,
                        args,
                        passed_over,
                    },
                    Step::Done(Ok(ModelOutput::new())),
                )
            },
            Some(p) => {
                let (phase, settings) = match kind {
                    JobKind::Text => (Phase::Single, text_pass_args(&args)),
                    JobKind::Boxes => (Phase::Single, box_pass_args(&args)),
                    JobKind::Table => (Phase::TableText, text_pass_args(&args)),
                };
                let (current, step) = Invocation::start(Some(p.clone()), &image, settings);
                (Job { phase, current, program: p, image, args, passed_over: Vec::new() }, step)
            },
        }
    }

    /// Whether `reply` answers what the job has asked for.
    pub fn accepts(&self, reply: &Reply) -> (r: bool)
        ensures
            r == expects(self@.current.stage, reply@),
    {
        self.current.accepts(reply)
    }

    /// The errors in whose place the job went on with the empty result,
    /// oldest first: the engine that is not installed, the image that is not
    /// there, the format that is not known.
    pub fn passed_over(&self) -> (r: &Vec<OcrError>)
        ensures
            r@ == self@.passed_over,
    {
        &self.passed_over
    }

    /// Takes the reply to what the job asked for, and gives the job as it
    /// stands then, with what it asks for next or its result.
    pub fn advance(self, reply: Reply) -> (r: (Job, Step))
        requires
            expects(self@.current.stage, reply@),
        ensures
            (r.0@, r.1@) == job_next(self@, reply@),
    {
        let Job { phase, current, program, image, args, passed_over } = self;
        let mut passed_over = passed_over;
        let (current, step) = current.advance(reply);
        match step {
            Step::Ask(request) => (
                Job { phase, current, program, image, args, passed_over },
                Step::Ask(request),
            ),
            Step::Done(result) => {
                let output = match result {
                    Ok(output) => output,
                    Err(e) => {
                        if e.is_fatal() {
                            return (
                                Job { phase, current, program, image, args, passed_over },
                                Step::Done(Err(e)),
                            );
                        }
                        passed_over.push(e);
                        ModelOutput::new()
                    },
                };
                match phase {
                    Phase::Single => (
                        Job { phase: Phase::Single, current, program, image, args, passed_over },
                        Step::Done(Ok(output)),
                    ),
                    Phase::TableText => {
                        let (current, step) = Invocation::start(
                            Some(program.clone()),
                            &image,
                            box_pass_args(&args),
                        );
                        (
                            Job {
                                phase: Phase::TableBoxes { text: output },
                                current,
                                program,
                                image,
                                args,
                                passed_over,
                            },
                            step,
                        )
                    },
                    Phase::TableBoxes { text } => {
                        let (current, step) = Invocation::start(
                            Some(program.clone()),
                            &image,
                            table_pass_args(&args),
                        );
                        (
                            Job {
                                phase: Phase::TableLast { text, boxes: output },
                                current,
                                program,
                                image,
                                args,
                                passed_over,
                            },
                            step,
                        )
                    },
                    Phase::TableLast { text, boxes } => {
                        let joined = merge_outputs(text, boxes);
                        (
                            Job { phase: Phase::Single, current, program, image, args, passed_over },
                            Step::Done(Ok(joined)),
                        )
                    },
                }
            },
        }
    }
}

/// Starts a job for the text of `image`, with the engine that `locator` points at.
pub fn image_to_string(locator: &TesseractPath, image: &Image, args: Args) -> (r: (Job, Step))
    ensures
        (r.0@, r.1@) == job_begin(JobKind::Text, locator@, image@, args@),
{
    Job::start(JobKind::Text, get_tesseract_installed_path(locator), image.clone(), args)
}

/// Starts a job for the character boxes of `image`, with the engine that
/// `locator` points at.
pub fn image_to_boxes(locator: &TesseractPath, image: &Image, args: Args) -> (r: (Job, Step))
    ensures
        (r.0@, r.1@) == job_begin(JobKind::Boxes, locator@, image@, args@),
{
    Job::start(JobKind::Boxes, get_tesseract_installed_path(locator), image.clone(), args)
}

/// Starts a job for the text and the character boxes of `image`, with the
/// engine that `locator` points at.
pub fn image_to_data(locator: &TesseractPath, image: &Image, args: Args) -> (r: (Job, Step))
    ensures
        (r.0@, r.1@) == job_begin(JobKind::Table, locator@, image@, args@),
{
    Job::start(JobKind::Table, get_tesseract_installed_path(locator), image.clone(), args)
}

/// The number of invocations that a job in `phase` still has before it.
pub open spec fn passes_after(phase: PhaseView) -> nat {
    match phase {
        PhaseView::Single => 0,
        PhaseView::TableText => 2,
        PhaseView::TableBoxes { .. } => 1,
        PhaseView::TableLast { .. } => 0,
    }
}

/// The number of replies that a job can take at most before it is done.
pub open spec fn job_remaining(job: JobView) -> nat {
    6 * passes_after(job.phase) + remaining(job.current.stage)
}

/// Every reply brings a job closer to its end: a text or a box job is done
/// after five replies at most, a table job after fifteen. A job that is done
/// waits for no reply. On its way a job keeps its engine, its image and its
/// settings, and its record of errors only grows.
pub proof fn lemma_job_progress(job: JobView, reply: ReplyView)
    requires
        expects(job.current.stage, reply),
    ensures
        job_remaining(job_next(job, reply).0) < job_remaining(job),
        job_next(job, reply).1 is Done ==> job_next(job, reply).0.current.stage is Finished,
        job_next(job, reply).0.program == job.program,
        job_next(job, reply).0.image == job.image,
        job_next(job, reply).0.args == job.args,
        job.passed_over.is_prefix_of(job_next(job, reply).0.passed_over),
{
    lemma_invocation_progress(job.current, reply);
}

/// A job puts on record exactly the errors in whose place it takes the empty
/// result: when the invocation under way ends with an error that does not
/// stand, that error is added, and nothing is added otherwise.
pub proof fn lemma_job_record(job: JobView, reply: ReplyView)
    requires
        expects(job.current.stage, reply),
    ensures
        job_next(job, reply).0.passed_over == match next(job.current, reply).1 {
            StepView::Ask(_) => job.passed_over,
            StepView::Done(result) => noting(job, result).passed_over,
        },
{
}

/// What a job comes to when it stands at `step` and is given `replies` one
/// after another: its result, if the replies answer what it asks for and
/// bring it exactly to its end.
pub open spec fn job_outcome(job: JobView, step: StepView, replies: Seq<ReplyView>) -> Option<
    Result<OutputView, OcrError>,
>
    decreases replies.len(),
{
    match step {
        StepView::Done(result) => if replies.len() == 0 {
            Some(result)
        } else {
            None
        },
        StepView::Ask(_) => if replies.len() > 0 && expects(job.current.stage, replies[0]) {
            job_outcome(
                job_next(job, replies[0]).0,
                job_next(job, replies[0]).1,
                replies.drop_first(),
            )
        } else {
            None
        },
    }
}

/// What a job comes to once its invocation under way has come to `result`
/// and `rest` are the replies after that.
pub open spec fn after_pass(
    job: JobView,
    result: Result<OutputView, OcrError>,
    rest: Seq<ReplyView>,
) -> Option<Result<OutputView, OcrError>> {
    match settled(result) {
        Err(e) => if rest.len() == 0 {
            Some(Err(e))
        } else {
            None
        },
        Ok(output) => match job.phase {
            PhaseView::Single => if rest.len() == 0 {
                Some(Ok(output))
            } else {
                None
            },
            PhaseView::TableText => job_outcome(
                next_pass(
                    noting(job, result),
                    PhaseView::TableBoxes { text: output },
                    box_settings(job.args),
                ).0,
                next_pass(
                    noting(job, result),
                    PhaseView::TableBoxes { text: output },
                    box_settings(job.args),
                ).1,
                rest,
            ),
            PhaseView::TableBoxes { text } => job_outcome(
                next_pass(
                    noting(job, result),
                    PhaseView::TableLast { text, boxes: output },
                    table_settings(job.args),
                ).0,
                next_pass(
                    noting(job, result),
                    PhaseView::TableLast { text, boxes: output },
                    table_settings(job.args),
                ).1,
                rest,
            ),
            PhaseView::TableLast { text, boxes } => if rest.len() == 0 {
                Some(Ok(merged(text, boxes)))
            } else {
                None
            },
        },
    }
}

/// A job follows its invocation under way: the replies that bring the
/// invocation to its result bring the job to the point after that pass.
pub proof fn lemma_pass(
    job: JobView,
    step: StepView,
    pass: Seq<ReplyView>,
    rest: Seq<ReplyView>,
    result: Result<OutputView, OcrError>,
)
    requires
        step is Ask,
        outcome(job.current, step, pass) == Some(result),
    ensures
        job_outcome(job, step, pass + rest) == after_pass(job, result, rest),
    decreases pass.len(),
{
    if pass.len() > 0 {
        let reply = pass[0];
        let all = pass + rest;
        assert(all[0] == reply);
        assert(all.drop_first() == pass.drop_first() + rest);
        assert(expects(job.current.stage, reply));
        let (inv, inner) = next(job.current, reply);
        let (after, outer) = job_next(job, reply);
        assert(outcome(job.current, step, pass) == outcome(inv, inner, pass.drop_first()));
        assert(job_outcome(job, step, all) == job_outcome(after, outer, all.drop_first()));
        match inner {
            StepView::Ask(_) => {
                assert(outer == inner);
                assert(after == JobView { current: inv, ..job });
                lemma_pass(after, inner, pass.drop_first(), rest, result);
                assert(after_pass(after, result, rest) == after_pass(job, result, rest));
            },
            StepView::Done(r) => {
                assert(pass.drop_first().len() == 0);
                assert(r == result);
                assert(pass.drop_first() + rest == rest);
                assert(job_outcome(job, step, all) == job_outcome(after, outer, rest));
                match settled(result) {
                    Err(e) => {
                        assert(outer == StepView::Done(Err(e)));
                    },
                    Ok(output) => {
                        match job.phase {
                            PhaseView::Single => {
                                assert(outer == StepView::Done(Ok(output)));
                            },
                            PhaseView::TableText => {},
                            PhaseView::TableBoxes { text } => {},
                            PhaseView::TableLast { text, boxes } => {
                                assert(outer == StepView::Done(Ok(merged(text, boxes))));
                            },
                        }
                    },
                }
            },
        }
    }
}

/// A text or a box job comes to what its one invocation comes to, settled.
pub proof fn lemma_single_pass(job: JobView, step: StepView, replies: Seq<ReplyView>)
    requires
        job.phase is Single,
        step is Ask,
    ensures
        job_outcome(job, step, replies) == match outcome(job.current, step, replies) {
            Some(result) => Some(settled(result)),
            None => None,
        },
    decreases replies.len(),
{
    if replies.len() > 0 && expects(job.current.stage, replies[0]) {
        let reply = replies[0];
        let rest = replies.drop_first();
        let (inv, inner) = next(job.current, reply);
        let (after, outer) = job_next(job, reply);
        assert(outcome(job.current, step, replies) == outcome(inv, inner, rest));
        assert(job_outcome(job, step, replies) == job_outcome(after, outer, rest));
        match inner {
            StepView::Ask(_) => {
                assert(outer == inner);
                assert(after == JobView { current: inv, ..job });
                lemma_single_pass(after, inner, rest);
            },
            StepView::Done(r) => {
                assert(outer == StepView::Done(settled(r)));
            },
        }
    }
}

/// A table job joins a text job and a box job. Take the replies that bring
/// a text job on an image to the result `text`, the replies that bring a box
/// job on the same image to the result `boxes`, and replies that bring the
/// pass for the table file to an end without an error that stands. Given
/// these replies one after another, a table job on that image comes to the
/// text of `text` with the dictionary and the columns of `boxes`.
pub proof fn lemma_table_joins_text_and_boxes(
    program: Seq<char>,
    image: ImageView,
    args: ArgsView,
    text_replies: Seq<ReplyView>,
    box_replies: Seq<ReplyView>,
    last_replies: Seq<ReplyView>,
    text: OutputView,
    boxes: OutputView,
)
    requires
        job_outcome(
            job_begin(JobKind::Text, Some(program), image, args).0,
            job_begin(JobKind::Text, Some(program), image, args).1,
            text_replies,
        ) == Some(Ok::<OutputView, OcrError>(text)),
        job_outcome(
            job_begin(JobKind::Boxes, Some(program), image, args).0,
            job_begin(JobKind::Boxes, Some(program), image, args).1,
            box_replies,
        ) == Some(Ok::<OutputView, OcrError>(boxes)),
        outcome(
            begin(Some(program), image, table_settings(args)).0,
            begin(Some(program), image, table_settings(args)).1,
            last_replies,
        ) is Some,
        settled(
            outcome(
                begin(Some(program), image, table_settings(args)).0,
                begin(Some(program), image, table_settings(args)).1,
                last_replies,
            )->0,
        ) is Ok,
    ensures
        job_outcome(
            job_begin(JobKind::Table, Some(program), image, args).0,
            job_begin(JobKind::Table, Some(program), image, args).1,
            text_replies + box_replies + last_replies,
        ) == Some(Ok::<OutputView, OcrError>(merged(text, boxes))),
        merged(text, boxes).text == text.text,
        merged(text, boxes).dict == boxes.dict,
        merged(text, boxes).columns == boxes.columns,
{
    let (text_job, first) = job_begin(JobKind::Text, Some(program), image, args);
    let (box_job, second) = job_begin(JobKind::Boxes, Some(program), image, args);
    let (table_job, start) = job_begin(JobKind::Table, Some(program), image, args);
    lemma_single_pass(text_job, first, text_replies);
    lemma_single_pass(box_job, second, box_replies);
    let text_result = outcome(text_job.current, first, text_replies)->0;
    let box_result = outcome(box_job.current, second, box_replies)->0;
    let last_result = outcome(
        begin(Some(program), image, table_settings(args)).0,
        begin(Some(program), image, table_settings(args)).1,
        last_replies,
    )->0;
    assert(text_replies + box_replies + last_replies == text_replies + (box_replies
        + last_replies));
    lemma_pass(table_job, start, text_replies, box_replies + last_replies, text_result);
    let (second_job, second_step) = next_pass(
        noting(table_job, text_result),
        PhaseView::TableBoxes { text },
        box_settings(args),
    );
    lemma_pass(second_job, second_step, box_replies, last_replies, box_result);
    let (third_job, third_step) = next_pass(
        noting(second_job, box_result),
        PhaseView::TableLast { text, boxes },
        table_settings(args),
    );
    lemma_pass(third_job, third_step, last_replies, Seq::empty(), last_result);
    assert(last_replies + Seq::<ReplyView>::empty() == last_replies);
}

/// What has to be asked to learn whether the engine is installed. With no
/// location set there is nothing to ask: the engine is not installed.
/// Otherwise the engine is installed if it can be started at its location.
pub fn check_if_installed(locator: &TesseractPath) -> (r: Option<Request>)
    ensures
        match r {
            Some(request) => locator@ is Some && request@ == (RequestView::Probe {
                program: locator@->0,
            }),
            None => locator@ is None,
        },
{
    match get_tesseract_installed_path(locator) {
        Some(program) => Some(Request::Probe { program }),
        None => None,
    }
}

/// How far a query for the engine's version has come.
#[derive(Clone, Copy, Debug, PartialEq, Eq, Structural)]
pub enum VersionStage {
    /// Asked whether the engine starts.
    Probing,
    /// Asked to run the engine for its version.
    Running,
    /// Done.
    Finished,
}

/// A query for the version of the engine.
pub struct VersionQuery {
    stage: VersionStage,
    program: String,
}

/// A `VersionQuery` as mathematical values.
pub struct VersionQueryView {
    pub stage: VersionStage,
    pub program: Seq<char>,
}

impl View for VersionQuery {
    type V = VersionQueryView;

    closed spec fn view(&self) -> VersionQueryView {
        VersionQueryView { stage: self.stage, program: self.program@ }
    }
}

/// Where a version query stands after a reply: it asks for the next thing,
/// or it is done, with the text that the engine printed.
pub enum VersionStep {
    Ask(Request),
    Done(Result<String, OcrError>),
}

/// A `VersionStep` as mathematical values.
pub enum VersionStepView {
    Ask(RequestView),
    Done(Result<Seq<char>, OcrError>),
}

impl View for VersionStep {
    type V = VersionStepView;

    open spec fn view(&self) -> VersionStepView {
        match self {
            VersionStep::Ask(request) => VersionStepView::Ask(request@),
            VersionStep::Done(Ok(text)) => VersionStepView::Done(Ok(text@)),
            VersionStep::Done(Err(e)) => VersionStepView::Done(Err(*e)),
        }
    }
}

/// How a version query starts. Without a location for the engine it is done
/// at once, with the empty text.
pub open spec fn version_begin(program: Option<Seq<char>>) -> (VersionQueryView, VersionStepView) {
    match program {
        None => (
            VersionQueryView { stage: VersionStage::Finished, program: Seq::empty() },
            VersionStepView::Done(Ok(Seq::empty())),
        ),
        Some(p) => (
            VersionQueryView { stage: VersionStage::Probing, program: p },
            VersionStepView::Ask(RequestView::Probe { program: p }),
        ),
    }
}

/// The reply answers what a version query at `stage` has asked for.
pub open spec fn version_expects(stage: VersionStage, reply: ReplyView) -> bool {
    match stage {
        VersionStage::Probing => reply is Probed,
        VersionStage::Running => reply is Exited,
        VersionStage::Finished => false,
    }
}

/// How a version query goes on after a reply to what it asked for. An engine
/// that does not start leaves the empty text. One that starts is run with
/// `--version`, and what it prints is the answer.
pub open spec fn version_next(query: VersionQueryView, reply: ReplyView) -> (
    VersionQueryView,
    VersionStepView,
) {
    match (query.stage, reply) {
        (VersionStage::Probing, ReplyView::Probed(started)) => {
            if started {
                (
                    VersionQueryView { stage: VersionStage::Running, ..query },
                    VersionStepView::Ask(
                        RequestView::Run {
                            program: query.program,
                            arguments: version_argument_list(),
                        },
                    ),
                )
            } else {
                (
                    VersionQueryView { stage: VersionStage::Finished, ..query },
                    VersionStepView::Done(Ok(Seq::empty())),
                )
            }
        },
        (VersionStage::Running, ReplyView::Exited { stdout, stderr }) => (
            VersionQueryView { stage: VersionStage::Finished, ..query },
            match diagnostic_of(stdout, stderr) {
                Some(text) => VersionStepView::Done(Ok(text)),
                None => VersionStepView::Done(Err(OcrError::DiagnosticDecodeFailure)),
            },
        ),
        _ => arbitrary(),
    }
}

impl VersionQuery {
    /// Whether `reply` answers what the query has asked for.
    pub fn accepts(&self, reply: &Reply) -> (r: bool)
        ensures
            r == version_expects(self@.stage, reply@),
    {
        match (self.stage, reply) {
            (VersionStage::Probing, Reply::Probed(_)) => true,
            (VersionStage::Running, Reply::Exited(_)) => true,
            _ => false,
        }
    }

    /// Takes the reply to what the query asked for, and gives the query as
    /// it stands then, with what it asks for next or its answer.
    pub fn advance(self, reply: Reply) -> (r: (VersionQuery, VersionStep))
        requires
            version_expects(self@.stage, reply@),
        ensures
            (r.0@, r.1@) == version_next(self@, reply@),
    {
        let VersionQuery { stage, program } = self;
        match (stage, reply) {
            (VersionStage::Probing, Reply::Probed(started)) => {
                if started {
                    let request = Request::Run {
                        program: program.clone(),
                        arguments: version_arguments(),
                    };
                    (VersionQuery { stage: VersionStage::Running, program }, VersionStep::Ask(request))
                } else {
                    (
                        VersionQuery { stage: VersionStage::Finished, program },
                        VersionStep::Done(Ok(String::new())),
                    )
                }
            },
            (VersionStage::Running, Reply::Exited(result)) => {
                let step = match diagnostic_text(&result) {
                    Some(text) => VersionStep::Done(Ok(text)),
                    None => VersionStep::Done(Err(OcrError::DiagnosticDecodeFailure)),
                };
                (VersionQuery { stage: VersionStage::Finished, program }, step)
            },
            _ => {
                assert(false);
                (VersionQuery { stage, program }, VersionStep::Done(Ok(String::new())))
            },
        }
    }
}

/// Starts a query for the version of the engine that `locator` points at.
pub fn get_tesseract_version(locator: &TesseractPath) -> (r: (VersionQuery, VersionStep))
    ensures
        (r.0@, r.1@) == version_begin(locator@),
{
    match get_tesseract_installed_path(locator) {
        None => (
            VersionQuery { stage: VersionStage::Finished, program: String::new() },
            VersionStep::Done(Ok(String::new())),
        ),
        Some(p) => {
            let request = Request::Probe { program: p.clone() };
            (VersionQuery { stage: VersionStage::Probing, program: p }, VersionStep::Ask(request))
        },
    }
}

} // verus!
