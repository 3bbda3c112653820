//! The compression queue as decisions: whether a queue may start, and, for
//! each file, what follows each FFmpeg run (the output pass after the analysis
//! pass, a size-correcting rerun, or the file's final outcome). The caller runs
//! FFmpeg, reads the output's size and the cancel flag, and hands them over.
use vstd::prelude::*;
use crate::args::owned;
use crate::budget::{corrected_bitrate, corrected_video_bitrate};
use crate::encode::{check_output_format, format_error};
use crate::events::FileResult;
use crate::text::{append_str, push_signed, signed_decimal, string_of};

verus! {

// ── Starting a queue ─────────────────────────────────────────────────────────

/// Why a queue cannot start, checked in this order: FFmpeg missing, FFprobe
/// missing, another queue running, then the output format.
pub open spec fn queue_error(
    ffmpeg_found: bool,
    ffprobe_found: bool,
    running: bool,
    container: Seq<char>,
    codec: Seq<char>,
) -> Option<Seq<char>> {
    if !ffmpeg_found {
        Some("FFmpeg not found — please install it first."@)
    } else if !ffprobe_found {
        Some("FFprobe not found — please install it first."@)
    } else if running {
        Some("A compression queue is already running"@)
    } else {
        format_error(container, codec)
    }
}

/// Whether a compression queue may start (see `queue_error`).
pub fn start_queue(ffmpeg_found: bool, ffprobe_found: bool, running: bool, container: &str, codec: &str) -> (r:
    Result<(), String>)
    ensures
        r is Ok <==> queue_error(ffmpeg_found, ffprobe_found, running, container@, codec@) is None,
        r matches Err(e) ==> queue_error(ffmpeg_found, ffprobe_found, running, container@, codec@) == Some(e@),
{
    if !ffmpeg_found {
        return Err(owned("FFmpeg not found — please install it first."));
    }
    if !ffprobe_found {
        return Err(owned("FFprobe not found — please install it first."));
    }
    if running {
        return Err(owned("A compression queue is already running"));
    }
    check_output_format(container, codec)
}

// ── Per-file steps ───────────────────────────────────────────────────────────

/// How an FFmpeg run ended: it exited (successfully or with an exit code, when
/// the platform reports one), or it could not be run at all.
pub enum RunResult {
    Exited { success: bool, code: Option<i32> },
    LaunchFailed(String),
}

/// Which run just ended: the first pass of a two-pass encode, the output
/// encode, or the size correction with the given number (1 or 2).
#[derive(PartialEq, Eq, Structural, Clone, Copy, Debug)]
pub enum EncodeStage {
    Analysis,
    Output,
    Correction(u8),
}

/// How a file ends. `CorrectionFailed` is a size-correcting rerun that could
/// not be run; `OverLimit` an output still larger than the hard limit.
pub enum FileOutcome {
    Cancelled,
    Failed(String),
    CorrectionFailed(String),
    OverLimit { produced_bytes: u64 },
    Completed { output_bytes: u64 },
}

/// What to do next with a file: run the output pass, rerun the output encode
/// at a corrected bitrate, or report its outcome.
pub enum FileStep {
    RunOutput,
    Retry { attempt: u8, bitrate: i64 },
    Finish(FileOutcome),
}

pub enum OutcomeView {
    Cancelled,
    Failed(Seq<char>),
    CorrectionFailed(Seq<char>),
    OverLimit { produced_bytes: u64 },
    Completed { output_bytes: u64 },
}

pub enum StepView {
    RunOutput,
    Retry { attempt: int, bitrate: int },
    Finish(OutcomeView),
}

impl View for FileOutcome {
    type V = OutcomeView;

    open spec fn view(&self) -> OutcomeView {
        match self {
            FileOutcome::Cancelled => OutcomeView::Cancelled,
            FileOutcome::Failed(m) => OutcomeView::Failed(m@),
            FileOutcome::CorrectionFailed(m) => OutcomeView::CorrectionFailed(m@),
            FileOutcome::OverLimit { produced_bytes } => OutcomeView::OverLimit { produced_bytes: *produced_bytes },
            FileOutcome::Completed { output_bytes } => OutcomeView::Completed { output_bytes: *output_bytes },
        }
    }
}

impl View for FileStep {
    type V = StepView;

    open spec fn view(&self) -> StepView {
        match self {
            FileStep::RunOutput => StepView::RunOutput,
            FileStep::Retry { attempt, bitrate } => StepView::Retry { attempt: *attempt as int, bitrate: *bitrate as int },
            FileStep::Finish(o) => StepView::Finish(o@),
        }
    }
}

/// An exit code as reported, `-1` when the platform gives none.
pub open spec fn code_text(code: Option<i32>) -> Seq<char> {
    signed_decimal(
        match code {
            Some(c) => c as int,
            None => -1,
        },
    )
}

pub open spec fn exit_message(code: Option<i32>) -> Seq<char> {
    "FFmpeg exited with code "@ + code_text(code)
}

pub open spec fn analysis_exit_message(code: Option<i32>) -> Seq<char> {
    "FFmpeg analysis pass exited with code "@ + code_text(code)
}

/// A file's outcome once no further run follows: cancellation first, then a
/// failed exit, then the hard limit of a fixed-size encode.
pub open spec fn settled(success: bool, code: Option<i32>, cancelled: bool, fixed: bool, limit: u64, output: u64) -> OutcomeView {
    if cancelled {
        OutcomeView::Cancelled
    } else if !success {
        OutcomeView::Failed(exit_message(code))
    } else if fixed && output > limit {
        OutcomeView::OverLimit { produced_bytes: output }
    } else {
        OutcomeView::Completed { output_bytes: output }
    }
}

/// After an output encode (or its rerun) exited, with `done` corrections made
/// so far: a fixed-size output over its limit is encoded again at the
/// corrected bitrate, at most twice; otherwise the file is settled.
pub open spec fn after_exit(
    done: int,
    success: bool,
    code: Option<i32>,
    cancelled: bool,
    fixed: bool,
    bitrate: i64,
    limit: u64,
    output: u64,
) -> StepView {
    if success && fixed && done < 2 && output > limit && !cancelled {
        StepView::Retry { attempt: done + 1, bitrate: corrected_bitrate(bitrate as int, limit as int, output as int) }
    } else {
        StepView::Finish(settled(success, code, cancelled, fixed, limit, output))
    }
}

/// The step after the run of `stage` ended with `run`. `cancelled` is the
/// file's cancel flag after the run, `bitrate` the average bitrate of that run,
/// `limit` the hard size limit and `output` the size of the output file.
pub open spec fn file_step(
    stage: EncodeStage,
    run: RunResult,
    cancelled: bool,
    fixed: bool,
    bitrate: i64,
    limit: u64,
    output: u64,
) -> StepView {
    match stage {
        EncodeStage::Analysis => {
            if cancelled {
                StepView::Finish(OutcomeView::Cancelled)
            } else {
                match run {
                    RunResult::Exited { success, code } => {
                        if success {
                            StepView::RunOutput
                        } else {
                            StepView::Finish(OutcomeView::Failed(analysis_exit_message(code)))
                        }
                    },
                    RunResult::LaunchFailed(m) => StepView::Finish(OutcomeView::Failed(m@)),
                }
            }
        },
        EncodeStage::Output => match run {
            RunResult::Exited { success, code } => after_exit(0, success, code, cancelled, fixed, bitrate, limit, output),
            RunResult::LaunchFailed(m) => StepView::Finish(OutcomeView::Failed(m@)),
        },
        EncodeStage::Correction(k) => match run {
            RunResult::Exited { success, code } => after_exit(k as int, success, code, cancelled, fixed, bitrate, limit, output),
            RunResult::LaunchFailed(m) => {
                if cancelled {
                    StepView::Finish(OutcomeView::Cancelled)
                } else {
                    StepView::Finish(OutcomeView::CorrectionFailed(m@))
                }
            },
        },
    }
}

fn code_message(prefix: &str, code: Option<i32>) -> (r: String)
    ensures
        r@ == prefix@ + code_text(code),
{
    let n: i64 = match code {
        Some(c) => c as i64,
        None => -1,
    };
    let mut v: Vec<char> = Vec::new();
    append_str(&mut v, prefix);
    push_signed(&mut v, n);
    string_of(v.as_slice())
}

fn settle(success: bool, code: Option<i32>, cancelled: bool, fixed: bool, limit: u64, output: u64) -> (r: FileOutcome)
    ensures
        r@ == settled(success, code, cancelled, fixed, limit, output),
{
    if cancelled {
        FileOutcome::Cancelled
    } else if !success {
        FileOutcome::Failed(code_message("FFmpeg exited with code ", code))
    } else if fixed && output > limit {
        FileOutcome::OverLimit { produced_bytes: output }
    } else {
        FileOutcome::Completed { output_bytes: output }
    }
}

fn step_after_exit(
    done: u8,
    success: bool,
    code: Option<i32>,
    cancelled: bool,
    fixed: bool,
    bitrate: i64,
    limit: u64,
    output: u64,
) -> (r: FileStep)
    ensures
        r@ == after_exit(done as int, success, code, cancelled, fixed, bitrate, limit, output),
{
    if success && fixed && done < 2 && output > limit && !cancelled {
        let corrected = corrected_video_bitrate(bitrate, limit, output);
        FileStep::Retry { attempt: done + 1, bitrate: corrected }
    } else {
        FileStep::Finish(settle(success, code, cancelled, fixed, limit, output))
    }
}

/// The next step for a file after the run of `stage` (see `file_step`).
pub fn next_file_step(
    stage: EncodeStage,
    run: RunResult,
    cancelled: bool,
    fixed: bool,
    bitrate: i64,
    limit_bytes: u64,
    output_bytes: u64,
) -> (r: FileStep)
    ensures
        r@ == file_step(stage, run, cancelled, fixed, bitrate, limit_bytes, output_bytes),
{
    match stage {
        EncodeStage::Analysis => {
            if cancelled {
                FileStep::Finish(FileOutcome::Cancelled)
            } else {
                match run {
                    RunResult::Exited { success, code } => {
                        if success {
                            FileStep::RunOutput
                        } else {
                            FileStep::Finish(
                                FileOutcome::Failed(code_message("FFmpeg analysis pass exited with code ", code)),
                            )
                        }
                    },
                    RunResult::LaunchFailed(m) => FileStep::Finish(FileOutcome::Failed(m)),
                }
            }
        },
        EncodeStage::Output => match run {
            RunResult::Exited { success, code } => step_after_exit(
                0,
                success,
                code,
                cancelled,
                fixed,
                bitrate,
                limit_bytes,
                output_bytes,
            ),
            RunResult::LaunchFailed(m) => FileStep::Finish(FileOutcome::Failed(m)),
        },
        EncodeStage::Correction(k) => match run {
            RunResult::Exited { success, code } => step_after_exit(
                k,
                success,
                code,
                cancelled,
                fixed,
                bitrate,
                limit_bytes,
                output_bytes,
            ),
            RunResult::LaunchFailed(m) => {
                if cancelled {
                    FileStep::Finish(FileOutcome::Cancelled)
                } else {
                    FileStep::Finish(FileOutcome::CorrectionFailed(m))
                }
            },
        },
    }
}

/// What happens to a file before its first run: a folder that could not be
/// created fails it, then a cancellation cancels it; otherwise it goes on.
pub open spec fn start_outcome(folder_error: Option<String>, cancelled: bool) -> Option<OutcomeView> {
    match folder_error {
        Some(e) => Some(OutcomeView::Failed("Unable to create output folder: "@ + e@)),
        None => {
            if cancelled {
                Some(OutcomeView::Cancelled)
            } else {
                None
            }
        },
    }
}

pub fn file_start(folder_error: Option<String>, cancelled: bool) -> (r: Option<FileOutcome>)
    ensures
        match r {
            Some(o) => start_outcome(folder_error, cancelled) == Some(o@),
            None => start_outcome(folder_error, cancelled) is None,
        },
{
    match folder_error {
        Some(e) => {
            let mut v: Vec<char> = Vec::new();
            append_str(&mut v, "Unable to create output folder: ");
            append_str(&mut v, e.as_str());
            Some(FileOutcome::Failed(string_of(v.as_slice())))
        },
        None => {
            if cancelled {
                Some(FileOutcome::Cancelled)
            } else {
                None
            }
        },
    }
}

// ── Laws ─────────────────────────────────────────────────────────────────────

/// The corrections made before the run of `stage` ended.
pub open spec fn corrections_done(stage: EncodeStage) -> int {
    match stage {
        EncodeStage::Correction(k) => k as int,
        _ => 0,
    }
}

/// A file is encoded again only after an output encode that succeeded, was
/// not cancelled and produced more than the hard limit of a fixed-size encode;
/// each such output encode, up to the second correction, is encoded again.
pub proof fn lemma_retry_only_when_over_limit(
    stage: EncodeStage,
    run: RunResult,
    cancelled: bool,
    fixed: bool,
    bitrate: i64,
    limit: u64,
    output: u64,
)
    ensures
        file_step(stage, run, cancelled, fixed, bitrate, limit, output) is Retry ==> {
            &&& stage != EncodeStage::Analysis
            &&& run matches RunResult::Exited { success, .. } && success
            &&& fixed
            &&& !cancelled
            &&& output > limit
        },
        (stage == EncodeStage::Output || (stage matches EncodeStage::Correction(k) && k < 2)) && (run matches RunResult::Exited {
            success,
            ..
        } && success) && fixed && !cancelled && output > limit ==> file_step(
            stage,
            run,
            cancelled,
            fixed,
            bitrate,
            limit,
            output,
        ) is Retry,
{
}

/// At most two corrections: the rerun after the output encode is the first,
/// the one after the first correction the second, and none follows the second.
pub proof fn lemma_at_most_two_corrections(
    stage: EncodeStage,
    run: RunResult,
    cancelled: bool,
    fixed: bool,
    bitrate: i64,
    limit: u64,
    output: u64,
)
    ensures
        file_step(stage, run, cancelled, fixed, bitrate, limit, output) matches StepView::Retry { attempt, .. } ==> attempt
            == corrections_done(stage) + 1 && 1 <= attempt <= 2,
        corrections_done(stage) >= 2 ==> !(file_step(stage, run, cancelled, fixed, bitrate, limit, output) is Retry),
{
}

/// A correction asks for a bitrate of at least 1 and no more than the one that
/// overshot (or 1, when that was below 1).
pub proof fn lemma_corrections_lower_the_bitrate(
    stage: EncodeStage,
    run: RunResult,
    cancelled: bool,
    fixed: bool,
    bitrate: i64,
    limit: u64,
    output: u64,
)
    ensures
        file_step(stage, run, cancelled, fixed, bitrate, limit, output) matches StepView::Retry { bitrate: b, .. } ==> 1
            <= b <= (if bitrate >= 1 {
            bitrate as int
        } else {
            1
        }),
{
    if file_step(stage, run, cancelled, fixed, bitrate, limit, output) is Retry && bitrate >= 1 {
        crate::budget::lemma_correction_never_raises(bitrate as int, limit as int, output as int);
    }
}

/// A fixed-size file is never reported complete above its hard limit, and a
/// file is reported complete only after an output encode that exited
/// successfully and was not cancelled.
pub proof fn lemma_hard_limit_is_kept(
    stage: EncodeStage,
    run: RunResult,
    cancelled: bool,
    fixed: bool,
    bitrate: i64,
    limit: u64,
    output: u64,
)
    ensures
        file_step(stage, run, cancelled, fixed, bitrate, limit, output) matches StepView::Finish(
            OutcomeView::Completed { output_bytes },
        ) ==> {
            &&& output_bytes == output
            &&& !fixed || output_bytes <= limit
            &&& !cancelled
            &&& stage != EncodeStage::Analysis
            &&& run matches RunResult::Exited { success, .. } && success
        },
{
}

/// A cancelled file is reported cancelled after any run, except when the
/// output encode itself could not be run, which is reported as its error.
pub proof fn lemma_cancellation_wins(
    stage: EncodeStage,
    run: RunResult,
    fixed: bool,
    bitrate: i64,
    limit: u64,
    output: u64,
)
    ensures
        !(stage == EncodeStage::Output && run is LaunchFailed) ==> file_step(stage, run, true, fixed, bitrate, limit, output)
            == StepView::Finish(OutcomeView::Cancelled),
{
}

// ── The queue's results ──────────────────────────────────────────────────────

/// Exactly one of success, cancellation and error, and no output unless the
/// file succeeded.
pub open spec fn settled_result(r: FileResult, index: int) -> bool {
    &&& r.file_index == index
    &&& (r.success && !r.cancelled && r.error is None) || (!r.success && r.cancelled && r.error is None) || (
    !r.success && !r.cancelled && r.error is Some)
    &&& !r.success ==> r.output_path@ == Seq::<char>::empty() && r.output_size == 0
}

pub open spec fn has_error(error: Option<String>, text: Seq<char>) -> bool {
    match error {
        Some(e) => e@ == text,
        None => false,
    }
}

/// The result a file's outcome is reported as. An output over its limit is
/// reported with `over_limit_message`, the text that gives its sizes.
pub open spec fn result_matches(r: FileResult, index: int, name: String, outcome: OutcomeView, output_path: Seq<char>, over_limit_message: Seq<char>) -> bool {
    &&& r.file_index == index
    &&& r.file_name == name
    &&& match outcome {
        OutcomeView::Cancelled => r.cancelled && !r.success && r.error is None,
        OutcomeView::Failed(m) => !r.success && !r.cancelled && has_error(r.error, m),
        OutcomeView::CorrectionFailed(m) => !r.success && !r.cancelled && has_error(r.error, m),
        OutcomeView::OverLimit { .. } => !r.success && !r.cancelled && has_error(r.error, over_limit_message),
        OutcomeView::Completed { output_bytes } => r.success && r.output_path@ == output_path && r.output_size == output_bytes,
    }
}

/// The results of a compression queue so far: one per file handled, the
/// `i`-th for file `i`, each settled (see `settled_result`).
pub struct QueueReport {
    results: Vec<FileResult>,
}

impl View for QueueReport {
    type V = Seq<FileResult>;

    closed spec fn view(&self) -> Seq<FileResult> {
        self.results@
    }
}

impl QueueReport {
    #[verifier::type_invariant]
    spec fn settled(&self) -> bool {
        forall|i: int| 0 <= i < self.results@.len() ==> settled_result(#[trigger] self.results@[i], i)
    }

    pub fn new() -> (r: QueueReport)
        ensures
            r@.len() == 0,
    {
        QueueReport { results: Vec::new() }
    }

    /// The number of files handled so far, which is also the index of the next.
    pub fn len(&self) -> (r: usize)
        ensures
            r == self@.len(),
    {
        self.results.len()
    }

    /// Reports the next file's outcome, under the next index.
    pub fn record(&mut self, file_name: String, outcome: FileOutcome, output_path: String, over_limit_message: String)
        ensures
            final(self)@.len() == old(self)@.len() + 1,
            final(self)@.take(old(self)@.len() as int) == old(self)@,
            result_matches(
                final(self)@.last(),
                old(self)@.len() as int,
                file_name,
                outcome@,
                output_path@,
                over_limit_message@,
            ),
            settled_result(final(self)@.last(), old(self)@.len() as int),
    {
        proof {
            use_type_invariant(&*self);
        }
        let index = self.results.len();
        let ghost name = file_name;
        let ghost out = outcome@;
        let ghost path = output_path@;
        let ghost over = over_limit_message@;
        let r = match outcome {
            FileOutcome::Cancelled => FileResult::cancelled(index, file_name),
            FileOutcome::Failed(m) => FileResult::failed(index, file_name, m),
            FileOutcome::CorrectionFailed(m) => FileResult::failed(index, file_name, m),
            FileOutcome::OverLimit { .. } => FileResult::failed(index, file_name, over_limit_message),
            FileOutcome::Completed { output_bytes } => FileResult::completed(index, file_name, output_path, output_bytes),
        };
        assert(result_matches(r, index as int, name, out, path, over));
        let mut v: Vec<FileResult> = Vec::new();
        std::mem::swap(&mut v, &mut self.results);
        let ghost before = v@;
        v.push(r);
        proof {
            assert(v@.take(before.len() as int) =~= before);
            assert forall|i: int| 0 <= i < v@.len() implies settled_result(#[trigger] v@[i], i) by {
                if i < before.len() {
                    assert(v@[i] == before[i]);
                }
            }
        }
        self.results = v;
    }

    /// The results, one per file handled and the `i`-th for file `i`, each with
    /// exactly one of success, cancellation and error, and with an output only
    /// on success.
    pub fn into_results(self) -> (r: Vec<FileResult>)
        ensures
            r@ == self@,
            forall|i: int| 0 <= i < r@.len() ==> settled_result(#[trigger] r@[i], i),
    {
        proof {
            use_type_invariant(&self);
        }
        self.results
    }
}

/// A queue starts only with both tools found, no other queue running and a
/// usable output format; each refusal gives its message, the missing tools
/// first, then a running queue, then the format.
pub proof fn lemma_queue_start(ffmpeg_found: bool, ffprobe_found: bool, running: bool, container: Seq<char>, codec: Seq<char>)
    ensures
        queue_error(ffmpeg_found, ffprobe_found, running, container, codec) is None <==> ffmpeg_found && ffprobe_found
            && !running && format_error(container, codec) is None,
        !ffmpeg_found ==> queue_error(ffmpeg_found, ffprobe_found, running, container, codec) == Some(
            "FFmpeg not found — please install it first."@,
        ),
        ffmpeg_found && !ffprobe_found ==> queue_error(ffmpeg_found, ffprobe_found, running, container, codec) == Some(
            "FFprobe not found — please install it first."@,
        ),
        ffmpeg_found && ffprobe_found && running ==> queue_error(ffmpeg_found, ffprobe_found, running, container, codec)
            == Some("A compression queue is already running"@),
        ffmpeg_found && ffprobe_found && !running && container != "mp4"@ && container != "webm"@ ==> queue_error(
            ffmpeg_found,
            ffprobe_found,
            running,
            container,
            codec,
        ) == Some("Unsupported output container"@),
        ffmpeg_found && ffprobe_found && !running && container == "webm"@ && !(codec == "libsvtav1"@ || (codec.len() >= 4
            && codec.take(4) == "av1_"@)) ==> queue_error(ffmpeg_found, ffprobe_found, running, container, codec) == Some(
            "WebM is available for AV1 encoders; choose MP4 for H.264 or H.265"@,
        ),
        ffmpeg_found && ffprobe_found && !running && (container == "mp4"@ || (container == "webm"@ && (codec == "libsvtav1"@
            || (codec.len() >= 4 && codec.take(4) == "av1_"@)))) ==> queue_error(ffmpeg_found, ffprobe_found, running, container, codec) is None,
{
    reveal_strlit("mp4");
    reveal_strlit("webm");
    reveal_strlit("av1_");
    assert("mp4"@.len() == 3 && "webm"@.len() == 4 && "av1_"@.len() == 4);
}

/// Before its first run a file fails when its output folder could not be made
/// (whatever else holds), is cancelled when cancelled, and goes on otherwise.
/// A failed exit is reported with its exit code (`-1` when none is known),
/// naming the analysis pass when that was the run.
pub proof fn lemma_start_and_exit_messages(folder_error: Option<String>, cancelled: bool, code: Option<i32>, fixed: bool, bitrate: i64, limit: u64, output: u64)
    ensures
        folder_error matches Some(e) ==> start_outcome(folder_error, cancelled) == Some(OutcomeView::Failed(
            "Unable to create output folder: "@ + e@,
        )),
        folder_error is None && cancelled ==> start_outcome(folder_error, cancelled) == Some(OutcomeView::Cancelled),
        folder_error is None && !cancelled ==> start_outcome(folder_error, cancelled) is None,
        file_step(EncodeStage::Output, RunResult::Exited { success: false, code }, false, fixed, bitrate, limit, output) == StepView::Finish(
            OutcomeView::Failed("FFmpeg exited with code "@ + signed_decimal(match code { Some(c) => c as int, None => -1 })),
        ),
        file_step(EncodeStage::Analysis, RunResult::Exited { success: false, code }, false, fixed, bitrate, limit, output) == StepView::Finish(
            OutcomeView::Failed("FFmpeg analysis pass exited with code "@ + signed_decimal(match code { Some(c) => c as int, None => -1 })),
        ),
{
}

} // verus!
