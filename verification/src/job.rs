//! The conversion of one file, as a state machine: the library decides each
//! next step from what the last one gave; the caller performs the steps
//! (reading, decoding, encoding, writing, moving files) and reports back.

use vstd::prelude::*;
use crate::format::{classified, classify, is_raw_file, is_raw_path, ImageFormat};
use crate::paths::{
    moved_path, or_empty, output_path, path_extension_of, path_file_stem_of, path_join_of,
    path_file_name_of, path_with_extension_of, path_file_stem, unwrap_or_empty,
};

verus! {

/// What is done with one file.
pub struct JobConfig {
    /// The file to convert.
    pub path: String,
    /// The directory that receives the AVIF file, if not beside the original.
    pub outdir: Option<String>,
    /// The directory that receives the original after conversion, if any.
    pub move_originals: Option<String>,
    /// Whether the original goes to the trash after conversion (when it is
    /// not moved).
    pub trash: bool,
}

/// A job's configuration as plain values.
pub struct JobConfigModel {
    pub path: Seq<char>,
    pub outdir: Option<Seq<char>>,
    pub move_originals: Option<Seq<char>>,
    pub trash: bool,
}

impl View for JobConfig {
    type V = JobConfigModel;

    open spec fn view(&self) -> JobConfigModel {
        JobConfigModel {
            path: self.path@,
            outdir: match self.outdir {
                Some(d) => Some(d@),
                None => None,
            },
            move_originals: match self.move_originals {
                Some(d) => Some(d@),
                None => None,
            },
            trash: self.trash,
        }
    }
}

/// Where a job stands.
#[derive(Clone, Copy, PartialEq, Eq, Structural, Debug)]
pub enum JobState {
    /// Nothing done yet.
    Start,
    /// The file is shown as in progress.
    Announced,
    /// Its first bytes are being read.
    Sniffing,
    /// It is being decoded.
    Decoding,
    /// The image is being encoded.
    Encoding,
    /// The size of the original is being read.
    Measuring { avif_bytes: usize },
    /// The AVIF file is being written.
    Writing { avif_bytes: usize, orig_bytes: u64 },
    /// The original is being moved or trashed.
    Disposing { avif_bytes: usize, orig_bytes: u64 },
    /// The job succeeded.
    Finished,
    /// The job failed.
    Aborted,
}

/// What the caller reports after performing a step.
pub enum JobEvent {
    /// The job is to start.
    Begin,
    /// The file was shown as in progress.
    Announced,
    /// The first bytes announced this format (`sniff_format`), or none, or
    /// could not be read.
    Sniffed(Option<ImageFormat>),
    /// The file was decoded.
    Decoded,
    /// Decoding failed with this message.
    DecodeFailed(String),
    /// The AVIF data has this many bytes.
    Encoded(usize),
    /// The original has this many bytes (0 where its size cannot be read).
    Measured(u64),
    /// The AVIF file was written.
    Written,
    /// The original was moved or trashed.
    Disposed,
    /// Encoding, writing, moving or trashing failed; the caller holds the error.
    StepFailed,
}

/// An event as plain values.
pub enum JobEventModel {
    Begin,
    Announced,
    Sniffed(Option<ImageFormat>),
    Decoded,
    DecodeFailed(Seq<char>),
    Encoded(usize),
    Measured(u64),
    Written,
    Disposed,
    StepFailed,
}

impl View for JobEvent {
    type V = JobEventModel;

    open spec fn view(&self) -> JobEventModel {
        match self {
            JobEvent::Begin => JobEventModel::Begin,
            JobEvent::Announced => JobEventModel::Announced,
            JobEvent::Sniffed(f) => JobEventModel::Sniffed(*f),
            JobEvent::Decoded => JobEventModel::Decoded,
            JobEvent::DecodeFailed(m) => JobEventModel::DecodeFailed(m@),
            JobEvent::Encoded(n) => JobEventModel::Encoded(*n),
            JobEvent::Measured(n) => JobEventModel::Measured(*n),
            JobEvent::Written => JobEventModel::Written,
            JobEvent::Disposed => JobEventModel::Disposed,
            JobEvent::StepFailed => JobEventModel::StepFailed,
        }
    }
}

/// The next step for the caller to perform.
pub enum JobAction {
    /// Show the file as in progress (and render).
    Announce,
    /// Read the first bytes of the file and recognise them (`sniff_format`).
    Sniff,
    /// Decode the file as this format.
    Decode(ImageFormat),
    /// Show the file as failed with this message (and render), then fail
    /// the job as a decoding failure.
    Fail(String),
    /// Fail the job with this message, leaving the display as it is.
    Unsupported(String),
    /// Fail the job with the error of the last step, leaving the display as
    /// it is.
    Abort,
    /// Encode the decoded image as AVIF.
    Encode,
    /// Read the size of the original.
    Measure,
    /// Write the AVIF data to this path.
    Write(String),
    /// Move the original to this path.
    Move(String),
    /// Move the original to the trash.
    Trash,
    /// Show the file as done with these sizes (and render); the job succeeded.
    Finish { orig_bytes: u64, avif_bytes: usize },
    /// Nothing: the event does not belong to the state.
    Ignore,
}

/// An action as plain values.
pub enum JobActionModel {
    Announce,
    Sniff,
    Decode(ImageFormat),
    Fail(Seq<char>),
    Unsupported(Seq<char>),
    Abort,
    Encode,
    Measure,
    Write(Seq<char>),
    Move(Seq<char>),
    Trash,
    Finish { orig_bytes: u64, avif_bytes: usize },
    Ignore,
}

impl View for JobAction {
    type V = JobActionModel;

    open spec fn view(&self) -> JobActionModel {
        match self {
            JobAction::Announce => JobActionModel::Announce,
            JobAction::Sniff => JobActionModel::Sniff,
            JobAction::Decode(f) => JobActionModel::Decode(*f),
            JobAction::Fail(m) => JobActionModel::Fail(m@),
            JobAction::Unsupported(m) => JobActionModel::Unsupported(m@),
            JobAction::Abort => JobActionModel::Abort,
            JobAction::Encode => JobActionModel::Encode,
            JobAction::Measure => JobActionModel::Measure,
            JobAction::Write(p) => JobActionModel::Write(p@),
            JobAction::Move(p) => JobActionModel::Move(p@),
            JobAction::Trash => JobActionModel::Trash,
            JobAction::Finish { orig_bytes, avif_bytes } => JobActionModel::Finish {
                orig_bytes: *orig_bytes,
                avif_bytes: *avif_bytes,
            },
            JobAction::Ignore => JobActionModel::Ignore,
        }
    }
}

/// The message for a HEIC file, which this build cannot decode.
pub open spec fn heic_message(path: Seq<char>, stem: Seq<char>) -> Seq<char> {
    "HEIC support not compiled in\n\nConvert first with sips:\n\n\x1b[36m  sips -s format png \""@ + path
        + "\" --out \""@ + stem
        + ".png\"\x1b[0m\n\nOr install libheif for native support:\n\n\x1b[36m  brew install libheif && cargo install avify\x1b[0m"@
}

/// The message for a HEIC file, which this build cannot decode: how to
/// convert it first, or how to get a build that can.
pub fn heic_unsupported_message(path: &str) -> (r: String)
    ensures
        r@ == heic_message(path@, or_empty(path_file_stem_of(path@))),
{
    let stem = unwrap_or_empty(path_file_stem(path));
    let mut m = String::from_str("HEIC support not compiled in\n\nConvert first with sips:\n\n\x1b[36m  sips -s format png \"");
    m.append(path);
    m.append("\" --out \"");
    m.append(stem.as_str());
    m.append(".png\"\x1b[0m\n\nOr install libheif for native support:\n\n\x1b[36m  brew install libheif && cargo install avify\x1b[0m");
    m
}

/// Where the AVIF file of a job goes (see `output_path`).
pub open spec fn job_output(cfg: JobConfigModel) -> Seq<char> {
    match cfg.outdir {
        Some(dir) => path_with_extension_of(path_join_of(dir, or_empty(path_file_stem_of(cfg.path))), "avif"@),
        None => path_with_extension_of(cfg.path, "avif"@),
    }
}

/// The step after the format is known: decode it, or give up on HEIC.
pub open spec fn decode_step(cfg: JobConfigModel, f: ImageFormat) -> (JobState, JobActionModel) {
    if f == ImageFormat::HeicUnsupported {
        (JobState::Aborted, JobActionModel::Unsupported(heic_message(cfg.path, or_empty(path_file_stem_of(cfg.path)))))
    } else {
        (JobState::Decoding, JobActionModel::Decode(f))
    }
}

/// The next state and step of a job, given its state and the caller's report.
pub open spec fn job_step(cfg: JobConfigModel, s: JobState, e: JobEventModel) -> (JobState, JobActionModel) {
    match (s, e) {
        (JobState::Start, JobEventModel::Begin) => (JobState::Announced, JobActionModel::Announce),
        (JobState::Announced, JobEventModel::Announced) => if is_raw_path(cfg.path) {
            (JobState::Decoding, JobActionModel::Decode(ImageFormat::Raw))
        } else {
            (JobState::Sniffing, JobActionModel::Sniff)
        },
        (JobState::Sniffing, JobEventModel::Sniffed(f)) => decode_step(
            cfg,
            classified(path_extension_of(cfg.path), f),
        ),
        (JobState::Decoding, JobEventModel::Decoded) => (JobState::Encoding, JobActionModel::Encode),
        (JobState::Decoding, JobEventModel::DecodeFailed(m)) => (JobState::Aborted, JobActionModel::Fail(m)),
        (JobState::Encoding, JobEventModel::Encoded(n)) => (
            JobState::Measuring { avif_bytes: n },
            JobActionModel::Measure,
        ),
        (JobState::Measuring { avif_bytes }, JobEventModel::Measured(o)) => (
            JobState::Writing { avif_bytes, orig_bytes: o },
            JobActionModel::Write(job_output(cfg)),
        ),
        (JobState::Writing { avif_bytes, orig_bytes }, JobEventModel::Written) => match cfg.move_originals {
            Some(dir) => (
                JobState::Disposing { avif_bytes, orig_bytes },
                JobActionModel::Move(path_join_of(dir, or_empty(path_file_name_of(cfg.path)))),
            ),
            None => if cfg.trash {
                (JobState::Disposing { avif_bytes, orig_bytes }, JobActionModel::Trash)
            } else {
                (JobState::Finished, JobActionModel::Finish { orig_bytes, avif_bytes })
            },
        },
        (JobState::Disposing { avif_bytes, orig_bytes }, JobEventModel::Disposed) => (
            JobState::Finished,
            JobActionModel::Finish { orig_bytes, avif_bytes },
        ),
        (JobState::Encoding, JobEventModel::StepFailed) => (JobState::Aborted, JobActionModel::Abort),
        (JobState::Writing { .. }, JobEventModel::StepFailed) => (JobState::Aborted, JobActionModel::Abort),
        (JobState::Disposing { .. }, JobEventModel::StepFailed) => (JobState::Aborted, JobActionModel::Abort),
        _ => (s, JobActionModel::Ignore),
    }
}

impl JobConfig {
    /// The next state and step of the job (see `job_step`).
    pub fn step(&self, s: JobState, e: JobEvent) -> (r: (JobState, JobAction))
        ensures
            (r.0, r.1@) == job_step(self@, s, e@),
    {
        match (s, e) {
            (JobState::Start, JobEvent::Begin) => (JobState::Announced, JobAction::Announce),
            (JobState::Announced, JobEvent::Announced) => {
                if is_raw_file(self.path.as_str()) {
                    (JobState::Decoding, JobAction::Decode(ImageFormat::Raw))
                } else {
                    (JobState::Sniffing, JobAction::Sniff)
                }
            },
            (JobState::Sniffing, JobEvent::Sniffed(f)) => {
                let format = classify(self.path.as_str(), f);
                if format == ImageFormat::HeicUnsupported {
                    (JobState::Aborted, JobAction::Unsupported(heic_unsupported_message(self.path.as_str())))
                } else {
                    (JobState::Decoding, JobAction::Decode(format))
                }
            },
            (JobState::Decoding, JobEvent::Decoded) => (JobState::Encoding, JobAction::Encode),
            (JobState::Decoding, JobEvent::DecodeFailed(m)) => (JobState::Aborted, JobAction::Fail(m)),
            (JobState::Encoding, JobEvent::Encoded(n)) => (
                JobState::Measuring { avif_bytes: n },
                JobAction::Measure,
            ),
            (JobState::Measuring { avif_bytes }, JobEvent::Measured(o)) => {
                let out = match &self.outdir {
                    Some(d) => output_path(self.path.as_str(), Some(d.as_str())),
                    None => output_path(self.path.as_str(), None),
                };
                (JobState::Writing { avif_bytes, orig_bytes: o }, JobAction::Write(out))
            },
            (JobState::Writing { avif_bytes, orig_bytes }, JobEvent::Written) => {
                match &self.move_originals {
                    Some(dir) => (
                        JobState::Disposing { avif_bytes, orig_bytes },
                        JobAction::Move(moved_path(self.path.as_str(), dir.as_str())),
                    ),
                    None => {
                        if self.trash {
                            (JobState::Disposing { avif_bytes, orig_bytes }, JobAction::Trash)
                        } else {
                            (JobState::Finished, JobAction::Finish { orig_bytes, avif_bytes })
                        }
                    },
                }
            },
            (JobState::Disposing { avif_bytes, orig_bytes }, JobEvent::Disposed) => (
                JobState::Finished,
                JobAction::Finish { orig_bytes, avif_bytes },
            ),
            (JobState::Encoding, JobEvent::StepFailed) => (JobState::Aborted, JobAction::Abort),
            (JobState::Writing { .. }, JobEvent::StepFailed) => (JobState::Aborted, JobAction::Abort),
            (JobState::Disposing { .. }, JobEvent::StepFailed) => (JobState::Aborted, JobAction::Abort),
            (s, _) => (s, JobAction::Ignore),
        }
    }
}


/// The state reached and the steps asked for, when a job is started and
/// then given `events` in order.
pub open spec fn job_run(cfg: JobConfigModel, events: Seq<JobEventModel>) -> (JobState, Seq<JobActionModel>)
    decreases events.len(),
{
    if events.len() == 0 {
        (JobState::Start, Seq::empty())
    } else {
        let prev = job_run(cfg, events.drop_last());
        let next = job_step(cfg, prev.0, events.last());
        (next.0, prev.1.push(next.1))
    }
}

/// Whether a step ends the job.
pub open spec fn is_terminal(a: JobActionModel) -> bool {
    a is Finish || a is Fail || a is Unsupported || a is Abort
}

/// Whether a step touches the original file.
pub open spec fn disposes(a: JobActionModel) -> bool {
    a is Move || a is Trash
}

/// Whether the AVIF file was asked to be written among `acts`.
pub open spec fn wrote(cfg: JobConfigModel, acts: Seq<JobActionModel>) -> bool {
    exists|j: int| 0 <= j < acts.len() && #[trigger] acts[j] == JobActionModel::Write(job_output(cfg))
}

proof fn lemma_step_shapes(cfg: JobConfigModel, s: JobState, e: JobEventModel)
    ensures
        job_step(cfg, s, e).0 is Writing ==> (job_step(cfg, s, e).1 == JobActionModel::Write(job_output(cfg)) || s is Writing),
        job_step(cfg, s, e).0 is Disposing ==> (s is Writing || s is Disposing),
        job_step(cfg, s, e).0 is Finished ==> (job_step(cfg, s, e).1 is Finish || s is Finished),
        disposes(job_step(cfg, s, e).1) ==> s is Writing && e is Written,
        job_step(cfg, s, e).1 is Finish ==> (s is Writing || s is Disposing),
        is_terminal(job_step(cfg, s, e).1) ==> (job_step(cfg, s, e).0 is Finished || job_step(cfg, s, e).0 is Aborted),
        (s is Finished || s is Aborted) ==> job_step(cfg, s, e) == (s, JobActionModel::Ignore),
{
}

proof fn lemma_run_invariant(cfg: JobConfigModel, events: Seq<JobEventModel>)
    ensures
        job_run(cfg, events).1.len() == events.len(),
        (job_run(cfg, events).0 is Writing || job_run(cfg, events).0 is Disposing) ==> wrote(cfg, job_run(cfg, events).1),
        job_run(cfg, events).0 is Finished ==> exists|j: int| 0 <= j < events.len() && #[trigger] job_run(cfg, events).1[j] is Finish,
        forall|j: int| 0 <= j < events.len() && #[trigger] is_terminal(job_run(cfg, events).1[j])
            ==> (job_run(cfg, events).0 is Finished || job_run(cfg, events).0 is Aborted),
        forall|j: int| 0 <= j < events.len() && (#[trigger] job_run(cfg, events).1[j] is Finish || disposes(job_run(cfg, events).1[j]))
            ==> wrote(cfg, job_run(cfg, events).1.take(j)),
        forall|i: int, j: int| 0 <= i < j < events.len() && is_terminal(#[trigger] job_run(cfg, events).1[i])
            ==> #[trigger] job_run(cfg, events).1[j] is Ignore,
    decreases events.len(),
{
    if events.len() > 0 {
        let prev = job_run(cfg, events.drop_last());
        lemma_run_invariant(cfg, events.drop_last());
        lemma_step_shapes(cfg, prev.0, events.last());
        let acts = job_run(cfg, events).1;
        assert(acts == prev.1.push(job_step(cfg, prev.0, events.last()).1));
        let n = events.len() - 1;
        assert(acts.take(n) =~= prev.1);
        if wrote(cfg, prev.1) {
            let j = choose|j: int| 0 <= j < prev.1.len() && #[trigger] prev.1[j] == JobActionModel::Write(job_output(cfg));
            assert(acts[j] == JobActionModel::Write(job_output(cfg)));
        }
        if job_run(cfg, events).0 is Writing && !(prev.0 is Writing) {
            assert(acts[n] == JobActionModel::Write(job_output(cfg)));
        }
        if job_run(cfg, events).0 is Finished && !(prev.0 is Finished) {
            assert(acts[n] is Finish);
        }
        if prev.0 is Finished {
            let j = choose|j: int| 0 <= j < events.drop_last().len() && #[trigger] prev.1[j] is Finish;
            assert(acts[j] is Finish);
        }
        assert forall|j: int| 0 <= j < events.len() && (#[trigger] acts[j] is Finish || disposes(acts[j]))
            implies wrote(cfg, acts.take(j)) by {
            if j < n {
                assert(acts[j] == prev.1[j]);
                assert(acts.take(j) =~= prev.1.take(j));
            } else {
                let w = choose|w: int| 0 <= w < prev.1.len() && #[trigger] prev.1[w] == JobActionModel::Write(job_output(cfg));
                assert(acts.take(j)[w] == JobActionModel::Write(job_output(cfg)));
            }
        }
        assert forall|i: int, j: int| 0 <= i < j < events.len() && is_terminal(#[trigger] acts[i])
            implies #[trigger] acts[j] is Ignore by {
            assert(acts[i] == prev.1[i]);
            if j < n {
                assert(acts[j] == prev.1[j]);
            }
        }
        assert forall|j: int| 0 <= j < events.len() && #[trigger] is_terminal(acts[j])
            implies (job_run(cfg, events).0 is Finished || job_run(cfg, events).0 is Aborted) by {
            if j < n {
                assert(acts[j] == prev.1[j]);
            }
        }
    }
}

/// An original is moved or trashed only after its AVIF file was asked to be
/// written, and only once that write was reported done; and the job reports
/// success only after the AVIF file was written.
pub proof fn lemma_original_touched_after_write(cfg: JobConfigModel, events: Seq<JobEventModel>, j: int)
    requires
        0 <= j < events.len(),
        disposes(job_run(cfg, events).1[j]) || job_run(cfg, events).1[j] is Finish,
    ensures
        wrote(cfg, job_run(cfg, events).1.take(j)),
        disposes(job_run(cfg, events).1[j]) ==> events[j] is Written,
{
    lemma_run_invariant(cfg, events);
    lemma_run_prefix(cfg, events, j + 1);
    let pre = events.take(j + 1);
    assert(pre.drop_last() =~= events.take(j));
    assert(pre.last() == events[j]);
    let before = job_run(cfg, events.take(j));
    lemma_run_invariant(cfg, events.take(j));
    lemma_step_shapes(cfg, before.0, events[j]);
    assert(job_run(cfg, pre).1[j] == job_step(cfg, before.0, events[j]).1);
}

proof fn lemma_run_prefix(cfg: JobConfigModel, events: Seq<JobEventModel>, k: int)
    requires
        0 <= k <= events.len(),
    ensures
        job_run(cfg, events.take(k)).1 == job_run(cfg, events).1.take(k),
    decreases events.len(),
{
    lemma_run_invariant(cfg, events);
    lemma_run_invariant(cfg, events.take(k));
    if k == events.len() {
        assert(events.take(k) =~= events);
        assert(job_run(cfg, events).1.take(k) =~= job_run(cfg, events).1);
    } else {
        assert(events.drop_last().take(k) =~= events.take(k));
        lemma_run_prefix(cfg, events.drop_last(), k);
        lemma_run_invariant(cfg, events.drop_last());
        assert(job_run(cfg, events).1.take(k) =~= job_run(cfg, events.drop_last()).1.take(k));
    }
}

/// Once a job has ended, it asks for nothing more: every later step is
/// `Ignore`.
pub proof fn lemma_nothing_after_end(cfg: JobConfigModel, events: Seq<JobEventModel>, i: int, j: int)
    requires
        0 <= i < j < events.len(),
        is_terminal(job_run(cfg, events).1[i]),
    ensures
        job_run(cfg, events).1[j] is Ignore,
{
    lemma_run_invariant(cfg, events);
}

/// The original is touched only as configured: moved only when a directory
/// for originals is given, trashed only when asked and not moved.
pub proof fn lemma_original_touched_as_configured(cfg: JobConfigModel, s: JobState, e: JobEventModel)
    ensures
        job_step(cfg, s, e).1 is Move ==> cfg.move_originals is Some,
        job_step(cfg, s, e).1 is Trash ==> cfg.move_originals is None && cfg.trash,
{
}


/// Whether the run answered an `Encoded(a)` report, before step `j`, by
/// asking to measure the original.
pub open spec fn accepted_encoded(events: Seq<JobEventModel>, acts: Seq<JobActionModel>, a: usize, j: int) -> bool {
    exists|i: int| 0 <= i < j && i < events.len() && i < acts.len()
        && #[trigger] events[i] == JobEventModel::Encoded(a) && acts[i] is Measure
}

/// Whether the run answered a `Measured(o)` report, before step `j`, by asking
/// to write the AVIF file.
pub open spec fn accepted_measured(events: Seq<JobEventModel>, acts: Seq<JobActionModel>, o: u64, j: int) -> bool {
    exists|i: int| 0 <= i < j && i < events.len() && i < acts.len()
        && #[trigger] events[i] == JobEventModel::Measured(o) && acts[i] is Write
}

proof fn lemma_step_sizes(cfg: JobConfigModel, s: JobState, e: JobEventModel)
    ensures
        job_step(cfg, s, e).0 matches JobState::Measuring { avif_bytes: a } ==> (s == job_step(cfg, s, e).0
            || (e == JobEventModel::Encoded(a) && job_step(cfg, s, e).1 is Measure)),
        job_step(cfg, s, e).0 matches JobState::Writing { avif_bytes: a, orig_bytes: o } ==> (s == job_step(cfg, s, e).0
            || (s == JobState::Measuring { avif_bytes: a } && e == JobEventModel::Measured(o)
                && job_step(cfg, s, e).1 is Write)),
        job_step(cfg, s, e).0 matches JobState::Disposing { avif_bytes: a, orig_bytes: o } ==> (s == job_step(cfg, s, e).0
            || s == (JobState::Writing { avif_bytes: a, orig_bytes: o })),
        job_step(cfg, s, e).1 matches JobActionModel::Finish { orig_bytes: o, avif_bytes: a } ==> (s
            == (JobState::Writing { avif_bytes: a, orig_bytes: o }) || s == (JobState::Disposing {
            avif_bytes: a,
            orig_bytes: o,
        })),
{
}

proof fn lemma_sizes_carried(cfg: JobConfigModel, events: Seq<JobEventModel>)
    ensures
        job_run(cfg, events).0 matches JobState::Measuring { avif_bytes: a } ==> accepted_encoded(
            events,
            job_run(cfg, events).1,
            a,
            events.len() as int,
        ),
        job_run(cfg, events).0 matches JobState::Writing { avif_bytes: a, orig_bytes: o } ==> accepted_encoded(
            events,
            job_run(cfg, events).1,
            a,
            events.len() as int,
        ) && accepted_measured(events, job_run(cfg, events).1, o, events.len() as int),
        job_run(cfg, events).0 matches JobState::Disposing { avif_bytes: a, orig_bytes: o } ==> accepted_encoded(
            events,
            job_run(cfg, events).1,
            a,
            events.len() as int,
        ) && accepted_measured(events, job_run(cfg, events).1, o, events.len() as int),
        forall|j: int| 0 <= j < events.len() && #[trigger] job_run(cfg, events).1[j] is Finish ==> accepted_encoded(
            events,
            job_run(cfg, events).1,
            job_run(cfg, events).1[j]->avif_bytes,
            j,
        ) && accepted_measured(events, job_run(cfg, events).1, job_run(cfg, events).1[j]->orig_bytes, j),
    decreases events.len(),
{
    lemma_run_invariant(cfg, events);
    if events.len() > 0 {
        let pe = events.drop_last();
        let prev = job_run(cfg, pe);
        lemma_sizes_carried(cfg, pe);
        lemma_run_invariant(cfg, pe);
        let e = events.last();
        let step = job_step(cfg, prev.0, e);
        lemma_step_sizes(cfg, prev.0, e);
        let acts = job_run(cfg, events).1;
        let n = pe.len() as int;
        assert(acts == prev.1.push(step.1));
        assert forall|a: usize, j: int| j <= n && accepted_encoded(pe, prev.1, a, j) implies accepted_encoded(
            events,
            acts,
            a,
            j,
        ) by {
            let i = choose|i: int| 0 <= i < j && i < pe.len() && i < prev.1.len()
                && #[trigger] pe[i] == JobEventModel::Encoded(a) && prev.1[i] is Measure;
            assert(events[i] == pe[i]);
            assert(acts[i] == prev.1[i]);
        }
        assert forall|o: u64, j: int| j <= n && accepted_measured(pe, prev.1, o, j) implies accepted_measured(
            events,
            acts,
            o,
            j,
        ) by {
            let i = choose|i: int| 0 <= i < j && i < pe.len() && i < prev.1.len()
                && #[trigger] pe[i] == JobEventModel::Measured(o) && prev.1[i] is Write;
            assert(events[i] == pe[i]);
            assert(acts[i] == prev.1[i]);
        }
        assert(events[n] == e);
        assert(acts[n] == step.1);
        assert forall|a: usize, j: int| j == n + 1 && accepted_encoded(pe, prev.1, a, n) implies accepted_encoded(
            events,
            acts,
            a,
            j,
        ) by {
            let i = choose|i: int| 0 <= i < n && i < pe.len() && i < prev.1.len()
                && #[trigger] pe[i] == JobEventModel::Encoded(a) && prev.1[i] is Measure;
            assert(events[i] == pe[i]);
            assert(acts[i] == prev.1[i]);
        }
        assert forall|o: u64, j: int| j == n + 1 && accepted_measured(pe, prev.1, o, n) implies accepted_measured(
            events,
            acts,
            o,
            j,
        ) by {
            let i = choose|i: int| 0 <= i < n && i < pe.len() && i < prev.1.len()
                && #[trigger] pe[i] == JobEventModel::Measured(o) && prev.1[i] is Write;
            assert(events[i] == pe[i]);
            assert(acts[i] == prev.1[i]);
        }
        assert forall|j: int| 0 <= j < events.len() && #[trigger] acts[j] is Finish implies accepted_encoded(
            events,
            acts,
            acts[j]->avif_bytes,
            j,
        ) && accepted_measured(events, acts, acts[j]->orig_bytes, j) by {
            if j < n {
                assert(acts[j] == prev.1[j]);
            }
        }
    }
}

/// A job reports the sizes it was told: when it finishes, the AVIF size is
/// the one of the `Encoded` report it answered by measuring the original, and
/// the original's size is the one of the `Measured` report it answered by
/// writing, whether the original is then moved, trashed or left in place.
pub proof fn lemma_finish_reports_measured_sizes(
    cfg: JobConfigModel,
    events: Seq<JobEventModel>,
    j: int,
    orig_bytes: u64,
    avif_bytes: usize,
)
    requires
        0 <= j < events.len(),
        job_run(cfg, events).1[j] == (JobActionModel::Finish { orig_bytes, avif_bytes }),
    ensures
        exists|i: int| 0 <= i < j && #[trigger] events[i] == JobEventModel::Encoded(avif_bytes)
            && job_run(cfg, events).1[i] is Measure,
        exists|i: int| 0 <= i < j && #[trigger] events[i] == JobEventModel::Measured(orig_bytes)
            && job_run(cfg, events).1[i] is Write,
{
    lemma_sizes_carried(cfg, events);
}

} // verus!
