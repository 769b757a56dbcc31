//! The progress display of a batch: one status per file, completed files
//! printed once at the front, files in progress redrawn on every render.

use vstd::prelude::*;
use crate::paths::{display_name, or_empty, path_file_name_of};

verus! {

/// Where one file of the batch stands.
pub enum Status {
    Pending,
    Processing,
    Done { orig_bytes: u64, avif_bytes: usize },
    Failed(String),
}

/// A status as plain values.
pub enum StatusModel {
    Pending,
    Processing,
    Done { orig_bytes: u64, avif_bytes: usize },
    Failed(Seq<char>),
}

impl View for Status {
    type V = StatusModel;

    open spec fn view(&self) -> StatusModel {
        match self {
            Status::Pending => StatusModel::Pending,
            Status::Processing => StatusModel::Processing,
            Status::Done { orig_bytes, avif_bytes } => StatusModel::Done {
                orig_bytes: *orig_bytes,
                avif_bytes: *avif_bytes,
            },
            Status::Failed(msg) => StatusModel::Failed(msg@),
        }
    }
}

impl Status {
    /// Whether the file is finished, well or not.
    pub fn is_finished(&self) -> (r: bool)
        ensures
            r == is_finished(self@),
    {
        match self {
            Status::Done { .. } => true,
            Status::Failed(_) => true,
            _ => false,
        }
    }

    /// Whether the file has not been started.
    pub fn is_pending(&self) -> (r: bool)
        ensures
            r == (self@ is Pending),
    {
        match self {
            Status::Pending => true,
            _ => false,
        }
    }
}

/// Whether a file is finished, well or not.
pub open spec fn is_finished(s: StatusModel) -> bool {
    s is Done || s is Failed
}

/// What one line of the display says about a file.
pub enum LineKind {
    /// Being converted.
    Processing,
    /// Converted; the AVIF file has `kb` kilobytes (rounded down).
    Done { kb: usize },
    /// Failed with this message.
    Failed(String),
}

/// One line of the display: the file's number (from 1), its name, and what it says.
pub struct ProgressLine {
    pub number: usize,
    pub name: String,
    pub kind: LineKind,
}

/// A display line as plain values.
pub struct LineModel {
    pub number: nat,
    pub name: Seq<char>,
    pub kind: LineKindModel,
}

/// A line kind as plain values.
pub enum LineKindModel {
    Processing,
    Done { kb: nat },
    Failed(Seq<char>),
}

impl View for ProgressLine {
    type V = LineModel;

    open spec fn view(&self) -> LineModel {
        LineModel {
            number: self.number as nat,
            name: self.name@,
            kind: match self.kind {
                LineKind::Processing => LineKindModel::Processing,
                LineKind::Done { kb } => LineKindModel::Done { kb: kb as nat },
                LineKind::Failed(m) => LineKindModel::Failed(m@),
            },
        }
    }
}

/// The lines as plain values.
pub open spec fn lines_view(lines: Seq<ProgressLine>) -> Seq<LineModel> {
    lines.map_values(|l: ProgressLine| l@)
}

/// What one render draws: first it moves up over and erases the `erase`
/// lines drawn as in progress last time; then it prints the `finished` lines,
/// which are never drawn again; then the `active` lines, which the next render
/// erases. Numbers are right-aligned to `width`, followed by `/total`.
pub struct RenderPlan {
    pub erase: usize,
    pub total: usize,
    pub width: usize,
    pub finished: Vec<ProgressLine>,
    pub active: Vec<ProgressLine>,
}

/// The state of the display as plain values.
pub struct ProgressModel {
    pub names: Seq<Seq<char>>,
    pub statuses: Seq<StatusModel>,
    pub flushed: nat,
    pub active_lines: nat,
}

/// The progress of a batch of files.
pub struct Progress {
    names: Vec<String>,
    statuses: Vec<Status>,
    flushed: usize,
    active_lines: usize,
}

impl View for Progress {
    type V = ProgressModel;

    closed spec fn view(&self) -> ProgressModel {
        ProgressModel {
            names: self.names@.map_values(|n: String| n@),
            statuses: self.statuses@.map_values(|s: Status| s@),
            flushed: self.flushed as nat,
            active_lines: self.active_lines as nat,
        }
    }
}

/// A well-formed display state: one name per status, and the front that was
/// printed lies within the batch.
pub open spec fn progress_wf(m: ProgressModel) -> bool {
    m.names.len() == m.statuses.len() && m.flushed <= m.statuses.len()
}

/// The number of decimal digits of `n` (`n.to_string().len()`).
pub open spec fn decimal_digits(n: nat) -> nat
    decreases n,
{
    if n < 10 {
        1
    } else {
        1 + decimal_digits(n / 10)
    }
}

proof fn lemma_digits_bounded(n: nat)
    requires
        n >= 1,
    ensures
        decimal_digits(n) <= n,
    decreases n,
{
    if n >= 10 {
        lemma_digits_bounded(n / 10);
    }
}

/// The number of decimal digits of `n`.
pub fn digit_count(n: usize) -> (r: usize)
    ensures
        r == decimal_digits(n as nat),
{
    let mut m = n;
    let mut d: usize = 1;
    while m >= 10
        invariant
            d + decimal_digits(m as nat) == 1 + decimal_digits(n as nat),
            m <= n,
        decreases m,
    {
        proof {
            lemma_digits_bounded(n as nat);
        }
        assert(decimal_digits((m / 10) as nat) >= 1);
        assert(decimal_digits(m as nat) >= 2);
        d = d + 1;
        m = m / 10;
    }
    d
}

/// The end of the run of finished files that starts at `from`: the first
/// index at or after `from` whose file is not finished, or the length.
pub open spec fn finished_end(statuses: Seq<StatusModel>, from: nat) -> nat
    decreases statuses.len() - from,
{
    if from >= statuses.len() || !is_finished(statuses[from as int]) {
        from
    } else {
        finished_end(statuses, from + 1)
    }
}

/// The end of the run of started files that starts at `from`: the first
/// index at or after `from` whose file is still pending, or the length.
pub open spec fn started_end(statuses: Seq<StatusModel>, from: nat) -> nat
    decreases statuses.len() - from,
{
    if from >= statuses.len() || statuses[from as int] is Pending {
        from
    } else {
        started_end(statuses, from + 1)
    }
}

/// The display line of file `i`.
pub open spec fn line_of(m: ProgressModel, i: int) -> LineModel {
    LineModel {
        number: (i + 1) as nat,
        name: m.names[i],
        kind: match m.statuses[i] {
            StatusModel::Done { avif_bytes, .. } => LineKindModel::Done { kb: (avif_bytes / 1024) as nat },
            StatusModel::Failed(msg) => LineKindModel::Failed(msg),
            _ => LineKindModel::Processing,
        },
    }
}

/// The display lines of files `lo` up to (not including) `hi`.
pub open spec fn lines_between(m: ProgressModel, lo: nat, hi: nat) -> Seq<LineModel> {
    Seq::new((hi - lo) as nat, |k: int| line_of(m, lo + k))
}

/// The display state after a render: the printed front moves past the
/// finished files, and the started files after it are the lines in progress.
pub open spec fn rendered(m: ProgressModel) -> ProgressModel {
    let f = finished_end(m.statuses, m.flushed);
    ProgressModel {
        names: m.names,
        statuses: m.statuses,
        flushed: f,
        active_lines: (started_end(m.statuses, f) - f) as nat,
    }
}

proof fn lemma_finished_end_bounds(statuses: Seq<StatusModel>, from: nat)
    requires
        from <= statuses.len(),
    ensures
        from <= finished_end(statuses, from) <= statuses.len(),
        forall|k: int| from <= k < finished_end(statuses, from) ==> is_finished(#[trigger] statuses[k]),
        finished_end(statuses, from) < statuses.len() ==> !is_finished(statuses[finished_end(statuses, from) as int]),
    decreases statuses.len() - from,
{
    if from < statuses.len() && is_finished(statuses[from as int]) {
        lemma_finished_end_bounds(statuses, from + 1);
    }
}

proof fn lemma_started_end_bounds(statuses: Seq<StatusModel>, from: nat)
    requires
        from <= statuses.len(),
    ensures
        from <= started_end(statuses, from) <= statuses.len(),
        forall|k: int| from <= k < started_end(statuses, from) ==> !(#[trigger] statuses[k] is Pending),
        started_end(statuses, from) < statuses.len() ==> statuses[started_end(statuses, from) as int] is Pending,
    decreases statuses.len() - from,
{
    if from < statuses.len() && !(statuses[from as int] is Pending) {
        lemma_started_end_bounds(statuses, from + 1);
    }
}

impl Progress {
    /// A display for `files`, all pending; each is shown under its file name.
    pub fn new(files: &Vec<String>) -> (r: Progress)
        ensures
            r@.names == files@.map_values(|p: String| or_empty(path_file_name_of(p@))),
            r@.statuses == Seq::new(files@.len(), |i: int| StatusModel::Pending),
            r@.flushed == 0,
            r@.active_lines == 0,
            progress_wf(r@),
    {
        let mut names: Vec<String> = Vec::new();
        let mut statuses: Vec<Status> = Vec::new();
        let n = files.len();
        let mut i: usize = 0;
        while i < n
            invariant
                n == files@.len(),
                i <= n,
                names@.len() == i,
                statuses@.len() == i,
                forall|k: int| 0 <= k < i ==> #[trigger] names@[k]@ == or_empty(path_file_name_of(files@[k]@)),
                forall|k: int| 0 <= k < i ==> #[trigger] statuses@[k] is Pending,
            decreases n - i,
        {
            names.push(display_name(files[i].as_str()));
            statuses.push(Status::Pending);
            i = i + 1;
        }
        let r = Progress { names, statuses, flushed: 0, active_lines: 0 };
        assert(r@.names =~= files@.map_values(|p: String| or_empty(path_file_name_of(p@))));
        assert(r@.statuses =~= Seq::new(files@.len(), |i: int| StatusModel::Pending));
        r
    }

    /// The number of files.
    pub fn len(&self) -> (r: usize)
        ensures
            r == self@.statuses.len(),
    {
        self.statuses.len()
    }

    /// Records the status of file `idx`.
    pub fn set(&mut self, idx: usize, status: Status)
        requires
            progress_wf(old(self)@),
            idx < old(self)@.statuses.len(),
        ensures
            progress_wf(final(self)@),
            final(self)@ == (ProgressModel { statuses: old(self)@.statuses.update(idx as int, status@), ..old(self)@ }),
    {
        let ghost st = status@;
        self.statuses.set(idx, status);
        assert(self@.statuses =~= old(self)@.statuses.update(idx as int, st));
    }

    /// The display line of file `i`.
    fn line(&self, i: usize) -> (r: ProgressLine)
        requires
            i < self.statuses.len(),
            self.names.len() == self.statuses.len(),
        ensures
            r@ == line_of(self@, i as int),
    {
        let kind = match &self.statuses[i] {
            Status::Done { avif_bytes, .. } => LineKind::Done { kb: *avif_bytes / 1024 },
            Status::Failed(msg) => LineKind::Failed(msg.clone()),
            _ => LineKind::Processing,
        };
        ProgressLine { number: i + 1, name: self.names[i].clone(), kind }
    }

    /// Renders the display: see `RenderPlan` for what is drawn. Finished
    /// files at the front are printed once and pass behind the front; the
    /// started files after them are drawn as in progress, up to the first
    /// pending one.
    pub fn render(&mut self) -> (plan: RenderPlan)
        requires
            progress_wf(old(self)@),
        ensures
            progress_wf(final(self)@),
            final(self)@ == rendered(old(self)@),
            plan.erase == old(self)@.active_lines,
            plan.total == old(self)@.statuses.len(),
            plan.width == decimal_digits(old(self)@.statuses.len()),
            lines_view(plan.finished@) == lines_between(
                old(self)@,
                old(self)@.flushed,
                rendered(old(self)@).flushed,
            ),
            lines_view(plan.active@) == lines_between(
                old(self)@,
                rendered(old(self)@).flushed,
                rendered(old(self)@).flushed + rendered(old(self)@).active_lines,
            ),
    {
        proof {
            lemma_finished_end_bounds(self@.statuses, self@.flushed);
        }
        let ghost m = self@;
        let total = self.statuses.len();
        let erase = self.active_lines;
        let mut finished: Vec<ProgressLine> = Vec::new();
        let mut k = self.flushed;
        while k < total && self.statuses[k].is_finished()
            invariant
                self@ == m,
                total == m.statuses.len(),
                m.names.len() == m.statuses.len(),
                self.names.len() == self.statuses.len(),
                m.flushed <= k <= finished_end(m.statuses, m.flushed),
                finished_end(m.statuses, k as nat) == finished_end(m.statuses, m.flushed),
                lines_view(finished@) == lines_between(m, m.flushed, k as nat),
            decreases total - k,
        {
            assert(m.statuses[k as int] == self.statuses@[k as int]@);
            let line = self.line(k);
            let ghost before = finished@;
            finished.push(line);
            assert(lines_view(finished@) =~= lines_view(before).push(line_of(m, k as int)));
            proof {
                lemma_finished_end_bounds(m.statuses, (k + 1) as nat);
            }
            k = k + 1;
            assert(lines_view(finished@) =~= lines_between(m, m.flushed, k as nat));
        }
        let f = k;
        proof {
            lemma_started_end_bounds(m.statuses, f as nat);
        }
        let mut active: Vec<ProgressLine> = Vec::new();
        let mut j = f;
        while j < total && !self.statuses[j].is_pending()
            invariant
                self@ == m,
                total == m.statuses.len(),
                m.names.len() == m.statuses.len(),
                self.names.len() == self.statuses.len(),
                f <= j <= started_end(m.statuses, f as nat),
                started_end(m.statuses, j as nat) == started_end(m.statuses, f as nat),
                lines_view(active@) == lines_between(m, f as nat, j as nat),
            decreases total - j,
        {
            assert(m.statuses[j as int] == self.statuses@[j as int]@);
            let line = self.line(j);
            let ghost before = active@;
            active.push(line);
            assert(lines_view(active@) =~= lines_view(before).push(line_of(m, j as int)));
            proof {
                lemma_started_end_bounds(m.statuses, (j + 1) as nat);
            }
            j = j + 1;
            assert(lines_view(active@) =~= lines_between(m, f as nat, j as nat));
        }
        self.flushed = f;
        self.active_lines = j - f;
        RenderPlan { erase, total, width: digit_count(total), finished, active }
    }
}


/// The number of converted files.
pub open spec fn done_count(s: Seq<StatusModel>) -> nat
    decreases s.len(),
{
    if s.len() == 0 {
        0
    } else {
        done_count(s.drop_last()) + if s.last() is Done { 1nat } else { 0nat }
    }
}

/// The total size of the originals of the converted files.
pub open spec fn done_orig_total(s: Seq<StatusModel>) -> nat
    decreases s.len(),
{
    if s.len() == 0 {
        0
    } else {
        done_orig_total(s.drop_last()) + match s.last() {
            StatusModel::Done { orig_bytes, .. } => orig_bytes as nat,
            _ => 0nat,
        }
    }
}

/// The total size of the AVIF files written.
pub open spec fn done_avif_total(s: Seq<StatusModel>) -> nat
    decreases s.len(),
{
    if s.len() == 0 {
        0
    } else {
        done_avif_total(s.drop_last()) + match s.last() {
            StatusModel::Done { avif_bytes, .. } => avif_bytes as nat,
            _ => 0nat,
        }
    }
}

/// The closing summary of a batch.
pub struct Summary {
    /// Files converted.
    pub count: u64,
    /// Total size of their originals, in bytes.
    pub orig_total: u64,
    /// Total size of the AVIF files, in bytes.
    pub avif_total: u64,
    /// Bytes saved (never below zero).
    pub saved: u64,
    /// Bytes saved, as a whole percentage of the originals (rounded down).
    pub percent: u64,
    /// Whether the sizes are shown in megabytes (originals over one
    /// megabyte) rather than kilobytes.
    pub in_megabytes: bool,
    /// The three sizes in kilobytes (rounded down).
    pub orig_kb: u64,
    pub avif_kb: u64,
    pub saved_kb: u64,
}

/// Why no summary could be computed.
#[derive(Clone, Copy, PartialEq, Eq, Structural, Debug)]
pub enum SummaryError {
    /// A total does not fit in 64 bits.
    Overflow,
}

/// The summary of a batch: none unless some file was converted and the
/// originals had some size; an error where a total, or the saved bytes
/// times one hundred, exceed 64 bits.
pub open spec fn summary_of(s: Seq<StatusModel>) -> Result<Option<Summary>, SummaryError> {
    let c = done_count(s);
    let o = done_orig_total(s);
    let a = done_avif_total(s);
    if o > u64::MAX || a > u64::MAX {
        Err(SummaryError::Overflow)
    } else if c == 0 || o == 0 {
        Ok(None)
    } else {
        let saved: nat = if o >= a { (o - a) as nat } else { 0 };
        if saved * 100 > u64::MAX {
            Err(SummaryError::Overflow)
        } else {
            Ok(
                Some(
                    Summary {
                        count: c as u64,
                        orig_total: o as u64,
                        avif_total: a as u64,
                        saved: saved as u64,
                        percent: (saved * 100 / o) as u64,
                        in_megabytes: o > 1048576,
                        orig_kb: (o / 1024) as u64,
                        avif_kb: (a / 1024) as u64,
                        saved_kb: (saved / 1024) as u64,
                    },
                ),
            )
        }
    }
}

proof fn lemma_totals_monotone(s: Seq<StatusModel>, i: int)
    requires
        0 <= i <= s.len(),
    ensures
        done_orig_total(s.take(i)) <= done_orig_total(s),
        done_avif_total(s.take(i)) <= done_avif_total(s),
        done_count(s.take(i)) <= done_count(s),
        done_count(s) <= s.len(),
    decreases s.len(),
{
    if s.len() > 0 {
        if i == s.len() {
            assert(s.take(i) =~= s);
            lemma_totals_monotone(s.drop_last(), i - 1);
        } else {
            assert(s.drop_last().take(i) =~= s.take(i));
            lemma_totals_monotone(s.drop_last(), i);
        }
    }
}

/// The saved share never exceeds the whole: the percentage is at most one
/// hundred, and the saved bytes at most the originals' size.
pub proof fn lemma_summary_percent_bounded(s: Seq<StatusModel>)
    ensures
        summary_of(s) matches Ok(Some(sm)) ==> sm.percent <= 100 && sm.saved <= sm.orig_total,
{
    if let Ok(Some(sm)) = summary_of(s) {
        let o = done_orig_total(s);
        let a = done_avif_total(s);
        let saved: nat = if o >= a { (o - a) as nat } else { 0 };
        assert(saved <= o);
        assert(saved * 100 / o <= 100) by (nonlinear_arith)
            requires
                saved <= o,
                o > 0,
        {
            assert(saved * 100 <= o * 100);
        }
    }
}

impl Progress {
    /// The closing summary of the batch (see `summary_of`).
    pub fn summary(&self) -> (r: Result<Option<Summary>, SummaryError>)
        ensures
            r == summary_of(self@.statuses),
    {
        let ghost st = self@.statuses;
        let n = self.statuses.len();
        let mut orig_total: u64 = 0;
        let mut avif_total: u64 = 0;
        let mut count: u64 = 0;
        let mut overflow = false;
        let mut i: usize = 0;
        while i < n
            invariant
                n == st.len(),
                st == self@.statuses,
                i <= n,
                !overflow ==> orig_total == done_orig_total(st.take(i as int)),
                !overflow ==> avif_total == done_avif_total(st.take(i as int)),
                !overflow ==> count == done_count(st.take(i as int)),
                overflow ==> done_orig_total(st) > u64::MAX || done_avif_total(st) > u64::MAX,
            decreases n - i,
        {
            proof {
                lemma_totals_monotone(st, i + 1);
                assert(st.take(i + 1).drop_last() =~= st.take(i as int));
                assert(st.take(i + 1).last() == self.statuses@[i as int]@);
            }
            if !overflow {
                match &self.statuses[i] {
                    Status::Done { orig_bytes, avif_bytes } => {
                        let o = orig_total.checked_add(*orig_bytes);
                        let a = avif_total.checked_add(*avif_bytes as u64);
                        match (o, a) {
                            (Some(o), Some(a)) => {
                                orig_total = o;
                                avif_total = a;
                                count = count + 1;
                            },
                            _ => {
                                overflow = true;
                            },
                        }
                    },
                    _ => {},
                }
            }
            i = i + 1;
        }
        proof {
            assert(st.take(n as int) =~= st);
        }
        if overflow {
            return Err(SummaryError::Overflow);
        }
        if count == 0 || orig_total == 0 {
            return Ok(None);
        }
        let saved = orig_total.saturating_sub(avif_total);
        match saved.checked_mul(100) {
            Some(hundredfold) => Ok(
                Some(
                    Summary {
                        count,
                        orig_total,
                        avif_total,
                        saved,
                        percent: hundredfold / orig_total,
                        in_megabytes: orig_total > 1048576,
                        orig_kb: orig_total / 1024,
                        avif_kb: avif_total / 1024,
                        saved_kb: saved / 1024,
                    },
                ),
            ),
            None => Err(SummaryError::Overflow),
        }
    }
}


/// One operation on the display.
pub enum DisplayOp {
    /// `Progress::set` of file `idx`.
    SetStatus(nat, StatusModel),
    /// `Progress::render`.
    Render,
}

/// The display state after one operation.
pub open spec fn after_op(m: ProgressModel, op: DisplayOp) -> ProgressModel {
    match op {
        DisplayOp::SetStatus(idx, st) => if idx < m.statuses.len() {
            ProgressModel { statuses: m.statuses.update(idx as int, st), ..m }
        } else {
            m
        },
        DisplayOp::Render => rendered(m),
    }
}

/// The files that one operation prints as finished.
pub open spec fn printed_by(m: ProgressModel, op: DisplayOp) -> Seq<nat> {
    match op {
        DisplayOp::SetStatus(..) => Seq::empty(),
        DisplayOp::Render => Seq::new(
            (rendered(m).flushed - m.flushed) as nat,
            |k: int| (m.flushed + k) as nat,
        ),
    }
}

/// The display state after a sequence of operations.
pub open spec fn after_ops(m: ProgressModel, ops: Seq<DisplayOp>) -> ProgressModel
    decreases ops.len(),
{
    if ops.len() == 0 {
        m
    } else {
        after_op(after_ops(m, ops.drop_last()), ops.last())
    }
}

/// The files printed as finished over a sequence of operations, in order.
pub open spec fn printed_by_ops(m: ProgressModel, ops: Seq<DisplayOp>) -> Seq<nat>
    decreases ops.len(),
{
    if ops.len() == 0 {
        Seq::empty()
    } else {
        printed_by_ops(m, ops.drop_last()) + printed_by(after_ops(m, ops.drop_last()), ops.last())
    }
}

/// A render keeps the state well-formed, never moves the printed front back,
/// and moves it only past finished files.
pub proof fn lemma_render_front(m: ProgressModel)
    requires
        progress_wf(m),
    ensures
        progress_wf(rendered(m)),
        m.flushed <= rendered(m).flushed,
        forall|k: int| m.flushed <= k < rendered(m).flushed ==> is_finished(#[trigger] m.statuses[k]),
        rendered(m).flushed + rendered(m).active_lines <= m.statuses.len(),
{
    lemma_finished_end_bounds(m.statuses, m.flushed);
    lemma_started_end_bounds(m.statuses, finished_end(m.statuses, m.flushed));
}

/// Over any sequence of status changes and renders, finished files are
/// printed in order and each at most once: the printed indices strictly
/// increase, starting at the front and ending before the current front.
pub proof fn lemma_finished_printed_once(m: ProgressModel, ops: Seq<DisplayOp>)
    requires
        progress_wf(m),
    ensures
        progress_wf(after_ops(m, ops)),
        m.flushed <= after_ops(m, ops).flushed,
        forall|i: int| 0 <= i < printed_by_ops(m, ops).len() ==> m.flushed <= #[trigger] printed_by_ops(m, ops)[i] < after_ops(m, ops).flushed,
        forall|i: int, j: int| 0 <= i < j < printed_by_ops(m, ops).len() ==> #[trigger] printed_by_ops(m, ops)[i] < #[trigger] printed_by_ops(m, ops)[j],
    decreases ops.len(),
{
    if ops.len() > 0 {
        let prev = after_ops(m, ops.drop_last());
        lemma_finished_printed_once(m, ops.drop_last());
        let old_printed = printed_by_ops(m, ops.drop_last());
        let new_printed = printed_by(prev, ops.last());
        assert(printed_by_ops(m, ops) == old_printed + new_printed);
        match ops.last() {
            DisplayOp::SetStatus(..) => {
                assert(old_printed + new_printed =~= old_printed);
            },
            DisplayOp::Render => {
                lemma_render_front(prev);
                assert forall|i: int, j: int| 0 <= i < j < printed_by_ops(m, ops).len() implies #[trigger] printed_by_ops(m, ops)[i] < #[trigger] printed_by_ops(m, ops)[j] by {
                    if j >= old_printed.len() && i < old_printed.len() {
                        assert(old_printed[i] < prev.flushed);
                        assert(new_printed[j - old_printed.len()] >= prev.flushed);
                    }
                }
            },
        }
    }
}

/// Status changes leave the printed front and the count of lines in progress
/// alone, so the next render erases exactly the lines that the last render
/// drew as in progress.
pub proof fn lemma_sets_keep_drawn_lines(m: ProgressModel, ops: Seq<DisplayOp>)
    requires
        forall|i: int| 0 <= i < ops.len() ==> #[trigger] ops[i] is SetStatus,
    ensures
        after_ops(m, ops).flushed == m.flushed,
        after_ops(m, ops).active_lines == m.active_lines,
        after_ops(m, ops).names == m.names,
        after_ops(m, ops).statuses.len() == m.statuses.len(),
    decreases ops.len(),
{
    if ops.len() > 0 {
        assert(ops.last() == ops[ops.len() - 1]);
        lemma_sets_keep_drawn_lines(m, ops.drop_last());
    }
}


/// Every display line shows its own file: the `k`-th line drawn for files
/// `lo..hi` is file `lo + k`, numbered `lo + k + 1`, under that file's own
/// name, whatever the printed front is; a done file shows its AVIF size in
/// kilobytes, a failed one its message, any other one as in progress.
pub proof fn lemma_lines_show_their_file(m: ProgressModel, lo: nat, hi: nat, k: int)
    requires
        progress_wf(m),
        lo <= hi <= m.statuses.len(),
        0 <= k < hi - lo,
    ensures
        lines_between(m, lo, hi).len() == hi - lo,
        lines_between(m, lo, hi)[k].number == lo + k + 1,
        lines_between(m, lo, hi)[k].name == m.names[lo + k],
        m.statuses[lo + k] matches StatusModel::Done { avif_bytes, .. } ==> lines_between(m, lo, hi)[k].kind
            == (LineKindModel::Done { kb: (avif_bytes / 1024) as nat }),
        m.statuses[lo + k] matches StatusModel::Failed(msg) ==> lines_between(m, lo, hi)[k].kind
            == LineKindModel::Failed(msg),
        (m.statuses[lo + k] is Processing || m.statuses[lo + k] is Pending) ==> lines_between(m, lo, hi)[k].kind
            is Processing,
{
}

/// What a render draws, file by file: the finished lines are files
/// `flushed..f` and the lines in progress files `f..f + active`, each line
/// naming and numbering its own file.
pub proof fn lemma_render_lines_name_their_files(m: ProgressModel, k: int)
    requires
        progress_wf(m),
    ensures
        0 <= k < rendered(m).flushed - m.flushed ==> lines_between(m, m.flushed, rendered(m).flushed)[k].name
            == m.names[m.flushed + k] && lines_between(m, m.flushed, rendered(m).flushed)[k].number
            == m.flushed + k + 1,
        0 <= k < rendered(m).active_lines ==> lines_between(
            m,
            rendered(m).flushed,
            rendered(m).flushed + rendered(m).active_lines,
        )[k].name == m.names[rendered(m).flushed + k] && lines_between(
            m,
            rendered(m).flushed,
            rendered(m).flushed + rendered(m).active_lines,
        )[k].number == rendered(m).flushed + k + 1,
{
    lemma_render_front(m);
    if 0 <= k < rendered(m).flushed - m.flushed {
        lemma_lines_show_their_file(m, m.flushed, rendered(m).flushed, k);
    }
    if 0 <= k < rendered(m).active_lines {
        lemma_lines_show_their_file(m, rendered(m).flushed, rendered(m).flushed + rendered(m).active_lines, k);
    }
}

} // verus!
