//! The text that a render of the progress display writes to the terminal.

use vstd::prelude::*;
use crate::progress::{lines_view, LineKind, LineKindModel, LineModel, ProgressLine, RenderPlan};
use crate::text::push_char;

verus! {

/// The character of a decimal digit.
pub open spec fn digit_char(d: nat) -> char {
    ((d + 48) as u8) as char
}

/// The decimal text of `n` (`n.to_string()`).
pub open spec fn decimal(n: nat) -> Seq<char>
    decreases n,
{
    if n < 10 {
        seq![digit_char(n)]
    } else {
        decimal(n / 10).push(digit_char(n % 10))
    }
}

/// `count` spaces.
pub open spec fn spaces(count: nat) -> Seq<char> {
    Seq::new(count, |i: int| ' ')
}

/// The decimal text of `n`, right-aligned to `width` characters
/// (`format!("{n:>width$}")`).
pub open spec fn padded(n: nat, width: nat) -> Seq<char> {
    if decimal(n).len() < width {
        spaces((width - decimal(n).len()) as nat) + decimal(n)
    } else {
        decimal(n)
    }
}

/// The colour that starts a line: yellow in progress, green done, red failed.
pub open spec fn line_color(k: LineKindModel) -> Seq<char> {
    match k {
        LineKindModel::Processing => "\x1b[33m"@,
        LineKindModel::Done { .. } => "\x1b[32m"@,
        LineKindModel::Failed(_) => "\x1b[31m"@,
    }
}

/// What follows the file's name on a line.
pub open spec fn line_tail(k: LineKindModel) -> Seq<char> {
    match k {
        LineKindModel::Processing => " →"@,
        LineKindModel::Done { kb } => " → "@ + decimal(kb) + "KB"@,
        LineKindModel::Failed(msg) => " FAIL: "@ + msg,
    }
}

/// The text of one line: erase the terminal line, colour, the file's number
/// aligned to `width`, `/total`, the name and what it says, reset.
pub open spec fn line_text(l: LineModel, width: nat, total: nat) -> Seq<char> {
    "\x1b[2K"@ + line_color(l.kind) + padded(l.number, width) + "/"@ + decimal(total) + " "@ + l.name
        + line_tail(l.kind) + "\x1b[0m\n"@
}

/// The text of several lines, in order.
pub open spec fn lines_text(ls: Seq<LineModel>, width: nat, total: nat) -> Seq<char>
    decreases ls.len(),
{
    if ls.len() == 0 {
        Seq::empty()
    } else {
        lines_text(ls.drop_last(), width, total) + line_text(ls.last(), width, total)
    }
}

/// `count` erased terminal lines.
pub open spec fn erased_lines(count: nat) -> Seq<char>
    decreases count,
{
    if count == 0 {
        Seq::empty()
    } else {
        erased_lines((count - 1) as nat) + "\x1b[2K\n"@
    }
}

/// The text that moves up over `count` lines, erases them, and moves back up;
/// nothing when there are none.
pub open spec fn erase_text(count: nat) -> Seq<char> {
    if count == 0 {
        Seq::empty()
    } else {
        "\x1b["@ + decimal(count) + "A"@ + erased_lines(count) + "\x1b["@ + decimal(count) + "A"@
    }
}

/// The whole text of a render.
pub open spec fn plan_text(
    erase: nat,
    finished: Seq<LineModel>,
    active: Seq<LineModel>,
    width: nat,
    total: nat,
) -> Seq<char> {
    erase_text(erase) + lines_text(finished, width, total) + lines_text(active, width, total)
}

/// Appends the decimal text of `n`.
pub fn push_decimal(out: &mut String, n: usize)
    ensures
        final(out)@ == old(out)@ + decimal(n as nat),
    decreases n,
{
    if n >= 10 {
        push_decimal(out, n / 10);
    }
    let d = (n % 10) as u8;
    let c = (d + 48) as char;
    assert(c == digit_char((n % 10) as nat));
    push_char(out, c);
    proof {
        if n >= 10 {
            assert(final(out)@ =~= old(out)@ + decimal(n as nat));
        } else {
            assert(final(out)@ =~= old(out)@ + decimal(n as nat));
        }
    }
}

proof fn lemma_decimal_len(n: nat)
    ensures
        decimal(n).len() >= 1,
    decreases n,
{
    if n >= 10 {
        lemma_decimal_len(n / 10);
    }
}

/// Appends the decimal text of `n` right-aligned to `width` characters.
pub fn push_padded(out: &mut String, n: usize, width: usize)
    ensures
        final(out)@ == old(out)@ + padded(n as nat, width as nat),
{
    let mut digits = String::new();
    push_decimal(&mut digits, n);
    assert(digits@ =~= decimal(n as nat));
    let len = digits.unicode_len();
    if len < width {
        let mut k: usize = 0;
        while k < width - len
            invariant
                len < width,
                k <= width - len,
                out@ == old(out)@ + spaces(k as nat),
            decreases width - len - k,
        {
            push_char(out, ' ');
            k = k + 1;
            assert(out@ =~= old(out)@ + spaces(k as nat));
        }
    }
    out.append(digits.as_str());
    assert(out@ =~= old(out)@ + padded(n as nat, width as nat));
}

/// Appends the text of one line.
pub fn push_line(out: &mut String, line: &ProgressLine, width: usize, total: usize)
    ensures
        final(out)@ == old(out)@ + line_text(line@, width as nat, total as nat),
{
    out.append("\x1b[2K");
    match &line.kind {
        LineKind::Processing => out.append("\x1b[33m"),
        LineKind::Done { .. } => out.append("\x1b[32m"),
        LineKind::Failed(_) => out.append("\x1b[31m"),
    }
    push_padded(out, line.number, width);
    out.append("/");
    push_decimal(out, total);
    out.append(" ");
    out.append(line.name.as_str());
    match &line.kind {
        LineKind::Processing => out.append(" →"),
        LineKind::Done { kb } => {
            out.append(" → ");
            push_decimal(out, *kb);
            out.append("KB");
        },
        LineKind::Failed(msg) => {
            out.append(" FAIL: ");
            out.append(msg.as_str());
        },
    }
    out.append("\x1b[0m\n");
    assert(out@ =~= old(out)@ + line_text(line@, width as nat, total as nat));
}

/// Appends the text of several lines.
pub fn push_lines(out: &mut String, lines: &Vec<ProgressLine>, width: usize, total: usize)
    ensures
        final(out)@ == old(out)@ + lines_text(lines_view(lines@), width as nat, total as nat),
{
    let n = lines.len();
    let mut i: usize = 0;
    while i < n
        invariant
            n == lines@.len(),
            i <= n,
            out@ == old(out)@ + lines_text(lines_view(lines@.take(i as int)), width as nat, total as nat),
        decreases n - i,
    {
        let ghost before = out@;
        push_line(out, &lines[i], width, total);
        assert(lines_view(lines@.take(i + 1)).drop_last() =~= lines_view(lines@.take(i as int)));
        assert(lines_view(lines@.take(i + 1)).last() == lines@[i as int]@);
        i = i + 1;
        assert(out@ =~= old(out)@ + lines_text(lines_view(lines@.take(i as int)), width as nat, total as nat));
    }
    assert(lines@.take(n as int) =~= lines@);
}

impl RenderPlan {
    /// The text that this render writes to the terminal.
    pub fn text(&self) -> (r: String)
        ensures
            r@ == plan_text(
                self.erase as nat,
                lines_view(self.finished@),
                lines_view(self.active@),
                self.width as nat,
                self.total as nat,
            ),
    {
        let mut out = String::new();
        if self.erase > 0 {
            out.append("\x1b[");
            push_decimal(&mut out, self.erase);
            out.append("A");
            let mut k: usize = 0;
            while k < self.erase
                invariant
                    k <= self.erase,
                    out@ == "\x1b["@ + decimal(self.erase as nat) + "A"@ + erased_lines(k as nat),
                decreases self.erase - k,
            {
                out.append("\x1b[2K\n");
                k = k + 1;
                assert(out@ =~= "\x1b["@ + decimal(self.erase as nat) + "A"@ + erased_lines(k as nat));
            }
            out.append("\x1b[");
            push_decimal(&mut out, self.erase);
            out.append("A");
        }
        assert(out@ =~= erase_text(self.erase as nat));
        push_lines(&mut out, &self.finished, self.width, self.total);
        push_lines(&mut out, &self.active, self.width, self.total);
        assert(out@ =~= plan_text(
            self.erase as nat,
            lines_view(self.finished@),
            lines_view(self.active@),
            self.width as nat,
            self.total as nat,
        ));
        out
    }
}

} // verus!
