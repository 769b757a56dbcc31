//! The AppleScript that moves a file to the Finder's trash, with the file's
//! path quoted as an AppleScript string literal.

use vstd::prelude::*;
use crate::text::push_char;

verus! {

/// How one character is written inside a string literal: a backslash and a
/// double quote are preceded by a backslash.
pub open spec fn escape_char(c: char) -> Seq<char> {
    if c == '\\' {
        seq!['\\', '\\']
    } else if c == '"' {
        seq!['\\', '"']
    } else {
        seq![c]
    }
}

/// A text written inside a string literal.
pub open spec fn escaped(s: Seq<char>) -> Seq<char>
    decreases s.len(),
{
    if s.len() == 0 {
        Seq::empty()
    } else {
        escape_char(s[0]) + escaped(s.drop_first())
    }
}

/// The text that a string literal's body stands for: a backslash takes the
/// next character literally.
pub open spec fn unescaped(t: Seq<char>) -> Seq<char>
    decreases t.len(),
{
    if t.len() == 0 {
        Seq::empty()
    } else if t[0] == '\\' && t.len() >= 2 {
        seq![t[1]] + unescaped(t.skip(2))
    } else {
        seq![t[0]] + unescaped(t.skip(1))
    }
}

/// Whether `t` can stand inside double quotes without ending the literal
/// early: no double quote that is not taken by a backslash, and no backslash
/// left without a character to take.
pub open spec fn stays_inside_quotes(t: Seq<char>) -> bool
    decreases t.len(),
{
    if t.len() == 0 {
        true
    } else if t[0] == '\\' {
        t.len() >= 2 && stays_inside_quotes(t.skip(2))
    } else {
        t[0] != '"' && stays_inside_quotes(t.skip(1))
    }
}

proof fn lemma_escaped_push(s: Seq<char>, c: char)
    ensures
        escaped(s.push(c)) == escaped(s) + escape_char(c),
    decreases s.len(),
{
    if s.len() == 0 {
        assert(s.push(c).drop_first() =~= Seq::<char>::empty());
        assert(s.push(c)[0] == c);
        assert(escaped(Seq::<char>::empty()) == Seq::<char>::empty());
        assert(escaped(s) == Seq::<char>::empty());
        assert(escaped(s.push(c)) =~= escape_char(c));
    } else {
        assert(s.push(c).drop_first() =~= s.drop_first().push(c));
        lemma_escaped_push(s.drop_first(), c);
        assert(escaped(s.push(c)) =~= escaped(s) + escape_char(c));
    }
}

/// Reading an escaped text back gives the text: the quoting loses nothing
/// and adds nothing.
pub proof fn lemma_escape_round_trip(s: Seq<char>)
    ensures
        unescaped(escaped(s)) == s,
    decreases s.len(),
{
    if s.len() > 0 {
        let c = s[0];
        let rest = escaped(s.drop_first());
        lemma_escape_round_trip(s.drop_first());
        let t = escape_char(c) + rest;
        if c == '\\' || c == '"' {
            assert(t.skip(2) =~= rest);
            assert(unescaped(t) =~= seq![c] + unescaped(rest));
        } else {
            assert(t.skip(1) =~= rest);
            assert(unescaped(t) =~= seq![c] + unescaped(rest));
        }
        assert(s =~= seq![c] + s.drop_first());
    }
}

/// An escaped text never ends the string literal that holds it.
pub proof fn lemma_escaped_stays_inside_quotes(s: Seq<char>)
    ensures
        stays_inside_quotes(escaped(s)),
    decreases s.len(),
{
    if s.len() > 0 {
        let c = s[0];
        let rest = escaped(s.drop_first());
        lemma_escaped_stays_inside_quotes(s.drop_first());
        let t = escape_char(c) + rest;
        if c == '\\' || c == '"' {
            assert(t.skip(2) =~= rest);
        } else {
            assert(t.skip(1) =~= rest);
        }
    }
}

/// The character that AppleScript reads for a backslash followed by `c`:
/// `\n`, `\r` and `\t` stand for control characters, anything else for itself.
pub open spec fn applescript_escape_value(c: char) -> char {
    if c == 'n' {
        '\n'
    } else if c == 'r' {
        '\r'
    } else if c == 't' {
        '\t'
    } else {
        c
    }
}

/// The text that AppleScript reads from the body of a string literal.
pub open spec fn applescript_read(t: Seq<char>) -> Seq<char>
    decreases t.len(),
{
    if t.len() == 0 {
        Seq::empty()
    } else if t[0] == '\\' && t.len() >= 2 {
        seq![applescript_escape_value(t[1])] + applescript_read(t.skip(2))
    } else {
        seq![t[0]] + applescript_read(t.skip(1))
    }
}

/// Quoting changes only backslashes and double quotes: a text without either
/// is written unchanged.
pub proof fn lemma_plain_text_unchanged(s: Seq<char>)
    requires
        forall|i: int| 0 <= i < s.len() ==> #[trigger] s[i] != '\\' && s[i] != '"',
    ensures
        escaped(s) == s,
    decreases s.len(),
{
    if s.len() > 0 {
        assert forall|i: int| 0 <= i < s.drop_first().len() implies #[trigger] s.drop_first()[i] != '\\'
            && s.drop_first()[i] != '"' by {
            assert(s.drop_first()[i] == s[i + 1]);
        }
        lemma_plain_text_unchanged(s.drop_first());
        assert(s =~= seq![s[0]] + s.drop_first());
    }
}

/// AppleScript, reading the quoted path with its own escapes (where `\t`,
/// `\n` and `\r` are control characters), gets back exactly the path.
pub proof fn lemma_applescript_reads_path(s: Seq<char>)
    ensures
        applescript_read(escaped(s)) == s,
    decreases s.len(),
{
    if s.len() > 0 {
        let c = s[0];
        let rest = escaped(s.drop_first());
        lemma_applescript_reads_path(s.drop_first());
        let t = escape_char(c) + rest;
        if c == '\\' || c == '"' {
            assert(t.skip(2) =~= rest);
            assert(applescript_read(t) =~= seq![c] + applescript_read(rest));
        } else {
            assert(t.skip(1) =~= rest);
            assert(applescript_read(t) =~= seq![c] + applescript_read(rest));
        }
        assert(s =~= seq![c] + s.drop_first());
    }
}

/// `s` written inside an AppleScript string literal
/// (`s.replace('\\', "\\\\").replace('"', "\\\"")`).
pub fn escape_applescript(s: &str) -> (r: String)
    ensures
        r@ == escaped(s@),
{
    let n = s.unicode_len();
    let mut out = String::new();
    let mut i: usize = 0;
    while i < n
        invariant
            n == s@.len(),
            i <= n,
            out@ == escaped(s@.take(i as int)),
        decreases n - i,
    {
        let c = s.get_char(i);
        proof {
            assert(s@.take(i + 1) =~= s@.take(i as int).push(c));
            lemma_escaped_push(s@.take(i as int), c);
        }
        if c == '\\' {
            push_char(&mut out, '\\');
            push_char(&mut out, '\\');
        } else if c == '"' {
            push_char(&mut out, '\\');
            push_char(&mut out, '"');
        } else {
            push_char(&mut out, c);
        }
        assert(out@ =~= escaped(s@.take(i + 1)));
        i = i + 1;
    }
    assert(s@.take(n as int) =~= s@);
    out
}

/// The script that tells the Finder to delete the file at `posix_path`.
pub open spec fn trash_script_text(posix_path: Seq<char>) -> Seq<char> {
    "tell application \"Finder\" to delete (POSIX file \""@ + escaped(posix_path) + "\" as alias)"@
}

/// The AppleScript that moves the file at `posix_path` (an absolute path) to
/// the trash.
pub fn trash_script(posix_path: &str) -> (r: String)
    ensures
        r@ == trash_script_text(posix_path@),
{
    let quoted = escape_applescript(posix_path);
    let mut script = String::from_str("tell application \"Finder\" to delete (POSIX file \"");
    script.append(quoted.as_str());
    script.append("\" as alias)");
    script
}

} // verus!
