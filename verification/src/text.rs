//! Character-level helpers on strings, with their meaning stated over `Seq<char>`.

use vstd::prelude::*;

verus! {

/// ASCII lower-casing of one character; every other character is unchanged.
pub open spec fn ascii_lower(c: char) -> char {
    if 'A' <= c && c <= 'Z' {
        (((c as u8) + 32) as u8) as char
    } else {
        c
    }
}

/// ASCII lower-casing of a whole string.
pub open spec fn ascii_lower_seq(s: Seq<char>) -> Seq<char> {
    s.map_values(|c: char| ascii_lower(c))
}

/// `s` with every leading `'+'` removed.
pub open spec fn strip_leading_plus(s: Seq<char>) -> Seq<char>
    decreases s.len(),
{
    if s.len() > 0 && s[0] == '+' {
        strip_leading_plus(s.drop_first())
    } else {
        s
    }
}

/// Calls `String::push`. Claimed: the string's text afterwards is its text
/// before with `c` appended.
#[verifier::external_body]
pub(crate) fn push_char(s: &mut String, c: char)
    ensures
        final(s)@ == old(s)@.push(c),
{
    s.push(c);
}

/// Lower-cases one character the way `char::to_ascii_lowercase` does.
pub fn lower_char(c: char) -> (r: char)
    ensures
        r == ascii_lower(c),
{
    if 'A' <= c && c <= 'Z' {
        ((c as u8) + 32) as char
    } else {
        c
    }
}

/// Whether two strings hold the same characters.
pub fn str_equals(a: &str, b: &str) -> (r: bool)
    ensures
        r == (a@ == b@),
{
    let n = a.unicode_len();
    let m = b.unicode_len();
    if n != m {
        return false;
    }
    let mut i: usize = 0;
    while i < n
        invariant
            n == a@.len(),
            m == b@.len(),
            n == m,
            i <= n,
            forall|j: int| 0 <= j < i ==> a@[j] == b@[j],
        decreases n - i,
    {
        if a.get_char(i) != b.get_char(i) {
            return false;
        }
        i = i + 1;
    }
    assert(a@ =~= b@);
    true
}

/// The ASCII lower-case copy of `s` (`str::to_ascii_lowercase`).
pub fn to_ascii_lowercase(s: &str) -> (r: String)
    ensures
        r@ == ascii_lower_seq(s@),
{
    let n = s.unicode_len();
    let mut out = String::new();
    let mut i: usize = 0;
    while i < n
        invariant
            n == s@.len(),
            i <= n,
            out@ =~= ascii_lower_seq(s@.take(i as int)),
        decreases n - i,
    {
        let c = lower_char(s.get_char(i));
        push_char(&mut out, c);
        i = i + 1;
        assert(ascii_lower_seq(s@.take(i as int)) =~= ascii_lower_seq(s@.take(i - 1)).push(c));
    }
    assert(s@.take(n as int) =~= s@);
    out
}

/// Whether `a` and `b` are equal once both are lower-cased as ASCII
/// (`str::eq_ignore_ascii_case`).
pub fn eq_ignore_ascii_case(a: &str, b: &str) -> (r: bool)
    ensures
        r == (ascii_lower_seq(a@) == ascii_lower_seq(b@)),
{
    let n = a.unicode_len();
    let m = b.unicode_len();
    if n != m {
        assert(ascii_lower_seq(a@).len() != ascii_lower_seq(b@).len());
        return false;
    }
    let mut i: usize = 0;
    while i < n
        invariant
            n == a@.len(),
            m == b@.len(),
            n == m,
            i <= n,
            forall|j: int| 0 <= j < i ==> ascii_lower(a@[j]) == ascii_lower(b@[j]),
        decreases n - i,
    {
        if lower_char(a.get_char(i)) != lower_char(b.get_char(i)) {
            assert(ascii_lower_seq(a@)[i as int] != ascii_lower_seq(b@)[i as int]);
            return false;
        }
        i = i + 1;
    }
    assert(ascii_lower_seq(a@) =~= ascii_lower_seq(b@));
    true
}

/// `s` without its leading `'+'` characters (`str::trim_start_matches('+')`).
pub fn trim_leading_plus(s: &str) -> (r: String)
    ensures
        r@ == strip_leading_plus(s@),
{
    let n = s.unicode_len();
    let mut i: usize = 0;
    assert(s@.skip(0) =~= s@);
    while i < n && s.get_char(i) == '+'
        invariant
            n == s@.len(),
            i <= n,
            strip_leading_plus(s@) == strip_leading_plus(s@.skip(i as int)),
        decreases n - i,
    {
        assert(s@.skip(i as int).drop_first() =~= s@.skip(i + 1));
        i = i + 1;
    }
    let rest = s.substring_char(i, n);
    assert(rest@ =~= s@.skip(i as int));
    String::from_str(rest)
}

} // verus!
