//! Choosing the images of a directory listing, in the order in which they
//! are converted: by the bytes of their paths.

use vstd::prelude::*;
use vstd::utf8::encode_utf8;
use crate::format::{is_supported_image, is_supported_path};

verus! {

broadcast use vstd::seq_lib::group_to_multiset_ensures;

/// Whether `a` comes strictly before `b` in the lexicographic order of bytes.
pub open spec fn bytes_lt(a: Seq<u8>, b: Seq<u8>) -> bool
    decreases a.len(),
{
    if a.len() == 0 {
        b.len() > 0
    } else if b.len() == 0 {
        false
    } else if a[0] != b[0] {
        a[0] < b[0]
    } else {
        bytes_lt(a.drop_first(), b.drop_first())
    }
}

/// The order of paths: by the bytes of their UTF-8 text. For the entries of
/// one directory, which share the directory's path, this is the order of
/// `std::path::PathBuf`.
pub open spec fn path_le(a: Seq<char>, b: Seq<char>) -> bool {
    !bytes_lt(encode_utf8(b), encode_utf8(a))
}

/// The paths as texts.
pub open spec fn strings_view(v: Seq<String>) -> Seq<Seq<char>> {
    v.map_values(|s: String| s@)
}

/// Whether the paths are in order.
pub open spec fn paths_sorted(v: Seq<Seq<char>>) -> bool {
    forall|i: int, j: int| 0 <= i < j < v.len() ==> #[trigger] path_le(v[i], v[j])
}

proof fn lemma_lt_irreflexive(a: Seq<u8>)
    ensures
        !bytes_lt(a, a),
    decreases a.len(),
{
    if a.len() > 0 {
        lemma_lt_irreflexive(a.drop_first());
    }
}

proof fn lemma_lt_transitive(a: Seq<u8>, b: Seq<u8>, c: Seq<u8>)
    requires
        bytes_lt(a, b),
        bytes_lt(b, c),
    ensures
        bytes_lt(a, c),
    decreases a.len(),
{
    if a.len() > 0 && b.len() > 0 && c.len() > 0 && a[0] == b[0] && b[0] == c[0] {
        lemma_lt_transitive(a.drop_first(), b.drop_first(), c.drop_first());
    }
}

proof fn lemma_lt_trichotomy(a: Seq<u8>, b: Seq<u8>)
    ensures
        bytes_lt(a, b) || bytes_lt(b, a) || a == b,
    decreases a.len(),
{
    if a.len() > 0 && b.len() > 0 && a[0] == b[0] {
        lemma_lt_trichotomy(a.drop_first(), b.drop_first());
        if a.drop_first() == b.drop_first() {
            assert(a =~= seq![a[0]] + a.drop_first());
            assert(b =~= seq![b[0]] + b.drop_first());
        }
    } else if a.len() == 0 && b.len() == 0 {
        assert(a =~= b);
    }
}

/// `path_le` is a total order on the texts of paths.
pub proof fn lemma_path_order_total(a: Seq<char>, b: Seq<char>, c: Seq<char>)
    ensures
        path_le(a, a),
        path_le(a, b) || path_le(b, a),
        path_le(a, b) && path_le(b, c) ==> path_le(a, c),
{
    let (x, y, z) = (encode_utf8(a), encode_utf8(b), encode_utf8(c));
    lemma_lt_irreflexive(x);
    if bytes_lt(x, y) && bytes_lt(y, x) {
        lemma_lt_transitive(x, y, x);
    }
    lemma_lt_trichotomy(x, y);
    lemma_lt_trichotomy(y, z);
    lemma_lt_trichotomy(x, z);
    if path_le(a, b) && path_le(b, c) && bytes_lt(z, x) {
        if bytes_lt(x, y) {
            lemma_lt_transitive(z, x, y);
            if bytes_lt(y, z) {
                lemma_lt_transitive(z, y, z);
                lemma_lt_irreflexive(z);
            } else {
                lemma_lt_irreflexive(z);
            }
        } else {
            if bytes_lt(y, z) {
                lemma_lt_irreflexive(x);
            } else {
                lemma_lt_irreflexive(x);
            }
        }
    }
}

/// Whether `a` comes strictly before `b` by their bytes.
pub fn bytes_less(a: &[u8], b: &[u8]) -> (r: bool)
    ensures
        r == bytes_lt(a@, b@),
{
    let n = a.len();
    let m = b.len();
    let mut i: usize = 0;
    assert(a@.skip(0) =~= a@);
    assert(b@.skip(0) =~= b@);
    loop
        invariant
            n == a@.len(),
            m == b@.len(),
            i <= n,
            i <= m,
            bytes_lt(a@, b@) == bytes_lt(a@.skip(i as int), b@.skip(i as int)),
        decreases n - i,
    {
        if i == n {
            return i < m;
        }
        if i == m {
            return false;
        }
        if a[i] != b[i] {
            return a[i] < b[i];
        }
        assert(a@.skip(i as int).drop_first() =~= a@.skip(i + 1));
        assert(b@.skip(i as int).drop_first() =~= b@.skip(i + 1));
        i = i + 1;
    }
}

/// Inserts a path into sorted paths, after the paths that do not come after it.
fn insert_sorted(v: &mut Vec<String>, x: String)
    requires
        paths_sorted(strings_view(old(v)@)),
    ensures
        paths_sorted(strings_view(final(v)@)),
        strings_view(final(v)@).to_multiset() == strings_view(old(v)@).to_multiset().insert(x@),
{
    let n = v.len();
    let mut p: usize = 0;
    while p < n && !bytes_less(x.as_str().as_bytes(), v[p].as_str().as_bytes())
        invariant
            n == v@.len(),
            v@ == old(v)@,
            p <= n,
            forall|k: int| 0 <= k < p ==> path_le(#[trigger] v@[k]@, x@),
        decreases n - p,
    {
        p = p + 1;
    }
    let ghost before = strings_view(v@);
    let ghost xv = x@;
    proof {
        if p < n {
            assert(bytes_lt(encode_utf8(xv), encode_utf8(v@[p as int]@)));
        }
    }
    v.insert(p, x);
    assert(strings_view(v@) =~= before.insert(p as int, xv));
    proof {
        vstd::seq_lib::to_multiset_insert(before, p as int, xv);
        let after = strings_view(v@);
        assert forall|i: int, j: int| 0 <= i < j < after.len() implies #[trigger] path_le(after[i], after[j]) by {
            if j < p {
                assert(path_le(before[i], before[j]));
            } else if j == p {
                assert(path_le(before[i], xv));
            } else if i < p {
                assert(path_le(before[i], before[j - 1]));
                lemma_path_order_total(before[i], xv, before[j - 1]);
                lemma_path_order_total(xv, before[p as int], before[j - 1]);
                if j - 1 > p {
                    assert(path_le(before[p as int], before[j - 1]));
                }
                lemma_lt_trichotomy(encode_utf8(xv), encode_utf8(before[p as int]));
                lemma_lt_irreflexive(encode_utf8(xv));
            } else if i == p {
                lemma_lt_trichotomy(encode_utf8(xv), encode_utf8(before[p as int]));
                lemma_lt_irreflexive(encode_utf8(xv));
                lemma_path_order_total(xv, before[p as int], before[j - 1]);
                if j - 1 > p {
                    assert(path_le(before[p as int], before[j - 1]));
                }
            } else {
                assert(path_le(before[i - 1], before[j - 1]));
            }
        }
    }
}

/// The files whose extension is supported, in their order.
pub open spec fn supported_files(v: Seq<Seq<char>>) -> Seq<Seq<char>> {
    v.filter(|p: Seq<char>| is_supported_path(p))
}

/// The images among the files of a directory, in order: the files whose
/// extension is supported (see `is_supported_path`), sorted by the bytes of
/// their paths.
pub fn select_images(files: Vec<String>) -> (r: Vec<String>)
    ensures
        paths_sorted(strings_view(r@)),
        strings_view(r@).to_multiset() == supported_files(strings_view(files@)).to_multiset(),
{
    let ghost all = strings_view(files@);
    let mut out: Vec<String> = Vec::new();
    let n = files.len();
    let mut i: usize = 0;
    assert(supported_files(all.take(0)) =~= Seq::<Seq<char>>::empty());
    while i < n
        invariant
            n == all.len(),
            files@.len() == n,
            strings_view(files@) == all,
            i <= n,
            paths_sorted(strings_view(out@)),
            strings_view(out@).to_multiset() == supported_files(all.take(i as int)).to_multiset(),
        decreases n - i,
    {
        let s = files[i].clone();
        assert(s@ == all[i as int]);
        assert(all.take(i + 1).drop_last() =~= all.take(i as int));
        assert(all.take(i + 1).last() == all[i as int]);
        let supported = is_supported_image(s.as_str());
        proof {
            reveal_with_fuel(Seq::<_>::filter, 1);
            assert(all.take(i + 1).len() == i + 1);
            assert(is_supported_path(all[i as int]) == supported);
            let t = all.take(i + 1);
            assert(supported_files(t) == if is_supported_path(t.last()) {
                supported_files(t.drop_last()).push(t.last())
            } else {
                supported_files(t.drop_last())
            });
        }
        if supported {
            proof {
                vstd::seq_lib::to_multiset_build(supported_files(all.take(i as int)), all[i as int]);
            }
            insert_sorted(&mut out, s);
            assert(supported_files(all.take(i + 1)) =~= supported_files(all.take(i as int)).push(all[i as int]));
        } else {
            assert(supported_files(all.take(i + 1)) =~= supported_files(all.take(i as int)));
        }
        i = i + 1;
    }
    assert(all.take(n as int) =~= all);
    out
}

} // verus!
