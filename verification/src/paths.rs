//! File paths, held as UTF-8 strings, and the few `std::path` operations
//! that the library needs.

use vstd::prelude::*;

verus! {

/// What `std::path::Path::extension` gives for a path.
pub uninterp spec fn path_extension_of(path: Seq<char>) -> Option<Seq<char>>;

/// What `std::path::Path::file_name` gives for a path.
pub uninterp spec fn path_file_name_of(path: Seq<char>) -> Option<Seq<char>>;

/// What `std::path::Path::file_stem` gives for a path.
pub uninterp spec fn path_file_stem_of(path: Seq<char>) -> Option<Seq<char>>;

/// What `std::path::Path::with_extension` gives for a path and an extension.
pub uninterp spec fn path_with_extension_of(path: Seq<char>, ext: Seq<char>) -> Seq<char>;

/// Joining paths, as `std::path::Path::join` documents it for Unix: an
/// absolute `path` replaces the base; otherwise it is appended, after a `'/'`
/// where the base is not empty and does not already end with one.
pub open spec fn path_join_of(base: Seq<char>, path: Seq<char>) -> Seq<char> {
    if path.len() > 0 && path[0] == '/' {
        path
    } else if base.len() > 0 && base.last() != '/' {
        base + seq!['/'] + path
    } else {
        base + path
    }
}

/// `Path::extension` of a UTF-8 path. Claimed: the result is
/// `path_extension_of(path)`; being a part of a `str`, it is itself UTF-8, so
/// the conversion back to a string loses nothing.
#[verifier::external_body]
pub(crate) fn path_extension(path: &str) -> (r: Option<String>)
    ensures
        opt_string_view(r) == path_extension_of(path@),
{
    std::path::Path::new(path).extension().map(|e| e.to_string_lossy().into_owned())
}

/// `Path::file_name` of a UTF-8 path. Claimed: the result is
/// `path_file_name_of(path)`.
#[verifier::external_body]
pub(crate) fn path_file_name(path: &str) -> (r: Option<String>)
    ensures
        opt_string_view(r) == path_file_name_of(path@),
{
    std::path::Path::new(path).file_name().map(|e| e.to_string_lossy().into_owned())
}

/// `Path::file_stem` of a UTF-8 path. Claimed: the result is
/// `path_file_stem_of(path)`.
#[verifier::external_body]
pub(crate) fn path_file_stem(path: &str) -> (r: Option<String>)
    ensures
        opt_string_view(r) == path_file_stem_of(path@),
{
    std::path::Path::new(path).file_stem().map(|e| e.to_string_lossy().into_owned())
}

/// `Path::with_extension` of a UTF-8 path. Claimed: the result is
/// `path_with_extension_of(path, ext)`. `std` panics on an extension that
/// holds a path separator, so such an extension is not admitted.
#[verifier::external_body]
pub(crate) fn path_with_extension(path: &str, ext: &str) -> (r: String)
    requires
        !ext@.contains('/'),
    ensures
        r@ == path_with_extension_of(path@, ext@),
{
    std::path::Path::new(path).with_extension(ext).to_string_lossy().into_owned()
}

/// Joins two paths as `Path::join` does on Unix (see `path_join_of`).
pub fn path_join(base: &str, path: &str) -> (r: String)
    ensures
        r@ == path_join_of(base@, path@),
{
    let pl = path.unicode_len();
    if pl > 0 && path.get_char(0) == '/' {
        return String::from_str(path);
    }
    let bl = base.unicode_len();
    let mut r = String::from_str(base);
    if bl > 0 && base.get_char(bl - 1) == '/' {
        r.append(path);
        return r;
    }
    if bl > 0 {
        proof {
            reveal_strlit("/");
        }
        r.append("/");
        assert("/"@ =~= seq!['/']);
    }
    r.append(path);
    r
}

/// The text of an optional string.
pub open spec fn opt_string_view(o: Option<String>) -> Option<Seq<char>> {
    match o {
        Some(s) => Some(s@),
        None => None,
    }
}

/// The text of an optional string, or the empty text.
pub open spec fn or_empty(o: Option<Seq<char>>) -> Seq<char> {
    match o {
        Some(s) => s,
        None => Seq::empty(),
    }
}

/// A string's text, or the empty string (`Option::unwrap_or_default`).
pub fn unwrap_or_empty(o: Option<String>) -> (r: String)
    ensures
        r@ == or_empty(opt_string_view(o)),
{
    match o {
        Some(s) => s,
        None => String::new(),
    }
}

/// The name under which a file is shown: its file name, or nothing.
pub fn display_name(path: &str) -> (r: String)
    ensures
        r@ == or_empty(path_file_name_of(path@)),
{
    unwrap_or_empty(path_file_name(path))
}

/// Where the AVIF file for `path` is written: beside it, with the extension
/// `avif`, or, given an output directory, in that directory under the same
/// file stem.
pub fn output_path(path: &str, outdir: Option<&str>) -> (r: String)
    ensures
        r@ == match outdir {
            Some(dir) => path_with_extension_of(
                path_join_of(dir@, or_empty(path_file_stem_of(path@))),
                "avif"@,
            ),
            None => path_with_extension_of(path@, "avif"@),
        },
{
    proof {
        reveal_strlit("avif");
        assert(!"avif"@.contains('/'));
    }
    match outdir {
        Some(dir) => {
            let stem = unwrap_or_empty(path_file_stem(path));
            let joined = path_join(dir, stem.as_str());
            path_with_extension(joined.as_str(), "avif")
        },
        None => path_with_extension(path, "avif"),
    }
}

/// Where an original is moved to: its file name inside `dir`.
pub fn moved_path(path: &str, dir: &str) -> (r: String)
    ensures
        r@ == path_join_of(dir@, or_empty(path_file_name_of(path@))),
{
    let name = unwrap_or_empty(path_file_name(path));
    path_join(dir, name.as_str())
}

} // verus!
