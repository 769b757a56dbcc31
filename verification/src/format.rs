//! Recognising image formats: by the first bytes of a file and by its
//! extension.

use vstd::prelude::*;
use crate::paths::{path_extension, path_extension_of};
use crate::text::{ascii_lower_seq, str_equals, to_ascii_lowercase};

verus! {

/// How a file is decoded.
#[derive(Clone, Copy, PartialEq, Eq, Structural, Debug)]
pub enum ImageFormat {
    /// A camera RAW file.
    Raw,
    /// HEIC/HEIF, which this build cannot decode.
    HeicUnsupported,
    /// JPEG XL.
    Jxl,
    /// Photoshop.
    Psd,
    /// A common format decoded without an alpha channel.
    Standard,
    /// A common format decoded with an alpha channel (PNG, WebP).
    StandardAlpha,
}

/// How many bytes of a file are looked at to recognise its format.
pub const HEADER_LEN: usize = 12;

/// Whether `s` starts with `prefix`.
pub open spec fn starts_with(s: Seq<u8>, prefix: Seq<u8>) -> bool {
    prefix.len() <= s.len() && s.subrange(0, prefix.len() as int) == prefix
}

/// Whether `s` holds `part` from position `at` on.
pub open spec fn holds_at(s: Seq<u8>, at: int, part: Seq<u8>) -> bool {
    0 <= at && at + part.len() <= s.len() && s.subrange(at, at + part.len()) == part
}

/// The format that a file's first bytes announce, if any; fewer than
/// `HEADER_LEN` bytes announce nothing.
pub open spec fn sniffed_format(h: Seq<u8>) -> Option<ImageFormat> {
    if h.len() < HEADER_LEN {
        None
    } else if starts_with(h, seq![0x89u8, 0x50, 0x4e, 0x47, 0x0d, 0x0a, 0x1a, 0x0a]) {
        // "\x89PNG\r\n\x1a\n"
        Some(ImageFormat::StandardAlpha)
    } else if starts_with(h, seq![0xffu8, 0xd8, 0xff]) {
        // JPEG
        Some(ImageFormat::Standard)
    } else if starts_with(h, seq![0x47u8, 0x49, 0x46, 0x38, 0x37, 0x61]) || starts_with(
        h,
        seq![0x47u8, 0x49, 0x46, 0x38, 0x39, 0x61],
    ) {
        // "GIF87a", "GIF89a"
        Some(ImageFormat::Standard)
    } else if holds_at(h, 0, seq![0x52u8, 0x49, 0x46, 0x46]) && holds_at(
        h,
        8,
        seq![0x57u8, 0x45, 0x42, 0x50],
    ) {
        // "RIFF" .... "WEBP"
        Some(ImageFormat::StandardAlpha)
    } else if starts_with(h, seq![0x42u8, 0x4d]) {
        // "BM"
        Some(ImageFormat::Standard)
    } else if starts_with(h, seq![0x49u8, 0x49, 0x2a, 0x00]) || starts_with(
        h,
        seq![0x4du8, 0x4d, 0x00, 0x2a],
    ) {
        // "II*\0", "MM\0*"
        Some(ImageFormat::Standard)
    } else if holds_at(h, 4, seq![0x66u8, 0x74, 0x79, 0x70]) {
        // "ftyp"
        Some(ImageFormat::HeicUnsupported)
    } else if starts_with(h, seq![0xffu8, 0x0a]) || starts_with(
        h,
        seq![0x00u8, 0x00, 0x00, 0x0c, 0x4a, 0x58, 0x4c, 0x20],
    ) {
        // JPEG XL codestream, or container ("\0\0\0\x0cJXL ")
        Some(ImageFormat::Jxl)
    } else if starts_with(h, seq![0x38u8, 0x42, 0x50, 0x53]) {
        // "8BPS"
        Some(ImageFormat::Psd)
    } else {
        None
    }
}

/// Whether `s` holds `part` from position `at` on.
pub fn bytes_at(s: &[u8], at: usize, part: &[u8]) -> (r: bool)
    ensures
        r == holds_at(s@, at as int, part@),
{
    if at > s.len() || part.len() > s.len() - at {
        return false;
    }
    let n = part.len();
    let mut i: usize = 0;
    while i < n
        invariant
            n == part@.len(),
            at + n <= s.len(),
            i <= n,
            forall|j: int| 0 <= j < i ==> s@[at + j] == part@[j],
        decreases n - i,
    {
        if s[at + i] != part[i] {
            assert(s@.subrange(at as int, at + n)[i as int] != part@[i as int]);
            return false;
        }
        i = i + 1;
    }
    assert(s@.subrange(at as int, at + n) =~= part@);
    true
}

/// Recognises a format from the first bytes of a file (as many as one read
/// gave, up to `HEADER_LEN`); see `sniffed_format`.
pub fn sniff_format(header: &[u8]) -> (r: Option<ImageFormat>)
    ensures
        r == sniffed_format(header@),
{
    let h = header;
    if h.len() < HEADER_LEN {
        return None;
    }
    let png: [u8; 8] = [0x89, 0x50, 0x4e, 0x47, 0x0d, 0x0a, 0x1a, 0x0a];
    let jpeg: [u8; 3] = [0xff, 0xd8, 0xff];
    let gif87: [u8; 6] = [0x47, 0x49, 0x46, 0x38, 0x37, 0x61];
    let gif89: [u8; 6] = [0x47, 0x49, 0x46, 0x38, 0x39, 0x61];
    let riff: [u8; 4] = [0x52, 0x49, 0x46, 0x46];
    let webp: [u8; 4] = [0x57, 0x45, 0x42, 0x50];
    let bmp: [u8; 2] = [0x42, 0x4d];
    let tiff_le: [u8; 4] = [0x49, 0x49, 0x2a, 0x00];
    let tiff_be: [u8; 4] = [0x4d, 0x4d, 0x00, 0x2a];
    let ftyp: [u8; 4] = [0x66, 0x74, 0x79, 0x70];
    let jxl_code: [u8; 2] = [0xff, 0x0a];
    let jxl_box: [u8; 8] = [0x00, 0x00, 0x00, 0x0c, 0x4a, 0x58, 0x4c, 0x20];
    let psd: [u8; 4] = [0x38, 0x42, 0x50, 0x53];
    assert(png@ == seq![0x89u8, 0x50, 0x4e, 0x47, 0x0d, 0x0a, 0x1a, 0x0a]);
    assert(jpeg@ == seq![0xffu8, 0xd8, 0xff]);
    assert(gif87@ == seq![0x47u8, 0x49, 0x46, 0x38, 0x37, 0x61]);
    assert(gif89@ == seq![0x47u8, 0x49, 0x46, 0x38, 0x39, 0x61]);
    assert(riff@ == seq![0x52u8, 0x49, 0x46, 0x46]);
    assert(webp@ == seq![0x57u8, 0x45, 0x42, 0x50]);
    assert(bmp@ == seq![0x42u8, 0x4d]);
    assert(tiff_le@ == seq![0x49u8, 0x49, 0x2a, 0x00]);
    assert(tiff_be@ == seq![0x4du8, 0x4d, 0x00, 0x2a]);
    assert(ftyp@ == seq![0x66u8, 0x74, 0x79, 0x70]);
    assert(jxl_code@ == seq![0xffu8, 0x0a]);
    assert(jxl_box@ == seq![0x00u8, 0x00, 0x00, 0x0c, 0x4a, 0x58, 0x4c, 0x20]);
    assert(psd@ == seq![0x38u8, 0x42, 0x50, 0x53]);
    if bytes_at(h, 0, &png) {
        Some(ImageFormat::StandardAlpha)
    } else if bytes_at(h, 0, &jpeg) {
        Some(ImageFormat::Standard)
    } else if bytes_at(h, 0, &gif87) || bytes_at(h, 0, &gif89) {
        Some(ImageFormat::Standard)
    } else if bytes_at(h, 0, &riff) && bytes_at(h, 8, &webp) {
        Some(ImageFormat::StandardAlpha)
    } else if bytes_at(h, 0, &bmp) {
        Some(ImageFormat::Standard)
    } else if bytes_at(h, 0, &tiff_le) || bytes_at(h, 0, &tiff_be) {
        Some(ImageFormat::Standard)
    } else if bytes_at(h, 4, &ftyp) {
        Some(ImageFormat::HeicUnsupported)
    } else if bytes_at(h, 0, &jxl_code) || bytes_at(h, 0, &jxl_box) {
        Some(ImageFormat::Jxl)
    } else if bytes_at(h, 0, &psd) {
        Some(ImageFormat::Psd)
    } else {
        None
    }
}


/// The extensions of camera RAW files (lower case).
pub open spec fn raw_extensions() -> Seq<Seq<char>> {
    seq!["arw"@, "cr2"@, "cr3"@, "dng"@, "nef"@, "orf"@, "raf"@, "raw"@, "rw2"@, "pef"@, "srw"@, "x3f"@]
}

/// The extensions of the files that a directory is searched for (lower case).
pub open spec fn supported_extensions() -> Seq<Seq<char>> {
    seq!["arw"@, "cr2"@, "cr3"@, "dng"@, "nef"@, "orf"@, "raf"@, "raw"@, "rw2"@, "pef"@, "srw"@, "x3f"@, "heic"@, "heif"@, "jpg"@, "jpeg"@, "png"@, "webp"@, "bmp"@, "tiff"@, "tif"@, "gif"@, "tga"@, "jxl"@, "psd"@]
}

/// The texts of a list of strings.
pub open spec fn strs_view(l: Seq<&str>) -> Seq<Seq<char>> {
    l.map_values(|x: &str| x@)
}

/// Whether `s` is one of `list`.
pub fn one_of(s: &str, list: &[&str]) -> (r: bool)
    ensures
        r == strs_view(list@).contains(s@),
{
    let n = list.len();
    let mut i: usize = 0;
    while i < n
        invariant
            n == list@.len(),
            i <= n,
            forall|j: int| 0 <= j < i ==> list@[j]@ != s@,
        decreases n - i,
    {
        if str_equals(s, list[i]) {
            assert(strs_view(list@)[i as int] == s@);
            return true;
        }
        i = i + 1;
    }
    assert(!strs_view(list@).contains(s@)) by {
        if strs_view(list@).contains(s@) {
            let k = choose|k: int| 0 <= k < strs_view(list@).len() && strs_view(list@)[k] == s@;
            assert(list@[k]@ == s@);
        }
    }
    false
}

/// Whether an extension (in any case) is that of a camera RAW file.
pub fn is_raw_extension(ext: &str) -> (r: bool)
    ensures
        r == raw_extensions().contains(ascii_lower_seq(ext@)),
{
    let lower = to_ascii_lowercase(ext);
    let list: [&str; 12] = ["arw", "cr2", "cr3", "dng", "nef", "orf", "raf", "raw", "rw2", "pef", "srw", "x3f"];
    assert(strs_view(list@) =~= raw_extensions());
    one_of(lower.as_str(), &list)
}

/// Whether an extension (in any case) is one that a directory is searched for.
pub fn is_supported_extension(ext: &str) -> (r: bool)
    ensures
        r == supported_extensions().contains(ascii_lower_seq(ext@)),
{
    let lower = to_ascii_lowercase(ext);
    let list: [&str; 25] = ["arw", "cr2", "cr3", "dng", "nef", "orf", "raf", "raw", "rw2", "pef", "srw", "x3f", "heic", "heif", "jpg", "jpeg", "png", "webp", "bmp", "tiff", "tif", "gif", "tga", "jxl", "psd"];
    assert(strs_view(list@) =~= supported_extensions());
    one_of(lower.as_str(), &list)
}

/// Whether a path names a camera RAW file, by its extension.
pub open spec fn is_raw_path(path: Seq<char>) -> bool {
    path_extension_of(path) matches Some(e) && raw_extensions().contains(ascii_lower_seq(e))
}

/// Whether a path names a file that a directory is searched for, by its
/// extension.
pub open spec fn is_supported_path(path: Seq<char>) -> bool {
    path_extension_of(path) matches Some(e) && supported_extensions().contains(ascii_lower_seq(e))
}

/// Whether a path names a camera RAW file (such a file is never sniffed).
pub fn is_raw_file(path: &str) -> (r: bool)
    ensures
        r == is_raw_path(path@),
{
    match path_extension(path) {
        Some(e) => is_raw_extension(e.as_str()),
        None => false,
    }
}

/// Whether a path names a file that a directory is searched for.
pub fn is_supported_image(path: &str) -> (r: bool)
    ensures
        r == is_supported_path(path@),
{
    match path_extension(path) {
        Some(e) => is_supported_extension(e.as_str()),
        None => false,
    }
}

/// The format by extension alone, for a file whose first bytes announced
/// none (the extension lower-cased).
pub open spec fn format_by_extension(lower: Option<Seq<char>>) -> ImageFormat {
    match lower {
        Some(e) => if e == "heic"@ || e == "heif"@ {
            ImageFormat::HeicUnsupported
        } else if e == "jxl"@ {
            ImageFormat::Jxl
        } else if e == "psd"@ {
            ImageFormat::Psd
        } else if e == "png"@ || e == "webp"@ {
            ImageFormat::StandardAlpha
        } else {
            ImageFormat::Standard
        },
        None => ImageFormat::Standard,
    }
}

/// How a file is decoded: a RAW extension decides first, then the file's
/// first bytes, then its other extensions; anything else is a common format.
pub open spec fn classified(ext: Option<Seq<char>>, sniffed: Option<ImageFormat>) -> ImageFormat {
    let lower = match ext {
        Some(e) => Some(ascii_lower_seq(e)),
        None => None,
    };
    if lower matches Some(e) && raw_extensions().contains(e) {
        ImageFormat::Raw
    } else if sniffed is Some {
        sniffed->0
    } else {
        format_by_extension(lower)
    }
}

/// Decides how the file at `path` is decoded, given what its first bytes
/// announced (`sniff_format`; a RAW file need not be read for that).
pub fn classify(path: &str, sniffed: Option<ImageFormat>) -> (r: ImageFormat)
    ensures
        r == classified(path_extension_of(path@), sniffed),
{
    let ext = path_extension(path);
    let lower = match &ext {
        Some(e) => Some(to_ascii_lowercase(e.as_str())),
        None => None,
    };
    let raw_list: [&str; 12] = ["arw", "cr2", "cr3", "dng", "nef", "orf", "raf", "raw", "rw2", "pef", "srw", "x3f"];
    assert(strs_view(raw_list@) =~= raw_extensions());
    match &lower {
        Some(e) => {
            if one_of(e.as_str(), &raw_list) {
                return ImageFormat::Raw;
            }
        },
        None => {},
    }
    if let Some(f) = sniffed {
        return f;
    }
    match &lower {
        Some(e) => {
            let e = e.as_str();
            if str_equals(e, "heic") || str_equals(e, "heif") {
                ImageFormat::HeicUnsupported
            } else if str_equals(e, "jxl") {
                ImageFormat::Jxl
            } else if str_equals(e, "psd") {
                ImageFormat::Psd
            } else if str_equals(e, "png") || str_equals(e, "webp") {
                ImageFormat::StandardAlpha
            } else {
                ImageFormat::Standard
            }
        },
        None => ImageFormat::Standard,
    }
}


/// Every camera RAW file is also among the files that a directory is
/// searched for.
pub proof fn lemma_raw_files_are_collected(path: Seq<char>)
    ensures
        is_raw_path(path) ==> is_supported_path(path),
{
    if is_raw_path(path) {
        let e = ascii_lower_seq(path_extension_of(path)->0);
        let i = choose|i: int| 0 <= i < raw_extensions().len() && raw_extensions()[i] == e;
        assert(supported_extensions()[i] == e);
    }
}

/// A RAW extension decides the format whatever the file's first bytes say;
/// otherwise the first bytes, when they announce a format, decide it.
pub proof fn lemma_classify_precedence(ext: Option<Seq<char>>, sniffed: Option<ImageFormat>)
    ensures
        (ext matches Some(e) && raw_extensions().contains(ascii_lower_seq(e))) ==> classified(ext, sniffed)
            == ImageFormat::Raw,
        !(ext matches Some(e) && raw_extensions().contains(ascii_lower_seq(e))) && sniffed is Some
            ==> classified(ext, sniffed) == sniffed->0,
{
}


/// Whether `e` is one of the extensions that the batch converts.
pub open spec fn is_listed_extension(e: Seq<char>) -> bool {
    e == "arw"@ || e == "cr2"@ || e == "cr3"@ || e == "dng"@ || e == "nef"@ || e == "orf"@ || e == "raf"@ || e == "raw"@ || e == "rw2"@ || e == "pef"@ || e == "srw"@ || e == "x3f"@ || e == "heic"@ || e == "heif"@ || e == "jpg"@ || e == "jpeg"@ || e == "png"@ || e == "webp"@ || e == "bmp"@ || e == "tiff"@ || e == "tif"@ || e == "gif"@ || e == "tga"@ || e == "jxl"@ || e == "psd"@
}

/// The extensions searched for are exactly the listed ones: a file is
/// collected iff its lower-cased extension is one of them. AVIF, the output
/// format, is not among them, so a directory that was converted before does
/// not have its AVIF files picked up again.
pub proof fn lemma_supported_extensions_exact(e: Seq<char>)
    ensures
        supported_extensions().contains(e) <==> is_listed_extension(e),
        !supported_extensions().contains("avif"@),
{
    if supported_extensions().contains(e) {
        let i = choose|i: int| 0 <= i < supported_extensions().len() && supported_extensions()[i] == e;
        assert(is_listed_extension(e));
    }
    if is_listed_extension(e) {
        let l = supported_extensions();
        if e == "arw"@ {
            assert(l[0] == e);
        }
        if e == "cr2"@ {
            assert(l[1] == e);
        }
        if e == "cr3"@ {
            assert(l[2] == e);
        }
        if e == "dng"@ {
            assert(l[3] == e);
        }
        if e == "nef"@ {
            assert(l[4] == e);
        }
        if e == "orf"@ {
            assert(l[5] == e);
        }
        if e == "raf"@ {
            assert(l[6] == e);
        }
        if e == "raw"@ {
            assert(l[7] == e);
        }
        if e == "rw2"@ {
            assert(l[8] == e);
        }
        if e == "pef"@ {
            assert(l[9] == e);
        }
        if e == "srw"@ {
            assert(l[10] == e);
        }
        if e == "x3f"@ {
            assert(l[11] == e);
        }
        if e == "heic"@ {
            assert(l[12] == e);
        }
        if e == "heif"@ {
            assert(l[13] == e);
        }
        if e == "jpg"@ {
            assert(l[14] == e);
        }
        if e == "jpeg"@ {
            assert(l[15] == e);
        }
        if e == "png"@ {
            assert(l[16] == e);
        }
        if e == "webp"@ {
            assert(l[17] == e);
        }
        if e == "bmp"@ {
            assert(l[18] == e);
        }
        if e == "tiff"@ {
            assert(l[19] == e);
        }
        if e == "tif"@ {
            assert(l[20] == e);
        }
        if e == "gif"@ {
            assert(l[21] == e);
        }
        if e == "tga"@ {
            assert(l[22] == e);
        }
        if e == "jxl"@ {
            assert(l[23] == e);
        }
        if e == "psd"@ {
            assert(l[24] == e);
        }
    }
    reveal_strlit("arw");
    reveal_strlit("cr2");
    reveal_strlit("cr3");
    reveal_strlit("dng");
    reveal_strlit("nef");
    reveal_strlit("orf");
    reveal_strlit("raf");
    reveal_strlit("raw");
    reveal_strlit("rw2");
    reveal_strlit("pef");
    reveal_strlit("srw");
    reveal_strlit("x3f");
    reveal_strlit("heic");
    reveal_strlit("heif");
    reveal_strlit("jpg");
    reveal_strlit("jpeg");
    reveal_strlit("png");
    reveal_strlit("webp");
    reveal_strlit("bmp");
    reveal_strlit("tiff");
    reveal_strlit("tif");
    reveal_strlit("gif");
    reveal_strlit("tga");
    reveal_strlit("jxl");
    reveal_strlit("psd");
    reveal_strlit("avif");
    assert("arw"@.len() == 3 && "arw"@[0] == 'a');
    assert("cr2"@.len() == 3 && "cr2"@[0] == 'c');
    assert("cr3"@.len() == 3 && "cr3"@[0] == 'c');
    assert("dng"@.len() == 3 && "dng"@[0] == 'd');
    assert("nef"@.len() == 3 && "nef"@[0] == 'n');
    assert("orf"@.len() == 3 && "orf"@[0] == 'o');
    assert("raf"@.len() == 3 && "raf"@[0] == 'r');
    assert("raw"@.len() == 3 && "raw"@[0] == 'r');
    assert("rw2"@.len() == 3 && "rw2"@[0] == 'r');
    assert("pef"@.len() == 3 && "pef"@[0] == 'p');
    assert("srw"@.len() == 3 && "srw"@[0] == 's');
    assert("x3f"@.len() == 3 && "x3f"@[0] == 'x');
    assert("heic"@.len() == 4 && "heic"@[0] == 'h');
    assert("heif"@.len() == 4 && "heif"@[0] == 'h');
    assert("jpg"@.len() == 3 && "jpg"@[0] == 'j');
    assert("jpeg"@.len() == 4 && "jpeg"@[0] == 'j');
    assert("png"@.len() == 3 && "png"@[0] == 'p');
    assert("webp"@.len() == 4 && "webp"@[0] == 'w');
    assert("bmp"@.len() == 3 && "bmp"@[0] == 'b');
    assert("tiff"@.len() == 4 && "tiff"@[0] == 't');
    assert("tif"@.len() == 3 && "tif"@[0] == 't');
    assert("gif"@.len() == 3 && "gif"@[0] == 'g');
    assert("tga"@.len() == 3 && "tga"@[0] == 't');
    assert("jxl"@.len() == 3 && "jxl"@[0] == 'j');
    assert("psd"@.len() == 3 && "psd"@[0] == 'p');
    assert("avif"@.len() == 4 && "avif"@[0] == 'a');
    assert(!is_listed_extension("avif"@));
    if supported_extensions().contains("avif"@) {
        let i = choose|i: int| 0 <= i < supported_extensions().len() && supported_extensions()[i] == "avif"@;
        assert(is_listed_extension(supported_extensions()[i]));
    }
}

/// A path is collected iff it has an extension that, lower-cased, is listed;
/// a path with the extension `avif` (in any case) never is.
pub proof fn lemma_collected_paths(path: Seq<char>)
    ensures
        is_supported_path(path) <==> (path_extension_of(path) matches Some(e) && is_listed_extension(
            ascii_lower_seq(e),
        )),
        (path_extension_of(path) matches Some(e) && ascii_lower_seq(e) == "avif"@) ==> !is_supported_path(path),
{
    if let Some(e) = path_extension_of(path) {
        lemma_supported_extensions_exact(ascii_lower_seq(e));
    }
}

} // verus!
