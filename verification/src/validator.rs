//! Rules that an uploaded file, its chunks and its name must meet.

use crate::paths::{
    file_name_chars, file_name_of, last_component, last_index_of, lemma_last_component_props,
    lemma_last_index_bound, parent_dir_at, path_chars_valid, path_valid, stem_and_extension,
    stem_and_extension_chars,
};
use crate::text::{
    all_chars, chars_equal, chars_of, decimal, is_ascii_upper,
    slug_char, lowercase_chars, push_chars, push_decimal, push_str, slug_of, slugify,
    string_from_chars, unicode_lowercase,
};
use vstd::prelude::*;

verus! {

/// Largest accepted chunk: 2 MiB.
pub const MAX_CHUNK_SIZE: u64 = 2097152;

/// Largest accepted upload: 50 MiB.
pub const MAX_UPLOAD_SIZE: u64 = 52428800;

// ---------------------------------------------------------------------------
// Content type
// ---------------------------------------------------------------------------

/// The MIME type that `infer::get` recognises from the leading bytes of
/// `data`, if any.
pub uninterp spec fn inferred_mime(data: Seq<u8>) -> Option<Seq<char>>;

/// `infer::get` followed by `Type::mime_type`.  The result is named.
#[verifier::external_body]
pub(crate) fn detect_mime(data: &[u8]) -> (r: Option<String>)
    ensures
        r is None ==> inferred_mime(data@) is None,
        r matches Some(m) ==> inferred_mime(data@) == Some(m@),
{
    match infer::get(data) {
        Some(kind) => Some(kind.mime_type().to_string()),
        None => None,
    }
}

/// The content types that an upload may have.
pub open spec fn allowed_mime(m: Seq<char>) -> bool {
    ||| m == "image/jpeg"@
    ||| m == "image/png"@
    ||| m == "image/gif"@
    ||| m == "application/pdf"@
    ||| m == "application/epub+zip"@
    ||| m == "video/mp4"@
}

/// The accepted content types are exactly JPEG, PNG, GIF, PDF, EPUB and MP4:
/// a chunk recognised as one of them draws no error, and a chunk recognised
/// as anything else, or not recognised, draws one.
pub proof fn accepted_content_types(data: Seq<u8>)
    ensures
        mime_error(data) is None <==> (inferred_mime(data) matches Some(m) && (m == "image/jpeg"@
            || m == "image/png"@ || m == "image/gif"@ || m == "application/pdf"@ || m
            == "application/epub+zip"@ || m == "video/mp4"@)),
{
}

/// The decimal values of the bytes, separated by ", ".
pub open spec fn byte_list(s: Seq<u8>) -> Seq<char>
    decreases s.len(),
{
    if s.len() == 0 {
        Seq::empty()
    } else if s.len() == 1 {
        decimal(s[0] as nat)
    } else {
        byte_list(s.drop_last()) + seq![',', ' '] + decimal(s.last() as nat)
    }
}

/// How `{:?}` renders a byte slice: `[1, 2, 3]`.
pub open spec fn bytes_debug(s: Seq<u8>) -> Seq<char> {
    seq!['['] + byte_list(s) + seq![']']
}

/// The error that `validate_book_mime` gives for `data`, if any.
pub open spec fn mime_error(data: Seq<u8>) -> Option<Seq<char>> {
    match inferred_mime(data) {
        Some(m) => if allowed_mime(m) {
            None
        } else {
            Some("Unknown mime type: "@ + m)
        },
        None => Some("Unknown mime type: "@ + bytes_debug(data)),
    }
}

fn push_bytes_debug(out: &mut Vec<char>, data: &[u8])
    ensures
        final(out)@ == old(out)@ + bytes_debug(data@),
{
    out.push('[');
    let mut i: usize = 0;
    while i < data.len()
        invariant
            i <= data.len(),
            out@ == old(out)@ + seq!['['] + byte_list(data@.take(i as int)),
        decreases data.len() - i,
    {
        let ghost before = out@;
        if i > 0 {
            out.push(',');
            out.push(' ');
        }
        push_decimal(out, data[i] as u64);
        proof {
            let t = data@.take(i + 1);
            assert(t.drop_last() =~= data@.take(i as int));
            assert(t.last() == data@[i as int]);
            if i == 0 {
                assert(byte_list(data@.take(0)) =~= Seq::<char>::empty());
            }
        }
        i = i + 1;
        assert(out@ =~= old(out)@ + seq!['['] + byte_list(data@.take(i as int)));
    }
    assert(data@.take(i as int) =~= data@);
    out.push(']');
    assert(out@ =~= old(out)@ + bytes_debug(data@));
}

fn mime_allowed(m: &Vec<char>) -> (r: bool)
    ensures
        r == allowed_mime(m@),
{
    chars_equal(m, &chars_of("image/jpeg")) || chars_equal(m, &chars_of("image/png"))
        || chars_equal(m, &chars_of("image/gif")) || chars_equal(m, &chars_of("application/pdf"))
        || chars_equal(m, &chars_of("application/epub+zip")) || chars_equal(
        m,
        &chars_of("video/mp4"),
    )
}

/// Accepts a chunk whose content type, recognised from its leading bytes, is
/// one of the allowed ones (JPEG, PNG, GIF, PDF, EPUB, MP4).
pub fn validate_book_mime(chunk_data: &[u8]) -> (res: Result<(), String>)
    ensures
        res is Ok <==> mime_error(chunk_data@) is None,
        res is Ok <==> (inferred_mime(chunk_data@) matches Some(m) && (m == "image/jpeg"@ || m
            == "image/png"@ || m == "image/gif"@ || m == "application/pdf"@ || m
            == "application/epub+zip"@ || m == "video/mp4"@)),
        res matches Err(e) ==> mime_error(chunk_data@) == Some(e@),
{
    let mut msg: Vec<char> = Vec::new();
    push_str(&mut msg, "Unknown mime type: ");
    match detect_mime(chunk_data) {
        Some(m) => {
            let mc = chars_of(m.as_str());
            if mime_allowed(&mc) {
                Ok(())
            } else {
                push_chars(&mut msg, &mc);
                Err(string_from_chars(&msg))
            }
        },
        None => {
            push_bytes_debug(&mut msg, chunk_data);
            assert(msg@ =~= "Unknown mime type: "@ + bytes_debug(chunk_data@));
            Err(string_from_chars(&msg))
        },
    }
}

// ---------------------------------------------------------------------------
// Size
// ---------------------------------------------------------------------------

/// The message for a chunk over the limit.
pub open spec fn too_large_message(max_size_mb: nat) -> Seq<char> {
    "File too large (max "@ + decimal(max_size_mb) + " MB)"@
}

/// Accepts `chunk_data` when it holds at most `max_size_mb` mebibytes.
pub fn validate_chunk_size(chunk_data: &[u8], max_size_mb: usize) -> (res: Result<(), String>)
    requires
        max_size_mb * 1048576 <= usize::MAX,
    ensures
        res is Ok <==> chunk_data@.len() <= max_size_mb * 1048576,
        res matches Err(e) ==> e@ == too_large_message(max_size_mb as nat),
{
    let max_bytes = max_size_mb * 1024 * 1024;
    if chunk_data.len() > max_bytes {
        let mut msg: Vec<char> = Vec::new();
        push_str(&mut msg, "File too large (max ");
        push_decimal(&mut msg, max_size_mb as u64);
        push_str(&mut msg, " MB)");
        Err(string_from_chars(&msg))
    } else {
        Ok(())
    }
}

// ---------------------------------------------------------------------------
// Names and paths
// ---------------------------------------------------------------------------

/// The stem and the extension that `sanitize_filename` works from: those of
/// the path's file name, with "file" standing for a missing one.
pub open spec fn name_parts(file_name: Seq<char>) -> (Seq<char>, Seq<char>) {
    match file_name_of(file_name) {
        None => ("file"@, "file"@),
        Some(n) => {
            let (stem, ext) = stem_and_extension(n);
            (
                stem,
                match ext {
                    Some(e) => e,
                    None => "file"@,
                },
            )
        },
    }
}

/// The safe form of a file name: the slug of its stem, then a dot and the
/// lower-cased extension (left out when the extension is empty).
pub open spec fn sanitized_name(file_name: Seq<char>) -> Seq<char> {
    let (stem, ext) = name_parts(file_name);
    let ext_lower = unicode_lowercase(ext);
    if ext_lower.len() == 0 {
        slug_of(stem)
    } else {
        slug_of(stem) + seq!['.'] + ext_lower
    }
}

/// A character that the extension of a file name may hold: anything but a
/// separator or a dot.
pub open spec fn ext_char(c: char) -> bool {
    c != '/' && c != '.'
}

/// A character of a lower-cased extension.
pub open spec fn lower_ext_char(c: char) -> bool {
    ext_char(c) && !is_ascii_upper(c)
}

/// A name that is one path component: no separator, at most one dot, valid
/// as a path (no root, no `.` or `..` component), and no ASCII upper-case
/// letter.
pub open spec fn safe_file_name(s: Seq<char>) -> bool {
    &&& !s.contains('/')
    &&& path_valid(s)
    &&& forall|i: int, j: int| 0 <= i < s.len() && 0 <= j < s.len() && s[i] == '.' && s[j] == '.' ==> i == j
    &&& forall|i: int| 0 <= i < s.len() ==> !is_ascii_upper(#[trigger] s[i])
}

proof fn lemma_file_literal()
    ensures
        all_chars("file"@, |c: char| ext_char(c)),
{
    reveal_strlit("file");
}

proof fn lemma_extension_chars(f: Seq<char>)
    ensures
        all_chars(name_parts(f).1, |c: char| ext_char(c)),
{
    lemma_file_literal();
    let no_sep = |c: char| c != '/';
    assert(all_chars(f, |c: char| true));
    lemma_last_component_props(f, |c: char| true);
    match file_name_of(f) {
        None => {},
        Some(n) => {
            assert(last_component(f) == Some(n));
            assert(!n.contains('/'));
            let d = last_index_of(n, '.');
            lemma_last_index_bound(n, '.');
            if !(n == seq!['.', '.'] || d <= 0) {
                let ext = n.skip(d + 1);
                assert forall|i: int| 0 <= i < ext.len() implies #[trigger] ext_char(ext[i]) by {
                    assert(ext[i] == n[i + d + 1]);
                    if n[i + d + 1] == '/' {
                        assert(n.contains('/'));
                    }
                }
                assert(all_chars(ext, |c: char| ext_char(c)));
            }
        },
    }
}

proof fn lemma_safe_names(slug: Seq<char>, ext: Seq<char>)
    requires
        all_chars(slug, |c: char| slug_char(c)),
        all_chars(ext, |c: char| lower_ext_char(c)),
    ensures
        safe_file_name(slug),
        ext.len() > 0 ==> safe_file_name(slug + seq!['.'] + ext),
{
    let sc = |c: char| slug_char(c);
    let ec = |c: char| lower_ext_char(c);
    assert forall|i: int| 0 <= i < slug.len() implies slug[i] != '/' && slug[i] != '.'
        && !is_ascii_upper(slug[i]) by {
        assert(sc(slug[i]));
    }
    assert(!slug.contains('/'));
    assert(!(exists|i: int| parent_dir_at(slug, i))) by {
        if exists|i: int| parent_dir_at(slug, i) {
            let i = choose|i: int| parent_dir_at(slug, i);
            assert(slug[i] == '.');
        }
    }
    if slug.len() > 0 {
        assert(slug[0] != '.');
    }
    if ext.len() > 0 {
        let r = slug + seq!['.'] + ext;
        let n = slug.len() as int;
        assert forall|i: int| 0 <= i < r.len() && i != n implies r[i] != '/' && r[i] != '.'
            && !is_ascii_upper(r[i]) by {
            if i < n {
                assert(r[i] == slug[i]);
            } else {
                assert(r[i] == ext[i - n - 1]);
                assert(ec(ext[i - n - 1]));
            }
        }
        assert(r[n] == '.');
        assert(forall|i: int| 0 <= i < r.len() ==> !is_ascii_upper(#[trigger] r[i]));
        assert(!r.contains('/')) by {
            if r.contains('/') {
                let i = choose|i: int| 0 <= i < r.len() && r[i] == '/';
                assert(i != n);
            }
        }
        assert(!(exists|i: int| parent_dir_at(r, i))) by {
            if exists|i: int| parent_dir_at(r, i) {
                let i = choose|i: int| parent_dir_at(r, i);
                assert(r[i] == '.' && r[i + 1] == '.');
            }
        }
        if r[0] == '.' {
            assert(n == 0);
            assert(r.len() >= 2);
            assert(r[1] == ext[0]);
            assert(ec(ext[0]));
        }
    }
}

/// The safe form of a file name (see `sanitized_name`): "My Photo.PNG" gives
/// "my-photo.png", and a name without an extension gets ".file".
pub fn sanitize_filename(file_name: &str) -> (res: String)
    ensures
        res@ == sanitized_name(file_name@),
        safe_file_name(res@),
{
    let v = chars_of(file_name);
    let (stem, ext): (Vec<char>, Vec<char>) = match file_name_chars(&v) {
        None => (chars_of("file"), chars_of("file")),
        Some(n) => {
            let (st, e) = stem_and_extension_chars(&n);
            match e {
                Some(x) => (st, x),
                None => (st, chars_of("file")),
            }
        },
    };
    assert(stem@ == name_parts(file_name@).0 && ext@ == name_parts(file_name@).1);
    let ext_lower = lowercase_chars(&ext);
    let slug = slugify(string_from_chars(&stem).as_str());
    proof {
        lemma_extension_chars(file_name@);
        let ec = |c: char| ext_char(c);
        assert(!ext@.contains('/') && !ext@.contains('.')) by {
            if ext@.contains('/') || ext@.contains('.') {
                let i = choose|i: int| 0 <= i < ext@.len() && (ext@[i] == '/' || ext@[i] == '.');
                assert(ec(ext@[i]));
            }
        }
        assert(all_chars(ext_lower@, |c: char| lower_ext_char(c))) by {
            assert forall|i: int| 0 <= i < ext_lower@.len() implies #[trigger] lower_ext_char(
                ext_lower@[i],
            ) by {
                if ext_lower@[i] == '/' || ext_lower@[i] == '.' {
                    assert(ext_lower@.contains(ext_lower@[i]));
                }
            }
        }
        lemma_safe_names(slug@, ext_lower@);
    }
    if ext_lower.len() == 0 {
        slug
    } else {
        let mut out = chars_of(slug.as_str());
        out.push('.');
        push_chars(&mut out, &ext_lower);
        assert(out@ =~= slug@ + seq!['.'] + ext_lower@);
        string_from_chars(&out)
    }
}

/// A file name with a time stamp in front: `{timestamp}_{sanitized name}`.
pub open spec fn stamped_name(timestamp: Seq<char>, file_name: Seq<char>) -> Seq<char> {
    timestamp + seq!['_'] + sanitized_name(file_name)
}

/// `{timestamp}_{sanitized file name}`.
pub fn stamp_file_name(timestamp: &str, file_name: &str) -> (res: String)
    ensures
        res@ == stamped_name(timestamp@, file_name@),
        timestamp_text(timestamp@) ==> !res@.contains('/'),
{
    let sanitized = sanitize_filename(file_name);
    proof {
        if timestamp_text(timestamp@) {
            lemma_stamp_keeps_one_component(timestamp@, sanitized@);
        }
    }
    let mut out = chars_of(timestamp);
    out.push('_');
    push_str(&mut out, sanitized.as_str());
    assert(out@ =~= timestamp@ + seq!['_'] + sanitized@);
    string_from_chars(&out)
}

/// A character of a rendered time stamp: a digit, a sign of the year, or a
/// separator of the stamp's fields.
pub open spec fn timestamp_char(c: char) -> bool {
    ('0' <= c && c <= '9') || c == '+' || c == '-' || c == '_'
}

/// Every character is one of a rendered time stamp.
pub open spec fn timestamp_text(s: Seq<char>) -> bool {
    forall|i: int| 0 <= i < s.len() ==> #[trigger] timestamp_char(s[i])
}

/// An ASCII digit.
pub open spec fn digit_char(c: char) -> bool {
    '0' <= c && c <= '9'
}

/// `s[a..b]` are digits.
pub open spec fn digits_at(s: Seq<char>, a: int, b: int) -> bool {
    forall|i: int| a <= i < b ==> #[trigger] digit_char(s[i])
}

/// `s[0..n]` is a year as `%Y` renders it: four digits, or (outside 0 to
/// 9999) a sign and at least four digits.
pub open spec fn year_at(s: Seq<char>, n: int) -> bool {
    ||| n == 4 && digits_at(s, 0, 4)
    ||| n >= 5 && (s[0] == '+' || s[0] == '-') && digits_at(s, 1, n)
}

/// The layout of `%Y%m%d%H%M%S`: the year, then ten digits.
pub open spec fn compact_stamp(s: Seq<char>) -> bool {
    let n = s.len() as int;
    &&& n >= 14
    &&& year_at(s, n - 10)
    &&& digits_at(s, n - 10, n)
}

/// The layout of `%Y-%m-%d_%H-%M-%S`: the year, then `-dd-dd_dd-dd-dd`.
pub open spec fn dashed_stamp(s: Seq<char>) -> bool {
    let n = s.len() as int;
    &&& n >= 19
    &&& year_at(s, n - 15)
    &&& s[n - 15] == '-' && digits_at(s, n - 14, n - 12)
    &&& s[n - 12] == '-' && digits_at(s, n - 11, n - 9)
    &&& s[n - 9] == '_' && digits_at(s, n - 8, n - 6)
    &&& s[n - 6] == '-' && digits_at(s, n - 5, n - 3)
    &&& s[n - 3] == '-' && digits_at(s, n - 2, n)
}

/// `chrono::Utc::now().format(fmt)`, rendered: the current UTC time.  Only
/// the two formats that the file names use are passed (rendering an invalid
/// format panics).  `%Y` writes the year as four digits, or as a sign and at
/// least four digits outside 0 to 9999; `%m`, `%d`, `%H`, `%M` and `%S` write
/// two digits each; the other characters are copied.  Which time it is, and
/// so which digits, is not stated.
#[verifier::external_body]
pub(crate) fn utc_now_formatted(fmt: &str) -> (ts: String)
    requires
        fmt@ == "%Y%m%d%H%M%S"@ || fmt@ == "%Y-%m-%d_%H-%M-%S"@,
    ensures
        fmt@ == "%Y%m%d%H%M%S"@ ==> compact_stamp(ts@),
        fmt@ == "%Y-%m-%d_%H-%M-%S"@ ==> dashed_stamp(ts@),
{
    chrono::Utc::now().format(fmt).to_string()
}

/// A stamp of either layout holds only stamp characters.
pub proof fn lemma_stamp_chars(s: Seq<char>)
    requires
        compact_stamp(s) || dashed_stamp(s),
    ensures
        timestamp_text(s),
{
    assert forall|i: int| 0 <= i < s.len() implies #[trigger] timestamp_char(s[i]) by {
        if !(s[i] == '+' || s[i] == '-' || s[i] == '_') {
            assert(digit_char(s[i]));
        }
    }
}

/// The sanitized name with the current UTC time (`%Y%m%d%H%M%S`) in front.
pub fn timestamped_filename(file_name: &str) -> (res: String)
    ensures
        exists|ts: Seq<char>| compact_stamp(ts) && res@ == stamped_name(ts, file_name@),
        !res@.contains('/'),
{
    let ts = utc_now_formatted("%Y%m%d%H%M%S");
    proof {
        lemma_stamp_chars(ts@);
    }
    stamp_file_name(ts.as_str(), file_name)
}

/// A time stamp, an underscore and a name without separator make a name
/// without separator.
proof fn lemma_stamp_keeps_one_component(ts: Seq<char>, name: Seq<char>)
    requires
        timestamp_text(ts),
        !name.contains('/'),
    ensures
        !(ts + seq!['_'] + name).contains('/'),
{
    let s = ts + seq!['_'] + name;
    if s.contains('/') {
        let i = choose|i: int| 0 <= i < s.len() && s[i] == '/';
        if i < ts.len() {
            assert(s[i] == ts[i]);
            assert(timestamp_char(ts[i]));
        } else if i == ts.len() {
            assert(s[i] == '_');
        } else {
            assert(s[i] == name[i - ts.len() - 1]);
        }
    }
}

/// A path that none of whose components is the root, `.` at its start, or
/// `..`.
pub fn path_is_valid(path: &str) -> (r: bool)
    ensures
        r == path_valid(path@),
{
    let v = chars_of(path);
    path_chars_valid(&v)
}

/// An upload is complete when its chunk directory could be read and holds as
/// many entries as there are chunks (`entry_count` is `None` when the
/// directory could not be read).
pub fn is_upload_complete(entry_count: Option<usize>, total_chunks: usize) -> (r: bool)
    ensures
        r == (entry_count == Some(total_chunks)),
{
    match entry_count {
        Some(count) => count == total_chunks,
        None => false,
    }
}

} // verus!
