//! Names, encodings and media types of the files a tool leaves behind.
use vstd::prelude::*;
use crate::error::{ErrorKind, McpError, owned};
use crate::text::{append_chars, append_str, chars_of, contains, decimal, is_digit, lemma_decimal_digits, lemma_decimal_injective, lemma_split_at_first, push_decimal, starts_with, str_eq, str_eq_chars, string_of, trim, trim_start_in, trim_start_in_chars, trimmed};
use crate::ui::{opt_view};

verus! {

/// What `std::path::Path::file_name` returns for a path: its last normal
/// component.
pub uninterp spec fn path_file_name(path: Seq<char>) -> Option<Seq<char>>;

/// A path of one normal component: not empty, not `.` or `..`, and without
/// a separator or a drive colon.
pub open spec fn single_component(path: Seq<char>) -> bool {
    &&& path.len() > 0
    &&& path != "."@
    &&& path != ".."@
    &&& !path.contains('/')
    &&& !path.contains('\\')
    &&& !path.contains(':')
}

/// The index of the last `c` in `s`, or -1.
pub open spec fn last_index_of(s: Seq<char>, c: char) -> int
    decreases s.len(),
{
    if s.len() == 0 {
        -1
    } else if s.last() == c {
        s.len() - 1
    } else {
        last_index_of(s.drop_last(), c)
    }
}

/// What `std::path::Path::extension` returns for a path, as its
/// documentation gives it: none without a file name, none when the file
/// name holds no `.` or only a leading one, else what follows the last `.`.
pub open spec fn path_extension(path: Seq<char>) -> Option<Seq<char>> {
    match path_file_name(path) {
        None => None,
        Some(f) => {
            let k = last_index_of(f, '.');
            if k <= 0 {
                None
            } else {
                Some(f.subrange(k + 1, f.len() as int))
            }
        },
    }
}

/// `Path::new(path).file_name()`, as a string.
///
/// The result is named by `path_file_name`; for a path of one normal
/// component it is that component (the documentation calls the file name
/// the path's final component). What it is for other paths is not stated
/// here.
#[verifier::external_body]
pub(crate) fn file_name_of(path: &str) -> (r: Option<String>)
    ensures
        opt_view(r) == path_file_name(path@),
        single_component(path@) ==> opt_view(r) == Some(path@),
{
    std::path::Path::new(path).file_name().map(|v| v.to_string_lossy().into_owned())
}

/// `Path::new(path).extension()`, as a string: as the documentation of
/// `extension` says, the part of the file name after its last `.`, unless
/// there is no file name, no `.`, or only a leading `.`.
#[verifier::external_body]
fn extension_of(path: &str) -> (r: Option<String>)
    ensures
        opt_view(r) == path_extension(path@),
{
    std::path::Path::new(path).extension().map(|v| v.to_string_lossy().into_owned())
}

/// The artifact file name for a requested name: its trimmed last path
/// component, with `extension` (without leading dots) added when the name
/// has none; none for a blank name.
pub open spec fn spec_artifact_name(filename: Seq<char>, extension: Option<Seq<char>>) -> Option<Seq<char>> {
    let t = trim(filename);
    if t.len() == 0 {
        None
    } else {
        match path_file_name(t) {
            None => None,
            Some(f) => {
                let n = trim(f);
                if n.len() == 0 {
                    None
                } else {
                    match extension {
                        Some(e) => {
                            let x = trim_start_in(e, seq!['.']);
                            if x.len() > 0 && path_extension(n) is None {
                                Some(n + "."@ + x)
                            } else {
                                Some(n)
                            }
                        },
                        None => Some(n),
                    }
                }
            },
        }
    }
}

pub fn normalize_artifact_name(filename: &str, extension: Option<&str>) -> (r: Option<String>)
    ensures
        single_component(trim(filename@)) ==> path_file_name(trim(filename@)) == Some(trim(filename@)),
        opt_view(r) == spec_artifact_name(
            filename@,
            match extension {
                Some(e) => Some(e@),
                None => None,
            },
        ),
{
    let t = trimmed(filename);
    if t.len() == 0 {
        return None;
    }
    let ts = string_of(t.as_slice());
    let f = match file_name_of(ts.as_str()) {
        Some(f) => f,
        None => {
            return None;
        },
    };
    let n = trimmed(f.as_str());
    if n.len() == 0 {
        return None;
    }
    let ns = string_of(n.as_slice());
    match extension {
        Some(e) => {
            let ev = chars_of(e);
            let dot: Vec<char> = vec!['.'];
            assert(dot@ =~= seq!['.']);
            let x = trim_start_in_chars(ev.as_slice(), dot.as_slice());
            if x.len() > 0 && extension_of(ns.as_str()).is_none() {
                let mut out = n;
                append_str(&mut out, ".");
                append_chars(&mut out, x.as_slice());
                Some(string_of(out.as_slice()))
            } else {
                Some(ns)
            }
        },
        None => Some(ns),
    }
}

/// The name of a fresh artifact: `{prefix}-{millis}-{sequence}`, with
/// `.{extension}` when there is one.
pub open spec fn spec_timestamp_filename(
    prefix: Seq<char>,
    extension: Option<Seq<char>>,
    millis: u64,
    sequence: u64,
) -> Seq<char> {
    let base = prefix + "-"@ + decimal(millis as nat) + "-"@ + decimal(sequence as nat);
    match extension {
        Some(e) => base + "."@ + e,
        None => base,
    }
}

pub fn timestamp_filename(prefix: &str, extension: Option<&str>, millis: u64, sequence: u64) -> (r:
    String)
    ensures
        r@ == spec_timestamp_filename(
            prefix@,
            match extension {
                Some(e) => Some(e@),
                None => None,
            },
            millis,
            sequence,
        ),
{
    let mut v = chars_of(prefix);
    append_str(&mut v, "-");
    push_decimal(&mut v, millis);
    append_str(&mut v, "-");
    push_decimal(&mut v, sequence);
    match extension {
        Some(e) => {
            append_str(&mut v, ".");
            append_str(&mut v, e);
        },
        None => {},
    }
    string_of(v.as_slice())
}

/// The requested artifact name when it is usable, else a fresh one.
pub fn filename_or_timestamp(
    filename: Option<String>,
    prefix: &str,
    extension: &str,
    millis: u64,
    sequence: u64,
) -> (r: String)
    ensures
        r@ == match filename {
            Some(f) => match spec_artifact_name(f@, Some(extension@)) {
                Some(n) => n,
                None => spec_timestamp_filename(prefix@, Some(extension@), millis, sequence),
            },
            None => spec_timestamp_filename(prefix@, Some(extension@), millis, sequence),
        },
{
    match filename {
        Some(f) => match normalize_artifact_name(f.as_str(), Some(extension)) {
            Some(n) => n,
            None => timestamp_filename(prefix, Some(extension), millis, sequence),
        },
        None => timestamp_filename(prefix, Some(extension), millis, sequence),
    }
}

/// The device path where a UI dump is written before it is read back: a
/// fresh `window-dump` XML name under `/sdcard/`.
pub open spec fn spec_remote_ui_dump_path(millis: u64, sequence: u64) -> Seq<char> {
    "/sdcard/"@ + spec_timestamp_filename("window-dump"@, Some("xml"@), millis, sequence)
}

pub fn remote_ui_dump_path(millis: u64, sequence: u64) -> (r: String)
    ensures
        r@ == spec_remote_ui_dump_path(millis, sequence),
{
    let name = timestamp_filename("window-dump", Some("xml"), millis, sequence);
    let mut v = chars_of("/sdcard/");
    append_str(&mut v, name.as_str());
    string_of(v.as_slice())
}

/// How an artifact is read back.
#[derive(Debug, Clone, Copy, PartialEq, Eq, Structural)]
pub enum ArtifactReadEncoding {
    Utf8,
    Base64,
}

/// The encoding a tool asks for: base64 when none (or a blank one) is
/// given, else `base64`, `utf8` or `utf-8` after trimming, else the refused
/// trimmed value.
pub open spec fn spec_read_encoding(value: Option<Seq<char>>) -> Result<ArtifactReadEncoding, Seq<char>> {
    match value {
        None => Ok(ArtifactReadEncoding::Base64),
        Some(v) => {
            let t = trim(v);
            if t.len() == 0 || t == "base64"@ {
                Ok(ArtifactReadEncoding::Base64)
            } else if t == "utf8"@ || t == "utf-8"@ {
                Ok(ArtifactReadEncoding::Utf8)
            } else {
                Err(t)
            }
        },
    }
}

pub fn normalize_artifact_read_encoding(value: Option<&str>) -> (r: Result<
    ArtifactReadEncoding,
    McpError,
>)
    ensures
        match spec_read_encoding(
            match value {
                Some(v) => Some(v@),
                None => None,
            },
        ) {
            Ok(enc) => r == Ok::<ArtifactReadEncoding, McpError>(enc),
            Err(t) => r matches Err(e) && e.kind == ErrorKind::InvalidParams && e.message@
                == "encoding must be one of: utf8, base64 (got '"@ + t + "')"@,
        },
{
    let v = match value {
        None => {
            return Ok(ArtifactReadEncoding::Base64);
        },
        Some(v) => v,
    };
    let t = trimmed(v);
    if t.len() == 0 || str_eq_chars("base64", t.as_slice()) {
        Ok(ArtifactReadEncoding::Base64)
    } else if str_eq_chars("utf8", t.as_slice()) || str_eq_chars("utf-8", t.as_slice()) {
        Ok(ArtifactReadEncoding::Utf8)
    } else {
        let mut m = chars_of("encoding must be one of: utf8, base64 (got '");
        append_chars(&mut m, t.as_slice());
        append_str(&mut m, "')");
        Err(McpError::invalid_params(string_of(m.as_slice())))
    }
}

/// The media type of an artifact, by its extension.
pub open spec fn spec_mime_type(extension: Option<Seq<char>>) -> Seq<char> {
    match extension {
        Some(e) => if e == "png"@ {
            "image/png"@
        } else if e == "xml"@ {
            "application/xml"@
        } else if e == "json"@ {
            "application/json"@
        } else if e == "txt"@ || e == "log"@ {
            "text/plain"@
        } else if e == "md"@ {
            "text/markdown"@
        } else if e == "svg"@ {
            "image/svg+xml"@
        } else if e == "jpg"@ || e == "jpeg"@ {
            "image/jpeg"@
        } else if e == "gif"@ {
            "image/gif"@
        } else if e == "webp"@ {
            "image/webp"@
        } else {
            "application/octet-stream"@
        },
        None => "application/octet-stream"@,
    }
}

pub fn guess_artifact_mime_type(path: &str) -> (r: &'static str)
    ensures
        r@ == spec_mime_type(path_extension(path@)),
{
    let ext = extension_of(path);
    match ext {
        Some(e) => {
            let s = e.as_str();
            if str_eq(s, "png") {
                "image/png"
            } else if str_eq(s, "xml") {
                "application/xml"
            } else if str_eq(s, "json") {
                "application/json"
            } else if str_eq(s, "txt") || str_eq(s, "log") {
                "text/plain"
            } else if str_eq(s, "md") {
                "text/markdown"
            } else if str_eq(s, "svg") {
                "image/svg+xml"
            } else if str_eq(s, "jpg") || str_eq(s, "jpeg") {
                "image/jpeg"
            } else if str_eq(s, "gif") {
                "image/gif"
            } else if str_eq(s, "webp") {
                "image/webp"
            } else {
                "application/octet-stream"
            }
        },
        None => "application/octet-stream",
    }
}


pub(crate) proof fn lemma_decimal_has_no(n: nat, c: char)
    requires
        !is_digit(c),
    ensures
        !decimal(n).contains(c),
{
    lemma_decimal_digits(n);
    if decimal(n).contains(c) {
        let i = choose|i: int| 0 <= i < decimal(n).len() && decimal(n)[i] == c;
        assert(is_digit(decimal(n)[i]));
    }
}

/// Timestamped file names are unique: names made with the same prefix and
/// extension differ whenever their times or sequence numbers differ, so calls
/// that draw distinct sequence numbers never share a name.
pub proof fn lemma_timestamp_filenames_unique(
    prefix: Seq<char>,
    extension: Option<Seq<char>>,
    millis1: u64,
    sequence1: u64,
    millis2: u64,
    sequence2: u64,
)
    requires
        millis1 != millis2 || sequence1 != sequence2,
    ensures
        spec_timestamp_filename(prefix, extension, millis1, sequence1) != spec_timestamp_filename(
            prefix,
            extension,
            millis2,
            sequence2,
        ),
{
    let d1 = decimal(millis1 as nat);
    let d2 = decimal(millis2 as nat);
    let e1 = decimal(sequence1 as nat);
    let e2 = decimal(sequence2 as nat);
    let tail = match extension {
        Some(e) => "."@ + e,
        None => Seq::<char>::empty(),
    };
    let n1 = spec_timestamp_filename(prefix, extension, millis1, sequence1);
    let n2 = spec_timestamp_filename(prefix, extension, millis2, sequence2);
    reveal_strlit("-");
    reveal_strlit(".");
    assert("-"@ =~= seq!['-']);
    let p = prefix + "-"@;
    assert(n1 =~= p + d1 + "-"@ + e1 + tail);
    assert(n2 =~= p + d2 + "-"@ + e2 + tail);
    let r1 = d1.push('-') + (e1 + tail);
    let r2 = d2.push('-') + (e2 + tail);
    assert(n1.subrange(p.len() as int, n1.len() as int) =~= r1);
    assert(n2.subrange(p.len() as int, n2.len() as int) =~= r2);
    if n1 == n2 {
        lemma_decimal_has_no(millis1 as nat, '-');
        lemma_decimal_has_no(millis2 as nat, '-');
        lemma_split_at_first(d1, e1 + tail, d2, e2 + tail, '-');
        lemma_decimal_injective(millis1 as nat, millis2 as nat);
        assert(e1 =~= (e1 + tail).subrange(0, e1.len() as int));
        assert(e2 =~= (e2 + tail).subrange(0, e2.len() as int));
        lemma_decimal_injective(sequence1 as nat, sequence2 as nat);
    }
}


/// Remote dump paths drawn with distinct times or sequence numbers differ.
pub proof fn lemma_remote_ui_dump_paths_unique(
    millis1: u64,
    sequence1: u64,
    millis2: u64,
    sequence2: u64,
)
    requires
        millis1 != millis2 || sequence1 != sequence2,
    ensures
        spec_remote_ui_dump_path(millis1, sequence1) != spec_remote_ui_dump_path(millis2, sequence2),
{
    let n1 = spec_timestamp_filename("window-dump"@, Some("xml"@), millis1, sequence1);
    let n2 = spec_timestamp_filename("window-dump"@, Some("xml"@), millis2, sequence2);
    lemma_timestamp_filenames_unique("window-dump"@, Some("xml"@), millis1, sequence1, millis2, sequence2);
    let p = "/sdcard/"@;
    if p + n1 == p + n2 {
        assert(n1 =~= (p + n1).subrange(p.len() as int, (p + n1).len() as int));
        assert(n2 =~= (p + n2).subrange(p.len() as int, (p + n2).len() as int));
    }
}

// ---------------------------------------------------------------------------
// Reading artifacts back.
// ---------------------------------------------------------------------------

/// The character of a base64 digit (standard alphabet).
pub open spec fn base64_digit(v: nat) -> char {
    if v < 26 {
        (('A' as u32) + v) as char
    } else if v < 52 {
        (('a' as u32) + v - 26) as char
    } else if v < 62 {
        (('0' as u32) + v - 52) as char
    } else if v == 62 {
        '+'
    } else {
        '/'
    }
}

/// Standard base64 with padding (RFC 4648): each three bytes become four
/// digits; a final one or two bytes become two or three digits and `=`
/// padding to four.
pub open spec fn base64_standard(b: Seq<u8>) -> Seq<char>
    decreases b.len(),
{
    if b.len() == 0 {
        Seq::empty()
    } else if b.len() == 1 {
        let n = b[0] as nat * 65536;
        seq![base64_digit(n / 262144), base64_digit((n / 4096) % 64), '=', '=']
    } else if b.len() == 2 {
        let n = b[0] as nat * 65536 + b[1] as nat * 256;
        seq![base64_digit(n / 262144), base64_digit((n / 4096) % 64), base64_digit((n / 64) % 64), '=']
    } else {
        let n = b[0] as nat * 65536 + b[1] as nat * 256 + b[2] as nat;
        seq![
            base64_digit(n / 262144),
            base64_digit((n / 4096) % 64),
            base64_digit((n / 64) % 64),
            base64_digit(n % 64),
        ] + base64_standard(b.skip(3))
    }
}

/// `base64::engine::general_purpose::STANDARD.encode`. Claimed: standard
/// base64 with padding, as `base64_standard` states it. The engine panics
/// where the encoded length overflows `usize`, which `requires` leaves out.
#[verifier::external_body]
fn standard_base64(data: &[u8]) -> (r: String)
    requires
        data@.len() / 3 * 4 + 4 <= usize::MAX,
    ensures
        r@ == base64_standard(data@),
{
    base64::Engine::encode(&base64::engine::general_purpose::STANDARD, data)
}

/// The payload of an artifact read as base64.
pub fn encode_artifact_base64(data: &[u8]) -> (r: String)
    requires
        data@.len() / 3 * 4 + 4 <= usize::MAX,
    ensures
        r@ == base64_standard(data@),
{
    standard_base64(data)
}

/// Whether a path lies inside another, compared component by component.
pub uninterp spec fn path_starts_with(path: Seq<char>, base: Seq<char>) -> bool;

/// `std::path::Path::starts_with`. Claimed: the result is named by
/// `path_starts_with`; component parsing is not written out here.
#[verifier::external_body]
fn path_is_within(path: &str, base: &str) -> (r: bool)
    ensures
        r == path_starts_with(path@, base@),
{
    std::path::Path::new(path).starts_with(base)
}

/// The requested artifact path, trimmed; a blank one is refused.
pub fn artifact_read_request(requested_path: &str) -> (r: Result<String, McpError>)
    ensures
        trim(requested_path@).len() == 0 ==> (r matches Err(e) && e.kind == ErrorKind::InvalidParams
            && e.message@ == "path must not be empty"@),
        trim(requested_path@).len() > 0 ==> (r matches Ok(p) && p@ == trim(requested_path@)),
{
    let t = trimmed(requested_path);
    if t.len() == 0 {
        return Err(McpError::invalid_params(owned("path must not be empty")));
    }
    Ok(string_of(t.as_slice()))
}

/// An artifact may be read only from inside the artifact directory: the
/// resolved path must start with the resolved directory.
pub fn ensure_artifact_within_root(canonical_path: &str, canonical_root: &str) -> (r: Result<(), McpError>)
    ensures
        path_starts_with(canonical_path@, canonical_root@) ==> r is Ok,
        !path_starts_with(canonical_path@, canonical_root@) ==> (r matches Err(e) && e.kind
            == ErrorKind::InvalidParams && e.message@
            == "artifact path must resolve inside the configured artifact directory"@),
{
    if path_is_within(canonical_path, canonical_root) {
        Ok(())
    } else {
        Err(McpError::invalid_params(owned("artifact path must resolve inside the configured artifact directory")))
    }
}

} // verus!
