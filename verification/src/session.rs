//! Installing a build into a hosted interactive session.
use sha2::Digest;
use vstd::prelude::*;
use crate::adb::{CommandOutput};
use crate::config::{InteractiveSessionConfig};
use crate::error::{ErrorKind, McpError, owned};
use crate::text::{append_str, lemma_replace_char_concat, chars_of, contains, contains_str, decimal, push_decimal, replace_char, replace_char_chars, str_eq, string_of, trim, trim_chars, trim_end, trim_end_chars};
use crate::ui::{opt_view};
use crate::window_views::{format_fingerprint_hex, hex_digit_char, hex_fixed};

verus! {

/// Arguments of `interactive_session.install_build_from_run`.
#[derive(Debug, Clone)]
pub struct InteractiveSessionInstallBuildArgs {
    pub workflow_run_id: u64,
    pub artifact_name: String,
    pub repository: Option<String>,
    pub launch_after_install: bool,
    pub serial: Option<String>,
    pub timeout_secs: Option<u64>,
}

/// Arguments of `interactive_session.relaunch_current_build`.
#[derive(Debug, Clone)]
pub struct InteractiveSessionRelaunchArgs {
    pub serial: Option<String>,
    pub timeout_secs: Option<u64>,
}

impl Default for InteractiveSessionRelaunchArgs {
    fn default() -> (r: Self)
        ensures
            r.serial is None && r.timeout_secs is None,
    {
        InteractiveSessionRelaunchArgs { serial: None, timeout_secs: None }
    }
}

/// A build is launched after it is installed unless the caller says not to.
pub fn default_launch_after_install() -> (r: bool)
    ensures
        r,
{
    true
}

/// `adb install` and `adb uninstall` report success with `Success`.
pub open spec fn spec_adb_success(stdout: Seq<char>, stderr: Seq<char>) -> bool {
    contains(stdout, "Success"@) || contains(stderr, "Success"@)
}

pub fn adb_install_succeeded(stdout: &str, stderr: &str) -> (r: bool)
    ensures
        r == spec_adb_success(stdout@, stderr@),
{
    let o = chars_of(stdout);
    let e = chars_of(stderr);
    contains_str(o.as_slice(), "Success") || contains_str(e.as_slice(), "Success")
}

pub fn adb_uninstall_succeeded(stdout: &str, stderr: &str) -> (r: bool)
    ensures
        r == spec_adb_success(stdout@, stderr@),
{
    adb_install_succeeded(stdout, stderr)
}

/// The install was refused because the installed package was signed by
/// another key.
pub open spec fn spec_signature_mismatch(stdout: Seq<char>, stderr: Seq<char>) -> bool {
    let combined = stdout + "\n"@ + stderr;
    contains(combined, "INSTALL_FAILED_UPDATE_INCOMPATIBLE"@) || contains(
        combined,
        "signatures do not match newer version"@,
    )
}

pub fn adb_install_failed_due_to_signature_mismatch(stdout: &str, stderr: &str) -> (r: bool)
    ensures
        r == spec_signature_mismatch(stdout@, stderr@),
{
    let mut c = chars_of(stdout);
    append_str(&mut c, "\n");
    append_str(&mut c, stderr);
    contains_str(c.as_slice(), "INSTALL_FAILED_UPDATE_INCOMPATIBLE") || contains_str(
        c.as_slice(),
        "signatures do not match newer version",
    )
}

/// What an install did.
#[derive(Debug, Clone)]
pub struct InstallOutcome {
    pub install_stdout: String,
    pub install_stderr: String,
    pub uninstalled_existing_package: bool,
}

/// The step of an install that retries after removing a package signed by
/// another key.
#[derive(Debug, Clone)]
pub enum InstallStep {
    /// Run `adb uninstall` on the package, then report back.
    Uninstall,
    /// Run `adb install -r` on the APK again, then report back.
    Reinstall,
    /// The install is over.
    Done(InstallOutcome),
    /// The install failed.
    Failed(McpError),
}

/// Where the install stands.
#[derive(Debug, Clone)]
pub enum InstallPhase {
    /// The first `adb install -r` ran and printed this.
    Installed(CommandOutput),
    /// The first install printed the first output, and the uninstall the
    /// second.
    Uninstalled(CommandOutput, CommandOutput),
    /// The first install printed the first output, and the reinstall the
    /// second.
    Reinstalled(CommandOutput, CommandOutput),
}

/// The log of an install that needed an uninstall: the first output without
/// trailing whitespace, a marker line, the second output, all trimmed.
pub open spec fn spec_fallback_log(first: Seq<char>, second: Seq<char>) -> Seq<char> {
    trim(trim_end(first) + "\n[uninstall-before-reinstall]\n"@ + second)
}

fn fallback_log(first: &str, second: &str) -> (r: String)
    ensures
        r@ == spec_fallback_log(first@, second@),
{
    let fv = chars_of(first);
    let mut v = trim_end_chars(fv.as_slice());
    append_str(&mut v, "\n[uninstall-before-reinstall]\n");
    append_str(&mut v, second);
    let t = trim_chars(v.as_slice());
    string_of(t.as_slice())
}

/// The next step of an install, given what the last adb command printed.
///
/// A first install that succeeds is done. One that failed for another
/// reason than a signature mismatch fails; after a mismatch the package is
/// uninstalled. A failed uninstall fails; a successful one is followed by a
/// reinstall, which must succeed. `apk` and `package_name` name the file
/// and package in the error messages.
pub fn install_fallback_step(phase: &InstallPhase, apk: &str, package_name: &str) -> (r: InstallStep)
    ensures
        match phase {
            InstallPhase::Installed(out) => if spec_adb_success(out.stdout@, out.stderr@) {
                r matches InstallStep::Done(o) && o.install_stdout@ == out.stdout@
                    && o.install_stderr@ == out.stderr@ && !o.uninstalled_existing_package
            } else if spec_signature_mismatch(out.stdout@, out.stderr@) {
                r is Uninstall
            } else {
                r matches InstallStep::Failed(e) && e.kind == ErrorKind::InternalError
                    && e.message@ == "adb install did not report success for "@ + apk@
            },
            InstallPhase::Uninstalled(_, out) => if spec_adb_success(out.stdout@, out.stderr@) {
                r is Reinstall
            } else {
                r matches InstallStep::Failed(e) && e.kind == ErrorKind::InternalError
                    && e.message@ == "adb uninstall did not report success for package "@
                    + package_name@ + " before reinstall"@
            },
            InstallPhase::Reinstalled(first, out) => if spec_adb_success(out.stdout@, out.stderr@) {
                r matches InstallStep::Done(o) && o.install_stdout@ == spec_fallback_log(
                    first.stdout@,
                    out.stdout@,
                ) && o.install_stderr@ == spec_fallback_log(first.stderr@, out.stderr@)
                    && o.uninstalled_existing_package
            } else {
                r matches InstallStep::Failed(e) && e.kind == ErrorKind::InternalError
                    && e.message@ == "adb install did not report success for "@ + apk@
                    + " after uninstalling "@ + package_name@
            },
        },
{
    match phase {
        InstallPhase::Installed(out) => {
            if adb_install_succeeded(out.stdout.as_str(), out.stderr.as_str()) {
                return InstallStep::Done(
                    InstallOutcome {
                        install_stdout: out.stdout.clone(),
                        install_stderr: out.stderr.clone(),
                        uninstalled_existing_package: false,
                    },
                );
            }
            if adb_install_failed_due_to_signature_mismatch(out.stdout.as_str(), out.stderr.as_str()) {
                return InstallStep::Uninstall;
            }
            let mut m = chars_of("adb install did not report success for ");
            append_str(&mut m, apk);
            InstallStep::Failed(McpError::internal_error(string_of(m.as_slice())))
        },
        InstallPhase::Uninstalled(_, out) => {
            if adb_uninstall_succeeded(out.stdout.as_str(), out.stderr.as_str()) {
                return InstallStep::Reinstall;
            }
            let mut m = chars_of("adb uninstall did not report success for package ");
            append_str(&mut m, package_name);
            append_str(&mut m, " before reinstall");
            InstallStep::Failed(McpError::internal_error(string_of(m.as_slice())))
        },
        InstallPhase::Reinstalled(first, out) => {
            if adb_install_succeeded(out.stdout.as_str(), out.stderr.as_str()) {
                return InstallStep::Done(
                    InstallOutcome {
                        install_stdout: fallback_log(first.stdout.as_str(), out.stdout.as_str()),
                        install_stderr: fallback_log(first.stderr.as_str(), out.stderr.as_str()),
                        uninstalled_existing_package: true,
                    },
                );
            }
            let mut m = chars_of("adb install did not report success for ");
            append_str(&mut m, apk);
            append_str(&mut m, " after uninstalling ");
            append_str(&mut m, package_name);
            InstallStep::Failed(McpError::internal_error(string_of(m.as_slice())))
        },
    }
}

/// A compact timestamp: an ISO timestamp without `-` and `:`.
pub open spec fn spec_timestamp_slug(iso: Seq<char>) -> Seq<char> {
    replace_char(replace_char(iso, '-', Seq::<char>::empty()), ':', Seq::<char>::empty())
}

proof fn lemma_remove_char(s: Seq<char>, c: char)
    ensures
        !replace_char(s, c, Seq::<char>::empty()).contains(c),
        forall|d: char| #[trigger] replace_char(s, c, Seq::<char>::empty()).contains(d) ==> s.contains(d),
    decreases s.len(),
{
    if s.len() > 0 {
        let p = s.drop_last();
        lemma_remove_char(p, c);
        let rp = replace_char(p, c, Seq::<char>::empty());
        let out = replace_char(s, c, Seq::<char>::empty());
        if s.last() == c {
            assert(out =~= rp);
        } else {
            assert(out == rp.push(s.last()));
        }
        assert forall|d: char| #[trigger] out.contains(d) implies s.contains(d) by {
            let k = choose|k: int| 0 <= k < out.len() && out[k] == d;
            if k < rp.len() {
                assert(out[k] == rp[k]);
                assert(rp.contains(d));
                let j = choose|j: int| 0 <= j < p.len() && p[j] == d;
                assert(s[j] == d);
            } else {
                assert(s[s.len() - 1] == d);
            }
        }
        if out.contains(c) {
            let k = choose|k: int| 0 <= k < out.len() && out[k] == c;
            if k < rp.len() {
                assert(out[k] == rp[k]);
                assert(rp.contains(c));
            }
        }
    }
}

/// A compact timestamp holds neither `-` nor `:`, and nothing that the ISO
/// timestamp did not hold.
pub proof fn lemma_timestamp_slug_compact(iso: Seq<char>)
    ensures
        !spec_timestamp_slug(iso).contains('-'),
        !spec_timestamp_slug(iso).contains(':'),
        forall|d: char| #[trigger] spec_timestamp_slug(iso).contains(d) ==> iso.contains(d),
{
    let a = replace_char(iso, '-', Seq::<char>::empty());
    lemma_remove_char(iso, '-');
    lemma_remove_char(a, ':');
    if spec_timestamp_slug(iso).contains('-') {
        assert(a.contains('-'));
    }
}

proof fn lemma_replace_absent(s: Seq<char>, c: char)
    requires
        forall|i: int| 0 <= i < s.len() ==> s[i] != c,
    ensures
        replace_char(s, c, Seq::<char>::empty()) == s,
    decreases s.len(),
{
    if s.len() > 0 {
        let p = s.drop_last();
        assert forall|i: int| 0 <= i < p.len() implies p[i] != c by {
            assert(p[i] == s[i]);
        }
        lemma_replace_absent(p, c);
        assert(s[s.len() - 1] != c);
        assert(p.push(s.last()) =~= s);
    }
}

proof fn lemma_replace_single(c: char)
    ensures
        replace_char(seq![c], c, Seq::<char>::empty()) == Seq::<char>::empty(),
{
    let s = seq![c];
    assert(s.drop_last() =~= Seq::<char>::empty());
    assert(replace_char(s.drop_last(), c, Seq::<char>::empty()) == s.drop_last());
    assert(s.drop_last() + Seq::<char>::empty() =~= Seq::<char>::empty());
}

/// The compact timestamp of an ISO timestamp laid out as
/// `YYYY-MM-DDTHH:MM:SSZ` is `YYYYMMDDTHHMMSSZ`: sixteen characters, digits
/// but for the `T` and the `Z`.
pub proof fn lemma_timestamp_slug_layout(iso: Seq<char>)
    requires
        rfc3339_seconds_layout(iso),
    ensures
        spec_timestamp_slug(iso) == iso.subrange(0, 4) + iso.subrange(5, 7) + iso.subrange(8, 13)
            + iso.subrange(14, 16) + iso.subrange(17, 20),
        spec_timestamp_slug(iso).len() == 16,
        spec_timestamp_slug(iso)[8] == 'T',
        spec_timestamp_slug(iso)[15] == 'Z',
        forall|i: int|
            0 <= i < 16 && i != 8 && i != 15 ==> '0' <= #[trigger] spec_timestamp_slug(iso)[i] <= '9',
{
    let e = Seq::<char>::empty();
    let p0 = iso.subrange(0, 4);
    let d1 = iso.subrange(4, 5);
    let p1 = iso.subrange(5, 7);
    let d2 = iso.subrange(7, 8);
    let p2 = iso.subrange(8, 13);
    let c1 = iso.subrange(13, 14);
    let p3 = iso.subrange(14, 16);
    let c2 = iso.subrange(16, 17);
    let p4 = iso.subrange(17, 20);
    assert(d1 =~= seq!['-']);
    assert(d2 =~= seq!['-']);
    assert(c1 =~= seq![':']);
    assert(c2 =~= seq![':']);
    assert(iso =~= p0 + d1 + p1 + d2 + p2 + c1 + p3 + c2 + p4);
    lemma_replace_single('-');
    lemma_replace_single(':');
    assert forall|i: int| 0 <= i < p0.len() implies p0[i] != '-' && p0[i] != ':' by {
        assert(p0[i] == iso[i]);
    }
    assert forall|i: int| 0 <= i < p1.len() implies p1[i] != '-' && p1[i] != ':' by {
        assert(p1[i] == iso[i + 5]);
    }
    assert forall|i: int| 0 <= i < p2.len() implies p2[i] != '-' && p2[i] != ':' by {
        assert(p2[i] == iso[i + 8]);
    }
    assert forall|i: int| 0 <= i < p3.len() implies p3[i] != '-' && p3[i] != ':' by {
        assert(p3[i] == iso[i + 14]);
    }
    assert forall|i: int| 0 <= i < p4.len() implies p4[i] != '-' && p4[i] != ':' by {
        assert(p4[i] == iso[i + 17]);
    }
    lemma_replace_absent(p0, '-');
    lemma_replace_absent(p1, '-');
    lemma_replace_absent(p2, '-');
    lemma_replace_absent(p3, '-');
    lemma_replace_absent(p4, '-');
    lemma_replace_absent(c1, '-');
    lemma_replace_absent(c2, '-');
    lemma_replace_absent(p0, ':');
    lemma_replace_absent(p1, ':');
    lemma_replace_absent(p2, ':');
    lemma_replace_absent(p3, ':');
    lemma_replace_absent(p4, ':');
    lemma_replace_char_concat(p0, d1, '-', e);
    lemma_replace_char_concat(p0 + d1, p1, '-', e);
    lemma_replace_char_concat(p0 + d1 + p1, d2, '-', e);
    lemma_replace_char_concat(p0 + d1 + p1 + d2, p2, '-', e);
    lemma_replace_char_concat(p0 + d1 + p1 + d2 + p2, c1, '-', e);
    lemma_replace_char_concat(p0 + d1 + p1 + d2 + p2 + c1, p3, '-', e);
    lemma_replace_char_concat(p0 + d1 + p1 + d2 + p2 + c1 + p3, c2, '-', e);
    lemma_replace_char_concat(p0 + d1 + p1 + d2 + p2 + c1 + p3 + c2, p4, '-', e);
    let a = replace_char(iso, '-', e);
    assert(a =~= p0 + p1 + p2 + c1 + p3 + c2 + p4);
    lemma_replace_char_concat(p0, p1, ':', e);
    lemma_replace_char_concat(p0 + p1, p2, ':', e);
    lemma_replace_char_concat(p0 + p1 + p2, c1, ':', e);
    lemma_replace_char_concat(p0 + p1 + p2 + c1, p3, ':', e);
    lemma_replace_char_concat(p0 + p1 + p2 + c1 + p3, c2, ':', e);
    lemma_replace_char_concat(p0 + p1 + p2 + c1 + p3 + c2, p4, ':', e);
    let slug = spec_timestamp_slug(iso);
    assert(slug =~= p0 + p1 + p2 + p3 + p4);
    assert forall|i: int| 0 <= i < 16 && i != 8 && i != 15 implies '0' <= #[trigger] slug[i] <= '9' by {
        if i < 4 {
            assert(slug[i] == iso[i]);
        } else if i < 6 {
            assert(slug[i] == iso[i + 1]);
        } else if i < 11 {
            assert(slug[i] == iso[i + 2]);
        } else if i < 13 {
            assert(slug[i] == iso[i + 3]);
        } else {
            assert(slug[i] == iso[i + 4]);
        }
    }
}

pub fn timestamp_slug_of(iso: &str) -> (r: String)
    ensures
        r@ == spec_timestamp_slug(iso@),
{
    let v = chars_of(iso);
    let empty: Vec<char> = Vec::new();
    let a = replace_char_chars(v.as_slice(), '-', empty.as_slice());
    let b = replace_char_chars(a.as_slice(), ':', empty.as_slice());
    string_of(b.as_slice())
}

/// The one path among `matches`, or an error that says how many there were.
pub fn single_file_match(matches: Vec<String>, filename: &str, root: &str) -> (r: Result<
    String,
    McpError,
>)
    ensures
        matches@.len() == 1 ==> (r matches Ok(p) && p@ == matches@[0]@),
        matches@.len() != 1 ==> (r matches Err(e) && e.kind == ErrorKind::InternalError && e.message@
            == "expected exactly one "@ + filename@ + " under "@ + root@ + ", found "@ + decimal(
            matches@.len(),
        )),
{
    if matches.len() == 1 {
        let mut m = matches;
        let p = m.pop().unwrap();
        return Ok(p);
    }
    let mut msg = chars_of("expected exactly one ");
    append_str(&mut msg, filename);
    append_str(&mut msg, " under ");
    append_str(&mut msg, root);
    append_str(&mut msg, ", found ");
    push_decimal(&mut msg, matches.len() as u64);
    Err(McpError::internal_error(string_of(msg.as_slice())))
}


// ---------------------------------------------------------------------------
// Build checks and timestamps.
// ---------------------------------------------------------------------------

/// The SHA-256 digest of some bytes.
pub uninterp spec fn sha256_digest(data: Seq<u8>) -> Seq<u8>;

/// `sha2::Sha256::digest`. Claimed: the digest of the bytes, which is 32
/// bytes long; what the digest is, is named by `sha256_digest` and not
/// written out here.
#[verifier::external_body]
fn sha256_of(data: &[u8]) -> (r: Vec<u8>)
    ensures
        r@ == sha256_digest(data@),
        r@.len() == 32,
{
    sha2::Sha256::digest(data).to_vec()
}

/// The two lower-case hexadecimal digits of each byte, in order (`{:x}` on a digest).
pub open spec fn lower_hex(bytes: Seq<u8>) -> Seq<char>
    decreases bytes.len(),
{
    if bytes.len() == 0 {
        Seq::empty()
    } else {
        lower_hex(bytes.drop_last()) + hex_fixed(bytes.last() as nat, 2)
    }
}

fn push_hex_byte(out: &mut Vec<char>, b: u8)
    ensures
        final(out)@ == old(out)@ + hex_fixed(b as nat, 2),
{
    let s = format_fingerprint_hex(b as u64);
    let v = chars_of(s.as_str());
    proof {
        lemma_hex_fixed_suffix(b as nat, 16);
        lemma_hex_fixed_len(b as nat, 2);
    }
    assert(v@ == hex_fixed(b as nat, 16));
    assert(v@[14] == hex_fixed(b as nat, 2)[0]);
    assert(v@[15] == hex_fixed(b as nat, 2)[1]);
    out.push(v[14]);
    out.push(v[15]);
    assert(out@ =~= old(out)@ + hex_fixed(b as nat, 2));
}

proof fn lemma_hex_fixed_suffix(n: nat, width: nat)
    requires
        width >= 2,
    ensures
        hex_fixed(n, width).len() == width,
        hex_fixed(n, width)[width - 2] == hex_fixed(n, 2)[0],
        hex_fixed(n, width)[width - 1] == hex_fixed(n, 2)[1],
    decreases width,
{
    lemma_hex_fixed_len(n, width);
    lemma_hex_fixed_len(n / 16, (width - 1) as nat);
    if width > 2 {
        lemma_hex_fixed_suffix(n, (width - 1) as nat);
        lemma_hex_fixed_prefix_shift(n, width);
    }
}

proof fn lemma_hex_fixed_len(n: nat, width: nat)
    ensures
        hex_fixed(n, width).len() == width,
    decreases width,
{
    if width > 0 {
        lemma_hex_fixed_len(n / 16, (width - 1) as nat);
    }
}

/// The last two digits of a wider rendering are the two-digit rendering.
proof fn lemma_hex_fixed_prefix_shift(n: nat, width: nat)
    requires
        width > 2,
    ensures
        hex_fixed(n, width)[width - 2] == hex_fixed(n, 2)[0],
        hex_fixed(n, width)[width - 1] == hex_fixed(n, 2)[1],
{
    lemma_hex_fixed_len(n / 16, (width - 1) as nat);
    lemma_hex_fixed_len(n / 16 / 16, (width - 2) as nat);
    let a = hex_fixed(n / 16, (width - 1) as nat);
    assert(hex_fixed(n, width) == a.push(hex_digit_char(n % 16)));
    assert(a == hex_fixed(n / 16 / 16, (width - 2) as nat).push(hex_digit_char((n / 16) % 16)));
    assert(hex_fixed(n / 16 / 16, 0) == Seq::<char>::empty());
    assert(hex_fixed(n / 16, 1) == hex_fixed(n / 16 / 16, 0).push(hex_digit_char((n / 16) % 16)));
    assert(hex_fixed(n, 2) == hex_fixed(n / 16, 1).push(hex_digit_char(n % 16)));
}

/// The lower-case hexadecimal spelling of a digest.
pub fn lower_hex_of(bytes: &[u8]) -> (r: String)
    ensures
        r@ == lower_hex(bytes@),
{
    let mut out: Vec<char> = Vec::new();
    let mut i: usize = 0;
    while i < bytes.len()
        invariant
            i <= bytes.len(),
            out@ == lower_hex(bytes@.take(i as int)),
        decreases bytes.len() - i,
    {
        push_hex_byte(&mut out, bytes[i]);
        assert(bytes@.take(i + 1).drop_last() =~= bytes@.take(i as int));
        i = i + 1;
    }
    assert(bytes@.take(bytes.len() as int) =~= bytes@);
    string_of(out.as_slice())
}

/// The check of a downloaded APK against its manifest, given the digest of
/// its bytes: the digest in lower-case hex must equal the expected one.
pub fn check_sha256_digest(path: &str, digest: &[u8], expected: &str) -> (r: Result<(), McpError>)
    ensures
        lower_hex(digest@) == expected@ ==> r is Ok,
        lower_hex(digest@) != expected@ ==> (r matches Err(e) && e.kind == ErrorKind::InternalError
            && e.message@ == "sha256 mismatch for "@ + path@ + ": expected "@ + expected@ + ", observed "@
            + lower_hex(digest@)),
{
    let observed = lower_hex_of(digest);
    if str_eq(observed.as_str(), expected) {
        Ok(())
    } else {
        let mut m = chars_of("sha256 mismatch for ");
        append_str(&mut m, path);
        append_str(&mut m, ": expected ");
        append_str(&mut m, expected);
        append_str(&mut m, ", observed ");
        append_str(&mut m, observed.as_str());
        Err(McpError::internal_error(string_of(m.as_slice())))
    }
}

/// The check of an APK's bytes against the digest its manifest expects.
pub fn verify_sha256(path: &str, data: &[u8], expected: &str) -> (r: Result<(), McpError>)
    ensures
        lower_hex(sha256_digest(data@)) == expected@ ==> r is Ok,
        lower_hex(sha256_digest(data@)) != expected@ ==> (r matches Err(e) && e.kind
            == ErrorKind::InternalError && e.message@ == "sha256 mismatch for "@ + path@ + ": expected "@
            + expected@ + ", observed "@ + lower_hex(sha256_digest(data@))),
{
    let digest = sha256_of(data);
    check_sha256_digest(path, digest.as_slice(), expected)
}

/// What `chrono` writes for a Unix time in whole seconds as an RFC 3339 UTC
/// timestamp with seconds and a `Z`; `None` where the time is out of its range.
pub uninterp spec fn rfc3339_utc_seconds(unix_seconds: int) -> Option<Seq<char>>;

/// The first Unix second of year 0 and the last one of year 9999.
pub open spec fn four_digit_year_seconds(unix_seconds: int) -> bool {
    -62167219200 <= unix_seconds <= 253402300799
}

/// `t` is laid out as `YYYY-MM-DDTHH:MM:SSZ`: twenty characters, digits
/// everywhere but the separators.
pub open spec fn rfc3339_seconds_layout(t: Seq<char>) -> bool {
    &&& t.len() == 20
    &&& t[4] == '-' && t[7] == '-' && t[10] == 'T' && t[13] == ':' && t[16] == ':' && t[19] == 'Z'
    &&& forall|i: int|
        0 <= i < 20 && i != 4 && i != 7 && i != 10 && i != 13 && i != 16 && i != 19 ==> '0' <= #[trigger] t[i]
            <= '9'
}

/// `chrono::DateTime::from_timestamp` then `to_rfc3339_opts(Secs, true)`.
/// Claimed: the result is named by `rfc3339_utc_seconds`; the calendar is not
/// written out here. For a time in the years 0 to 9999 there is a result,
/// laid out as `YYYY-MM-DDTHH:MM:SSZ` (chrono writes the year with four
/// digits there, each other field with two, and `Z` for UTC).
#[verifier::external_body]
fn format_rfc3339_utc(unix_seconds: i64) -> (r: Option<String>)
    ensures
        opt_view(r) == rfc3339_utc_seconds(unix_seconds as int),
        four_digit_year_seconds(unix_seconds as int) ==> r is Some && rfc3339_seconds_layout(opt_view(r)->0),
{
    chrono::DateTime::from_timestamp(unix_seconds, 0)
        .map(|datetime| datetime.to_rfc3339_opts(chrono::SecondsFormat::Secs, true))
}

/// The ISO timestamp of a Unix time in seconds; in the years 0 to 9999 it
/// is laid out as `YYYY-MM-DDTHH:MM:SSZ`.
pub fn chrono_like_iso(unix_seconds: i64) -> (r: Option<String>)
    ensures
        opt_view(r) == rfc3339_utc_seconds(unix_seconds as int),
        four_digit_year_seconds(unix_seconds as int) ==> r is Some && rfc3339_seconds_layout(opt_view(r)->0),
{
    format_rfc3339_utc(unix_seconds)
}

/// The compact timestamp of a Unix time in seconds: its ISO timestamp
/// without `-` and `:`; in the years 0 to 9999, sixteen characters laid out
/// as `YYYYMMDDTHHMMSSZ`.
pub fn timestamp_slug(unix_seconds: i64) -> (r: Option<String>)
    ensures
        match rfc3339_utc_seconds(unix_seconds as int) {
            Some(iso) => r matches Some(s) && s@ == spec_timestamp_slug(iso),
            None => r is None,
        },
        four_digit_year_seconds(unix_seconds as int) ==> r is Some && opt_view(r)->0.len() == 16
            && opt_view(r)->0[8] == 'T' && opt_view(r)->0[15] == 'Z',
{
    match format_rfc3339_utc(unix_seconds) {
        Some(iso) => {
            proof {
                if four_digit_year_seconds(unix_seconds as int) {
                    lemma_timestamp_slug_layout(iso@);
                }
            }
            Some(timestamp_slug_of(iso.as_str()))
        },
        None => None,
    }
}


// ---------------------------------------------------------------------------
// Choosing and checking a build.
// ---------------------------------------------------------------------------

/// The session's settings, or the error that the session controls are not
/// set up.
pub fn require_interactive_session_config(config: Option<&InteractiveSessionConfig>) -> (r: Result<
    &InteractiveSessionConfig,
    McpError,
>)
    ensures
        match config {
            Some(c) => r matches Ok(x) && x == c,
            None => r matches Err(e) && e.kind == ErrorKind::InvalidParams && e.message@
                == "interactive session controls are not configured for this server"@,
        },
{
    match config {
        Some(c) => Ok(c),
        None => Err(McpError::invalid_params(owned("interactive session controls are not configured for this server"))),
    }
}

/// The token that downloads need, or the error that names the setting.
pub fn require_github_token(config: &InteractiveSessionConfig) -> (r: Result<String, McpError>)
    ensures
        match config.github_token {
            Some(t) => r matches Ok(x) && x@ == t@,
            None => r matches Err(e) && e.kind == ErrorKind::InvalidParams && e.message@
                == "interactive session download requires ANDROID_COMPUTER_USE_MCP_INTERACTIVE_SESSION_GITHUB_TOKEN"@,
        },
{
    match &config.github_token {
        Some(t) => Ok(owned(t.as_str())),
        None => Err(
            McpError::invalid_params(
                owned(
                    "interactive session download requires ANDROID_COMPUTER_USE_MCP_INTERACTIVE_SESSION_GITHUB_TOKEN",
                ),
            ),
        ),
    }
}

/// What an install from a workflow run asks for, once checked.
#[derive(Debug, Clone)]
pub struct InstallBuildRequest {
    pub repository: String,
    pub artifact_name: String,
}

/// The repository and artifact of an install: a blank artifact name is
/// refused; the artifact name is trimmed; the repository is the one asked
/// for, trimmed, unless that is blank, else the session's.
pub fn install_build_request(args: &InteractiveSessionInstallBuildArgs, default_repository: &str) -> (r:
    Result<InstallBuildRequest, McpError>)
    ensures
        trim(args.artifact_name@).len() == 0 ==> (r matches Err(e) && e.kind == ErrorKind::InvalidParams
            && e.message@ == "artifact_name must not be empty"@),
        trim(args.artifact_name@).len() > 0 ==> (r matches Ok(q) && q.artifact_name@ == trim(
            args.artifact_name@,
        ) && q.repository@ == match args.repository {
            Some(x) => if trim(x@).len() > 0 {
                trim(x@)
            } else {
                default_repository@
            },
            None => default_repository@,
        }),
{
    let name = trim_chars(chars_of(args.artifact_name.as_str()).as_slice());
    if name.len() == 0 {
        return Err(McpError::invalid_params(owned("artifact_name must not be empty")));
    }
    let repository = match &args.repository {
        Some(x) => {
            let t = trim_chars(chars_of(x.as_str()).as_slice());
            if t.len() > 0 {
                string_of(t.as_slice())
            } else {
                owned(default_repository)
            }
        },
        None => owned(default_repository),
    };
    Ok(InstallBuildRequest { repository, artifact_name: string_of(name.as_slice()) })
}

/// The API address that lists a workflow run's artifacts.
pub open spec fn spec_artifacts_url(repository: Seq<char>, workflow_run_id: u64) -> Seq<char> {
    "https://api.github.com/repos/"@ + repository + "/actions/runs/"@ + decimal(workflow_run_id as nat)
        + "/artifacts?per_page=100"@
}

pub fn github_artifacts_url(repository: &str, workflow_run_id: u64) -> (r: String)
    ensures
        r@ == spec_artifacts_url(repository@, workflow_run_id),
{
    let mut v = chars_of("https://api.github.com/repos/");
    append_str(&mut v, repository);
    append_str(&mut v, "/actions/runs/");
    push_decimal(&mut v, workflow_run_id);
    append_str(&mut v, "/artifacts?per_page=100");
    string_of(v.as_slice())
}

/// An artifact of a workflow run, as the API lists it.
#[derive(Debug, Clone)]
pub struct GitHubArtifact {
    pub id: u64,
    pub name: String,
    pub expired: bool,
    pub archive_download_url: String,
}

/// An artifact that can be downloaded under this name.
pub open spec fn artifact_usable(a: GitHubArtifact, name: Seq<char>) -> bool {
    a.name@ == name && !a.expired
}

fn artifact_usable_exec(a: &GitHubArtifact, name: &str) -> (r: bool)
    ensures
        r == artifact_usable(*a, name@),
{
    str_eq(a.name.as_str(), name) && !a.expired
}

/// The first artifact of the run with the name asked for that has not
/// expired, or the error that it was not found.
pub fn select_workflow_artifact(artifacts: Vec<GitHubArtifact>, artifact_name: &str, workflow_run_id: u64) -> (r:
    Result<GitHubArtifact, McpError>)
    ensures
        match r {
            Ok(a) => exists|i: int|
                0 <= i < artifacts@.len() && a == artifacts@[i] && artifact_usable(artifacts@[i], artifact_name@)
                    && forall|j: int| 0 <= j < i ==> !artifact_usable(#[trigger] artifacts@[j], artifact_name@),
            Err(e) => (forall|i: int| 0 <= i < artifacts@.len() ==> !artifact_usable(#[trigger] artifacts@[i], artifact_name@))
                && e.kind == ErrorKind::InvalidParams && e.message@ == "artifact "@ + artifact_name@
                + " was not found on workflow run "@ + decimal(workflow_run_id as nat),
        },
{
    let mut i: usize = 0;
    while i < artifacts.len() && !artifact_usable_exec(&artifacts[i], artifact_name)
        invariant
            i <= artifacts@.len(),
            forall|j: int| 0 <= j < i ==> !artifact_usable(#[trigger] artifacts@[j], artifact_name@),
        decreases artifacts.len() - i,
    {
        i = i + 1;
    }
    if i < artifacts.len() {
        let ghost all = artifacts@;
        let mut artifacts = artifacts;
        let a = artifacts.remove(i);
        assert(a == all[i as int]);
        return Ok(a);
    }
    let mut v = chars_of("artifact ");
    append_str(&mut v, artifact_name);
    append_str(&mut v, " was not found on workflow run ");
    push_decimal(&mut v, workflow_run_id);
    Err(McpError::invalid_params(string_of(v.as_slice())))
}

/// Where a run's artifact is unpacked, below the session root: the path
/// components `build-cache`, `run-<id>` and the artifact name.
pub fn build_cache_components(workflow_run_id: u64, artifact_name: &str) -> (r: Vec<String>)
    ensures
        r@.len() == 3,
        r@[0]@ == "build-cache"@,
        r@[1]@ == "run-"@ + decimal(workflow_run_id as nat),
        r@[2]@ == artifact_name@,
{
    let mut run = chars_of("run-");
    push_decimal(&mut run, workflow_run_id);
    let mut r: Vec<String> = Vec::new();
    r.push(owned("build-cache"));
    r.push(string_of(run.as_slice()));
    r.push(owned(artifact_name));
    r
}

/// A bundle must build the app that the session runs: its package and
/// activity must be the session's, else the error names both.
pub fn check_manifest_target(
    artifact_name: &str,
    manifest_package: &str,
    manifest_activity: &str,
    app_package: &str,
    app_activity: &str,
) -> (r: Result<(), McpError>)
    ensures
        (manifest_package@ == app_package@ && manifest_activity@ == app_activity@) ==> r is Ok,
        !(manifest_package@ == app_package@ && manifest_activity@ == app_activity@) ==> (r matches Err(e)
            && e.kind == ErrorKind::InvalidParams && e.message@ == "artifact "@ + artifact_name@
            + " targets "@ + manifest_package@ + "/"@ + manifest_activity@ + " but the session expects "@
            + app_package@ + "/"@ + app_activity@),
{
    if str_eq(manifest_package, app_package) && str_eq(manifest_activity, app_activity) {
        return Ok(());
    }
    let mut v = chars_of("artifact ");
    append_str(&mut v, artifact_name);
    append_str(&mut v, " targets ");
    append_str(&mut v, manifest_package);
    append_str(&mut v, "/");
    append_str(&mut v, manifest_activity);
    append_str(&mut v, " but the session expects ");
    append_str(&mut v, app_package);
    append_str(&mut v, "/");
    append_str(&mut v, app_activity);
    Err(McpError::invalid_params(string_of(v.as_slice())))
}

/// What happens to a downloaded build.
#[derive(Debug, Clone, Copy, PartialEq, Eq, Structural)]
pub enum BuildActivation {
    /// The build is already the active one and no launch was asked for.
    ReuseExisting,
    /// Launch the build, installing it first where `install` says so.
    Launch { install: bool },
}

/// A build whose APK digest is the active build's is not installed again;
/// it is left alone unless a launch was asked for.
pub fn build_activation(active_apk_sha256: Option<&str>, new_apk_sha256: &str, launch_after_install: bool) -> (r:
    BuildActivation)
    ensures
        ({
            let already = active_apk_sha256 matches Some(a) && a@ == new_apk_sha256@;
            r == if already && !launch_after_install {
                BuildActivation::ReuseExisting
            } else {
                BuildActivation::Launch { install: !already }
            }
        }),
{
    let already = match active_apk_sha256 {
        Some(a) => str_eq(a, new_apk_sha256),
        None => false,
    };
    if already && !launch_after_install {
        BuildActivation::ReuseExisting
    } else {
        BuildActivation::Launch { install: !already }
    }
}

/// The error for a relaunch when no build is active.
pub fn no_active_build_error() -> (e: McpError)
    ensures
        e.kind == ErrorKind::InvalidParams,
        e.message@ == "No active-build.json is available for relaunch"@,
{
    McpError::invalid_params(owned("No active-build.json is available for relaunch"))
}

/// The command that starts a bundle's activity.
pub fn manifest_launch_command(package_name: &str, activity_name: &str) -> (r: Vec<String>)
    ensures
        r@.len() == 4,
        r@[0]@ == "am"@,
        r@[1]@ == "start"@,
        r@[2]@ == "-n"@,
        r@[3]@ == package_name@ + "/"@ + activity_name@,
{
    let mut component = chars_of(package_name);
    append_str(&mut component, "/");
    append_str(&mut component, activity_name);
    let mut r: Vec<String> = Vec::new();
    r.push(owned("am"));
    r.push(owned("start"));
    r.push(owned("-n"));
    r.push(string_of(component.as_slice()));
    r
}

/// Among the cached bundles' manifests (their run id and artifact name, in
/// the order they were found), the first that records this run and
/// artifact; else the error that none is cached.
pub fn find_cached_bundle(cached: &Vec<(String, String)>, run_id: &str, artifact_name: &str) -> (r: Result<
    usize,
    McpError,
>)
    ensures
        match r {
            Ok(i) => i < cached@.len() && cached@[i as int].0@ == run_id@ && cached@[i as int].1@
                == artifact_name@ && forall|j: int|
                0 <= j < i ==> !(#[trigger] cached@[j].0@ == run_id@ && cached@[j].1@ == artifact_name@),
            Err(e) => (forall|j: int|
                0 <= j < cached@.len() ==> !(#[trigger] cached@[j].0@ == run_id@ && cached@[j].1@
                    == artifact_name@)) && e.kind == ErrorKind::InternalError && e.message@
                == "could not locate cached bundle for run "@ + run_id@ + " and artifact "@ + artifact_name@,
        },
{
    let mut i: usize = 0;
    while i < cached.len()
        invariant
            i <= cached@.len(),
            forall|j: int|
                0 <= j < i ==> !(#[trigger] cached@[j].0@ == run_id@ && cached@[j].1@ == artifact_name@),
        decreases cached.len() - i,
    {
        if str_eq(cached[i].0.as_str(), run_id) && str_eq(cached[i].1.as_str(), artifact_name) {
            return Ok(i);
        }
        i = i + 1;
    }
    let mut v = chars_of("could not locate cached bundle for run ");
    append_str(&mut v, run_id);
    append_str(&mut v, " and artifact ");
    append_str(&mut v, artifact_name);
    Err(McpError::internal_error(string_of(v.as_slice())))
}

} // verus!
