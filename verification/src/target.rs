//! Resolving which provider session, device and app a tool call targets.
use vstd::prelude::*;
use crate::error::{ErrorKind, McpError, owned};
use crate::text::{lines, lines_of, trim_chars, append_str, chars_of, contains, is_blank, join, join_chars, split_once_char, split_once_chars, starts_with, starts_with_str, str_eq, str_eq_chars, string_of, trim, trimmed, views, words, words_of};
use crate::ui::{clone_opt, opt_eq, opt_view, strs_view};
use crate::polling::{duration_debug, duration_debug_text};
use crate::verification::{opt_str};

verus! {

/// The provider session this server runs in.
#[derive(Debug, Clone, PartialEq, Eq)]
pub struct ProviderExecutionIdentity {
    pub environment_id: String,
    pub provider_instance_id: String,
    pub session_id: String,
}

/// An app to act on.
#[derive(Debug, Clone, PartialEq, Eq)]
pub struct AndroidAppTarget {
    pub package_name: String,
    pub activity: Option<String>,
}

/// The build a caller expects to find installed.
#[derive(Debug, Clone, PartialEq, Eq)]
pub struct ExpectedBuild {
    pub repository: String,
    pub commit_sha: String,
    pub artifact_name: String,
    pub artifact_sha256: String,
}

/// The target a tool call names; every part is optional.
#[derive(Debug, Clone, PartialEq, Eq)]
pub struct AndroidExecutionTarget {
    pub environment_id: Option<String>,
    pub provider_instance_id: Option<String>,
    pub session_id: Option<String>,
    pub device_serial: Option<String>,
    pub app: Option<AndroidAppTarget>,
    pub expected_build: Option<ExpectedBuild>,
}

impl AndroidAppTarget {
    /// A copy of this target.
    pub fn duplicate(&self) -> (r: Self)
        ensures
            r == *self,
    {
        AndroidAppTarget { package_name: self.package_name.clone(), activity: clone_opt(&self.activity) }
    }
}

impl ExpectedBuild {
    /// A copy of this build.
    pub fn duplicate(&self) -> (r: Self)
        ensures
            r == *self,
    {
        ExpectedBuild {
            repository: self.repository.clone(),
            commit_sha: self.commit_sha.clone(),
            artifact_name: self.artifact_name.clone(),
            artifact_sha256: self.artifact_sha256.clone(),
        }
    }
}

impl AndroidExecutionTarget {
    /// A copy of this target.
    pub fn duplicate(&self) -> (r: Self)
        ensures
            r == *self,
    {
        AndroidExecutionTarget {
            environment_id: clone_opt(&self.environment_id),
            provider_instance_id: clone_opt(&self.provider_instance_id),
            session_id: clone_opt(&self.session_id),
            device_serial: clone_opt(&self.device_serial),
            app: match &self.app {
                Some(a) => Some(a.duplicate()),
                None => None,
            },
            expected_build: match &self.expected_build {
                Some(b) => Some(b.duplicate()),
                None => None,
            },
        }
    }
}

impl Default for AndroidExecutionTarget {
    fn default() -> (r: Self)
        ensures
            r.environment_id is None,
            r.provider_instance_id is None,
            r.session_id is None,
            r.device_serial is None,
            r.app is None,
            r.expected_build is None,
    {
        AndroidExecutionTarget {
            environment_id: None,
            provider_instance_id: None,
            session_id: None,
            device_serial: None,
            app: None,
            expected_build: None,
        }
    }
}

/// The target a tool call acts on.
#[derive(Debug, Clone, PartialEq, Eq)]
pub struct ResolvedAndroidExecutionTarget {
    pub environment_id: String,
    pub provider_instance_id: String,
    pub session_id: String,
    pub device_serial: String,
    pub app: Option<AndroidAppTarget>,
}

/// Why a requested field is refused, if it is: it is blank, or it is not
/// the resolved value.
pub open spec fn spec_field_error(field: Seq<char>, requested: Option<Seq<char>>, resolved: Seq<char>) -> Option<
    Seq<char>,
> {
    match requested {
        None => None,
        Some(r) => if trim(r).len() == 0 {
            Some("target."@ + field + " must not be empty when supplied"@)
        } else if trim(r) != resolved {
            Some("target."@ + field + " does not match the resolved provider target"@)
        } else {
            None
        },
    }
}

pub fn require_matching_target_field(field: &str, requested: Option<&str>, resolved: &str) -> (r:
    Result<(), McpError>)
    ensures
        match spec_field_error(field@, opt_str(requested), resolved@) {
            None => r is Ok,
            Some(m) => r matches Err(e) && e.kind == ErrorKind::InvalidParams && e.message@ == m,
        },
{
    let requested = match requested {
        None => {
            return Ok(());
        },
        Some(r) => r,
    };
    let t = trimmed(requested);
    if t.len() == 0 {
        let mut m = chars_of("target.");
        append_str(&mut m, field);
        append_str(&mut m, " must not be empty when supplied");
        return Err(McpError::invalid_params(string_of(m.as_slice())));
    }
    if !str_eq_chars(resolved, t.as_slice()) {
        let mut m = chars_of("target.");
        append_str(&mut m, field);
        append_str(&mut m, " does not match the resolved provider target");
        return Err(McpError::invalid_params(string_of(m.as_slice())));
    }
    Ok(())
}

/// The app target with its package and activity trimmed, or why it is
/// refused.
pub open spec fn spec_app_target(t: AndroidAppTarget) -> Result<(Seq<char>, Option<Seq<char>>), Seq<char>> {
    if trim(t.package_name@).len() == 0 {
        Err("target.app.package_name must not be empty"@)
    } else {
        match t.activity {
            Some(a) => if trim(a@).len() == 0 {
                Err("target.app.activity must not be empty when supplied"@)
            } else {
                Ok((trim(t.package_name@), Some(trim(a@))))
            },
            None => Ok((trim(t.package_name@), None)),
        }
    }
}

pub fn normalize_android_app_target(target: AndroidAppTarget) -> (r: Result<AndroidAppTarget, McpError>)
    ensures
        match spec_app_target(target) {
            Ok((p, a)) => r matches Ok(t) && t.package_name@ == p && opt_view(t.activity) == a,
            Err(m) => r matches Err(e) && e.kind == ErrorKind::InvalidParams && e.message@ == m,
        },
{
    let p = trimmed(target.package_name.as_str());
    if p.len() == 0 {
        return Err(McpError::invalid_params(owned("target.app.package_name must not be empty")));
    }
    let activity = match &target.activity {
        Some(a) => {
            let at = trimmed(a.as_str());
            if at.len() == 0 {
                return Err(
                    McpError::invalid_params(
                        owned("target.app.activity must not be empty when supplied"),
                    ),
                );
            }
            Some(string_of(at.as_slice()))
        },
        None => None,
    };
    Ok(AndroidAppTarget { package_name: string_of(p.as_slice()), activity })
}

/// The first blank field of an expected build, in the order repository,
/// commit, artifact name, artifact digest.
pub open spec fn spec_build_error(b: ExpectedBuild) -> Option<Seq<char>> {
    if trim(b.repository@).len() == 0 {
        Some("target.expected_build.repository must not be empty"@)
    } else if trim(b.commit_sha@).len() == 0 {
        Some("target.expected_build.commit_sha must not be empty"@)
    } else if trim(b.artifact_name@).len() == 0 {
        Some("target.expected_build.artifact_name must not be empty"@)
    } else if trim(b.artifact_sha256@).len() == 0 {
        Some("target.expected_build.artifact_sha256 must not be empty"@)
    } else {
        None
    }
}

fn expected_build_error(b: &ExpectedBuild) -> (r: Option<McpError>)
    ensures
        match spec_build_error(*b) {
            None => r is None,
            Some(m) => r matches Some(e) && e.kind == ErrorKind::InvalidParams && e.message@ == m,
        },
{
    if is_blank(b.repository.as_str()) {
        return Some(McpError::invalid_params(owned("target.expected_build.repository must not be empty")));
    }
    if is_blank(b.commit_sha.as_str()) {
        return Some(McpError::invalid_params(owned("target.expected_build.commit_sha must not be empty")));
    }
    if is_blank(b.artifact_name.as_str()) {
        return Some(
            McpError::invalid_params(owned("target.expected_build.artifact_name must not be empty")),
        );
    }
    if is_blank(b.artifact_sha256.as_str()) {
        return Some(
            McpError::invalid_params(owned("target.expected_build.artifact_sha256 must not be empty")),
        );
    }
    None
}

/// The first error of resolving a requested target against the configured
/// session, device and app, if any: the session fields and the device must
/// match when given; a requested app must be well formed and, beside a
/// configured app, name the same package and activity; an expected build
/// must have no blank field.
pub open spec fn spec_resolve_error(
    id: ProviderExecutionIdentity,
    req: AndroidExecutionTarget,
    serial: Seq<char>,
    configured_app: Option<AndroidAppTarget>,
) -> Option<Seq<char>> {
    if spec_field_error("environment_id"@, opt_view(req.environment_id), id.environment_id@) is Some {
        spec_field_error("environment_id"@, opt_view(req.environment_id), id.environment_id@)
    } else if spec_field_error("provider_instance_id"@, opt_view(req.provider_instance_id), id.provider_instance_id@) is Some {
        spec_field_error("provider_instance_id"@, opt_view(req.provider_instance_id), id.provider_instance_id@)
    } else if spec_field_error("session_id"@, opt_view(req.session_id), id.session_id@) is Some {
        spec_field_error("session_id"@, opt_view(req.session_id), id.session_id@)
    } else if spec_field_error("device_serial"@, opt_view(req.device_serial), serial) is Some {
        spec_field_error("device_serial"@, opt_view(req.device_serial), serial)
    } else {
        match req.app {
            Some(a) => match spec_app_target(a) {
                Err(m) => Some(m),
                Ok((p, act)) => match configured_app {
                    Some(c) => if c.package_name@ != p || opt_view(c.activity) != act {
                        Some("target.app must match the configured interactive-session app"@)
                    } else {
                        match req.expected_build {
                            Some(b) => spec_build_error(b),
                            None => None,
                        }
                    },
                    None => match req.expected_build {
                        Some(b) => spec_build_error(b),
                        None => None,
                    },
                },
            },
            None => match req.expected_build {
                Some(b) => spec_build_error(b),
                None => None,
            },
        }
    }
}

/// The resolved target: the configured session, the device, and the app
/// (the configured one when there is one, else the requested one, trimmed);
/// an error as `spec_resolve_error` says.
pub fn resolve_android_execution_target(
    configured_identity: &ProviderExecutionIdentity,
    requested_target: Option<&AndroidExecutionTarget>,
    device_serial: String,
    configured_app: Option<AndroidAppTarget>,
) -> (r: Result<ResolvedAndroidExecutionTarget, McpError>)
    ensures
        ({
            let req = match requested_target {
                Some(t) => *t,
                None => AndroidExecutionTarget {
                    environment_id: None,
                    provider_instance_id: None,
                    session_id: None,
                    device_serial: None,
                    app: None,
                    expected_build: None,
                },
            };
            match spec_resolve_error(*configured_identity, req, device_serial@, configured_app) {
                Some(m) => r matches Err(e) && e.kind == ErrorKind::InvalidParams && e.message@ == m,
                None => r matches Ok(t) && t.environment_id@ == configured_identity.environment_id@
                    && t.provider_instance_id@ == configured_identity.provider_instance_id@
                    && t.session_id@ == configured_identity.session_id@ && t.device_serial@
                    == device_serial@ && match configured_app {
                    Some(c) => t.app == Some(c),
                    None => match req.app {
                        Some(a) => t.app matches Some(ta) && spec_app_target(a) == Ok::<
                            (Seq<char>, Option<Seq<char>>),
                            Seq<char>,
                        >((ta.package_name@, opt_view(ta.activity))),
                        None => t.app is None,
                    },
                },
            }
        }),
{
    let req = match requested_target {
        Some(t) => t.duplicate(),
        None => AndroidExecutionTarget::default(),
    };
    let checked = require_matching_target_field(
        "environment_id",
        opt_as_str(&req.environment_id),
        configured_identity.environment_id.as_str(),
    );
    if let Err(e) = checked {
        return Err(e);
    }
    let checked = require_matching_target_field(
        "provider_instance_id",
        opt_as_str(&req.provider_instance_id),
        configured_identity.provider_instance_id.as_str(),
    );
    if let Err(e) = checked {
        return Err(e);
    }
    let checked = require_matching_target_field(
        "session_id",
        opt_as_str(&req.session_id),
        configured_identity.session_id.as_str(),
    );
    if let Err(e) = checked {
        return Err(e);
    }
    let checked = require_matching_target_field(
        "device_serial",
        opt_as_str(&req.device_serial),
        device_serial.as_str(),
    );
    if let Err(e) = checked {
        return Err(e);
    }
    let requested_app = match &req.app {
        Some(a) => match normalize_android_app_target(a.duplicate()) {
            Ok(t) => Some(t),
            Err(e) => {
                return Err(e);
            },
        },
        None => None,
    };
    let app = match (configured_app, requested_app) {
        (Some(c), Some(ra)) => {
            if !str_eq(c.package_name.as_str(), ra.package_name.as_str()) || !opt_eq(&c.activity, &ra.activity) {
                return Err(
                    McpError::invalid_params(
                        owned("target.app must match the configured interactive-session app"),
                    ),
                );
            }
            Some(c)
        },
        (Some(c), None) => Some(c),
        (None, ra) => ra,
    };
    match &req.expected_build {
        Some(b) => match expected_build_error(b) {
            Some(e) => {
                return Err(e);
            },
            None => {},
        },
        None => {},
    }
    Ok(
        ResolvedAndroidExecutionTarget {
            environment_id: configured_identity.environment_id.clone(),
            provider_instance_id: configured_identity.provider_instance_id.clone(),
            session_id: configured_identity.session_id.clone(),
            device_serial,
            app,
        },
    )
}

/// The borrowed string of an optional string.
pub fn opt_as_str(o: &Option<String>) -> (r: Option<&str>)
    ensures
        opt_str(r) == opt_view(*o),
{
    match o {
        Some(s) => Some(s.as_str()),
        None => None,
    }
}


// ---------------------------------------------------------------------------
// Devices that adb reports.
// ---------------------------------------------------------------------------

/// A line of `adb devices -l`: serial, state, and `key:value` details.
#[derive(Debug, Clone, PartialEq, Eq)]
pub struct AdbDevice {
    pub serial: Option<String>,
    pub state: Option<String>,
    pub extra: Vec<(String, String)>,
}

/// The `key:value` details among the words, in order.
pub open spec fn detail_pairs(ws: Seq<Seq<char>>) -> Seq<(Seq<char>, Seq<char>)>
    decreases ws.len(),
{
    if ws.len() == 0 {
        Seq::empty()
    } else {
        let rest = detail_pairs(ws.drop_last());
        match split_once_char(ws.last(), ':') {
            Some((k, v)) => rest.push((k, v)),
            None => rest,
        }
    }
}

/// The views of detail pairs.
pub open spec fn pair_views(ps: Seq<(String, String)>) -> Seq<(Seq<char>, Seq<char>)> {
    ps.map_values(|p: (String, String)| (p.0@, p.1@))
}

pub fn parse_adb_device_line(line: &str) -> (r: Option<AdbDevice>)
    ensures
        ({
            let ws = words(line@);
            if ws.len() < 2 {
                r is None
            } else {
                r matches Some(d) && opt_view(d.serial) == Some(ws[0]) && opt_view(d.state) == Some(
                    ws[1],
                ) && pair_views(d.extra@) == detail_pairs(ws.skip(2))
            }
        }),
{
    let lv = chars_of(line);
    let ws = words_of(lv.as_slice());
    let ghost wv = views(ws@);
    if ws.len() < 2 {
        return None;
    }
    let mut extra: Vec<(String, String)> = Vec::new();
    let mut i: usize = 2;
    while i < ws.len()
        invariant
            2 <= i <= ws@.len(),
            wv == views(ws@),
            pair_views(extra@) == detail_pairs(wv.subrange(2, i as int)),
        decreases ws.len() - i,
    {
        let ghost pre = wv.subrange(2, i as int);
        let ghost next = wv.subrange(2, i + 1);
        assert(next.drop_last() =~= pre);
        assert(next.last() == ws@[i as int]@);
        match split_once_chars(ws[i].as_slice(), ':') {
            Some((k, v)) => {
                let ghost before = pair_views(extra@);
                extra.push((string_of(k.as_slice()), string_of(v.as_slice())));
                assert(pair_views(extra@) =~= before.push((k@, v@)));
            },
            None => {},
        }
        i = i + 1;
    }
    assert(wv.subrange(2, wv.len() as int) =~= wv.skip(2));
    Some(
        AdbDevice {
            serial: Some(string_of(ws[0].as_slice())),
            state: Some(string_of(ws[1].as_slice())),
            extra,
        },
    )
}

/// A device as plain values: serial, state and details.
pub open spec fn device_view(d: AdbDevice) -> (Option<Seq<char>>, Option<Seq<char>>, Seq<(Seq<char>, Seq<char>)>) {
    (opt_view(d.serial), opt_view(d.state), pair_views(d.extra@))
}

/// The device that one line of `adb devices -l` describes: none for a line
/// of fewer than two words.
pub open spec fn line_device(line: Seq<char>) -> Option<(Option<Seq<char>>, Option<Seq<char>>, Seq<(Seq<char>, Seq<char>)>)> {
    let ws = words(line);
    if ws.len() < 2 {
        None
    } else {
        Some((Some(ws[0]), Some(ws[1]), detail_pairs(ws.skip(2))))
    }
}

/// The devices that these lines describe, in order.
pub open spec fn devices_in(ls: Seq<Seq<char>>) -> Seq<(Option<Seq<char>>, Option<Seq<char>>, Seq<(Seq<char>, Seq<char>)>)>
    decreases ls.len(),
{
    if ls.len() == 0 {
        Seq::empty()
    } else {
        let rest = devices_in(ls.drop_last());
        match line_device(ls.last()) {
            Some(d) => rest.push(d),
            None => rest,
        }
    }
}

/// The lines after the first.
pub open spec fn after_header(ls: Seq<Seq<char>>) -> Seq<Seq<char>> {
    if ls.len() == 0 {
        ls
    } else {
        ls.drop_first()
    }
}

/// The devices of an `adb devices -l` listing: every line after the header
/// that names a device and its state.
pub fn parse_adb_devices(output: &str) -> (r: Vec<AdbDevice>)
    ensures
        r@.map_values(|d: AdbDevice| device_view(d)) == devices_in(after_header(lines(output@))),
{
    let ov = chars_of(output);
    let ls = lines_of(ov.as_slice());
    let ghost lv = views(ls@);
    let mut r: Vec<AdbDevice> = Vec::new();
    if ls.len() == 0 {
        assert(r@.map_values(|d: AdbDevice| device_view(d)) =~= Seq::empty());
        return r;
    }
    let mut i: usize = 1;
    assert(lv.subrange(1, 1) =~= Seq::<Seq<char>>::empty());
    while i < ls.len()
        invariant
            1 <= i <= ls@.len(),
            lv == views(ls@),
            lv == lines(output@),
            r@.map_values(|d: AdbDevice| device_view(d)) == devices_in(lv.subrange(1, i as int)),
        decreases ls.len() - i,
    {
        let ghost pre = lv.subrange(1, i as int);
        let ghost next = lv.subrange(1, i + 1);
        assert(next.drop_last() =~= pre);
        assert(next.last() == ls@[i as int]@);
        let line = string_of(ls[i].as_slice());
        let ghost before = r@.map_values(|d: AdbDevice| device_view(d));
        match parse_adb_device_line(line.as_str()) {
            Some(d) => {
                r.push(d);
                assert(r@.map_values(|d: AdbDevice| device_view(d)) =~= before.push(
                    device_view(r@.last()),
                ));
            },
            None => {},
        }
        i = i + 1;
    }
    assert(lv.subrange(1, lv.len() as int) =~= lv.drop_first());
    r
}

/// The trimmed lines that are not blank, in order.
pub open spec fn nonblank_trimmed(ls: Seq<Seq<char>>) -> Seq<Seq<char>>
    decreases ls.len(),
{
    if ls.len() == 0 {
        Seq::empty()
    } else {
        let rest = nonblank_trimmed(ls.drop_last());
        if trim(ls.last()).len() > 0 {
            rest.push(trim(ls.last()))
        } else {
            rest
        }
    }
}

/// The AVD names that `emulator -list-avds` prints: its non-blank lines,
/// trimmed.
pub fn parse_avd_names(output: &str) -> (r: Vec<String>)
    ensures
        strs_view(r@) == nonblank_trimmed(lines(output@)),
{
    let ov = chars_of(output);
    let ls = lines_of(ov.as_slice());
    let ghost lv = views(ls@);
    let mut r: Vec<String> = Vec::new();
    let mut i: usize = 0;
    assert(lv.subrange(0, 0) =~= Seq::<Seq<char>>::empty());
    assert(strs_view(r@) =~= Seq::<Seq<char>>::empty());
    while i < ls.len()
        invariant
            i <= ls@.len(),
            lv == views(ls@),
            strs_view(r@) == nonblank_trimmed(lv.subrange(0, i as int)),
        decreases ls.len() - i,
    {
        let ghost pre = lv.subrange(0, i as int);
        let ghost next = lv.subrange(0, i + 1);
        assert(next.drop_last() =~= pre);
        assert(next.last() == ls@[i as int]@);
        let t = trim_chars(ls[i].as_slice());
        if t.len() > 0 {
            let ghost before = strs_view(r@);
            r.push(string_of(t.as_slice()));
            assert(strs_view(r@) =~= before.push(t@));
        }
        i = i + 1;
    }
    assert(lv.subrange(0, lv.len() as int) =~= lv);
    r
}

/// A serial given as text: trimmed, and none where blank.
pub open spec fn given_serial(s: Option<Seq<char>>) -> Option<Seq<char>> {
    match s {
        Some(x) => if trim(x).len() > 0 {
            Some(trim(x))
        } else {
            None
        },
        None => None,
    }
}

fn given_serial_exec(s: Option<&str>) -> (r: Option<String>)
    ensures
        opt_view(r) == given_serial(opt_str(s)),
{
    match s {
        Some(x) => {
            let t = trimmed(x);
            if t.len() > 0 {
                Some(string_of(t.as_slice()))
            } else {
                None
            }
        },
        None => None,
    }
}

/// The serial a call names through its target and its `serial` argument:
/// the two must agree where both are given; else whichever is given.
pub fn reconcile_target_serial(target_serial: Option<&str>, serial_hint: Option<&str>) -> (r: Result<
    Option<String>,
    McpError,
>)
    ensures
        ({
            let t = given_serial(opt_str(target_serial));
            let h = given_serial(opt_str(serial_hint));
            if t is Some && h is Some && t != h {
                r matches Err(e) && e.kind == ErrorKind::InvalidParams && e.message@
                    == "target.device_serial and serial must match when both are supplied"@
            } else {
                r matches Ok(s) && opt_view(s) == if t is Some {
                    t
                } else {
                    h
                }
            }
        }),
{
    let t = given_serial_exec(target_serial);
    let h = given_serial_exec(serial_hint);
    match (&t, &h) {
        (Some(a), Some(b)) => {
            if !str_eq(a.as_str(), b.as_str()) {
                return Err(McpError::invalid_params(owned("target.device_serial and serial must match when both are supplied")));
            }
        },
        _ => {},
    }
    match t {
        Some(a) => Ok(Some(a)),
        None => Ok(h),
    }
}

/// The error of a launch whose emulator serial did not show up in time.
pub fn new_emulator_serial_timeout_error(expected_serial: Option<&str>, timeout_ms: u64) -> (e: McpError)
    ensures
        e.kind == ErrorKind::InternalError,
        e.message@ == "did not observe "@ + match expected_serial {
            Some(s) => "expected emulator serial "@ + s@,
            None => "a newly launched emulator serial"@,
        } + " within "@ + duration_debug_text(timeout_ms as nat),
{
    let mut v = chars_of("did not observe ");
    match expected_serial {
        Some(s) => {
            append_str(&mut v, "expected emulator serial ");
            append_str(&mut v, s);
        },
        None => append_str(&mut v, "a newly launched emulator serial"),
    }
    append_str(&mut v, " within ");
    let d = duration_debug(timeout_ms);
    append_str(&mut v, d.as_str());
    McpError::internal_error(string_of(v.as_slice()))
}

/// The device is connected and ready.
pub open spec fn is_ready(d: AdbDevice) -> bool {
    opt_view(d.state) == Some("device"@)
}

/// The serials of the ready devices that have one and that `p` accepts, in
/// order.
pub open spec fn ready_serials(ds: Seq<AdbDevice>, emulators_only: bool) -> Seq<Seq<char>>
    decreases ds.len(),
{
    if ds.len() == 0 {
        Seq::empty()
    } else {
        let rest = ready_serials(ds.drop_last(), emulators_only);
        let d = ds.last();
        match d.serial {
            Some(s) => if is_ready(d) && (!emulators_only || starts_with(s@, "emulator-"@)) {
                rest.push(s@)
            } else {
                rest
            },
            None => rest,
        }
    }
}

fn ready_serials_exec(devices: &[AdbDevice], emulators_only: bool) -> (r: Vec<String>)
    ensures
        strs_view(r@) == ready_serials(devices@, emulators_only),
{
    let mut r: Vec<String> = Vec::new();
    let mut i: usize = 0;
    while i < devices.len()
        invariant
            i <= devices@.len(),
            strs_view(r@) == ready_serials(devices@.subrange(0, i as int), emulators_only),
        decreases devices.len() - i,
    {
        let ghost pre = devices@.subrange(0, i as int);
        assert(devices@.subrange(0, i + 1).drop_last() =~= pre);
        let d = &devices[i];
        let ready = match &d.state {
            Some(st) => str_eq(st.as_str(), "device"),
            None => false,
        };
        match &d.serial {
            Some(s) => {
                let sv = chars_of(s.as_str());
                if ready && (!emulators_only || starts_with_str(sv.as_slice(), "emulator-")) {
                    let ghost before = strs_view(r@);
                    r.push(s.clone());
                    assert(strs_view(r@) =~= before.push(s@));
                }
            },
            None => {},
        }
        i = i + 1;
    }
    assert(devices@.subrange(0, devices@.len() as int) =~= devices@);
    r
}

/// The device reports state `device` and has serial `s`, and, where only
/// emulators are asked for, the serial names an emulator.
pub open spec fn device_offers(d: AdbDevice, s: Seq<char>, emulators_only: bool) -> bool {
    &&& opt_view(d.state) == Some("device"@)
    &&& opt_view(d.serial) == Some(s)
    &&& (!emulators_only || starts_with(s, "emulator-"@))
}

/// The ready serials are exactly the serials of the devices in state
/// `device`, whatever their prefix, narrowed to `emulator-` serials only
/// where emulators alone are asked for.
pub proof fn lemma_ready_serials_members(ds: Seq<AdbDevice>, emulators_only: bool, s: Seq<char>)
    ensures
        ready_serials(ds, emulators_only).contains(s) <==> exists|k: int|
            0 <= k < ds.len() && device_offers(#[trigger] ds[k], s, emulators_only),
    decreases ds.len(),
{
    if ds.len() > 0 {
        let p = ds.drop_last();
        lemma_ready_serials_members(p, emulators_only, s);
        let rest = ready_serials(p, emulators_only);
        let d = ds.last();
        if exists|k: int| 0 <= k < p.len() && device_offers(#[trigger] p[k], s, emulators_only) {
            let k = choose|k: int| 0 <= k < p.len() && device_offers(#[trigger] p[k], s, emulators_only);
            assert(ds[k] == p[k]);
        }
        if exists|k: int| 0 <= k < ds.len() && device_offers(#[trigger] ds[k], s, emulators_only) {
            let k = choose|k: int| 0 <= k < ds.len() && device_offers(#[trigger] ds[k], s, emulators_only);
            if k < p.len() {
                assert(p[k] == ds[k]);
            }
        }
        if device_offers(d, s, emulators_only) {
            assert(ds[ds.len() - 1] == d);
        }
        match d.serial {
            Some(x) => {
                if is_ready(d) && (!emulators_only || starts_with(x@, "emulator-"@)) {
                    let r = rest.push(x@);
                    if r.contains(s) && !rest.contains(s) {
                        let j = choose|j: int| 0 <= j < r.len() && r[j] == s;
                        if j < rest.len() {
                            assert(rest[j] == r[j]);
                        }
                    }
                    if rest.contains(s) {
                        let j = choose|j: int| 0 <= j < rest.len() && rest[j] == s;
                        assert(r[j] == s);
                    }
                    if x@ == s {
                        assert(r[rest.len() as int] == s);
                    }
                }
            },
            None => {},
        }
    }
}

/// No device offers a serial: none is ready.
proof fn lemma_no_ready_serials(ds: Seq<AdbDevice>)
    requires
        forall|k: int| 0 <= k < ds.len() ==> !(opt_view(#[trigger] ds[k].state) == Some("device"@)
            && ds[k].serial is Some),
    ensures
        ready_serials(ds, false).len() == 0,
    decreases ds.len(),
{
    if ds.len() > 0 {
        let p = ds.drop_last();
        assert forall|k: int| 0 <= k < p.len() implies !(opt_view(#[trigger] p[k].state) == Some("device"@)
            && p[k].serial is Some) by {
            assert(p[k] == ds[k]);
        }
        lemma_no_ready_serials(p);
        assert(ds[ds.len() - 1] == ds.last());
    }
}

/// With exactly one device `i` in state `device` with a serial, that serial
/// is the only ready one.
proof fn lemma_one_ready_serial(ds: Seq<AdbDevice>, i: int)
    requires
        0 <= i < ds.len(),
        opt_view(ds[i].state) == Some("device"@),
        ds[i].serial is Some,
        forall|k: int| 0 <= k < ds.len() && k != i ==> !(opt_view(#[trigger] ds[k].state) == Some("device"@)
            && ds[k].serial is Some),
    ensures
        ready_serials(ds, false) == seq![ds[i].serial->0@],
    decreases ds.len(),
{
    let p = ds.drop_last();
    if i == ds.len() - 1 {
        assert forall|k: int| 0 <= k < p.len() implies !(opt_view(#[trigger] p[k].state) == Some("device"@)
            && p[k].serial is Some) by {
            assert(p[k] == ds[k]);
        }
        lemma_no_ready_serials(p);
        assert(ready_serials(p, false) =~= Seq::<Seq<char>>::empty());
        assert(ready_serials(p, false).push(ds[i].serial->0@) =~= seq![ds[i].serial->0@]);
    } else {
        assert forall|k: int| 0 <= k < p.len() && k != i implies !(opt_view(#[trigger] p[k].state)
            == Some("device"@) && p[k].serial is Some) by {
            assert(p[k] == ds[k]);
        }
        assert(p[i] == ds[i]);
        lemma_one_ready_serial(p, i);
        assert(ds[ds.len() - 1] == ds.last());
    }
}

/// Without an explicit serial, a single device in state `device` with a
/// serial is the one a tool acts on, whatever its serial names (a phone as
/// well as an emulator).
pub proof fn lemma_single_ready_device_resolves(ds: Seq<AdbDevice>, i: int)
    requires
        0 <= i < ds.len(),
        opt_view(ds[i].state) == Some("device"@),
        ds[i].serial is Some,
        forall|k: int| 0 <= k < ds.len() && k != i ==> !(opt_view(#[trigger] ds[k].state) == Some("device"@)
            && ds[k].serial is Some),
    ensures
        spec_resolve_serial(None, ds) == Ok::<Seq<char>, Seq<char>>(ds[i].serial->0@),
{
    lemma_one_ready_serial(ds, i);
}

proof fn lemma_two_ready_serials(ds: Seq<AdbDevice>, i: int, j: int)
    requires
        0 <= i < j < ds.len(),
        opt_view(ds[i].state) == Some("device"@) && ds[i].serial is Some,
        opt_view(ds[j].state) == Some("device"@) && ds[j].serial is Some,
    ensures
        ready_serials(ds, false).len() >= 2,
    decreases ds.len(),
{
    let p = ds.drop_last();
    assert(p[i] == ds[i]);
    if j == ds.len() - 1 {
        lemma_ready_serials_members(p, false, ds[i].serial->0@);
        assert(device_offers(p[i], ds[i].serial->0@, false));
        assert(ready_serials(p, false).contains(ds[i].serial->0@));
        assert(ds.last() == ds[j]);
    } else {
        assert(p[j] == ds[j]);
        lemma_two_ready_serials(p, i, j);
    }
}

/// Without an explicit serial, resolution fails when no device is in state
/// `device` with a serial, and when two or more are; a non-blank explicit
/// serial is used as given, trimmed, whatever the devices.
pub proof fn lemma_serial_resolution_cases(ds: Seq<AdbDevice>, serial: Option<Seq<char>>)
    ensures
        serial matches Some(s) && trim(s).len() > 0 ==> spec_resolve_serial(serial, ds) == Ok::<
            Seq<char>,
            Seq<char>,
        >(trim(serial->0)),
        (forall|k: int| 0 <= k < ds.len() ==> !(opt_view(#[trigger] ds[k].state) == Some("device"@)
            && ds[k].serial is Some)) ==> spec_resolve_serial(None, ds) == Err::<Seq<char>, Seq<char>>(
            "no ready Android devices found; pass `serial` explicitly or launch/connect a device"@,
        ),
        (exists|i: int, j: int|
            0 <= i < j < ds.len() && opt_view(#[trigger] ds[i].state) == Some("device"@) && ds[i].serial is Some
                && opt_view(#[trigger] ds[j].state) == Some("device"@) && ds[j].serial is Some)
            ==> spec_resolve_serial(None, ds) is Err,
{
    if forall|k: int| 0 <= k < ds.len() ==> !(opt_view(#[trigger] ds[k].state) == Some("device"@)
        && ds[k].serial is Some) {
        lemma_no_ready_serials(ds);
    }
    if exists|i: int, j: int|
        0 <= i < j < ds.len() && opt_view(#[trigger] ds[i].state) == Some("device"@) && ds[i].serial is Some
            && opt_view(#[trigger] ds[j].state) == Some("device"@) && ds[j].serial is Some {
        let (i, j) = choose|i: int, j: int|
            0 <= i < j < ds.len() && opt_view(#[trigger] ds[i].state) == Some("device"@) && ds[i].serial is Some
                && opt_view(#[trigger] ds[j].state) == Some("device"@) && ds[j].serial is Some;
        lemma_two_ready_serials(ds, i, j);
    }
}

/// The ready emulators, in order.
pub fn ready_emulator_serials(devices: &[AdbDevice]) -> (r: Vec<String>)
    ensures
        strs_view(r@) == ready_serials(devices@, true),
{
    ready_serials_exec(devices, true)
}

fn join_strings(items: &Vec<String>, sep: &str) -> (r: String)
    ensures
        r@ == join(strs_view(items@), sep@),
{
    let mut parts: Vec<Vec<char>> = Vec::new();
    let mut i: usize = 0;
    while i < items.len()
        invariant
            i <= items@.len(),
            views(parts@) == strs_view(items@.subrange(0, i as int)),
        decreases items.len() - i,
    {
        let ghost before = views(parts@);
        parts.push(chars_of(items[i].as_str()));
        assert(views(parts@) =~= before.push(items@[i as int]@));
        assert(strs_view(items@.subrange(0, i + 1)) =~= strs_view(items@.subrange(0, i as int)).push(
            items@[i as int]@,
        ));
        i = i + 1;
    }
    assert(items@.subrange(0, items@.len() as int) =~= items@);
    let sv = chars_of(sep);
    let j = join_chars(&parts, sv.as_slice());
    string_of(j.as_slice())
}

/// The serial a tool acts on: the explicit one (trimmed) when given, else
/// the single ready device; an error when there are none or several.
pub open spec fn spec_resolve_serial(serial: Option<Seq<char>>, ds: Seq<AdbDevice>) -> Result<Seq<char>, Seq<char>> {
    if serial is Some && trim(serial->0).len() > 0 {
        Ok(trim(serial->0))
    } else {
        let ready = ready_serials(ds, false);
        if ready.len() == 1 {
            Ok(ready[0])
        } else if ready.len() == 0 {
            Err("no ready Android devices found; pass `serial` explicitly or launch/connect a device"@)
        } else {
            Err("multiple ready Android devices found ("@ + join(ready, ", "@)
                + "); pass `serial` explicitly"@)
        }
    }
}

pub fn resolve_serial_from_devices(serial: Option<&str>, devices: &[AdbDevice]) -> (r: Result<String, McpError>)
    ensures
        match spec_resolve_serial(opt_str(serial), devices@) {
            Ok(s) => r matches Ok(v) && v@ == s,
            Err(m) => r matches Err(e) && e.kind == ErrorKind::InvalidParams && e.message@ == m,
        },
{
    match serial {
        Some(s) => {
            let t = trimmed(s);
            if t.len() > 0 {
                return Ok(string_of(t.as_slice()));
            }
        },
        None => {},
    }
    let ready = ready_serials_exec(devices, false);
    if ready.len() == 1 {
        return Ok(ready[0].clone());
    }
    if ready.len() == 0 {
        return Err(
            McpError::invalid_params(
                owned(
                    "no ready Android devices found; pass `serial` explicitly or launch/connect a device",
                ),
            ),
        );
    }
    let mut m = chars_of("multiple ready Android devices found (");
    let joined = join_strings(&ready, ", ");
    append_str(&mut m, joined.as_str());
    append_str(&mut m, "); pass `serial` explicitly");
    Err(McpError::invalid_params(string_of(m.as_slice())))
}

/// Some ready device has this serial.
pub open spec fn serial_ready(ds: Seq<AdbDevice>, serial: Seq<char>) -> bool {
    exists|k: int| 0 <= k < ds.len() && opt_view(#[trigger] ds[k].serial) == Some(serial) && is_ready(ds[k])
}

fn serial_ready_exec(devices: &[AdbDevice], serial: &[char]) -> (r: bool)
    ensures
        r == serial_ready(devices@, serial@),
{
    let mut i: usize = 0;
    while i < devices.len()
        invariant
            i <= devices@.len(),
            forall|k: int|
                0 <= k < i ==> !(opt_view(#[trigger] devices@[k].serial) == Some(serial@) && is_ready(
                    devices@[k],
                )),
        decreases devices.len() - i,
    {
        let d = &devices[i];
        let same = match &d.serial {
            Some(s) => str_eq_chars(s.as_str(), serial),
            None => false,
        };
        let ready = match &d.state {
            Some(st) => str_eq(st.as_str(), "device"),
            None => false,
        };
        if same && ready {
            return true;
        }
        i = i + 1;
    }
    false
}

pub fn resolve_explicit_ready_serial(serial: &str, devices: &[AdbDevice]) -> (r: Result<String, McpError>)
    ensures
        serial_ready(devices@, serial@) ==> (r matches Ok(v) && v@ == serial@),
        !serial_ready(devices@, serial@) ==> (r matches Err(e) && e.kind == ErrorKind::InvalidParams
            && e.message@ == "requested Android serial "@ + serial@
            + " is not a ready connected device"@),
{
    let sv = chars_of(serial);
    if serial_ready_exec(devices, sv.as_slice()) {
        return Ok(owned(serial));
    }
    let mut m = chars_of("requested Android serial ");
    append_str(&mut m, serial);
    append_str(&mut m, " is not a ready connected device");
    Err(McpError::invalid_params(string_of(m.as_slice())))
}

/// The values of `vs` that are not in `seen`, in order.
pub open spec fn not_in(vs: Seq<Seq<char>>, seen: Seq<Seq<char>>) -> Seq<Seq<char>>
    decreases vs.len(),
{
    if vs.len() == 0 {
        vs
    } else if seen.contains(vs.last()) {
        not_in(vs.drop_last(), seen)
    } else {
        not_in(vs.drop_last(), seen).push(vs.last())
    }
}

/// The emulator a launch brought up: the expected serial (trimmed) when one
/// is given and ready, nothing when it is not ready yet; without one, the
/// single emulator that became ready, nothing when none did, and an error
/// when several did.
pub open spec fn spec_select_after_launch(
    pre: Seq<Seq<char>>,
    ds: Seq<AdbDevice>,
    expected: Option<Seq<char>>,
) -> Result<Option<Seq<char>>, Seq<char>> {
    if expected is Some && trim(expected->0).len() > 0 {
        if serial_ready(ds, trim(expected->0)) {
            Ok(Some(trim(expected->0)))
        } else {
            Ok(None)
        }
    } else {
        let fresh = not_in(ready_serials(ds, true), pre);
        if fresh.len() == 0 {
            Ok(None)
        } else if fresh.len() == 1 {
            Ok(Some(fresh[0]))
        } else {
            Err("multiple newly ready emulator devices found after launch ("@ + join(fresh, ", "@)
                + "); pass `expected_serial` explicitly"@)
        }
    }
}

fn contains_string(items: &[String], s: &String) -> (r: bool)
    ensures
        r == strs_view(items@).contains(s@),
{
    let ghost v = strs_view(items@);
    let mut i: usize = 0;
    while i < items.len()
        invariant
            i <= items@.len(),
            v == strs_view(items@),
            forall|k: int| 0 <= k < i ==> v[k] != s@,
        decreases items.len() - i,
    {
        assert(v[i as int] == items@[i as int]@);
        if str_eq(items[i].as_str(), s.as_str()) {
            return true;
        }
        i = i + 1;
    }
    false
}

pub fn select_emulator_serial_after_launch(
    pre_launch_ready_serials: &[String],
    devices: &[AdbDevice],
    expected_serial: Option<&str>,
) -> (r: Result<Option<String>, McpError>)
    ensures
        match spec_select_after_launch(strs_view(pre_launch_ready_serials@), devices@, opt_str(expected_serial)) {
            Ok(o) => r matches Ok(v) && opt_view(v) == o,
            Err(m) => r matches Err(e) && e.kind == ErrorKind::InvalidParams && e.message@ == m,
        },
{
    match expected_serial {
        Some(e) => {
            let t = trimmed(e);
            if t.len() > 0 {
                if serial_ready_exec(devices, t.as_slice()) {
                    return Ok(Some(string_of(t.as_slice())));
                }
                return Ok(None);
            }
        },
        None => {},
    }
    let ready = ready_emulator_serials(devices);
    let ghost rv = strs_view(ready@);
    let ghost pre = strs_view(pre_launch_ready_serials@);
    let mut fresh: Vec<String> = Vec::new();
    let mut i: usize = 0;
    while i < ready.len()
        invariant
            i <= ready@.len(),
            rv == strs_view(ready@),
            pre == strs_view(pre_launch_ready_serials@),
            strs_view(fresh@) == not_in(rv.subrange(0, i as int), pre),
        decreases ready.len() - i,
    {
        assert(rv.subrange(0, i + 1).drop_last() =~= rv.subrange(0, i as int));
        assert(rv.subrange(0, i + 1).last() == ready@[i as int]@);
        if !contains_string(pre_launch_ready_serials, &ready[i]) {
            let ghost before = strs_view(fresh@);
            fresh.push(ready[i].clone());
            assert(strs_view(fresh@) =~= before.push(ready@[i as int]@));
        }
        i = i + 1;
    }
    assert(rv.subrange(0, rv.len() as int) =~= rv);
    if fresh.len() == 0 {
        return Ok(None);
    }
    if fresh.len() == 1 {
        return Ok(Some(fresh[0].clone()));
    }
    let mut m = chars_of("multiple newly ready emulator devices found after launch (");
    let joined = join_strings(&fresh, ", ");
    append_str(&mut m, joined.as_str());
    append_str(&mut m, "); pass `expected_serial` explicitly");
    Err(McpError::invalid_params(string_of(m.as_slice())))
}


/// A target that names exactly the configured session (each field as the
/// provider holds it) and the resolved device, without app or build, resolves.
pub proof fn lemma_exact_target_resolves(
    id: ProviderExecutionIdentity,
    req: AndroidExecutionTarget,
    serial: Seq<char>,
    configured_app: Option<AndroidAppTarget>,
)
    requires
        trim(id.environment_id@) == id.environment_id@ && id.environment_id@.len() > 0,
        trim(id.provider_instance_id@) == id.provider_instance_id@ && id.provider_instance_id@.len() > 0,
        trim(id.session_id@) == id.session_id@ && id.session_id@.len() > 0,
        trim(serial) == serial && serial.len() > 0,
        opt_view(req.environment_id) == Some(id.environment_id@),
        opt_view(req.provider_instance_id) == Some(id.provider_instance_id@),
        opt_view(req.session_id) == Some(id.session_id@),
        opt_view(req.device_serial) == Some(serial),
        req.app is None,
        req.expected_build is None,
    ensures
        spec_resolve_error(id, req, serial, configured_app) is None,
{
}

/// A target that names another session than the configured one is refused,
/// whatever else it names.
pub proof fn lemma_other_session_refused(
    id: ProviderExecutionIdentity,
    req: AndroidExecutionTarget,
    serial: Seq<char>,
    configured_app: Option<AndroidAppTarget>,
)
    requires
        req.session_id matches Some(s) && trim(s@) != id.session_id@,
    ensures
        spec_resolve_error(id, req, serial, configured_app) is Some,
{
}

/// A target is refused whenever it names a session field or a device that
/// is blank or, trimmed, differs from what was resolved; names an app that
/// is malformed or differs from the configured one; or expects a build with
/// a blank field.
pub proof fn lemma_faulty_target_refused(
    id: ProviderExecutionIdentity,
    req: AndroidExecutionTarget,
    serial: Seq<char>,
    configured_app: Option<AndroidAppTarget>,
)
    requires
        (req.environment_id matches Some(e) && (trim(e@).len() == 0 || trim(e@) != id.environment_id@))
            || (req.provider_instance_id matches Some(e) && (trim(e@).len() == 0 || trim(e@)
            != id.provider_instance_id@)) || (req.session_id matches Some(e) && (trim(e@).len() == 0
            || trim(e@) != id.session_id@)) || (req.device_serial matches Some(e) && (trim(e@).len() == 0
            || trim(e@) != serial)) || (req.app matches Some(a) && (spec_app_target(a) is Err || (
        configured_app matches Some(c) && spec_app_target(a) matches Ok((p, act)) && (c.package_name@ != p
            || opt_view(c.activity) != act)))) || (req.expected_build matches Some(b) && spec_build_error(
            b,
        ) is Some),
    ensures
        spec_resolve_error(id, req, serial, configured_app) is Some,
{
}

} // verus!
