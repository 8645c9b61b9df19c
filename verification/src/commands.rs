//! The adb shell commands that the app tools send, and what they check of
//! their arguments first.
use vstd::prelude::*;
use crate::adb::{shell_quote, spec_shell_quote};
use crate::config::{IntParseFailure, lemma_parse_unsigned_narrower, parse_integer, parse_u16_checked};
use crate::error::{ErrorKind, McpError, owned};
use crate::text::{append_chars, append_str, chars_of, decimal, push_decimal, push_owned, string_of, string_views, trim, trim_string, trimmed};
use crate::verification::{opt_str};

verus! {

/// The command that launches an app: its activity by component name where
/// one is given, else its launcher entry through `monkey`.
pub open spec fn spec_launch_app_command(package_name: Seq<char>, activity: Option<Seq<char>>) -> Seq<Seq<char>> {
    match activity {
        Some(a) => seq!["am"@, "start"@, "-n"@, trim(package_name) + "/"@ + trim(a)],
        None => seq![
            "monkey"@,
            "-p"@,
            trim(package_name),
            "-c"@,
            "android.intent.category.LAUNCHER"@,
            "1"@,
        ],
    }
}

/// The command of `android.launch_app`; a blank package name is refused.
pub fn launch_app_command(package_name: &str, activity: Option<&str>) -> (r: Result<Vec<String>, McpError>)
    ensures
        trim(package_name@).len() == 0 ==> (r matches Err(e) && e.kind == ErrorKind::InvalidParams
            && e.message@ == "package_name must not be empty"@),
        trim(package_name@).len() > 0 ==> (r matches Ok(c) && string_views(c@) == spec_launch_app_command(
            package_name@,
            opt_str(activity),
        )),
{
    let package = trimmed(package_name);
    if package.len() == 0 {
        return Err(McpError::invalid_params(owned("package_name must not be empty")));
    }
    let package = string_of(package.as_slice());
    let mut command: Vec<String> = Vec::new();
    match activity {
        Some(a) => {
            push_owned(&mut command, "am");
            push_owned(&mut command, "start");
            push_owned(&mut command, "-n");
            let mut component = chars_of(package.as_str());
            append_str(&mut component, "/");
            let act = trimmed(a);
            append_chars(&mut component, act.as_slice());
            let component = string_of(component.as_slice());
            push_owned(&mut command, component.as_str());
        },
        None => {
            push_owned(&mut command, "monkey");
            push_owned(&mut command, "-p");
            push_owned(&mut command, package.as_str());
            push_owned(&mut command, "-c");
            push_owned(&mut command, "android.intent.category.LAUNCHER");
            push_owned(&mut command, "1");
        },
    }
    assert(string_views(command@) =~= spec_launch_app_command(package_name@, opt_str(activity)));
    Ok(command)
}

/// What a launch waits for: the activity asked for (else the launched
/// one) and the package asked for (else the launched one).
pub fn launch_wait_targets<'a>(
    package_name: &'a str,
    activity: Option<&'a str>,
    wait_for_activity: Option<&'a str>,
    wait_for_package: Option<&'a str>,
) -> (r: (Option<&'a str>, Option<&'a str>))
    ensures
        r.0 == (if wait_for_activity is Some {
            wait_for_activity
        } else {
            activity
        }),
        r.1 == (if wait_for_package is Some {
            wait_for_package
        } else {
            Some(package_name)
        }),
{
    let activity_target = match wait_for_activity {
        Some(a) => Some(a),
        None => activity,
    };
    let package_target = match wait_for_package {
        Some(p) => Some(p),
        None => Some(package_name),
    };
    (activity_target, package_target)
}

/// The command that lists apps: launcher activities, or every package.
pub fn list_apps_command(launcher_only: bool) -> (r: Vec<String>)
    ensures
        string_views(r@) == (if launcher_only {
            seq![
                "cmd"@,
                "package"@,
                "query-activities"@,
                "-a"@,
                "android.intent.action.MAIN"@,
                "-c"@,
                "android.intent.category.LAUNCHER"@,
            ]
        } else {
            seq!["pm"@, "list"@, "packages"@]
        }),
{
    let mut command: Vec<String> = Vec::new();
    if launcher_only {
        push_owned(&mut command, "cmd");
        push_owned(&mut command, "package");
        push_owned(&mut command, "query-activities");
        push_owned(&mut command, "-a");
        push_owned(&mut command, "android.intent.action.MAIN");
        push_owned(&mut command, "-c");
        push_owned(&mut command, "android.intent.category.LAUNCHER");
    } else {
        push_owned(&mut command, "pm");
        push_owned(&mut command, "list");
        push_owned(&mut command, "packages");
    }
    command
}

/// The shell command that force-stops a package.
pub fn terminate_app_command(package_name: &str) -> (r: Vec<String>)
    ensures
        string_views(r@) == seq!["am"@, "force-stop"@, package_name@],
{
    let mut command: Vec<String> = Vec::new();
    push_owned(&mut command, "am");
    push_owned(&mut command, "force-stop");
    push_owned(&mut command, package_name);
    command
}

/// The adb command that uninstalls a package.
pub fn uninstall_app_command(package_name: &str) -> (r: Vec<String>)
    ensures
        string_views(r@) == seq!["uninstall"@, package_name@],
{
    let mut command: Vec<String> = Vec::new();
    push_owned(&mut command, "uninstall");
    push_owned(&mut command, package_name);
    command
}

/// The command that opens a URL, with the URL quoted for the device shell.
pub fn open_url_command(url: &str) -> (r: Vec<String>)
    ensures
        string_views(r@) == seq!["am"@, "start"@, "-a"@, "android.intent.action.VIEW"@, "-d"@, spec_shell_quote(url@)],
{
    let mut command: Vec<String> = Vec::new();
    push_owned(&mut command, "am");
    push_owned(&mut command, "start");
    push_owned(&mut command, "-a");
    push_owned(&mut command, "android.intent.action.VIEW");
    push_owned(&mut command, "-d");
    let quoted = shell_quote(url);
    push_owned(&mut command, quoted.as_str());
    command
}

/// The command that turns automatic rotation off.
pub fn disable_rotation_command() -> (r: Vec<String>)
    ensures
        string_views(r@) == seq!["settings"@, "put"@, "system"@, "accelerometer_rotation"@, "0"@],
{
    let mut command: Vec<String> = Vec::new();
    push_owned(&mut command, "settings");
    push_owned(&mut command, "put");
    push_owned(&mut command, "system");
    push_owned(&mut command, "accelerometer_rotation");
    push_owned(&mut command, "0");
    command
}

/// The command that sets the user rotation.
pub fn user_rotation_command(rotation: u8) -> (r: Vec<String>)
    ensures
        string_views(r@) == seq!["settings"@, "put"@, "system"@, "user_rotation"@, decimal(rotation as nat)],
{
    let mut command: Vec<String> = Vec::new();
    push_owned(&mut command, "settings");
    push_owned(&mut command, "put");
    push_owned(&mut command, "system");
    push_owned(&mut command, "user_rotation");
    let mut digits: Vec<char> = Vec::new();
    push_decimal(&mut digits, rotation as u64);
    let value = string_of(digits.as_slice());
    push_owned(&mut command, value.as_str());
    command
}

/// The rotation that a `settings get system user_rotation` reading names:
/// the trimmed reading as a `u8`, or 0 where it is none.
pub fn raw_rotation(reading: &str) -> (r: u8)
    ensures
        r as int == (match parse_integer(trim(reading@), 0, 255) {
            Ok(v) => v,
            Err(_) => 0,
        }),
{
    let t = trimmed(reading);
    match parse_integer_u8(t.as_slice()) {
        Some(v) => v,
        None => 0,
    }
}

fn parse_integer_u8(s: &[char]) -> (r: Option<u8>)
    ensures
        match r {
            Some(v) => parse_integer(s@, 0, 255) == Ok::<int, IntParseFailure>(v as int),
            None => parse_integer(s@, 0, 255) is Err,
        },
{
    proof {
        lemma_parse_unsigned_narrower(s@, 255, 65535);
    }
    match parse_u16_checked(s) {
        Ok(v) => {
            if v > 255 {
                None
            } else {
                Some(v as u8)
            }
        },
        Err(_) => None,
    }
}

/// The shell command that sends one key event.
pub fn keyevent_command(keycode: &str) -> (r: Vec<String>)
    ensures
        string_views(r@) == seq!["input"@, "keyevent"@, trim(keycode@)],
{
    let mut command: Vec<String> = Vec::new();
    push_owned(&mut command, "input");
    push_owned(&mut command, "keyevent");
    let k = trim_string(keycode);
    push_owned(&mut command, k.as_str());
    command
}

/// The key codes of a key combination: the listed ones, then the `keycode`
/// and `key` aliases, each trimmed, the blank ones dropped.
pub open spec fn combination_keys(keycodes: Seq<Seq<char>>) -> Seq<Seq<char>>
    decreases keycodes.len(),
{
    if keycodes.len() == 0 {
        Seq::empty()
    } else {
        let earlier = combination_keys(keycodes.drop_last());
        if trim(keycodes.last()).len() > 0 {
            earlier.push(trim(keycodes.last()))
        } else {
            earlier
        }
    }
}

pub open spec fn opt_seq(o: Option<String>) -> Seq<Seq<char>> {
    match o {
        Some(s) => seq![s@],
        None => Seq::empty(),
    }
}

/// The key codes of `android.input.keycombination`; none left is refused.
pub fn keycombination_keycodes(keycodes: Vec<String>, keycode: Option<String>, key: Option<String>) -> (r:
    Result<Vec<String>, McpError>)
    ensures
        ({
            let keys = combination_keys(string_views(keycodes@) + opt_seq(keycode) + opt_seq(key));
            if keys.len() == 0 {
                r matches Err(e) && e.kind == ErrorKind::InvalidParams && e.message@
                    == "keycodes must include at least one non-empty keycode"@
            } else {
                r matches Ok(v) && string_views(v@) == keys
            }
        }),
{
    let mut raw = keycodes;
    let ghost listed = string_views(raw@);
    match keycode {
        Some(k) => {
            raw.push(k);
        },
        None => {},
    }
    match key {
        Some(k) => {
            raw.push(k);
        },
        None => {},
    }
    let ghost all = string_views(raw@);
    assert(all =~= listed + opt_seq(keycode) + opt_seq(key));
    let mut keys: Vec<String> = Vec::new();
    let mut i: usize = 0;
    while i < raw.len()
        invariant
            i <= raw.len(),
            all == string_views(raw@),
            string_views(keys@) == combination_keys(all.take(i as int)),
        decreases raw.len() - i,
    {
        let ghost before = all.take(i as int);
        let ghost after = all.take(i + 1);
        assert(after.drop_last() =~= before);
        let t = trim_string(raw[i].as_str());
        if !t.as_str().is_empty() {
            push_owned(&mut keys, t.as_str());
        }
        i = i + 1;
    }
    assert(all.take(raw.len() as int) =~= all);
    if keys.len() == 0 {
        return Err(McpError::invalid_params(owned("keycodes must include at least one non-empty keycode")));
    }
    Ok(keys)
}

/// The shell command that sends a key combination.
pub fn keycombination_command(keycodes: &Vec<String>) -> (r: Vec<String>)
    ensures
        string_views(r@) == seq!["input"@, "keycombination"@] + string_views(keycodes@),
{
    let mut command: Vec<String> = Vec::new();
    push_owned(&mut command, "input");
    push_owned(&mut command, "keycombination");
    let ghost head = string_views(command@);
    let mut i: usize = 0;
    while i < keycodes.len()
        invariant
            i <= keycodes.len(),
            head == seq!["input"@, "keycombination"@],
            string_views(command@) == head + string_views(keycodes@).take(i as int),
        decreases keycodes.len() - i,
    {
        push_owned(&mut command, keycodes[i].as_str());
        assert(string_views(keycodes@).take(i + 1) =~= string_views(keycodes@).take(i as int).push(keycodes@[i as int]@));
        i = i + 1;
    }
    assert(string_views(keycodes@).take(keycodes.len() as int) =~= string_views(keycodes@));
    command
}

/// The outcome of a swipe: it is checked when a selector was waited for or
/// a scroll change was expected, and it holds when the selector showed or
/// the scrollable content changed.
pub fn swipe_outcome(selector_requested: bool, selector_satisfied: bool, expect_scroll_change: bool, scroll_changed: bool) -> (r: (bool, bool))
    ensures
        r.0 == (selector_requested || expect_scroll_change),
        r.1 == (selector_satisfied || scroll_changed),
{
    (selector_requested || expect_scroll_change, selector_satisfied || scroll_changed)
}

} // verus!
