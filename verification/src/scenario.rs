//! The built-in Solar Lab scenarios as scripts of device steps, and the
//! decisions of the label waits and taps that they are made of.
use vstd::prelude::*;
use crate::adb::{sanitize_filename, spec_sanitize_filename};
use crate::args::{SolarLabAppArgs};
use crate::commands::{terminate_app_command};
use crate::error::{ErrorKind, McpError};
use crate::polling::{DialogCheck};
use crate::text::{append_str, chars_of, decimal, push_decimal, push_owned, str_eq, string_of, string_views};

verus! {

/// One step of a scenario script.
#[derive(Debug, Clone, Copy, PartialEq, Eq)]
pub enum ScenarioStep {
    /// Stop the app, start it again, and let it settle.
    LaunchApp,
    /// Poll the hierarchy until a node carries the label, for at most this long.
    WaitForLabel { label: &'static str, timeout_secs: u64 },
    /// Save a screenshot and a hierarchy dump for this stage.
    Capture { stage: &'static str },
    /// Tap the node that carries the label.
    TapLabel { label: &'static str },
    /// Send a key event; a failure ends the scenario unless tolerated.
    Keyevent { keycode: &'static str, tolerate_failure: bool },
    /// Type text into the focused field.
    InputText { text: &'static str },
}

/// A built-in scenario.
#[derive(Debug, Clone, Copy, PartialEq, Eq, Structural)]
pub enum SolarLabScenario {
    FocusEarth,
    ImmersiveRoundtrip,
}

pub open spec fn scenario_name_spec(s: SolarLabScenario) -> Seq<char> {
    match s {
        SolarLabScenario::FocusEarth => "stage_first_focus_earth"@,
        SolarLabScenario::ImmersiveRoundtrip => "stage_first_immersive_roundtrip"@,
    }
}

/// The scenario that a name selects; an unknown name is refused, naming
/// the known ones.
pub fn solarlab_scenario_by_name(name: &str) -> (r: Result<SolarLabScenario, McpError>)
    ensures
        match r {
            Ok(s) => scenario_name_spec(s) == name@,
            Err(e) => e.kind == ErrorKind::InvalidParams && e.message@ == "unknown scenario '"@ + name@
                + "', expected one of: stage_first_focus_earth, stage_first_immersive_roundtrip"@
                && name@ != scenario_name_spec(SolarLabScenario::FocusEarth) && name@ != scenario_name_spec(
                SolarLabScenario::ImmersiveRoundtrip,
            ),
        },
{
    if str_eq(name, "stage_first_focus_earth") {
        Ok(SolarLabScenario::FocusEarth)
    } else if str_eq(name, "stage_first_immersive_roundtrip") {
        Ok(SolarLabScenario::ImmersiveRoundtrip)
    } else {
        let mut m = chars_of("unknown scenario '");
        append_str(&mut m, name);
        append_str(&mut m, "', expected one of: stage_first_focus_earth, stage_first_immersive_roundtrip");
        Err(McpError::invalid_params(string_of(m.as_slice())))
    }
}

/// The script of Stage First: focus Earth.
pub open spec fn focus_earth_script() -> Seq<ScenarioStep> {
    seq![
        ScenarioStep::LaunchApp,
        ScenarioStep::WaitForLabel { label: "Search", timeout_secs: 20 },
        ScenarioStep::Capture { stage: "00-home" },
        ScenarioStep::TapLabel { label: "Search" },
        ScenarioStep::WaitForLabel { label: "Search by name or id", timeout_secs: 15 },
        ScenarioStep::Capture { stage: "01-search-dialog" },
        ScenarioStep::TapLabel { label: "Search by name or id" },
        ScenarioStep::Keyevent { keycode: "KEYCODE_MOVE_END", tolerate_failure: false },
        ScenarioStep::Keyevent { keycode: "KEYCODE_DEL", tolerate_failure: true },
        ScenarioStep::Keyevent { keycode: "KEYCODE_DEL", tolerate_failure: true },
        ScenarioStep::Keyevent { keycode: "KEYCODE_DEL", tolerate_failure: true },
        ScenarioStep::Keyevent { keycode: "KEYCODE_DEL", tolerate_failure: true },
        ScenarioStep::Keyevent { keycode: "KEYCODE_DEL", tolerate_failure: true },
        ScenarioStep::Keyevent { keycode: "KEYCODE_DEL", tolerate_failure: true },
        ScenarioStep::Keyevent { keycode: "KEYCODE_DEL", tolerate_failure: true },
        ScenarioStep::Keyevent { keycode: "KEYCODE_DEL", tolerate_failure: true },
        ScenarioStep::InputText { text: "earth" },
        ScenarioStep::WaitForLabel { label: "Earth", timeout_secs: 15 },
        ScenarioStep::Capture { stage: "02-search-results" },
        ScenarioStep::TapLabel { label: "Focus" },
        ScenarioStep::WaitForLabel { label: "Frame selected", timeout_secs: 15 },
        ScenarioStep::Capture { stage: "03-earth-focused" },
    ]
}

/// The script of Stage First: open immersive view and return to the sandbox.
pub open spec fn immersive_roundtrip_script() -> Seq<ScenarioStep> {
    seq![
        ScenarioStep::LaunchApp,
        ScenarioStep::WaitForLabel { label: "Immersive", timeout_secs: 20 },
        ScenarioStep::Capture { stage: "00-home" },
        ScenarioStep::TapLabel { label: "Immersive" },
        ScenarioStep::WaitForLabel { label: "Open immersive view?", timeout_secs: 15 },
        ScenarioStep::Capture { stage: "01-immersive-prompt" },
        ScenarioStep::TapLabel { label: "Open immersive view" },
        ScenarioStep::WaitForLabel { label: "Sandbox", timeout_secs: 20 },
        ScenarioStep::Capture { stage: "02-immersive-view" },
        ScenarioStep::TapLabel { label: "Sandbox" },
        ScenarioStep::WaitForLabel { label: "Immersive", timeout_secs: 20 },
        ScenarioStep::Capture { stage: "03-returned-to-sandbox" },
    ]
}

impl SolarLabScenario {
    /// The scenario's public name.
    pub fn name(self) -> (r: &'static str)
        ensures
            r@ == scenario_name_spec(self),
    {
        match self {
            SolarLabScenario::FocusEarth => "stage_first_focus_earth",
            SolarLabScenario::ImmersiveRoundtrip => "stage_first_immersive_roundtrip",
        }
    }

    /// The prefix of the scenario's artifacts and bundle directory.
    pub fn slug(self) -> (r: &'static str)
        ensures
            r@ == (match self {
                SolarLabScenario::FocusEarth => "solarlab-focus-earth"@,
                SolarLabScenario::ImmersiveRoundtrip => "solarlab-immersive-roundtrip"@,
            }),
    {
        match self {
            SolarLabScenario::FocusEarth => "solarlab-focus-earth",
            SolarLabScenario::ImmersiveRoundtrip => "solarlab-immersive-roundtrip",
        }
    }

    /// Where the scenario's logcat goes.
    pub fn logcat_filename(self) -> (r: &'static str)
        ensures
            r@ == (match self {
                SolarLabScenario::FocusEarth => "solarlab-focus-earth-logcat.txt"@,
                SolarLabScenario::ImmersiveRoundtrip => "solarlab-immersive-roundtrip-logcat.txt"@,
            }),
    {
        match self {
            SolarLabScenario::FocusEarth => "solarlab-focus-earth-logcat.txt",
            SolarLabScenario::ImmersiveRoundtrip => "solarlab-immersive-roundtrip-logcat.txt",
        }
    }

    /// The scenario's script, in order.
    pub fn steps(self) -> (r: Vec<ScenarioStep>)
        ensures
            r@ == (match self {
                SolarLabScenario::FocusEarth => focus_earth_script(),
                SolarLabScenario::ImmersiveRoundtrip => immersive_roundtrip_script(),
            }),
    {
        match self {
            SolarLabScenario::FocusEarth => {
                let mut steps = vec![
                    ScenarioStep::LaunchApp,
                    ScenarioStep::WaitForLabel { label: "Search", timeout_secs: 20 },
                    ScenarioStep::Capture { stage: "00-home" },
                    ScenarioStep::TapLabel { label: "Search" },
                    ScenarioStep::WaitForLabel { label: "Search by name or id", timeout_secs: 15 },
                    ScenarioStep::Capture { stage: "01-search-dialog" },
                    ScenarioStep::TapLabel { label: "Search by name or id" },
                    ScenarioStep::Keyevent { keycode: "KEYCODE_MOVE_END", tolerate_failure: false },
                ];
                let mut i: usize = 0;
                assert(steps@.take(8) =~= focus_earth_script().take(8));
                while i < 8
                    invariant
                        i <= 8,
                        steps@.len() == 8 + i,
                        steps@.take(8) == focus_earth_script().take(8),
                        forall|k: int| 8 <= k < 8 + i ==> #[trigger] steps@[k] == (ScenarioStep::Keyevent {
                            keycode: "KEYCODE_DEL",
                            tolerate_failure: true,
                        }),
                    decreases 8 - i,
                {
                    let ghost before = steps@;
                    steps.push(ScenarioStep::Keyevent { keycode: "KEYCODE_DEL", tolerate_failure: true });
                    assert(steps@.take(8) =~= before.take(8));
                    i = i + 1;
                }
                let ghost mid = steps@;
                steps.push(ScenarioStep::InputText { text: "earth" });
                steps.push(ScenarioStep::WaitForLabel { label: "Earth", timeout_secs: 15 });
                steps.push(ScenarioStep::Capture { stage: "02-search-results" });
                steps.push(ScenarioStep::TapLabel { label: "Focus" });
                steps.push(ScenarioStep::WaitForLabel { label: "Frame selected", timeout_secs: 15 });
                steps.push(ScenarioStep::Capture { stage: "03-earth-focused" });
                let ghost script = focus_earth_script();
                assert forall|k: int| 0 <= k < 22 implies #[trigger] steps@[k] == script[k] by {
                    if k < 8 {
                        assert(mid.take(8)[k] == mid[k]);
                        assert(script.take(8)[k] == script[k]);
                        assert(steps@[k] == mid[k]);
                    } else if k < 16 {
                        assert(steps@[k] == mid[k]);
                    }
                }
                assert(steps@ =~= focus_earth_script());
                steps
            },
            SolarLabScenario::ImmersiveRoundtrip => {
                let steps = vec![
                    ScenarioStep::LaunchApp,
                    ScenarioStep::WaitForLabel { label: "Immersive", timeout_secs: 20 },
                    ScenarioStep::Capture { stage: "00-home" },
                    ScenarioStep::TapLabel { label: "Immersive" },
                    ScenarioStep::WaitForLabel { label: "Open immersive view?", timeout_secs: 15 },
                    ScenarioStep::Capture { stage: "01-immersive-prompt" },
                    ScenarioStep::TapLabel { label: "Open immersive view" },
                    ScenarioStep::WaitForLabel { label: "Sandbox", timeout_secs: 20 },
                    ScenarioStep::Capture { stage: "02-immersive-view" },
                    ScenarioStep::TapLabel { label: "Sandbox" },
                    ScenarioStep::WaitForLabel { label: "Immersive", timeout_secs: 20 },
                    ScenarioStep::Capture { stage: "03-returned-to-sandbox" },
                ];
                assert(steps@ =~= immersive_roundtrip_script());
                steps
            },
        }
    }
}

/// The commands that restart the scenario's app: a force-stop (whose
/// failure is ignored), then its activity by component name where one is
/// given, else its launcher entry.
pub fn solarlab_launch_commands(app: &SolarLabAppArgs) -> (r: (Vec<String>, Vec<String>))
    ensures
        string_views(r.0@) == seq!["am"@, "force-stop"@, app.package_name@],
        string_views(r.1@) == match app.activity {
            Some(a) => seq!["am"@, "start"@, "-n"@, app.package_name@ + "/"@ + a@],
            None => seq![
                "monkey"@,
                "-p"@,
                app.package_name@,
                "-c"@,
                "android.intent.category.LAUNCHER"@,
                "1"@,
            ],
        },
{
    let stop = terminate_app_command(app.package_name.as_str());
    let mut start: Vec<String> = Vec::new();
    match &app.activity {
        Some(a) => {
            push_owned(&mut start, "am");
            push_owned(&mut start, "start");
            push_owned(&mut start, "-n");
            let mut component = chars_of(app.package_name.as_str());
            append_str(&mut component, "/");
            append_str(&mut component, a.as_str());
            let component = string_of(component.as_slice());
            push_owned(&mut start, component.as_str());
        },
        None => {
            push_owned(&mut start, "monkey");
            push_owned(&mut start, "-p");
            push_owned(&mut start, app.package_name.as_str());
            push_owned(&mut start, "-c");
            push_owned(&mut start, "android.intent.category.LAUNCHER");
            push_owned(&mut start, "1");
        },
    }
    (stop, start)
}

/// What a label tap does after one capture.
#[derive(Debug, Clone, Copy, PartialEq, Eq, Structural)]
pub enum LabelTapStep {
    /// A dialog was dismissed: capture again, if an attempt is left.
    Retry,
    /// A dialog blocks the screen: fail.
    Blocked,
    /// Look the label up on this capture and tap it.
    Tap,
    /// Dialogs kept taking focus: fail.
    GaveUp,
}

/// The step of a label tap after capture number `attempt` (0 or 1).
pub fn label_tap_step(attempt: u32, dialog: DialogCheck) -> (r: LabelTapStep)
    ensures
        dialog == DialogCheck::Clear ==> r == LabelTapStep::Tap,
        dialog == DialogCheck::Blocked ==> r == LabelTapStep::Blocked,
        dialog == DialogCheck::Handled ==> r == (if attempt >= 1 {
            LabelTapStep::GaveUp
        } else {
            LabelTapStep::Retry
        }),
{
    match dialog {
        DialogCheck::Clear => LabelTapStep::Tap,
        DialogCheck::Blocked => LabelTapStep::Blocked,
        DialogCheck::Handled => if attempt >= 1 {
            LabelTapStep::GaveUp
        } else {
            LabelTapStep::Retry
        },
    }
}

/// The file a label tap's capture is saved to.
pub fn label_tap_capture_name(label: &str, attempt: u32) -> (r: String)
    ensures
        r@ == "tap-target-"@ + spec_sanitize_filename(label@) + "-attempt-"@ + decimal(attempt as nat) + ".xml"@,
{
    let safe = sanitize_filename(label);
    let mut v = chars_of("tap-target-");
    append_str(&mut v, safe.as_str());
    append_str(&mut v, "-attempt-");
    push_decimal(&mut v, attempt as u64);
    append_str(&mut v, ".xml");
    string_of(v.as_slice())
}

/// The file a label wait's capture is saved to, named by the time waited.
pub fn label_wait_capture_name(label: &str, elapsed_ms: u64) -> (r: String)
    ensures
        r@ == "wait-"@ + spec_sanitize_filename(label@) + "-"@ + decimal(elapsed_ms as nat) + ".xml"@,
{
    let safe = sanitize_filename(label);
    let mut v = chars_of("wait-");
    append_str(&mut v, safe.as_str());
    append_str(&mut v, "-");
    push_decimal(&mut v, elapsed_ms);
    append_str(&mut v, ".xml");
    string_of(v.as_slice())
}

/// The name of one stage's artifact: `{scenario}-{stage}.{extension}`.
pub fn stage_artifact_name(scenario: &str, stage: &str, extension: &str) -> (r: String)
    ensures
        r@ == scenario@ + "-"@ + stage@ + "."@ + extension@,
{
    let mut v = chars_of(scenario);
    append_str(&mut v, "-");
    append_str(&mut v, stage);
    append_str(&mut v, ".");
    append_str(&mut v, extension);
    string_of(v.as_slice())
}

/// A scenario's status: failed where it stopped on an error.
pub fn scenario_status(failed: bool) -> (r: &'static str)
    ensures
        r@ == (if failed {
            "failed"@
        } else {
            "ok"@
        }),
{
    if failed {
        "failed"
    } else {
        "ok"
    }
}


/// What a label wait does after one capture.
#[derive(Debug, Clone, Copy, PartialEq, Eq, Structural)]
pub enum LabelWaitStep {
    /// A dialog was dismissed: capture again at once.
    Recapture,
    /// A dialog blocks the screen: fail.
    Blocked,
    /// The label is on this capture.
    Found,
    /// The label is not there yet: pause, then capture again while time is left.
    Pause,
}

/// The pause between two captures of a label wait, in milliseconds.
pub const LABEL_WAIT_POLL_MS: u64 = 750;

/// The step of a label wait after a capture, given whether the label was
/// found on it.
pub fn label_wait_step(dialog: DialogCheck, found: bool) -> (r: LabelWaitStep)
    ensures
        dialog == DialogCheck::Handled ==> r == LabelWaitStep::Recapture,
        dialog == DialogCheck::Blocked ==> r == LabelWaitStep::Blocked,
        dialog == DialogCheck::Clear ==> r == (if found {
            LabelWaitStep::Found
        } else {
            LabelWaitStep::Pause
        }),
{
    match dialog {
        DialogCheck::Handled => LabelWaitStep::Recapture,
        DialogCheck::Blocked => LabelWaitStep::Blocked,
        DialogCheck::Clear => if found {
            LabelWaitStep::Found
        } else {
            LabelWaitStep::Pause
        },
    }
}

/// What an error says of a blocking dialog: its report, or `system dialog`
/// where no report could be written.
pub open spec fn dialog_detail(report_json: Option<Seq<char>>) -> Seq<char> {
    match report_json {
        Some(d) => d,
        None => "system dialog"@,
    }
}

fn label_error(prefix: &str, label: &str, suffix: &str, report_json: Option<&str>) -> (e: McpError)
    ensures
        e.kind == ErrorKind::InternalError,
        e.message@ == prefix@ + label@ + suffix@ + match report_json {
            Some(d) => ": "@ + d@,
            None => ": system dialog"@,
        },
{
    let mut v = chars_of(prefix);
    append_str(&mut v, label);
    append_str(&mut v, suffix);
    match report_json {
        Some(d) => {
            append_str(&mut v, ": ");
            append_str(&mut v, d);
        },
        None => append_str(&mut v, ": system dialog"),
    }
    McpError::internal_error(string_of(v.as_slice()))
}

/// The error of a label tap that a blocking dialog stopped.
pub fn label_tap_blocked_error(label: &str, report_json: Option<&str>) -> (e: McpError)
    ensures
        e.kind == ErrorKind::InternalError,
        e.message@ == "unable to tap ui label '"@ + label@
            + "' because a blocking system dialog was detected: "@ + dialog_detail(
            match report_json {
                Some(d) => Some(d@),
                None => None,
            },
        ),
{
    proof {
        reveal_strlit(": ");
        reveal_strlit(": system dialog");
        reveal_strlit("system dialog");
        reveal_strlit("' because a blocking system dialog was detected");
        reveal_strlit("' because a blocking system dialog was detected: ");
    }
    let e = label_error("unable to tap ui label '", label, "' because a blocking system dialog was detected", report_json);
    assert(e.message@ =~= "unable to tap ui label '"@ + label@
        + "' because a blocking system dialog was detected: "@ + dialog_detail(
        match report_json {
            Some(d) => Some(d@),
            None => None,
        },
    ));
    e
}

/// The error of a label tap that dialogs kept interrupting.
pub fn label_tap_gave_up_error(label: &str) -> (e: McpError)
    ensures
        e.kind == ErrorKind::InternalError,
        e.message@ == "unable to tap ui label '"@ + label@ + "' because a system dialog kept taking focus"@,
{
    let mut v = chars_of("unable to tap ui label '");
    append_str(&mut v, label);
    append_str(&mut v, "' because a system dialog kept taking focus");
    McpError::internal_error(string_of(v.as_slice()))
}

/// The error of a label wait that a blocking dialog stopped.
pub fn label_wait_blocked_error(label: &str, report_json: Option<&str>) -> (e: McpError)
    ensures
        e.kind == ErrorKind::InternalError,
        e.message@ == "timed out waiting for ui label '"@ + label@
            + "' because a blocking system dialog was detected: "@ + dialog_detail(
            match report_json {
                Some(d) => Some(d@),
                None => None,
            },
        ),
{
    proof {
        reveal_strlit(": ");
        reveal_strlit(": system dialog");
        reveal_strlit("system dialog");
        reveal_strlit("' because a blocking system dialog was detected");
        reveal_strlit("' because a blocking system dialog was detected: ");
    }
    let e = label_error("timed out waiting for ui label '", label, "' because a blocking system dialog was detected", report_json);
    assert(e.message@ =~= "timed out waiting for ui label '"@ + label@
        + "' because a blocking system dialog was detected: "@ + dialog_detail(
        match report_json {
            Some(d) => Some(d@),
            None => None,
        },
    ));
    e
}

/// The error of a label wait that ran out of time.
pub fn label_wait_timeout_error(label: &str) -> (e: McpError)
    ensures
        e.kind == ErrorKind::InternalError,
        e.message@ == "timed out waiting for ui label '"@ + label@ + "'"@,
{
    let mut v = chars_of("timed out waiting for ui label '");
    append_str(&mut v, label);
    append_str(&mut v, "'");
    McpError::internal_error(string_of(v.as_slice()))
}

/// The error of a scenario that failed: its failure, and where the partial
/// record of the run was written.
pub fn scenario_failure_error(failure: &str, record_path: &str) -> (e: McpError)
    ensures
        e.kind == ErrorKind::InternalError,
        e.message@ == failure@ + "; partial scenario manifest: "@ + record_path@,
{
    let mut v = chars_of(failure);
    append_str(&mut v, "; partial scenario manifest: ");
    append_str(&mut v, record_path);
    McpError::internal_error(string_of(v.as_slice()))
}

} // verus!
