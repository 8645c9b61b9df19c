use android_computer_use_mcp::scenario::{
    label_tap_blocked_error, label_tap_gave_up_error, label_wait_blocked_error,
    label_wait_step, label_wait_timeout_error, scenario_failure_error, LabelWaitStep,
};
use android_computer_use_mcp::adb::CommandOutput;
use android_computer_use_mcp::args::SolarLabAppArgs;
use android_computer_use_mcp::dialog::{
    blocked_dialog_report, dialog_settle_ms, handled_dialog_report,
};
use android_computer_use_mcp::error::McpError;
use android_computer_use_mcp::polling::{
    exec_out_dump_step, pull_retry_step, rotation_timeout_error, rotation_wait_step, DialogCheck,
    ExecOutDumpStep, PullRetryStep, RotationStep,
};
use android_computer_use_mcp::scenario::{
    label_tap_capture_name, label_tap_step, label_wait_capture_name, scenario_status,
    solarlab_launch_commands, solarlab_scenario_by_name, stage_artifact_name, LabelTapStep,
    ScenarioStep, SolarLabScenario,
};

#[test]
fn scenarios_are_selected_by_name() {
    let focus = solarlab_scenario_by_name("stage_first_focus_earth").unwrap();
    assert_eq!(focus, SolarLabScenario::FocusEarth);
    assert_eq!(focus.slug(), "solarlab-focus-earth");
    assert_eq!(focus.logcat_filename(), "solarlab-focus-earth-logcat.txt");
    let err = solarlab_scenario_by_name("nope").err().unwrap();
    assert_eq!(
        err.to_string(),
        "unknown scenario 'nope', expected one of: stage_first_focus_earth, stage_first_immersive_roundtrip"
    );
}

#[test]
fn focus_earth_script_clears_the_field_before_typing() {
    let steps = SolarLabScenario::FocusEarth.steps();
    assert_eq!(steps.len(), 22);
    assert_eq!(steps[0], ScenarioStep::LaunchApp);
    let deletes = steps
        .iter()
        .filter(|s| **s == ScenarioStep::Keyevent { keycode: "KEYCODE_DEL", tolerate_failure: true })
        .count();
    assert_eq!(deletes, 8);
    assert_eq!(steps[16], ScenarioStep::InputText { text: "earth" });
    assert_eq!(SolarLabScenario::ImmersiveRoundtrip.steps().len(), 12);
}

#[test]
fn scenario_launch_and_artifact_names() {
    let app = SolarLabAppArgs { package_name: "com.sednalabs.solarlab".to_string(), activity: None };
    let (stop, start) = solarlab_launch_commands(&app);
    assert_eq!(stop, vec!["am", "force-stop", "com.sednalabs.solarlab"]);
    assert_eq!(start[0], "monkey");
    assert_eq!(stage_artifact_name("solarlab-focus-earth", "00-home", "png"), "solarlab-focus-earth-00-home.png");
    assert_eq!(label_tap_capture_name("Search by name", 1), "tap-target-search-by-name-attempt-1.xml");
    assert!(label_wait_capture_name("Earth", 750).starts_with("wait-earth-750"));
    assert_eq!(scenario_status(true), "failed");
    assert_eq!(label_tap_step(0, DialogCheck::Handled), LabelTapStep::Retry);
    assert_eq!(label_tap_step(1, DialogCheck::Handled), LabelTapStep::GaveUp);
    assert_eq!(label_tap_step(0, DialogCheck::Clear), LabelTapStep::Tap);
}

#[test]
fn hierarchy_capture_steps() {
    let ok = CommandOutput {
        stdout: "noise <hierarchy><node/></hierarchy> trailing".to_string(),
        stderr: String::new(),
    };
    assert!(matches!(exec_out_dump_step(Ok(ok)), ExecOutDumpStep::Done(x) if x == "<hierarchy><node/></hierarchy>"));
    let empty = CommandOutput { stdout: "ERROR: null root node".to_string(), stderr: String::new() };
    assert!(matches!(exec_out_dump_step(Ok(empty)), ExecOutDumpStep::Fallback));
    let unsupported = McpError::internal_error("exec-out: unknown command".to_string());
    assert!(matches!(exec_out_dump_step(Err(unsupported)), ExecOutDumpStep::Fallback));
    let other = McpError::internal_error("device offline".to_string());
    assert!(matches!(exec_out_dump_step(Err(other)), ExecOutDumpStep::Fail(_)));
    assert_eq!(pull_retry_step(0, false, None), PullRetryStep::Fail);
    assert_eq!(pull_retry_step(0, true, None), PullRetryStep::Retry(100));
    assert_eq!(pull_retry_step(1, true, Some(40)), PullRetryStep::Retry(40));
    assert_eq!(pull_retry_step(1, true, Some(0)), PullRetryStep::GiveUp);
    assert_eq!(pull_retry_step(2, true, Some(500)), PullRetryStep::GiveUp);
}

#[test]
fn rotation_wait_steps() {
    assert_eq!(rotation_wait_step(1, " 5 ", None), RotationStep::Reached(1));
    assert_eq!(rotation_wait_step(1, "2", None), RotationStep::Again(Some(2)));
    assert_eq!(rotation_wait_step(1, "x", Some(3)), RotationStep::Again(Some(3)));
    assert_eq!(
        rotation_timeout_error(6, None).to_string(),
        "timed out waiting for Android user_rotation=2; last observed none"
    );
}

#[test]
fn dialog_reports() {
    let handled = handled_dialog_report("anr", vec!["Wait".to_string()], "Wait", None, "/tmp/a.xml".to_string());
    assert_eq!(handled.action_taken.as_deref(), Some("tap:Wait"));
    let blocked = blocked_dialog_report("permission", Vec::new(), "/tmp/b.xml".to_string());
    assert!(blocked.action_label.is_none());
    assert_eq!(dialog_settle_ms("anr"), 2000);
    assert_eq!(dialog_settle_ms("permission"), 750);
}

#[test]
fn label_errors_name_the_label_and_dialog() {
    assert_eq!(
        label_tap_blocked_error("Earth", Some("{\"kind\":\"anr\"}")).message,
        "unable to tap ui label 'Earth' because a blocking system dialog was detected: {\"kind\":\"anr\"}"
    );
    assert_eq!(
        label_tap_blocked_error("Earth", None).message,
        "unable to tap ui label 'Earth' because a blocking system dialog was detected: system dialog"
    );
    assert_eq!(
        label_tap_gave_up_error("Earth").message,
        "unable to tap ui label 'Earth' because a system dialog kept taking focus"
    );
    assert_eq!(
        label_wait_blocked_error("Earth", None).message,
        "timed out waiting for ui label 'Earth' because a blocking system dialog was detected: system dialog"
    );
    assert_eq!(
        label_wait_timeout_error("Earth").message,
        "timed out waiting for ui label 'Earth'"
    );
    assert_eq!(
        scenario_failure_error("boom", "/tmp/run/bundle.json").message,
        "boom; partial scenario manifest: /tmp/run/bundle.json"
    );
}

#[test]
fn label_wait_steps_follow_dialog_and_lookup() {
    assert_eq!(label_wait_step(DialogCheck::Handled, true), LabelWaitStep::Recapture);
    assert_eq!(label_wait_step(DialogCheck::Blocked, true), LabelWaitStep::Blocked);
    assert_eq!(label_wait_step(DialogCheck::Clear, true), LabelWaitStep::Found);
    assert_eq!(label_wait_step(DialogCheck::Clear, false), LabelWaitStep::Pause);
}
