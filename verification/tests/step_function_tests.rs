use android_computer_use_mcp::actions::{
    already_entered_verification, already_focused_verification, plan_focus, plan_text_entry,
    plan_text_target, tap_postcondition, wait_for_ui_element_step, WaitElementStep,
};
use android_computer_use_mcp::adb::{merge_command_outputs, parse_display_dimensions, CommandOutput};
use android_computer_use_mcp::args::{LaunchAvdAndWaitArgs, LaunchRequest};
use android_computer_use_mcp::artifact::filename_or_timestamp;
use android_computer_use_mcp::deadline::{fast_ui_fingerprint_deadline, require_remaining_budget};
use android_computer_use_mcp::discovery::is_running_ini;
use android_computer_use_mcp::dumpsys::AndroidWindowState;
use android_computer_use_mcp::polling::{
    postcondition_from_observation, postcondition_from_window_state, postcondition_plan,
    scroll_until_visible_step, tap_verification_requested, text_verification_requested,
    unrequested_postcondition, DialogCheck, PollOutcome, ScrollStep, StableCaptureStep,
    StableUiPollState, VerificationPollState,
};
use android_computer_use_mcp::session::{
    install_fallback_step, single_file_match, InstallPhase, InstallStep,
};
use android_computer_use_mcp::touch::{
    multi_touch_step_interval, step_interval, touch_with_pressure, TOUCH_IDENTIFIER,
    TOUCH_PRESSURE_DOWN,
};
use android_computer_use_mcp::ui::{visible_label_key, NormalizedUiNode, UiBounds, UiSelector};
use android_computer_use_mcp::verification::{
    InternalNodeTracker, TextVerificationStatus, ToolPostconditionEvidenceSource,
};

fn field(text: Option<&str>, focused: bool) -> NormalizedUiNode {
    NormalizedUiNode {
        class_name: Some("android.widget.EditText".to_string()),
        package_name: Some("com.example".to_string()),
        text: text.map(ToOwned::to_owned),
        semantic_label: None,
        content_desc: None,
        resource_id: Some("com.example:id/search".to_string()),
        clickable: true,
        focusable: true,
        enabled: true,
        selected: false,
        checked: false,
        focused,
        scrollable: false,
        long_clickable: false,
        bounds: Some(UiBounds { left: 0, top: 0, right: 200, bottom: 60 }),
        center: Some((100, 30)),
    }
}

fn output(stdout: &str, stderr: &str) -> CommandOutput {
    CommandOutput { stdout: stdout.to_string(), stderr: stderr.to_string() }
}

fn search_selector() -> UiSelector {
    UiSelector {
        resource_id: Some("com.example:id/search".to_string()),
        ..UiSelector::default()
    }
}

#[test]
fn stable_ui_wait_counts_full_captures_without_fast_backend() {
    let mut state = StableUiPollState::new();
    state.use_fast_stability_backend = Some(false);
    assert_eq!(state.after_capture("a".to_string(), 2, false), StableCaptureStep::Sleep);
    assert_eq!(state.stable_polls, 1);
    assert_eq!(state.after_capture("a".to_string(), 2, false), StableCaptureStep::Stop);
    assert_eq!(state.stable_polls, 2);
    assert_eq!(state.after_capture("b".to_string(), 2, true), StableCaptureStep::Stop);
    assert_eq!(state.stable_polls, 1);
}

#[test]
fn text_observation_confirms_after_repeated_satisfied_polls() {
    let mut state = VerificationPollState::new();
    let satisfied = TextVerificationStatus {
        target_present: Some(true),
        post_present: None,
        pre_post_present: None,
        target_text_matches_requested: None,
        ui_changed_from_pre_text: Some(true),
        satisfied: true,
    };
    assert_eq!(
        state.after_text_observation("x".to_string(), &satisfied, false),
        PollOutcome::Continue
    );
    assert_eq!(
        state.after_text_observation("x".to_string(), &satisfied, false),
        PollOutcome::Confirmed
    );
    let exact = TextVerificationStatus { target_text_matches_requested: Some(true), ..satisfied };
    let mut immediate = VerificationPollState::new();
    assert_eq!(
        immediate.after_text_observation("z".to_string(), &exact, false),
        PollOutcome::Confirmed
    );
    let unsatisfied = TextVerificationStatus { satisfied: false, ..satisfied };
    let mut fresh = VerificationPollState::new();
    assert_eq!(
        fresh.after_text_observation("y".to_string(), &unsatisfied, true),
        PollOutcome::Stop
    );
}

#[test]
fn already_done_verifications_are_satisfied() {
    let tap = already_focused_verification(search_selector(), "ui.xml".to_string());
    assert!(tap.requested && tap.satisfied && tap.stabilized && !tap.timed_out);
    assert_eq!(tap.hierarchy_path.as_deref(), Some("ui.xml"));
    assert_eq!(tap.ui_changed_from_pre_tap, Some(false));
    let text = already_entered_verification(search_selector(), None);
    assert!(text.requested && text.satisfied);
    assert_eq!(text.target_text_matches_requested, Some(true));
    assert_eq!(text.target_selector, Some(search_selector()));
}

#[test]
fn focus_plan_detects_a_field_that_already_holds_focus() {
    let node = field(None, false);
    let plan = plan_focus(&node, &[field(None, true)]);
    assert!(plan.already_focused);
    assert_eq!(plan.target_selector.focused, Some(true));
    assert!(matches!(plan.tracker, InternalNodeTracker::Identity { focused: Some(true), .. }));
    let not_yet = plan_focus(&node, &[field(None, false)]);
    assert!(!not_yet.already_focused);
}

#[test]
fn text_entry_plan_reads_the_focused_field() {
    let node = field(None, false);
    let focus = plan_focus(&node, &[]);
    let entry = plan_text_entry(&[field(Some("earth"), true)], &focus.tracker, &focus.target_selector, "earth");
    assert!(entry.already_entered);
    assert_eq!(entry.existing_text.as_deref(), Some("earth"));
    assert!(entry.focused_node.is_some());
    let missing = plan_text_entry(&[], &focus.tracker, &focus.target_selector, "earth");
    assert!(!missing.already_entered);
    assert!(missing.focused_node.is_none());
    assert_eq!(missing.target_selector, focus.target_selector);
    let target = plan_text_target(Some(&node), None);
    assert_eq!(target.target_selector.as_ref().and_then(|s| s.resource_id.clone()).as_deref(), Some("com.example:id/search"));
    let fallback = plan_text_target(None, Some(&search_selector()));
    assert_eq!(fallback.target_selector, Some(search_selector()));
}

#[test]
fn waiting_for_an_element_polls_until_it_resolves() {
    let selector = search_selector();
    assert!(matches!(
        wait_for_ui_element_step(DialogCheck::Handled, &[], &selector, None, false),
        WaitElementStep::Recapture
    ));
    assert!(matches!(
        wait_for_ui_element_step(DialogCheck::Clear, &[], &selector, None, false),
        WaitElementStep::Pending { match_count: 0, .. }
    ));
    match wait_for_ui_element_step(DialogCheck::Clear, &[field(None, false)], &selector, None, false) {
        WaitElementStep::Present(selection) => assert_eq!(selection.match_count, 1),
        other => panic!("unexpected step {other:?}"),
    }
    assert!(matches!(
        wait_for_ui_element_step(DialogCheck::Clear, &[], &selector, None, true),
        WaitElementStep::Absent
    ));
}

#[test]
fn scrolling_swipes_until_the_budget_is_spent() {
    let selector = search_selector();
    assert!(matches!(
        scroll_until_visible_step(0, 2, DialogCheck::Clear, &[], &selector, None),
        ScrollStep::Swipe
    ));
    assert!(matches!(
        scroll_until_visible_step(2, 2, DialogCheck::Clear, &[], &selector, None),
        ScrollStep::Exhausted
    ));
    assert!(matches!(
        scroll_until_visible_step(0, 2, DialogCheck::Blocked, &[], &selector, None),
        ScrollStep::Blocked
    ));
    assert!(matches!(
        scroll_until_visible_step(1, 2, DialogCheck::Clear, &[field(None, false)], &selector, None),
        ScrollStep::Found(_)
    ));
}

#[test]
fn postconditions_from_captures() {
    let window = AndroidWindowState {
        current_focus: Some("Window{1 u0 com.example/.MainActivity}".to_string()),
        focused_app: None,
        resumed_activity: Some("com.example/.MainActivity".to_string()),
        input_method_visible: false,
        input_method_target: None,
    };
    let from_window = postcondition_from_window_state(&window, None, Some("com.example"), 12);
    assert!(from_window.requested && from_window.satisfied && !from_window.timed_out);
    assert_eq!(from_window.elapsed_ms, 12);
    assert_eq!(from_window.evidence_source, Some(ToolPostconditionEvidenceSource::WindowState));
    let selector = search_selector();
    let from_ui = postcondition_from_observation(
        &window,
        &[field(None, false)],
        Some(&selector),
        None,
        None,
        None,
        "ui.xml".to_string(),
        None,
        7,
    );
    assert!(from_ui.satisfied);
    assert_eq!(from_ui.match_count, 1);
    assert_eq!(from_ui.hierarchy_path.as_deref(), Some("ui.xml"));
    let missing = postcondition_from_observation(
        &window, &[], Some(&selector), None, None, None, "ui.xml".to_string(), None, 7,
    );
    assert!(!missing.satisfied);
    assert_eq!(postcondition_plan(true, None, None), (true, true));
    assert_eq!(postcondition_plan(true, Some(".Main"), None), (true, false));
    assert_eq!(postcondition_plan(false, None, None), (false, false));
    let none = unrequested_postcondition();
    assert!(!none.requested && none.satisfied);
    let tap = tap_postcondition(None);
    assert!(!tap.requested && tap.satisfied);
}

#[test]
fn verification_is_requested_only_with_something_to_check() {
    assert!(!tap_verification_requested(false, None, None));
    assert!(tap_verification_requested(true, None, None));
    assert!(tap_verification_requested(false, None, Some(&search_selector())));
    assert!(!text_verification_requested(None, None, None));
    assert!(text_verification_requested(None, Some(&search_selector()), None));
}

#[test]
fn install_retries_after_signature_mismatch() {
    let ok = install_fallback_step(&InstallPhase::Installed(output("Success", "")), "app.apk", "com.example");
    match ok {
        InstallStep::Done(outcome) => assert!(!outcome.uninstalled_existing_package),
        other => panic!("unexpected step {other:?}"),
    }
    let mismatch = install_fallback_step(
        &InstallPhase::Installed(output("", "Failure [INSTALL_FAILED_UPDATE_INCOMPATIBLE]")),
        "app.apk",
        "com.example",
    );
    assert!(matches!(mismatch, InstallStep::Uninstall));
    let other = install_fallback_step(&InstallPhase::Installed(output("", "Failure [NO_SPACE]")), "app.apk", "com.example");
    match other {
        InstallStep::Failed(error) => assert_eq!(error.message, "adb install did not report success for app.apk"),
        step => panic!("unexpected step {step:?}"),
    }
    let reinstall = install_fallback_step(
        &InstallPhase::Uninstalled(output("", "mismatch"), output("Success", "")),
        "app.apk",
        "com.example",
    );
    assert!(matches!(reinstall, InstallStep::Reinstall));
    let done = install_fallback_step(
        &InstallPhase::Reinstalled(output("first  \n", "err1"), output("Success", "")),
        "app.apk",
        "com.example",
    );
    match done {
        InstallStep::Done(outcome) => {
            assert!(outcome.uninstalled_existing_package);
            assert_eq!(outcome.install_stdout, "first\n[uninstall-before-reinstall]\nSuccess");
        }
        step => panic!("unexpected step {step:?}"),
    }
}

#[test]
fn single_file_match_needs_exactly_one() {
    assert_eq!(
        single_file_match(vec!["/b/app.apk".to_string()], "app.apk", "/b").unwrap(),
        "/b/app.apk"
    );
    assert_eq!(
        single_file_match(Vec::new(), "app.apk", "/b").unwrap_err().message,
        "expected exactly one app.apk under /b, found 0"
    );
}

#[test]
fn small_helpers_give_exact_values() {
    assert_eq!(
        filename_or_timestamp(Some("shot".to_string()), "screenshot", "png", 5, 6),
        "shot.png"
    );
    assert_eq!(
        filename_or_timestamp(None, "screenshot", "png", 5, 6),
        "screenshot-5-6.png"
    );
    assert!(is_running_ini("/run/user/1000/avd/running/pid_4242.ini"));
    assert!(!is_running_ini("/run/user/1000/avd/running/notes.txt"));
    let merged = merge_command_outputs(output("one  \n", ""), output("two\n", "warn "));
    assert_eq!(merged.stdout, "one\ntwo");
    assert_eq!(merged.stderr, "warn");
    assert_eq!(parse_display_dimensions("1080x2400"), Some((1080, 2400)));
    assert_eq!(parse_display_dimensions("1080 by 2400"), None);
    assert_eq!(step_interval(160, 10), 16);
    assert_eq!(step_interval(0, 1), 1);
    assert_eq!(multi_touch_step_interval(300, 4), 100);
    let touch = touch_with_pressure(10, 20, TOUCH_PRESSURE_DOWN);
    assert_eq!((touch.x, touch.y, touch.identifier), (10, 20, TOUCH_IDENTIFIER));
    assert_eq!(visible_label_key("  Open \n immersive   view "), "Open immersive view");
    let request = LaunchRequest::from_launch_avd_and_wait(&LaunchAvdAndWaitArgs {
        avd_name: " Pixel_8 ".to_string(),
        no_window: true,
        gpu: None,
        grpc_port: Some(8554),
        extra_args: vec!["-wipe-data".to_string()],
        expected_serial: None,
        timeout_secs: None,
    });
    assert_eq!(request.avd_name, "Pixel_8");
    assert_eq!(request.extra_args, vec!["-wipe-data"]);
}

#[test]
fn clock_based_budgets_stay_within_the_deadline() {
    assert!(fast_ui_fingerprint_deadline(0) == 0);
    let error = require_remaining_budget(0, "UI hierarchy stream").unwrap_err();
    assert_eq!(
        error.message,
        "UI hierarchy stream timed out before the next verification step could begin"
    );
}
