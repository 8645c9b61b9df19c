use android_computer_use_mcp::actions::{
    tap_element_blocked_error, tap_element_outcome, tap_element_selection_error,
};
use android_computer_use_mcp::adb::{display_size_from_output, CommandOutput};
use android_computer_use_mcp::args::{require_avd_name, LaunchRequest};
use android_computer_use_mcp::error::{ErrorKind, McpError};
use android_computer_use_mcp::polling::{stream_attempt_step, stream_final_error, StreamAttemptStep};
use android_computer_use_mcp::target::{new_emulator_serial_timeout_error, reconcile_target_serial};
use android_computer_use_mcp::ui::UiSelector;
use android_computer_use_mcp::verification::TapVerification;
use android_computer_use_mcp::window_views::visible_window_fingerprint;

fn tap_verification(requested: bool, satisfied: bool) -> TapVerification {
    TapVerification {
        requested,
        wait_until_absent: false,
        wait_for_selector: None,
        satisfied,
        stabilized: false,
        stable_polls_observed: 0,
        stable_polls_required: 2,
        timed_out: !satisfied,
        elapsed_ms: 0,
        hierarchy_path: None,
        tapped_selector_present_pre_tap: None,
        post_selector_matched_pre_tap: None,
        tapped_selector_still_present: None,
        post_selector_matched: None,
        ui_changed_from_pre_tap: None,
    }
}

#[test]
fn target_and_hint_serials_must_agree() {
    let error = reconcile_target_serial(Some("emulator-5554"), Some(" emulator-5556 ")).unwrap_err();
    assert_eq!(error.kind, ErrorKind::InvalidParams);
    assert_eq!(
        error.message,
        "target.device_serial and serial must match when both are supplied"
    );
    assert_eq!(
        reconcile_target_serial(Some(" emulator-5554 "), Some("emulator-5554")).unwrap().as_deref(),
        Some("emulator-5554")
    );
    assert_eq!(
        reconcile_target_serial(Some("  "), Some("R58M123")).unwrap().as_deref(),
        Some("R58M123")
    );
    assert_eq!(reconcile_target_serial(None, Some(" ")).unwrap(), None);
}

#[test]
fn new_serial_timeout_names_the_expectation() {
    assert_eq!(
        new_emulator_serial_timeout_error(Some("emulator-5556"), 90_000).message,
        "did not observe expected emulator serial emulator-5556 within 90s"
    );
    assert_eq!(
        new_emulator_serial_timeout_error(None, 2_500).message,
        "did not observe a newly launched emulator serial within 2.5s"
    );
}

#[test]
fn display_size_error_quotes_the_output() {
    assert_eq!(
        display_size_from_output("Physical size: 1080x2400\n").unwrap(),
        (1080, 2400)
    );
    let error = display_size_from_output("  no display  \n").unwrap_err();
    assert_eq!(error.kind, ErrorKind::InternalError);
    assert_eq!(error.message, "failed to parse display size from `wm size`: no display");
}

#[test]
fn avd_name_must_not_be_blank() {
    let request = |name: &str| LaunchRequest {
        avd_name: name.to_string(),
        no_window: false,
        gpu: None,
        grpc_port: None,
        extra_args: Vec::new(),
    };
    assert!(require_avd_name(&request("Pixel_8")).is_ok());
    assert_eq!(
        require_avd_name(&request("   ")).unwrap_err().message,
        "avd_name must not be empty"
    );
}

#[test]
fn stream_attempts_keep_hierarchy_or_remember_failure() {
    let captured = stream_attempt_step(Ok(CommandOutput {
        stdout: "noise<?xml version='1.0'?><hierarchy rotation=\"0\"></hierarchy>".to_string(),
        stderr: String::new(),
    }));
    match captured {
        StreamAttemptStep::Captured(xml) => assert!(xml.starts_with("<?xml")),
        other => panic!("unexpected step {other:?}"),
    }
    let empty = stream_attempt_step(Ok(CommandOutput {
        stdout: "UI hierchary dumped".to_string(),
        stderr: String::new(),
    }));
    match empty {
        StreamAttemptStep::Retryable(error) => assert_eq!(
            error.message,
            "UI hierarchy stream completed without hierarchy XML"
        ),
        other => panic!("unexpected step {other:?}"),
    }
    let fatal = stream_attempt_step(Err(McpError::internal_error("permission denied".to_string())));
    assert!(matches!(fatal, StreamAttemptStep::Fail(_)));
    assert_eq!(
        stream_final_error(None).message,
        "UI hierarchy stream failed without a captured adb error"
    );
    assert_eq!(
        stream_final_error(Some(McpError::internal_error("last".to_string()))).message,
        "last"
    );
}

#[test]
fn tap_element_errors_carry_their_reports() {
    assert_eq!(
        tap_element_blocked_error(None).message,
        "android.tap_element blocked by system dialog: system dialog"
    );
    assert_eq!(
        tap_element_blocked_error(Some("{\"kind\":\"anr\"}")).message,
        "android.tap_element blocked by system dialog: {\"kind\":\"anr\"}"
    );
    let selector = UiSelector {
        text: Some("OK".to_string()),
        ..UiSelector::default()
    };
    let message = tap_element_selection_error(&selector, "{\"reason\":\"no_matches\"}").message;
    assert!(message.starts_with("android.tap_element could not resolve selector UiSelector {"));
    assert!(message.contains("text: Some(\"OK\")"));
    assert!(message.ends_with(": {\"reason\":\"no_matches\"}"));
    assert!(tap_element_outcome(&tap_verification(false, false), false, "{}").is_ok());
    assert!(tap_element_outcome(&tap_verification(true, true), false, "{}").is_ok());
    assert!(tap_element_outcome(&tap_verification(true, false), true, "{}").is_ok());
    assert_eq!(
        tap_element_outcome(&tap_verification(true, false), false, "{\"serial\":\"x\"}")
            .unwrap_err()
            .message,
        "android.tap_element verification failed after dispatch: {\"serial\":\"x\"}"
    );
}

#[test]
fn visible_window_fingerprint_prefixes_failures() {
    let error = visible_window_fingerprint(b"not a zip archive", None).unwrap_err();
    assert_eq!(error.kind, ErrorKind::InternalError);
    assert!(error
        .message
        .starts_with("failed to normalize visible-window dump fingerprint: failed to open visible-window dump zip: "));
}
