use android_computer_use_mcp::actions::{wait_for_ui_element_step, WaitElementStep};
use android_computer_use_mcp::artifact::{guess_artifact_mime_type, normalize_artifact_name};
use android_computer_use_mcp::device::parse_launcher_package_names;
use android_computer_use_mcp::dialog::labels_from_nodes;
use android_computer_use_mcp::error::ErrorKind;
use android_computer_use_mcp::polling::{
    scroll_until_visible_step, stable_ui_result, tap_verification_result, text_verification_result,
    DialogCheck, ScrollStep, StabilityCounter, StableCaptureStep, StableFastStep, StableUiPollState,
    VerificationPollState, REQUIRED_STABLE_POLLS,
};
use android_computer_use_mcp::semantic::normalize_solarlab_semantic_ack_token;
use android_computer_use_mcp::session::{chrono_like_iso, timestamp_slug};
use android_computer_use_mcp::tool_surface::tool_surface_entries;
use android_computer_use_mcp::ui::{
    is_nested_duplicate_visible_label, ui_nodes_for_tool_output, NormalizedUiNode, SelectionFailure,
    UiBounds, UiSelector,
};
use android_computer_use_mcp::verification::{TapVerificationStatus, TextVerificationStatus};

fn node(text: Option<&str>, clickable: bool, bounds: UiBounds) -> NormalizedUiNode {
    NormalizedUiNode {
        class_name: Some("android.widget.TextView".to_string()),
        package_name: Some("com.example".to_string()),
        text: text.map(ToOwned::to_owned),
        semantic_label: None,
        content_desc: None,
        resource_id: None,
        clickable,
        focusable: false,
        enabled: true,
        selected: false,
        checked: false,
        focused: false,
        scrollable: false,
        long_clickable: false,
        bounds: Some(bounds),
        center: None,
    }
}

fn row() -> UiBounds {
    UiBounds { left: 0, top: 0, right: 300, bottom: 80 }
}

fn button(text: &str) -> NormalizedUiNode {
    node(Some(text), true, row())
}

fn text_selector(text: &str) -> UiSelector {
    UiSelector { text: Some(text.to_string()), ..UiSelector::default() }
}

fn tap_status(satisfied: bool) -> TapVerificationStatus {
    TapVerificationStatus {
        tapped_present: !satisfied,
        post_present: Some(satisfied),
        pre_post_present: Some(false),
        ui_changed_from_pre_tap: Some(true),
        satisfied,
    }
}

#[test]
fn repeated_fingerprints_count_consecutive_polls() {
    let mut counter = StabilityCounter::new();
    for expected in 1..=4u32 {
        counter.observe("same".to_string());
        assert_eq!(counter.stable_polls, expected);
        assert_eq!(counter.last.as_deref(), Some("same"));
    }
    counter.observe("other".to_string());
    assert_eq!(counter.stable_polls, 1);
    assert_eq!(counter.last.as_deref(), Some("other"));
}

#[test]
fn tap_observations_record_fingerprints_and_force_followups() {
    let mut state = VerificationPollState::new();
    state.after_fast_fingerprint(Some("fast".to_string()), false);
    state.after_tap_observation("ui-a".to_string(), &tap_status(true), false);
    assert_eq!(state.stability.last.as_deref(), Some("ui-a"));
    assert_eq!(state.stability.stable_polls, 1);
    assert_eq!(state.satisfied_polls_observed, 1);
    assert!(state.force_followup_semantic_capture);
    assert_eq!(state.last_fast_fingerprint.as_deref(), Some("fast"));
    assert_eq!(state.use_fast_fingerprint_backend, Some(true));

    state.after_tap_observation("ui-a".to_string(), &tap_status(true), false);
    assert_eq!(state.stability.stable_polls, 2);
    assert_eq!(state.satisfied_polls_observed, 2);
    assert!(!state.force_followup_semantic_capture);

    state.after_tap_observation("ui-b".to_string(), &tap_status(false), false);
    assert_eq!(state.stability.last.as_deref(), Some("ui-b"));
    assert_eq!(state.stability.stable_polls, 1);
    assert_eq!(state.satisfied_polls_observed, 0);
    assert!(!state.force_followup_semantic_capture);
    assert_eq!(state.last_fast_fingerprint.as_deref(), Some("fast"));
}

#[test]
fn text_observations_record_fingerprints_and_force_followups() {
    let status = TextVerificationStatus {
        target_present: Some(true),
        post_present: None,
        pre_post_present: None,
        target_text_matches_requested: None,
        ui_changed_from_pre_text: Some(true),
        satisfied: true,
    };
    let mut state = VerificationPollState::new();
    state.after_text_observation("t".to_string(), &status, false);
    assert_eq!(state.stability.last.as_deref(), Some("t"));
    assert_eq!(state.stability.stable_polls, 1);
    assert!(state.force_followup_semantic_capture);
    assert!(state.last_fast_fingerprint.is_none());
    assert!(state.use_fast_fingerprint_backend.is_none());
}

#[test]
fn stable_wait_counts_fast_fingerprints_and_keeps_the_full_counter() {
    let mut state = StableUiPollState::new();
    assert_eq!(state.after_fast_fingerprint(Some("f".to_string()), 2, false), StableFastStep::Sleep);
    assert_eq!(state.fast.last.as_deref(), Some("f"));
    assert_eq!(state.fast.stable_polls, 1);
    assert_eq!(state.stable_polls, 1);
    assert!(state.full.last.is_none());
    assert_eq!(state.after_fast_fingerprint(Some("f".to_string()), 2, false), StableFastStep::Capture);
    assert_eq!(state.fast.stable_polls, 2);
    assert_eq!(state.stable_polls, 2);
    assert_eq!(state.after_capture("full".to_string(), 2, false), StableCaptureStep::Stop);
    assert!(state.full.last.is_none());
    assert_eq!(state.full.stable_polls, 0);
    assert_eq!(state.fast.last.as_deref(), Some("f"));
    assert_eq!(state.fast.stable_polls, 2);
    assert_eq!(state.stable_polls, 2);
}

#[test]
fn stable_wait_falls_back_to_full_captures_when_fast_fails() {
    let mut state = StableUiPollState::new();
    assert_eq!(state.after_fast_fingerprint(Some("f".to_string()), 3, false), StableFastStep::Sleep);
    assert_eq!(state.after_fast_fingerprint(None, 3, false), StableFastStep::Capture);
    assert_eq!(state.use_fast_stability_backend, Some(false));
    assert_eq!(state.fast.stable_polls, 1);
    assert_eq!(state.stable_polls, 1);
    assert_eq!(state.after_capture("u".to_string(), 3, false), StableCaptureStep::Sleep);
    assert_eq!(state.full.last.as_deref(), Some("u"));
    assert_eq!(state.stable_polls, 1);
    assert_eq!(state.after_capture("u".to_string(), 3, false), StableCaptureStep::Sleep);
    assert_eq!(state.after_capture("u".to_string(), 3, false), StableCaptureStep::Stop);
    assert_eq!(state.stable_polls, 3);
    assert_eq!(state.fast.last.as_deref(), Some("f"));
}

#[test]
fn stable_wait_result_reports_stability_or_the_missing_capture() {
    let mut state = StableUiPollState::new();
    state.stable_polls = 2;
    let done = stable_ui_result(&state, 2, true, 750).unwrap();
    assert!(done.stabilized && !done.timed_out);
    assert_eq!(done.elapsed_ms, 750);
    assert_eq!(done.stable_polls_observed, 2);
    assert_eq!(done.stable_polls_required, 2);
    state.stable_polls = 1;
    let late = stable_ui_result(&state, 2, true, 900).unwrap();
    assert!(!late.stabilized && late.timed_out);
    let err = stable_ui_result(&state, 2, false, 900).unwrap_err();
    assert_eq!(err.kind, ErrorKind::InternalError);
    assert_eq!(
        err.message,
        "android.wait_for_stable_ui timed out before a UI observation could be captured"
    );
}

#[test]
fn tap_result_reports_the_last_poll() {
    let mut state = VerificationPollState::new();
    state.stability.stable_polls = REQUIRED_STABLE_POLLS;
    let confirmed = tap_verification_result(
        &state,
        true,
        true,
        Some(text_selector("Next")),
        1200,
        Some("ui.xml".to_string()),
        true,
        Some(false),
        Some(tap_status(true)),
    );
    assert!(confirmed.requested && confirmed.satisfied && confirmed.stabilized && !confirmed.timed_out);
    assert_eq!(confirmed.stable_polls_observed, 2);
    assert_eq!(confirmed.stable_polls_required, 2);
    assert_eq!(confirmed.elapsed_ms, 1200);
    assert_eq!(confirmed.tapped_selector_present_pre_tap, Some(true));
    assert_eq!(confirmed.post_selector_matched_pre_tap, Some(false));
    assert_eq!(confirmed.tapped_selector_still_present, Some(false));
    assert_eq!(confirmed.post_selector_matched, Some(true));
    assert_eq!(confirmed.ui_changed_from_pre_tap, Some(true));
    assert_eq!(confirmed.wait_for_selector, Some(text_selector("Next")));

    state.stability.stable_polls = 1;
    let unstable = tap_verification_result(&state, true, false, None, 10, None, true, None, Some(tap_status(true)));
    assert!(unstable.satisfied && !unstable.stabilized);

    let timed_out = tap_verification_result(&state, false, false, None, 5000, None, true, None, None);
    assert!(!timed_out.satisfied && timed_out.timed_out && !timed_out.stabilized);
    assert_eq!(timed_out.tapped_selector_still_present, None);
    assert_eq!(timed_out.post_selector_matched, None);
    assert_eq!(timed_out.ui_changed_from_pre_tap, Some(false));
}

#[test]
fn text_result_prefers_the_public_target() {
    let mut state = VerificationPollState::new();
    state.stability.stable_polls = 3;
    let status = TextVerificationStatus {
        target_present: Some(true),
        post_present: Some(true),
        pre_post_present: Some(false),
        target_text_matches_requested: Some(true),
        ui_changed_from_pre_text: Some(true),
        satisfied: true,
    };
    let shown = text_verification_result(
        &state,
        true,
        Some(text_selector("Search")),
        Some(text_selector("internal")),
        None,
        40,
        None,
        Some(true),
        Some(false),
        Some(status),
    );
    assert_eq!(shown.target_selector, Some(text_selector("Search")));
    assert!(shown.satisfied && shown.stabilized && !shown.timed_out);
    assert_eq!(shown.stable_polls_observed, 3);
    assert_eq!(shown.target_text_matches_requested, Some(true));
    assert_eq!(shown.target_selector_still_present, Some(true));
    assert_eq!(shown.target_selector_present_pre_text, Some(true));
    let internal = text_verification_result(
        &state, false, None, Some(text_selector("internal")), None, 40, None, None, None, None,
    );
    assert_eq!(internal.target_selector, Some(text_selector("internal")));
    assert!(internal.timed_out && !internal.stabilized);
    assert_eq!(internal.ui_changed_from_pre_text, Some(false));
    assert_eq!(internal.target_text_matches_requested, None);
}

#[test]
fn unresolved_waits_carry_the_matches() {
    let nodes = vec![button("Save"), button("Save")];
    let selector = text_selector("Save");
    match wait_for_ui_element_step(DialogCheck::Clear, &nodes, &selector, None, false) {
        WaitElementStep::Unresolved(SelectionFailure::Ambiguous { match_count, candidates }) => {
            assert_eq!(match_count, 2);
            assert_eq!(candidates.len(), 2);
        }
        other => panic!("unexpected step {other:?}"),
    }
    match wait_for_ui_element_step(DialogCheck::Clear, &nodes, &selector, Some(5), false) {
        WaitElementStep::Unresolved(SelectionFailure::MatchIndexOutOfRange {
            requested_match_index,
            match_count,
            candidates,
        }) => {
            assert_eq!(requested_match_index, 5);
            assert_eq!(match_count, 2);
            assert_eq!(candidates.len(), 2);
        }
        other => panic!("unexpected step {other:?}"),
    }
    match scroll_until_visible_step(0, 3, DialogCheck::Clear, &nodes, &selector, None) {
        ScrollStep::Unresolved(SelectionFailure::Ambiguous { match_count, .. }) => assert_eq!(match_count, 2),
        other => panic!("unexpected step {other:?}"),
    }
    match scroll_until_visible_step(0, 3, DialogCheck::Clear, &nodes, &selector, Some(2)) {
        ScrollStep::Unresolved(SelectionFailure::MatchIndexOutOfRange { requested_match_index, .. }) => {
            assert_eq!(requested_match_index, 2)
        }
        other => panic!("unexpected step {other:?}"),
    }
}

#[test]
fn tool_surface_carries_descriptions() {
    let entries = tool_surface_entries();
    assert_eq!(
        entries[0].description,
        "Report hosted interactive-session configuration, live session root, and active build metadata."
    );
    assert_eq!(
        entries[0].use_when,
        "Use this first when you need to understand the current hosted runner-backed session before switching builds."
    );
    assert!(entries.iter().all(|e| !e.description.is_empty() && !e.use_when.is_empty()));
}

#[test]
fn output_compaction_counts_fields_that_change() {
    let marker = "... [truncated; original_chars=275]";
    let fixed = format!("{}{}", "a".repeat(240), marker);
    assert_eq!(fixed.chars().count(), 275);
    let long = "b".repeat(300);
    let mut first = button("short");
    first.content_desc = Some(fixed.clone());
    let mut second = button("other");
    second.text = Some(long);
    let out = ui_nodes_for_tool_output(&[first.clone()]);
    assert_eq!(out.compacted_text_fields, 0);
    assert_eq!(out.nodes[0].content_desc.as_deref(), Some(fixed.as_str()));
    let both = ui_nodes_for_tool_output(&[first, second]);
    assert_eq!(both.compacted_text_fields, 1);
    assert_eq!(both.text_char_limit, 240);
    let cut = both.nodes[1].text.clone().unwrap();
    assert_eq!(cut, format!("{}... [truncated; original_chars=300]", "b".repeat(240)));
}

#[test]
fn dialog_labels_have_no_case_duplicates() {
    let mut a = button("OK");
    a.content_desc = Some("ok".to_string());
    let b = button("  Cancel ");
    let mut c = button("cancel");
    c.semantic_label = Some("Allow".to_string());
    let labels = labels_from_nodes(&[a, b, c]);
    assert_eq!(labels, vec!["OK".to_string(), "Cancel".to_string(), "Allow".to_string()]);
}

#[test]
fn launcher_packages_are_listed_once() {
    let names = parse_launcher_package_names(
        "  packageName=com.b\npackageName=com.a\npackageName=com.b\npackageName=\npackageName=com.a\n",
    );
    assert_eq!(names, vec!["com.b".to_string(), "com.a".to_string()]);
}

#[test]
fn ack_tokens_are_lowercase_words_joined_by_single_dashes() {
    for raw in ["__Alpha--Beta//Gamma__", "  x  ", "Comet / Halley", "-", "ÄÖ 12"] {
        let token = normalize_solarlab_semantic_ack_token(raw);
        assert!(token.chars().all(|c| c.is_ascii_lowercase() || c.is_ascii_digit() || c == '-'));
        assert!(!token.starts_with('-') && !token.ends_with('-') && !token.contains("--"));
        assert_eq!(normalize_solarlab_semantic_ack_token(&token), token);
    }
}

#[test]
fn timestamp_slug_drops_dashes_and_colons() {
    assert_eq!(timestamp_slug(1_714_566_896).as_deref(), Some("20240501T123456Z"));
    assert_eq!(timestamp_slug(-62_167_219_200).as_deref(), Some("00000101T000000Z"));
    assert_eq!(timestamp_slug(253_402_300_799).as_deref(), Some("99991231T235959Z"));
    assert_eq!(chrono_like_iso(0).as_deref(), Some("1970-01-01T00:00:00Z"));
}

#[test]
fn nested_labels_repeat_an_enclosing_button() {
    let inner = node(Some("Save"), false, UiBounds { left: 10, top: 10, right: 100, bottom: 50 });
    let outer = button(" Save ");
    assert!(is_nested_duplicate_visible_label(&inner, inner.bounds.unwrap(), "Save", &[outer.clone()]));
    let other = button("Cancel");
    assert!(!is_nested_duplicate_visible_label(&inner, inner.bounds.unwrap(), "Save", &[other]));
    assert!(!is_nested_duplicate_visible_label(&outer, row(), "Save", &[outer.clone()]));
}

#[test]
fn extensions_follow_the_last_dot_of_the_file_name() {
    assert_eq!(normalize_artifact_name(" shot ", Some(".png")).as_deref(), Some("shot.png"));
    assert_eq!(normalize_artifact_name(".hidden", Some("png")).as_deref(), Some(".hidden.png"));
    assert_eq!(normalize_artifact_name("photo.jpg", Some("png")).as_deref(), Some("photo.jpg"));
    assert_eq!(guess_artifact_mime_type("dumps/archive.tar.json"), "application/json");
    assert_eq!(guess_artifact_mime_type("dumps/.png"), "application/octet-stream");
    assert_eq!(guess_artifact_mime_type("dumps.png/readme"), "application/octet-stream");
}
