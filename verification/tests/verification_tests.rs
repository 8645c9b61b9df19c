use android_computer_use_mcp::dumpsys::AndroidWindowState;
use android_computer_use_mcp::ui::NormalizedUiNode;
use android_computer_use_mcp::verification::{
    ToolPostconditionEvidenceSource, TextVerificationStatus, activity_matches,
    component_activity_identity, infer_unique_package_name, should_refresh_semantic_observation,
    should_refresh_tool_postcondition_observation, text_verification_is_confirmed,
    window_state_postcondition_matches,
};

fn node_with_package(package_name: Option<&str>) -> NormalizedUiNode {
    NormalizedUiNode {
        class_name: None,
        package_name: package_name.map(ToOwned::to_owned),
        text: None,
        semantic_label: None,
        content_desc: None,
        resource_id: None,
        clickable: false,
        focusable: false,
        enabled: true,
        selected: false,
        checked: false,
        focused: false,
        scrollable: false,
        long_clickable: false,
        bounds: None,
        center: None,
    }
}

#[test]
fn semantic_observation_refreshes_on_first_fast_poll() {
    assert!(should_refresh_semantic_observation(
        None,
        Some("fingerprint-a"),
        false,
        false
    ));
}

#[test]
fn semantic_observation_skips_redundant_full_capture_when_fast_fingerprint_is_unchanged() {
    assert!(!should_refresh_semantic_observation(
        Some("fingerprint-a"),
        Some("fingerprint-a"),
        false,
        false
    ));
}

#[test]
fn semantic_observation_forces_follow_up_capture_after_satisfied_semantic_poll() {
    assert!(should_refresh_semantic_observation(
        Some("fingerprint-a"),
        Some("fingerprint-a"),
        true,
        false
    ));
}

#[test]
fn semantic_observation_refreshes_on_fast_fingerprint_change_or_final_poll() {
    assert!(should_refresh_semantic_observation(
        Some("fingerprint-a"),
        Some("fingerprint-b"),
        false,
        false
    ));
    assert!(should_refresh_semantic_observation(
        Some("fingerprint-a"),
        Some("fingerprint-a"),
        false,
        true
    ));
}

#[test]
fn tool_postcondition_observation_skips_redundant_selector_only_semantic_capture() {
    assert!(!should_refresh_tool_postcondition_observation(
        Some("fingerprint-a"),
        Some("fingerprint-a"),
        true,
        false
    ));
    assert!(should_refresh_tool_postcondition_observation(
        Some("fingerprint-a"),
        Some("fingerprint-b"),
        true,
        false
    ));
}

#[test]
fn tool_postcondition_observation_never_skips_non_selector_only_polls() {
    assert!(should_refresh_tool_postcondition_observation(
        Some("fingerprint-a"),
        Some("fingerprint-a"),
        false,
        false
    ));
}

#[test]
fn text_verification_confirmation_accepts_exact_match_without_second_poll() {
    let status = TextVerificationStatus {
        target_present: Some(true),
        post_present: None,
        pre_post_present: None,
        target_text_matches_requested: Some(true),
        ui_changed_from_pre_text: Some(true),
        satisfied: true,
    };

    assert!(text_verification_is_confirmed(&status, 1, 2, false));
}

#[test]
fn text_verification_confirmation_still_requires_extra_poll_without_exact_match() {
    let status = TextVerificationStatus {
        target_present: Some(true),
        post_present: None,
        pre_post_present: None,
        target_text_matches_requested: Some(false),
        ui_changed_from_pre_text: Some(true),
        satisfied: true,
    };

    assert!(!text_verification_is_confirmed(&status, 1, 2, false));
    assert!(text_verification_is_confirmed(&status, 2, 2, false));
}

#[test]
fn infer_unique_package_name_returns_single_non_empty_package() {
    let nodes = vec![
        node_with_package(Some("com.example.app")),
        node_with_package(Some("com.example.app")),
        node_with_package(None),
    ];

    assert_eq!(
        infer_unique_package_name(&nodes),
        Some("com.example.app".to_string())
    );
}

#[test]
fn infer_unique_package_name_returns_none_for_mixed_or_missing_packages() {
    let mixed = vec![
        node_with_package(Some("com.example.app")),
        node_with_package(Some("com.other.app")),
    ];
    let missing = vec![node_with_package(None), node_with_package(Some(" "))];

    assert_eq!(infer_unique_package_name(&mixed), None);
    assert_eq!(infer_unique_package_name(&missing), None);
}

#[test]
fn component_activity_identity_normalizes_short_component_form() {
    assert_eq!(
        component_activity_identity("com.sednalabs.solarlab/.MainActivity"),
        Some("com.sednalabs.solarlab.MainActivity".to_string())
    );
    assert_eq!(
        component_activity_identity(
            "com.sednalabs.solarlab/com.sednalabs.solarlab.MainActivity"
        ),
        Some("com.sednalabs.solarlab.MainActivity".to_string())
    );
}

#[test]
fn activity_match_accepts_equivalent_component_formats() {
    assert!(activity_matches(
        "com.sednalabs.solarlab/.MainActivity",
        "com.sednalabs.solarlab.MainActivity"
    ));
    assert!(activity_matches(
        "com.sednalabs.solarlab/com.sednalabs.solarlab.MainActivity",
        "com.sednalabs.solarlab.MainActivity"
    ));
    assert!(!activity_matches(
        "com.sednalabs.solarlab/.SearchActivity",
        "com.sednalabs.solarlab.MainActivity"
    ));
}

#[test]
fn window_state_postcondition_accepts_matching_resumed_activity_and_package() {
    let window_state = AndroidWindowState {
        current_focus: Some("com.sednalabs.solarlab/.MainActivity".to_string()),
        focused_app: Some("com.sednalabs.solarlab/.MainActivity".to_string()),
        resumed_activity: Some("com.sednalabs.solarlab/.MainActivity".to_string()),
        input_method_visible: false,
        input_method_target: None,
    };

    let (activity, package, satisfied) = window_state_postcondition_matches(
        &window_state,
        Some(".MainActivity"),
        Some("com.sednalabs.solarlab"),
    );

    assert!(satisfied);
    assert_eq!(activity.as_deref(), Some("com.sednalabs.solarlab/.MainActivity"));
    assert_eq!(package.as_deref(), Some("com.sednalabs.solarlab"));
}

#[test]
fn window_state_postcondition_rejects_a_wrong_resumed_package() {
    let window_state = AndroidWindowState {
        current_focus: Some("com.android.settings/.Settings".to_string()),
        focused_app: Some("com.android.settings/.Settings".to_string()),
        resumed_activity: Some("com.android.settings/.Settings".to_string()),
        input_method_visible: false,
        input_method_target: None,
    };

    let (_, package, satisfied) = window_state_postcondition_matches(
        &window_state,
        None,
        Some("com.sednalabs.solarlab"),
    );

    assert!(!satisfied);
    assert_eq!(package.as_deref(), Some("com.android.settings"));

    let missing_window_state = AndroidWindowState {
        current_focus: None,
        focused_app: None,
        resumed_activity: None,
        input_method_visible: false,
        input_method_target: None,
    };
    let (_, package, satisfied) = window_state_postcondition_matches(
        &missing_window_state,
        None,
        Some("com.sednalabs.solarlab"),
    );
    assert!(!satisfied);
    assert_eq!(package, None);
}

#[test]
fn launch_postcondition_uses_hierarchy_only_for_selector_proof() {
    assert_eq!(
        ToolPostconditionEvidenceSource::for_launch(false),
        ToolPostconditionEvidenceSource::WindowState
    );
    assert_eq!(
        ToolPostconditionEvidenceSource::for_launch(true),
        ToolPostconditionEvidenceSource::UiHierarchy
    );
}
