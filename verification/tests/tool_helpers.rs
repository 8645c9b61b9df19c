use android_computer_use_mcp::adb::{
    ReplacementTextDispatchPlan, command_failure_message, escape_adb_text, extract_uiautomator_hierarchy_xml,
    fallback_clear_delete_count, is_deadline_limited_observation_timeout,
    is_exec_out_uiautomator_supported_failure, merge_dispatch_detail,
    node_matches_requested_text, normalize_safe_android_url, parse_display_size,
    replacement_text_dispatch_plan, sanitize_filename, shell_quote, should_retry_tap_with_adb,
    should_retry_text_with_adb, should_retry_ui_dump_pull, ui_dump_shell_stream_script,
    ui_hierarchy_capture_error, ui_observation_fingerprint,
};
use android_computer_use_mcp::artifact::{
    ArtifactReadEncoding, guess_artifact_mime_type, normalize_artifact_name,
    normalize_artifact_read_encoding,
};
use android_computer_use_mcp::deadline::{
    bounded_deadline, has_meaningful_fast_ui_fingerprint_budget,
    has_meaningful_observation_budget, has_meaningful_text_fallback_budget,
    initial_text_verification_deadline, now_ms, remaining_until, reserved_fallback_deadline,
};
use android_computer_use_mcp::device::{
    MultiTouchPointer, ScrollDirection, normalize_android_package_name,
    normalize_scroll_direction, orientation_name_from_rotation, parse_launcher_package_names,
    parse_pm_package_names, rotation_for_orientation, should_isolate_emulator_launch,
    swipe_points_for_direction, validate_multi_touch_request,
};
use android_computer_use_mcp::dialog::{
    SystemDialogReport, classify_system_dialog, system_dialog_action_matches_selector,
};
use android_computer_use_mcp::dumpsys::{AndroidWindowState, parse_android_window_state};
use android_computer_use_mcp::error::McpError;
use android_computer_use_mcp::semantic::{
    SolarLabSemanticCommand, matcher_for_action, normalize_solarlab_semantic_ack_token,
    solarlab_semantic_ack_matches, solarlab_semantic_resolved_body_id,
    validate_solarlab_semantic_action,
};
use android_computer_use_mcp::target::{
    AdbDevice, AndroidAppTarget, AndroidExecutionTarget, ProviderExecutionIdentity,
    ResolvedAndroidExecutionTarget, parse_adb_device_line, resolve_android_execution_target,
    resolve_explicit_ready_serial, resolve_serial_from_devices,
    select_emulator_serial_after_launch,
};
use android_computer_use_mcp::ui::{
    NormalizedUiNode, SelectionFailure, UiBounds, UiSelector, actionable_center,
    ensure_selector_not_empty, focus_verification_target_selector, parse_bounds,
    resolve_node_selection, selector_matches, text_verification_target_selector,
    ui_nodes_for_tool_output, visible_ui_for_tool_output,
};
use android_computer_use_mcp::verification::{
    InternalNodeTracker, TapVerification, TapVerificationStatus, TextVerification,
    ToolPostconditionEvidenceSource, ToolPostconditionResult, derive_observed_package,
    ensure_action_outcome_satisfied, ensure_tool_postcondition_satisfied,
    tap_verification_is_confirmed, tap_verification_status, text_verification_status,
    tracker_matches_node,
};
use android_computer_use_mcp::xml::parse_ui_nodes_from_xml;

fn provider_execution_identity() -> ProviderExecutionIdentity {
    ProviderExecutionIdentity {
        environment_id: "environment-1".to_string(),
        provider_instance_id: "provider-1".to_string(),
        session_id: "session-1".to_string(),
    }
}

fn device(serial: &str, state: &str) -> AdbDevice {
    AdbDevice {
        serial: Some(serial.to_string()),
        state: Some(state.to_string()),
        extra: Vec::new(),
    }
}

#[test]
fn resolves_an_exact_target_against_the_configured_provider_tuple() {
    let resolved = resolve_android_execution_target(
        &provider_execution_identity(),
        Some(&AndroidExecutionTarget {
            environment_id: Some("environment-1".to_string()),
            provider_instance_id: Some("provider-1".to_string()),
            session_id: Some("session-1".to_string()),
            device_serial: Some("emulator-5554".to_string()),
            app: Some(AndroidAppTarget {
                package_name: "com.example.app".to_string(),
                activity: Some(".MainActivity".to_string()),
            }),
            expected_build: None,
        }),
        "emulator-5554".to_string(),
        None,
    )
    .expect("exact target should resolve");

    assert_eq!(
        resolved,
        ResolvedAndroidExecutionTarget {
            environment_id: "environment-1".to_string(),
            provider_instance_id: "provider-1".to_string(),
            session_id: "session-1".to_string(),
            device_serial: "emulator-5554".to_string(),
            app: Some(AndroidAppTarget {
                package_name: "com.example.app".to_string(),
                activity: Some(".MainActivity".to_string()),
            }),
        }
    );
}

#[test]
fn rejects_a_target_for_another_live_provider_session() {
    let err = resolve_android_execution_target(
        &provider_execution_identity(),
        Some(&AndroidExecutionTarget {
            session_id: Some("session-old-candidate".to_string()),
            ..Default::default()
        }),
        "emulator-5554".to_string(),
        None,
    )
    .expect_err("stale session target must fail closed");

    assert!(
        err.to_string()
            .contains("target.session_id does not match the resolved provider target")
    );
}

#[test]
fn adb_device_line_is_parsed() {
    let parsed = parse_adb_device_line(
        "emulator-5554 device product:sdk_gphone64_x86_64 model:sdk device:emu64xa transport_id:1",
    )
    .expect("device line should parse");
    assert_eq!(parsed.serial.as_deref(), Some("emulator-5554"));
    assert_eq!(parsed.state.as_deref(), Some("device"));
    assert_eq!(
        parsed
            .extra
            .iter()
            .rev()
            .find(|(key, _)| key == "transport_id")
            .map(|(_, value)| value.as_str()),
        Some("1")
    );
}

#[test]
fn resolve_serial_from_devices_prefers_explicit_serial() {
    let resolved = resolve_serial_from_devices(Some(" emulator-5554 "), &[])
        .expect("explicit serial should be accepted");
    assert_eq!(resolved, "emulator-5554");
}

#[test]
fn explicit_serial_requires_a_ready_connected_device() {
    let resolved = resolve_explicit_ready_serial(
        "emulator-5554",
        &[device("emulator-5554", "device")],
    )
    .expect("ready explicit serial should resolve");
    assert_eq!(resolved, "emulator-5554");

    let err = resolve_explicit_ready_serial(
        "emulator-5554",
        &[device("emulator-5554", "offline")],
    )
    .expect_err("offline explicit serial must not become a resolved target");
    assert!(
        err.to_string()
            .contains("requested Android serial emulator-5554 is not a ready connected device")
    );
}

#[test]
fn resolve_serial_from_devices_accepts_single_ready_device() {
    let resolved = resolve_serial_from_devices(
        None,
        &[device("emulator-5554", "device")],
    )
    .expect("single ready device should be auto-selected");
    assert_eq!(resolved, "emulator-5554");
}

#[test]
fn resolve_serial_from_devices_rejects_when_no_ready_devices_exist() {
    let err = resolve_serial_from_devices(
        None,
        &[device("emulator-5554", "offline")],
    )
    .expect_err("no ready devices should be rejected");
    assert!(
        err.to_string().contains("no ready Android devices found"),
        "unexpected error: {err:?}"
    );
}

#[test]
fn resolve_serial_from_devices_rejects_ambiguous_device_selection() {
    let err = resolve_serial_from_devices(
        None,
        &[
            device("emulator-5554", "device"),
            device("emulator-5556", "device"),
        ],
    )
    .expect_err("multiple ready devices should be rejected");
    let rendered = err.to_string();
    assert!(rendered.contains("multiple ready Android devices found"));
    assert!(rendered.contains("emulator-5554"));
    assert!(rendered.contains("emulator-5556"));
}

#[test]
fn select_emulator_serial_after_launch_prefers_expected_ready_serial() {
    let selected = select_emulator_serial_after_launch(
        &["emulator-5554".to_string()],
        &[device("emulator-5560", "device")],
        Some("emulator-5560"),
    )
    .expect("expected serial selection should succeed");
    assert_eq!(selected.as_deref(), Some("emulator-5560"));
}

#[test]
fn select_emulator_serial_after_launch_detects_single_new_ready_emulator() {
    let selected = select_emulator_serial_after_launch(
        &["emulator-5554".to_string()],
        &[
            device("emulator-5554", "device"),
            device("emulator-5560", "device"),
        ],
        None,
    )
    .expect("newly ready emulator detection should succeed");
    assert_eq!(selected.as_deref(), Some("emulator-5560"));
}

#[test]
fn select_emulator_serial_after_launch_waits_when_no_new_ready_emulator_exists() {
    let selected = select_emulator_serial_after_launch(
        &["emulator-5554".to_string()],
        &[device("emulator-5554", "device")],
        None,
    )
    .expect("no new emulator should not be an error");
    assert_eq!(selected, None);
}

#[test]
fn select_emulator_serial_after_launch_rejects_ambiguous_new_emulators() {
    let err = select_emulator_serial_after_launch(
        &[],
        &[
            device("emulator-5554", "device"),
            device("emulator-5560", "device"),
        ],
        None,
    )
    .expect_err("multiple newly ready emulators should be rejected");
    assert!(
        err.to_string()
            .contains("multiple newly ready emulator devices found after launch")
    );
}

#[test]
fn emulator_launch_is_isolated_when_running_under_systemd_service() {
    assert!(should_isolate_emulator_launch(true));
}

#[test]
fn emulator_launch_is_not_isolated_without_systemd_invocation_context() {
    assert!(!should_isolate_emulator_launch(false));
}

#[test]
fn adb_text_spaces_are_escaped() {
    assert_eq!(escape_adb_text("Earth Focus"), "Earth%sFocus");
}

#[test]
fn parses_ui_bounds() {
    let bounds = parse_bounds("[10,20][110,220]").expect("bounds should parse");
    assert_eq!(bounds.left, 10);
    assert_eq!(bounds.top, 20);
    assert_eq!(bounds.right, 110);
    assert_eq!(bounds.bottom, 220);
    assert_eq!(bounds.center(), (60, 120));
}

#[test]
fn sanitizes_filenames() {
    assert_eq!(
        sanitize_filename("Open immersive view"),
        "open-immersive-view"
    );
}

#[test]
fn compact_ui_nodes_for_output_truncates_large_text_fields_only_in_tool_output() {
    let long_text = "runtime-packet|".repeat(40);
    let xml = format!(
        r#"
        <hierarchy>
          <node text="{long_text}" content-desc="{long_text}" resource-id="com.example:id/status" class="android.widget.TextView" package="com.example" clickable="false" focusable="false" focused="false" scrollable="false" long-clickable="false" enabled="true" selected="false" checked="false" bounds="[0,0][1080,120]" />
        </hierarchy>
    "#
    );
    let nodes = parse_ui_nodes_from_xml(&xml).expect("ui nodes should parse");
    assert_eq!(nodes[0].text.as_deref(), Some(long_text.as_str()));

    let output = ui_nodes_for_tool_output(&nodes);
    let compact_text = output.nodes[0]
        .text
        .as_deref()
        .expect("compact text should remain present");
    assert!(compact_text.starts_with("runtime-packet|runtime-packet|"));
    assert!(compact_text.contains("[truncated; original_chars="));
    assert!(compact_text.len() < long_text.len());
    assert_eq!(nodes[0].text.as_deref(), Some(long_text.as_str()));
    assert_eq!(output.total_count, 1);
    assert_eq!(output.returned_count, 1);
    assert_eq!(output.compacted_text_fields, 3);
    assert_eq!(output.text_char_limit, 240);
}

#[test]
fn visible_ui_output_returns_compact_labels_with_bounds_without_mutating_nodes() {
    let long_text = "runtime packet ".repeat(20);
    let xml = format!(
        r#"
        <hierarchy>
          <node text="" content-desc="" resource-id="" class="android.widget.FrameLayout" package="com.example" clickable="false" focusable="false" focused="false" scrollable="true" long-clickable="false" enabled="true" selected="false" checked="false" bounds="[0,0][1080,2400]">
            <node text="Search" content-desc="Search action" resource-id="com.example:id/search" class="android.widget.Button" package="com.example" clickable="true" focusable="true" focused="false" scrollable="false" long-clickable="false" enabled="true" selected="false" checked="false" bounds="[48,96][240,180]" />
            <node text="{long_text}" content-desc="" resource-id="com.example:id/status" class="android.widget.TextView" package="com.example" clickable="false" focusable="false" focused="false" scrollable="false" long-clickable="false" enabled="true" selected="false" checked="false" bounds="[0,200][1080,260]" />
            <node text="Advance" content-desc="" resource-id="com.example:id/advance" class="android.widget.Button" package="com.example" clickable="true" focusable="true" focused="false" scrollable="false" long-clickable="false" enabled="true" selected="false" checked="false" bounds="[1040,300][1120,360]" />
          </node>
        </hierarchy>
    "#
    );
    let nodes = parse_ui_nodes_from_xml(&xml).expect("ui nodes should parse");

    let visible_ui = visible_ui_for_tool_output(&nodes);

    assert_eq!(visible_ui.total_labeled_count, 3);
    assert_eq!(visible_ui.returned_count, 3);
    assert_eq!(visible_ui.label_char_limit, 96);
    assert_eq!(
        visible_ui.viewport,
        Some(UiBounds {
            left: 0,
            top: 0,
            right: 1080,
            bottom: 2400,
        })
    );
    assert_eq!(visible_ui.clipped_node_count, 1);
    assert_eq!(visible_ui.scrollable_node_count, 1);
    assert_eq!(visible_ui.nodes[0].label, "Search");
    assert_eq!(
        visible_ui.nodes[0].bounds,
        UiBounds {
            left: 48,
            top: 96,
            right: 240,
            bottom: 180,
        }
    );
    assert!(visible_ui.nodes[0].interactive);
    assert!(!visible_ui.nodes[0].scrollable);
    assert!(
        visible_ui.nodes[1]
            .label
            .contains("[truncated; original_chars=")
    );
    assert!(!visible_ui.nodes[1].clipped);
    assert_eq!(visible_ui.nodes[1].visible_fraction_percent, 100);
    assert_eq!(visible_ui.nodes[2].label, "Advance [clipped right 50%]");
    assert!(visible_ui.nodes[2].clipped);
    assert_eq!(visible_ui.nodes[2].clip_edges, vec!["right"]);
    assert_eq!(visible_ui.nodes[2].visible_fraction_percent, 50);
    assert_eq!(nodes[2].text.as_deref(), Some(long_text.trim()));
}

#[test]
fn visible_ui_output_annotates_state_in_digest_labels_without_mutating_nodes() {
    let xml = r#"
        <hierarchy>
          <node text="" content-desc="" resource-id="" class="android.widget.FrameLayout" package="com.example" clickable="false" focusable="false" focused="false" scrollable="false" long-clickable="false" enabled="true" selected="false" checked="false" bounds="[0,0][1080,2400]">
            <node text="Frame" content-desc="" resource-id="com.example:id/frame" class="android.widget.Button" package="com.example" clickable="true" focusable="true" focused="false" scrollable="false" long-clickable="false" enabled="false" selected="false" checked="false" bounds="[48,96][240,180]" />
            <node text="Mission feed" content-desc="" resource-id="com.example:id/feed" class="android.widget.ScrollView" package="com.example" clickable="false" focusable="true" focused="false" scrollable="true" long-clickable="false" enabled="true" selected="false" checked="false" bounds="[48,220][720,900]" />
            <node text="Advance" content-desc="" resource-id="com.example:id/advance" class="android.widget.Button" package="com.example" clickable="true" focusable="true" focused="false" scrollable="false" long-clickable="false" enabled="true" selected="false" checked="false" bounds="[1040,940][1120,1000]" />
          </node>
        </hierarchy>
    "#;
    let nodes = parse_ui_nodes_from_xml(xml).expect("ui nodes should parse");

    let visible_ui = visible_ui_for_tool_output(&nodes);

    assert_eq!(visible_ui.returned_count, 3);
    assert_eq!(visible_ui.nodes[0].label, "Frame [disabled]");
    assert!(!visible_ui.nodes[0].enabled);
    assert_eq!(visible_ui.nodes[1].label, "Mission feed [scrollable]");
    assert!(visible_ui.nodes[1].scrollable);
    assert_eq!(visible_ui.nodes[2].label, "Advance [clipped right 50%]");
    assert!(visible_ui.nodes[2].clipped);
    assert_eq!(
        nodes
            .iter()
            .find(|node| node.resource_id.as_deref() == Some("com.example:id/frame"))
            .and_then(|node| node.text.as_deref()),
        Some("Frame")
    );
    assert_eq!(
        nodes
            .iter()
            .find(|node| node.resource_id.as_deref() == Some("com.example:id/feed"))
            .and_then(|node| node.text.as_deref()),
        Some("Mission feed")
    );
}

#[test]
fn visible_ui_output_suppresses_nested_duplicate_button_text() {
    let xml = r#"
        <hierarchy>
          <node text="" content-desc="" resource-id="" class="android.widget.FrameLayout" package="com.example" clickable="false" focusable="false" focused="false" scrollable="false" long-clickable="false" enabled="true" selected="false" checked="false" bounds="[0,0][1080,2400]">
            <node text="" content-desc="" resource-id="" class="android.widget.Button" package="com.example" clickable="true" focusable="true" focused="false" scrollable="false" long-clickable="false" enabled="true" selected="false" checked="false" bounds="[40,100][220,220]">
              <node text="Pause" content-desc="" resource-id="" class="android.widget.TextView" package="com.example" clickable="false" focusable="false" focused="false" scrollable="false" long-clickable="false" enabled="true" selected="false" checked="false" bounds="[72,136][188,184]" />
            </node>
          </node>
        </hierarchy>
    "#;
    let nodes = parse_ui_nodes_from_xml(xml).expect("ui nodes should parse");

    let visible_ui = visible_ui_for_tool_output(&nodes);

    assert_eq!(visible_ui.total_labeled_count, 1);
    assert_eq!(visible_ui.returned_count, 1);
    assert_eq!(visible_ui.nodes[0].label, "Pause");
    assert!(visible_ui.nodes[0].interactive);
    assert_eq!(
        visible_ui.nodes[0].bounds,
        UiBounds {
            left: 40,
            top: 100,
            right: 220,
            bottom: 220,
        }
    );
}

#[test]
fn visible_ui_output_surfaces_unlabeled_scrollable_regions() {
    let xml = r#"
        <hierarchy>
          <node text="" content-desc="" resource-id="" class="android.widget.FrameLayout" package="com.example" clickable="false" focusable="false" focused="false" scrollable="true" long-clickable="false" enabled="true" selected="false" checked="false" bounds="[0,0][1080,2400]">
            <node text="" content-desc="" resource-id="" class="androidx.recyclerview.widget.RecyclerView" package="com.example" clickable="false" focusable="true" focused="false" scrollable="true" long-clickable="false" enabled="true" selected="false" checked="false" bounds="[60,360][1020,1440]">
              <node text="Earth" content-desc="" resource-id="com.example:id/earth" class="android.widget.TextView" package="com.example" clickable="false" focusable="false" focused="false" scrollable="false" long-clickable="false" enabled="true" selected="false" checked="false" bounds="[96,420][260,480]" />
            </node>
          </node>
        </hierarchy>
    "#;
    let nodes = parse_ui_nodes_from_xml(xml).expect("ui nodes should parse");

    let visible_ui = visible_ui_for_tool_output(&nodes);

    assert_eq!(visible_ui.scrollable_node_count, 2);
    assert_eq!(visible_ui.total_labeled_count, 2);
    assert_eq!(visible_ui.returned_count, 2);
    assert_eq!(visible_ui.nodes[0].label, "Scrollable list");
    assert_eq!(
        visible_ui.nodes[0].bounds,
        UiBounds {
            left: 60,
            top: 360,
            right: 1020,
            bottom: 1440,
        }
    );
    assert!(visible_ui.nodes[0].interactive);
    assert!(visible_ui.nodes[0].scrollable);
    assert_eq!(visible_ui.nodes[1].label, "Earth");
    let root_bounds = UiBounds {
        left: 0,
        top: 0,
        right: 1080,
        bottom: 2400,
    };
    assert!(
        !visible_ui
            .nodes
            .iter()
            .any(|node| node.bounds == root_bounds),
        "root viewport scroll containers should stay hidden"
    );
}

#[test]
fn selector_matches_text_and_resource_id() {
    let node = NormalizedUiNode {
        class_name: Some("android.widget.Button".to_string()),
        package_name: Some("com.example".to_string()),
        text: Some("Earth".to_string()),
        semantic_label: None,
        content_desc: Some("Focus Earth".to_string()),
        resource_id: Some("com.example:id/earth".to_string()),
        clickable: true,
        focusable: true,
        enabled: true,
        selected: false,
        checked: false,
        focused: true,
        scrollable: false,
        long_clickable: true,
        bounds: Some(UiBounds {
            left: 0,
            top: 0,
            right: 100,
            bottom: 40,
        }),
        center: Some((50, 20)),
    };
    assert!(selector_matches(
        &node,
        &UiSelector {
            text: Some("ear".to_string()),
            ..UiSelector::default()
        }
    ));
    assert!(selector_matches(
        &node,
        &UiSelector {
            text: Some("Earth".to_string()),
            text_exact: Some(true),
            ..UiSelector::default()
        }
    ));
    assert!(!selector_matches(
        &node,
        &UiSelector {
            text: Some("Ear".to_string()),
            text_exact: Some(true),
            ..UiSelector::default()
        }
    ));
    assert!(selector_matches(
        &node,
        &UiSelector {
            resource_id: Some("com.example:id/earth".to_string()),
            clickable: Some(true),
            focused: Some(true),
            long_clickable: Some(true),
            ..UiSelector::default()
        }
    ));
    assert!(!selector_matches(
        &node,
        &UiSelector {
            content_desc: Some("Mars".to_string()),
            ..UiSelector::default()
        }
    ));
}

#[test]
fn selector_matches_focus_and_interaction_state() {
    let node = NormalizedUiNode {
        class_name: Some("android.widget.EditText".to_string()),
        package_name: Some("com.example".to_string()),
        text: Some("Search".to_string()),
        semantic_label: None,
        content_desc: None,
        resource_id: Some("com.example:id/search".to_string()),
        clickable: true,
        focusable: true,
        enabled: true,
        selected: false,
        checked: false,
        focused: true,
        scrollable: false,
        long_clickable: true,
        bounds: Some(UiBounds {
            left: 0,
            top: 0,
            right: 100,
            bottom: 40,
        }),
        center: Some((50, 20)),
    };
    assert!(selector_matches(
        &node,
        &UiSelector {
            focused: Some(true),
            focusable: Some(true),
            long_clickable: Some(true),
            ..UiSelector::default()
        }
    ));
    assert!(!selector_matches(
        &node,
        &UiSelector {
            focusable: Some(false),
            ..UiSelector::default()
        }
    ));
    assert!(!selector_matches(
        &node,
        &UiSelector {
            scrollable: Some(true),
            ..UiSelector::default()
        }
    ));
}

#[test]
fn tap_verification_status_requires_a_real_transition_for_preexisting_follow_up_selector() {
    let wait_button = NormalizedUiNode {
        class_name: Some("android.widget.Button".to_string()),
        package_name: Some("android".to_string()),
        text: Some("Wait".to_string()),
        semantic_label: None,
        content_desc: None,
        resource_id: Some("android:id/aerr_wait".to_string()),
        clickable: true,
        focusable: true,
        enabled: true,
        selected: false,
        checked: false,
        focused: false,
        scrollable: false,
        long_clickable: false,
        bounds: Some(UiBounds {
            left: 0,
            top: 0,
            right: 100,
            bottom: 40,
        }),
        center: Some((50, 20)),
    };
    let search_button = NormalizedUiNode {
        class_name: Some("android.widget.Button".to_string()),
        package_name: Some("com.sednalabs.solarlab".to_string()),
        text: Some("Search".to_string()),
        semantic_label: None,
        content_desc: None,
        resource_id: Some("com.sednalabs.solarlab:id/search".to_string()),
        clickable: true,
        focusable: true,
        enabled: true,
        selected: false,
        checked: false,
        focused: false,
        scrollable: false,
        long_clickable: false,
        bounds: Some(UiBounds {
            left: 100,
            top: 100,
            right: 240,
            bottom: 160,
        }),
        center: Some((170, 130)),
    };
    let tapped_selector = UiSelector {
        resource_id: Some("android:id/aerr_wait".to_string()),
        clickable: Some(true),
        ..UiSelector::default()
    };
    let follow_up_selector = UiSelector {
        text: Some("Search".to_string()),
        clickable: Some(true),
        ..UiSelector::default()
    };

    let status = tap_verification_status(
        std::slice::from_ref(&wait_button),
        std::slice::from_ref(&wait_button),
        &tapped_selector,
        true,
        None,
        Some(&follow_up_selector),
        Some(true),
    );
    assert!(status.tapped_present);
    assert_eq!(status.post_present, Some(false));
    assert!(!status.satisfied);

    let status = tap_verification_status(
        std::slice::from_ref(&wait_button),
        std::slice::from_ref(&search_button),
        &tapped_selector,
        true,
        None,
        Some(&follow_up_selector),
        Some(true),
    );
    assert!(!status.tapped_present);
    assert_eq!(status.post_present, Some(true));
    assert!(status.satisfied);

    let status = tap_verification_status(
        &[wait_button.clone(), search_button.clone()],
        &[wait_button, search_button],
        &tapped_selector,
        false,
        None,
        Some(&follow_up_selector),
        Some(true),
    );
    assert!(status.tapped_present);
    assert_eq!(status.post_present, Some(true));
    assert_eq!(status.pre_post_present, Some(true));
    assert_eq!(status.ui_changed_from_pre_tap, Some(false));
    assert!(!status.satisfied);
}

#[test]
fn tap_verification_status_still_requires_disappearance_when_requested() {
    let wait_button = NormalizedUiNode {
        class_name: Some("android.widget.Button".to_string()),
        package_name: Some("android".to_string()),
        text: Some("Wait".to_string()),
        semantic_label: None,
        content_desc: None,
        resource_id: Some("android:id/aerr_wait".to_string()),
        clickable: true,
        focusable: true,
        enabled: true,
        selected: false,
        checked: false,
        focused: false,
        scrollable: false,
        long_clickable: false,
        bounds: Some(UiBounds {
            left: 0,
            top: 0,
            right: 100,
            bottom: 40,
        }),
        center: Some((50, 20)),
    };
    let search_button = NormalizedUiNode {
        class_name: Some("android.widget.Button".to_string()),
        package_name: Some("com.sednalabs.solarlab".to_string()),
        text: Some("Search".to_string()),
        semantic_label: None,
        content_desc: None,
        resource_id: Some("com.sednalabs.solarlab:id/search".to_string()),
        clickable: true,
        focusable: true,
        enabled: true,
        selected: false,
        checked: false,
        focused: false,
        scrollable: false,
        long_clickable: false,
        bounds: Some(UiBounds {
            left: 100,
            top: 100,
            right: 240,
            bottom: 160,
        }),
        center: Some((170, 130)),
    };
    let tapped_selector = UiSelector {
        resource_id: Some("android:id/aerr_wait".to_string()),
        clickable: Some(true),
        ..UiSelector::default()
    };
    let follow_up_selector = UiSelector {
        text: Some("Search".to_string()),
        clickable: Some(true),
        ..UiSelector::default()
    };

    let status = tap_verification_status(
        &[wait_button.clone(), search_button.clone()],
        &[wait_button, search_button],
        &tapped_selector,
        true,
        None,
        Some(&follow_up_selector),
        Some(true),
    );
    assert!(status.tapped_present);
    assert_eq!(status.post_present, Some(true));
    assert!(!status.satisfied);
}

#[test]
fn tap_verification_status_accepts_preexisting_follow_up_when_ui_changes() {
    let wait_button = NormalizedUiNode {
        class_name: Some("android.widget.Button".to_string()),
        package_name: Some("android".to_string()),
        text: Some("Wait".to_string()),
        semantic_label: None,
        content_desc: None,
        resource_id: Some("android:id/aerr_wait".to_string()),
        clickable: true,
        focusable: true,
        enabled: true,
        selected: false,
        checked: false,
        focused: false,
        scrollable: false,
        long_clickable: false,
        bounds: Some(UiBounds {
            left: 0,
            top: 0,
            right: 100,
            bottom: 40,
        }),
        center: Some((50, 20)),
    };
    let search_button = NormalizedUiNode {
        class_name: Some("android.widget.Button".to_string()),
        package_name: Some("com.sednalabs.solarlab".to_string()),
        text: Some("Search".to_string()),
        semantic_label: None,
        content_desc: None,
        resource_id: Some("com.sednalabs.solarlab:id/search".to_string()),
        clickable: true,
        focusable: true,
        enabled: true,
        selected: false,
        checked: false,
        focused: false,
        scrollable: false,
        long_clickable: false,
        bounds: Some(UiBounds {
            left: 100,
            top: 100,
            right: 240,
            bottom: 160,
        }),
        center: Some((170, 130)),
    };
    let tapped_selector = UiSelector {
        resource_id: Some("android:id/aerr_wait".to_string()),
        clickable: Some(true),
        ..UiSelector::default()
    };
    let follow_up_selector = UiSelector {
        text: Some("Search".to_string()),
        clickable: Some(true),
        ..UiSelector::default()
    };

    let status = tap_verification_status(
        &[wait_button.clone(), search_button.clone()],
        &[
            wait_button,
            NormalizedUiNode {
                selected: true,
                ..search_button
            },
        ],
        &tapped_selector,
        false,
        None,
        Some(&follow_up_selector),
        Some(true),
    );
    assert!(status.tapped_present);
    assert_eq!(status.post_present, Some(true));
    assert_eq!(status.pre_post_present, Some(true));
    assert_eq!(status.ui_changed_from_pre_tap, Some(true));
    assert!(status.satisfied);
}

#[test]
fn tap_verification_status_ignores_unrelated_ui_churn_for_preexisting_follow_up_selector() {
    let refresh_button = NormalizedUiNode {
        class_name: Some("android.widget.Button".to_string()),
        package_name: Some("com.example".to_string()),
        text: Some("Refresh".to_string()),
        semantic_label: None,
        content_desc: None,
        resource_id: Some("com.example:id/refresh".to_string()),
        clickable: true,
        focusable: true,
        enabled: true,
        selected: false,
        checked: false,
        focused: false,
        scrollable: false,
        long_clickable: false,
        bounds: Some(UiBounds {
            left: 0,
            top: 0,
            right: 100,
            bottom: 40,
        }),
        center: Some((50, 20)),
    };
    let list_item = NormalizedUiNode {
        class_name: Some("android.widget.TextView".to_string()),
        package_name: Some("com.example".to_string()),
        text: Some("Earth".to_string()),
        semantic_label: None,
        content_desc: None,
        resource_id: Some("com.example:id/list_item".to_string()),
        clickable: false,
        focusable: false,
        enabled: true,
        selected: false,
        checked: false,
        focused: false,
        scrollable: false,
        long_clickable: false,
        bounds: Some(UiBounds {
            left: 100,
            top: 100,
            right: 240,
            bottom: 160,
        }),
        center: Some((170, 130)),
    };
    let unrelated_clock = NormalizedUiNode {
        class_name: Some("android.widget.TextView".to_string()),
        package_name: Some("com.android.systemui".to_string()),
        text: Some("10:00".to_string()),
        semantic_label: None,
        content_desc: None,
        resource_id: Some("com.android.systemui:id/clock".to_string()),
        clickable: false,
        focusable: false,
        enabled: true,
        selected: false,
        checked: false,
        focused: false,
        scrollable: false,
        long_clickable: false,
        bounds: Some(UiBounds {
            left: 900,
            top: 0,
            right: 1080,
            bottom: 40,
        }),
        center: Some((990, 20)),
    };
    let unrelated_clock_changed = NormalizedUiNode {
        text: Some("10:01".to_string()),
        ..unrelated_clock.clone()
    };
    let tapped_selector = UiSelector {
        resource_id: Some("com.example:id/refresh".to_string()),
        clickable: Some(true),
        ..UiSelector::default()
    };
    let follow_up_selector = UiSelector {
        text: Some("Earth".to_string()),
        ..UiSelector::default()
    };

    let status = tap_verification_status(
        &[refresh_button.clone(), list_item.clone(), unrelated_clock],
        &[refresh_button, list_item, unrelated_clock_changed],
        &tapped_selector,
        false,
        None,
        Some(&follow_up_selector),
        Some(true),
    );
    assert_eq!(status.post_present, Some(true));
    assert_eq!(status.pre_post_present, Some(true));
    assert_eq!(status.ui_changed_from_pre_tap, Some(false));
    assert!(!status.satisfied);
}

#[test]
fn tap_verification_status_accepts_focus_change_for_preexisting_follow_up_selector() {
    let search_field = NormalizedUiNode {
        class_name: Some("android.widget.EditText".to_string()),
        package_name: Some("com.example".to_string()),
        text: Some("Search".to_string()),
        semantic_label: None,
        content_desc: None,
        resource_id: Some("com.example:id/search".to_string()),
        clickable: true,
        focusable: true,
        enabled: true,
        selected: false,
        checked: false,
        focused: false,
        scrollable: false,
        long_clickable: true,
        bounds: Some(UiBounds {
            left: 0,
            top: 0,
            right: 200,
            bottom: 60,
        }),
        center: Some((100, 30)),
    };
    let tapped_selector = UiSelector {
        resource_id: Some("com.example:id/search".to_string()),
        clickable: Some(true),
        ..UiSelector::default()
    };
    let follow_up_selector = UiSelector {
        resource_id: Some("com.example:id/search".to_string()),
        focused: Some(true),
        ..UiSelector::default()
    };

    let status = tap_verification_status(
        std::slice::from_ref(&search_field),
        &[NormalizedUiNode {
            focused: true,
            ..search_field.clone()
        }],
        &tapped_selector,
        false,
        None,
        Some(&follow_up_selector),
        Some(false),
    );
    assert_eq!(status.post_present, Some(true));
    assert_eq!(status.pre_post_present, Some(false));
    assert_eq!(status.ui_changed_from_pre_tap, Some(true));
    assert!(status.satisfied);
}

#[test]
fn tap_verification_status_accepts_focus_change_with_internal_tracker_when_label_drifts() {
    let search_field = NormalizedUiNode {
        class_name: Some("android.widget.EditText".to_string()),
        package_name: Some("com.example".to_string()),
        text: Some("Search by name or id".to_string()),
        semantic_label: Some("Search by name or id".to_string()),
        content_desc: None,
        resource_id: None,
        clickable: true,
        focusable: true,
        enabled: true,
        selected: false,
        checked: false,
        focused: false,
        scrollable: false,
        long_clickable: true,
        bounds: Some(UiBounds {
            left: 183,
            top: 1055,
            right: 897,
            bottom: 1223,
        }),
        center: Some((540, 1139)),
    };
    let focused_typed_field = NormalizedUiNode {
        text: Some("earth".to_string()),
        semantic_label: Some("earth".to_string()),
        focused: true,
        ..search_field.clone()
    };
    let tapped_selector = UiSelector {
        label: Some("Search by name or id".to_string()),
        label_exact: Some(true),
        focusable: Some(true),
        ..UiSelector::default()
    };
    let focus_tracker =
        InternalNodeTracker::from_target_node_with_focus(&search_field, Some(true))
            .expect("tracker");
    let stale_focus_selector = UiSelector {
        focused: Some(true),
        ..tapped_selector.clone()
    };

    let selector_only_status = tap_verification_status(
        std::slice::from_ref(&search_field),
        std::slice::from_ref(&focused_typed_field),
        &tapped_selector,
        false,
        None,
        Some(&stale_focus_selector),
        Some(false),
    );
    let tracker_status = tap_verification_status(
        std::slice::from_ref(&search_field),
        std::slice::from_ref(&focused_typed_field),
        &tapped_selector,
        false,
        Some(&focus_tracker),
        Some(&stale_focus_selector),
        Some(false),
    );

    assert_eq!(selector_only_status.post_present, Some(false));
    assert!(!selector_only_status.satisfied);
    assert_eq!(tracker_status.post_present, Some(true));
    assert_eq!(tracker_status.pre_post_present, Some(false));
    assert_eq!(tracker_status.ui_changed_from_pre_tap, Some(true));
    assert!(tracker_status.satisfied);
}

#[test]
fn tap_verification_confirmation_accepts_repeated_satisfied_polls_without_stability() {
    let status = TapVerificationStatus {
        tapped_present: false,
        post_present: Some(true),
        pre_post_present: Some(false),
        ui_changed_from_pre_tap: Some(true),
        satisfied: true,
    };
    assert!(!tap_verification_is_confirmed(&status, 1, 2, false));
    assert!(tap_verification_is_confirmed(&status, 2, 2, false));
    assert!(tap_verification_is_confirmed(&status, 1, 2, true));
}

#[test]
fn text_verification_requires_change_when_target_and_follow_up_already_match() {
    let search_field = NormalizedUiNode {
        class_name: Some("android.widget.EditText".to_string()),
        package_name: Some("com.example".to_string()),
        text: Some("Search".to_string()),
        semantic_label: Some("Search".to_string()),
        content_desc: None,
        resource_id: Some("com.example:id/search".to_string()),
        clickable: true,
        focusable: true,
        enabled: true,
        selected: false,
        checked: false,
        focused: true,
        scrollable: false,
        long_clickable: true,
        bounds: Some(UiBounds {
            left: 0,
            top: 0,
            right: 200,
            bottom: 60,
        }),
        center: Some((100, 30)),
    };
    let typed_field = NormalizedUiNode {
        text: Some("earth".to_string()),
        semantic_label: Some("earth".to_string()),
        ..search_field.clone()
    };
    let target_selector = UiSelector {
        resource_id: Some("com.example:id/search".to_string()),
        focused: Some(true),
        ..UiSelector::default()
    };
    let wait_for_selector = UiSelector {
        resource_id: Some("com.example:id/search".to_string()),
        focused: Some(true),
        ..UiSelector::default()
    };

    let unchanged = text_verification_status(
        std::slice::from_ref(&search_field),
        std::slice::from_ref(&search_field),
        None,
        Some(&target_selector),
        Some("earth"),
        Some(&wait_for_selector),
    );
    let changed = text_verification_status(
        std::slice::from_ref(&search_field),
        std::slice::from_ref(&typed_field),
        None,
        Some(&target_selector),
        Some("earth"),
        Some(&wait_for_selector),
    );

    assert!(!unchanged.satisfied);
    assert_eq!(unchanged.ui_changed_from_pre_text, Some(false));
    assert!(changed.satisfied);
    assert_eq!(changed.ui_changed_from_pre_text, Some(true));
}

#[test]
fn text_verification_target_selector_tracks_focused_field_after_text_changes() {
    let focused_field = NormalizedUiNode {
        class_name: Some("android.widget.EditText".to_string()),
        package_name: Some("com.example".to_string()),
        text: Some("Search by name or id".to_string()),
        semantic_label: Some("Search by name or id".to_string()),
        content_desc: None,
        resource_id: None,
        clickable: true,
        focusable: true,
        enabled: true,
        selected: false,
        checked: false,
        focused: true,
        scrollable: false,
        long_clickable: true,
        bounds: Some(UiBounds {
            left: 0,
            top: 0,
            right: 200,
            bottom: 60,
        }),
        center: Some((100, 30)),
    };
    let typed_field = NormalizedUiNode {
        text: Some("earth".to_string()),
        semantic_label: Some("earth".to_string()),
        ..focused_field.clone()
    };
    let derived_selector = text_verification_target_selector(&focused_field);

    let status = text_verification_status(
        std::slice::from_ref(&focused_field),
        std::slice::from_ref(&typed_field),
        None,
        Some(&derived_selector),
        Some("earth"),
        None,
    );

    assert_eq!(derived_selector.focused, None);
    assert_eq!(derived_selector.focusable, Some(true));
    assert!(status.satisfied);
    assert_eq!(status.ui_changed_from_pre_text, Some(true));
}

#[test]
fn focus_verification_target_selector_drops_volatile_interaction_flags() {
    let focused_field = NormalizedUiNode {
        class_name: Some("android.widget.EditText".to_string()),
        package_name: Some("com.example".to_string()),
        text: Some("Search by name or id".to_string()),
        semantic_label: Some("Search by name or id".to_string()),
        content_desc: None,
        resource_id: None,
        clickable: true,
        focusable: true,
        enabled: true,
        selected: false,
        checked: false,
        focused: false,
        scrollable: false,
        long_clickable: true,
        bounds: None,
        center: None,
    };

    let derived_selector = focus_verification_target_selector(&focused_field);

    assert_eq!(derived_selector.resource_id, None);
    assert_eq!(derived_selector.focusable, Some(true));
    assert_eq!(derived_selector.focused, Some(true));
    assert_eq!(derived_selector.clickable, None);
    assert_eq!(derived_selector.long_clickable, None);
    assert_eq!(
        derived_selector.text,
        Some("Search by name or id".to_string())
    );
    assert_eq!(derived_selector.content_desc, None);
    assert_eq!(derived_selector.label, None);
}

#[test]
fn text_verification_allows_noop_when_target_already_matches_requested_text() {
    let field = NormalizedUiNode {
        class_name: Some("android.widget.EditText".to_string()),
        package_name: Some("com.example".to_string()),
        text: Some("earth".to_string()),
        semantic_label: Some("earth".to_string()),
        content_desc: None,
        resource_id: None,
        clickable: true,
        focusable: true,
        enabled: true,
        selected: false,
        checked: false,
        focused: false,
        long_clickable: true,
        scrollable: false,
        bounds: None,
        center: None,
    };
    let derived_selector = text_verification_target_selector(&field);

    let status = text_verification_status(
        std::slice::from_ref(&field),
        std::slice::from_ref(&field),
        None,
        Some(&derived_selector),
        Some("earth"),
        None,
    );

    assert!(status.satisfied);
    assert_eq!(status.target_text_matches_requested, Some(true));
    assert_eq!(status.ui_changed_from_pre_text, Some(false));
}

#[test]
fn text_verification_tolerates_focus_loss_after_successful_text_change() {
    let focused_field = NormalizedUiNode {
        class_name: Some("android.widget.EditText".to_string()),
        package_name: Some("com.example".to_string()),
        text: Some("Search by name or id".to_string()),
        semantic_label: Some("Search by name or id".to_string()),
        content_desc: None,
        resource_id: None,
        clickable: true,
        focusable: true,
        enabled: true,
        selected: false,
        checked: false,
        focused: true,
        long_clickable: true,
        scrollable: false,
        bounds: None,
        center: None,
    };
    let unfocused_typed_field = NormalizedUiNode {
        text: Some("earth".to_string()),
        semantic_label: Some("earth".to_string()),
        focused: false,
        ..focused_field.clone()
    };
    let derived_selector = text_verification_target_selector(&focused_field);

    let status = text_verification_status(
        std::slice::from_ref(&focused_field),
        std::slice::from_ref(&unfocused_typed_field),
        None,
        Some(&derived_selector),
        Some("earth"),
        None,
    );

    assert!(status.satisfied);
    assert_eq!(status.target_present, Some(true));
    assert_eq!(status.target_text_matches_requested, Some(true));
}

#[test]
fn internal_node_tracker_matches_by_bounds_when_resource_id_is_missing() {
    let original = NormalizedUiNode {
        class_name: Some("android.widget.EditText".to_string()),
        package_name: Some("com.example".to_string()),
        text: Some("Search by name or id".to_string()),
        semantic_label: Some("Search by name or id".to_string()),
        content_desc: None,
        resource_id: None,
        clickable: true,
        focusable: true,
        enabled: true,
        selected: false,
        checked: false,
        focused: true,
        long_clickable: true,
        scrollable: false,
        bounds: Some(UiBounds {
            left: 10,
            top: 20,
            right: 210,
            bottom: 80,
        }),
        center: Some((110, 50)),
    };
    let tracker = InternalNodeTracker::from_target_node(&original).expect("tracker");
    let typed = NormalizedUiNode {
        text: Some("earth".to_string()),
        semantic_label: Some("earth".to_string()),
        bounds: Some(UiBounds {
            left: 12,
            top: 22,
            right: 212,
            bottom: 82,
        }),
        ..original.clone()
    };
    let other_field = NormalizedUiNode {
        bounds: Some(UiBounds {
            left: 260,
            top: 20,
            right: 460,
            bottom: 80,
        }),
        ..typed.clone()
    };

    assert!(tracker_matches_node(&typed, &tracker));
    assert!(!tracker_matches_node(&other_field, &tracker));
}

#[test]
fn internal_node_tracker_rejects_neighboring_overlap_without_strong_spatial_match() {
    let original = NormalizedUiNode {
        class_name: Some("android.widget.EditText".to_string()),
        package_name: Some("com.example".to_string()),
        text: Some("Search by name or id".to_string()),
        semantic_label: Some("Search by name or id".to_string()),
        content_desc: None,
        resource_id: None,
        clickable: true,
        focusable: true,
        enabled: true,
        selected: false,
        checked: false,
        focused: true,
        long_clickable: true,
        scrollable: false,
        bounds: Some(UiBounds {
            left: 10,
            top: 20,
            right: 210,
            bottom: 80,
        }),
        center: Some((110, 50)),
    };
    let tracker = InternalNodeTracker::from_target_node(&original).expect("tracker");
    let overlapping_neighbor = NormalizedUiNode {
        text: Some("earth".to_string()),
        semantic_label: Some("earth".to_string()),
        bounds: Some(UiBounds {
            left: 150,
            top: 20,
            right: 350,
            bottom: 80,
        }),
        center: Some((250, 50)),
        ..original.clone()
    };

    assert!(!tracker_matches_node(&overlapping_neighbor, &tracker));
}

#[test]
fn internal_node_tracker_respects_requested_focus_state() {
    let original = NormalizedUiNode {
        class_name: Some("android.widget.EditText".to_string()),
        package_name: Some("com.example".to_string()),
        text: Some("Search by name or id".to_string()),
        semantic_label: Some("Search by name or id".to_string()),
        content_desc: None,
        resource_id: None,
        clickable: true,
        focusable: true,
        enabled: true,
        selected: false,
        checked: false,
        focused: false,
        long_clickable: true,
        scrollable: false,
        bounds: Some(UiBounds {
            left: 10,
            top: 20,
            right: 210,
            bottom: 80,
        }),
        center: Some((110, 50)),
    };
    let focus_tracker = InternalNodeTracker::from_target_node_with_focus(&original, Some(true))
        .expect("tracker");
    let unfocused = original.clone();
    let focused = NormalizedUiNode {
        focused: true,
        ..original
    };

    assert!(!tracker_matches_node(&unfocused, &focus_tracker));
    assert!(tracker_matches_node(&focused, &focus_tracker));
}

#[test]
fn bounded_deadline_prefers_shorter_soft_budget() {
    let hard_deadline = now_ms() + 5_000;
    let bounded = bounded_deadline(hard_deadline, 250);

    assert!(bounded <= hard_deadline);
    assert!(remaining_until(bounded) <= 300);
}

#[test]
fn reserved_fallback_deadline_keeps_time_in_hand_for_retry_budget() {
    let deadline = now_ms() + 5_000;
    let reserved = reserved_fallback_deadline(deadline, 2_000);

    assert!(reserved <= deadline);
    assert!(remaining_until(reserved) >= 2_000 - 50);
    assert!(deadline - reserved >= 2_000);
}

#[test]
fn initial_text_verification_deadline_uses_full_budget_for_adb_dispatch() {
    let deadline = now_ms() + 5_000;
    let initial = initial_text_verification_deadline("adb", deadline, true);

    assert_eq!(initial, deadline);
}

#[test]
fn initial_text_verification_deadline_uses_full_budget_when_retry_disabled() {
    let deadline = now_ms() + 5_000;
    let initial = initial_text_verification_deadline("grpc", deadline, false);

    assert_eq!(initial, deadline);
}

#[test]
fn initial_text_verification_deadline_uses_full_budget_when_not_enough_time_for_split() {
    let deadline = now_ms() + 5_000;
    let initial = initial_text_verification_deadline("grpc", deadline, true);

    assert_eq!(initial, deadline);
}

#[test]
fn initial_text_verification_deadline_reserves_budget_only_when_split_is_meaningful() {
    let deadline = now_ms() + 12_000;
    let initial = initial_text_verification_deadline("grpc", deadline, true);

    assert!(initial < deadline);
    assert!(remaining_until(initial) >= 6_800);
    assert!(remaining_until(initial) <= 7_100);
    assert!(has_meaningful_text_fallback_budget(deadline));
}

#[test]
fn meaningful_text_fallback_budget_rejects_near_expiry_deadlines() {
    let almost_expired = now_ms() + 1_500;
    let healthy = now_ms() + 5_200;

    assert!(!has_meaningful_text_fallback_budget(almost_expired));
    assert!(has_meaningful_text_fallback_budget(healthy));
}

#[test]
fn has_meaningful_observation_budget_rejects_near_expiry_deadlines() {
    let almost_expired = now_ms() + 100;
    let healthy = now_ms() + 1_000;

    assert!(!has_meaningful_observation_budget(almost_expired));
    assert!(has_meaningful_observation_budget(healthy));
}

#[test]
fn has_meaningful_fast_ui_fingerprint_budget_requires_full_capture_reserve() {
    let tight = now_ms() + 5_400;
    let healthy = now_ms() + 6_500;

    assert!(!has_meaningful_fast_ui_fingerprint_budget(tight));
    assert!(has_meaningful_fast_ui_fingerprint_budget(healthy));
}

#[test]
fn fallback_clear_delete_count_tracks_existing_text_length() {
    assert_eq!(fallback_clear_delete_count(None), 0);
    assert_eq!(fallback_clear_delete_count(Some("")), 0);
    assert_eq!(fallback_clear_delete_count(Some("earth")), 5);
}

#[test]
fn replacement_text_dispatch_plan_uses_generic_dispatch_for_non_empty_values() {
    assert_eq!(
        replacement_text_dispatch_plan("hello world"),
        ReplacementTextDispatchPlan::GenericTextDispatch
    );
}

#[test]
fn replacement_text_dispatch_plan_uses_delete_for_empty_values() {
    assert_eq!(
        replacement_text_dispatch_plan(""),
        ReplacementTextDispatchPlan::RawAdbStep(vec![
            "input".to_string(),
            "keyevent".to_string(),
            "KEYCODE_DEL".to_string()
        ])
    );
}

#[test]
fn merge_dispatch_detail_appends_nested_transport_context() {
    assert_eq!(
        merge_dispatch_detail(
            "replaced focused field contents via adb select-all".to_string(),
            Some("gRPC text transport failed, fell back to adb: unavailable")
        ),
        "replaced focused field contents via adb select-all; gRPC text transport failed, fell back to adb: unavailable"
    );
}

#[test]
fn node_matches_requested_text_accepts_exact_text_and_semantic_label() {
    let mut node = NormalizedUiNode {
        class_name: Some("android.widget.EditText".to_string()),
        package_name: Some("com.example".to_string()),
        text: Some("mars".to_string()),
        semantic_label: None,
        content_desc: None,
        resource_id: None,
        clickable: true,
        focusable: true,
        enabled: true,
        selected: false,
        checked: false,
        focused: true,
        scrollable: false,
        long_clickable: true,
        bounds: None,
        center: None,
    };
    assert!(node_matches_requested_text(&node, "mars"));

    node.text = None;
    node.semantic_label = Some("venus".to_string());
    assert!(node_matches_requested_text(&node, "venus"));
}

#[test]
fn node_matches_requested_text_rejects_non_exact_partial_matches() {
    let node = NormalizedUiNode {
        class_name: Some("android.widget.EditText".to_string()),
        package_name: Some("com.example".to_string()),
        text: Some("marsmoon".to_string()),
        semantic_label: None,
        content_desc: None,
        resource_id: None,
        clickable: true,
        focusable: true,
        enabled: true,
        selected: false,
        checked: false,
        focused: true,
        scrollable: false,
        long_clickable: true,
        bounds: None,
        center: None,
    };
    assert!(!node_matches_requested_text(&node, "mars"));
}

#[test]
fn retry_with_adb_is_only_used_for_failed_verified_grpc_taps() {
    let verification = TapVerification {
        requested: true,
        wait_until_absent: false,
        wait_for_selector: None,
        satisfied: false,
        stabilized: true,
        stable_polls_observed: 2,
        stable_polls_required: 2,
        timed_out: false,
        elapsed_ms: 250,
        hierarchy_path: None,
        tapped_selector_present_pre_tap: Some(true),
        post_selector_matched_pre_tap: Some(false),
        tapped_selector_still_present: Some(true),
        post_selector_matched: Some(false),
        ui_changed_from_pre_tap: Some(false),
    };
    assert!(should_retry_tap_with_adb("grpc", true, &verification));
    assert!(!should_retry_tap_with_adb("adb", true, &verification));
    assert!(!should_retry_tap_with_adb("grpc", false, &verification));
    assert!(!should_retry_tap_with_adb(
        "grpc",
        true,
        &TapVerification {
            satisfied: true,
            ..verification
        }
    ));
}

#[test]
fn retry_with_adb_is_only_used_for_failed_verified_grpc_text_dispatch() {
    let verification = TextVerification {
        requested: true,
        target_selector: None,
        wait_for_selector: None,
        satisfied: false,
        stabilized: true,
        stable_polls_observed: 2,
        stable_polls_required: 2,
        timed_out: false,
        elapsed_ms: 250,
        hierarchy_path: None,
        target_selector_present_pre_text: Some(true),
        post_selector_matched_pre_text: Some(false),
        target_selector_still_present: Some(true),
        target_text_matches_requested: Some(false),
        post_selector_matched: Some(false),
        ui_changed_from_pre_text: Some(false),
    };
    assert!(should_retry_text_with_adb("grpc", true, &verification));
    assert!(!should_retry_text_with_adb("adb", true, &verification));
    assert!(!should_retry_text_with_adb("grpc", false, &verification));
    assert!(!should_retry_text_with_adb(
        "grpc",
        true,
        &TextVerification {
            satisfied: true,
            ..verification.clone()
        }
    ));
    assert!(!should_retry_text_with_adb(
        "grpc",
        true,
        &TextVerification {
            ui_changed_from_pre_text: Some(true),
            ..verification
        }
    ));
}

#[test]
fn ui_observation_fingerprint_changes_with_window_state() {
    let hierarchy = "<hierarchy><node text=\"Search\" /></hierarchy>";
    let first = AndroidWindowState {
        current_focus: Some("WindowA".to_string()),
        focused_app: Some("com.sednalabs.solarlab".to_string()),
        resumed_activity: Some("MainActivity".to_string()),
        input_method_visible: false,
        input_method_target: None,
    };
    let second = AndroidWindowState {
        current_focus: Some("WindowB".to_string()),
        focused_app: Some("com.sednalabs.solarlab".to_string()),
        resumed_activity: Some("MainActivity".to_string()),
        input_method_visible: false,
        input_method_target: None,
    };

    assert_ne!(
        ui_observation_fingerprint(hierarchy, &first),
        ui_observation_fingerprint(hierarchy, &second)
    );
}

#[test]
fn parses_display_size_from_wm_output() {
    assert_eq!(
        parse_display_size("Physical size: 1080x2400\nOverride size: 1080x2400\n"),
        Some((1080, 2400))
    );
    assert_eq!(
        parse_display_size("Physical size: 1440x3120\nOverride size: 1080x2400\n"),
        Some((1080, 2400))
    );
    assert_eq!(parse_display_size("1080x2400"), Some((1080, 2400)));
    assert_eq!(parse_display_size("nonsense"), None);
}

#[test]
fn multi_touch_validation_accepts_two_bounded_paths() {
    let pointers = vec![
        MultiTouchPointer {
            x1: 100,
            y1: 200,
            x2: 80,
            y2: 180,
        },
        MultiTouchPointer {
            x1: 300,
            y1: 400,
            x2: 340,
            y2: 440,
        },
    ];

    validate_multi_touch_request(&pointers, 300, (1_080, 2_400))
        .expect("valid multi-touch paths should be accepted");
}

#[test]
fn multi_touch_validation_rejects_bad_count_duration_and_coordinates() {
    let one_pointer = vec![MultiTouchPointer {
        x1: 100,
        y1: 200,
        x2: 80,
        y2: 180,
    }];
    let count_error = validate_multi_touch_request(&one_pointer, 300, (1_080, 2_400))
        .expect_err("one pointer should be rejected");
    assert!(count_error.to_string().contains("2 to 5 paths"));

    let valid_count = vec![
        MultiTouchPointer {
            x1: 100,
            y1: 200,
            x2: 80,
            y2: 180,
        },
        MultiTouchPointer {
            x1: 300,
            y1: 400,
            x2: 340,
            y2: 440,
        },
    ];
    let duration_error = validate_multi_touch_request(&valid_count, 49, (1_080, 2_400))
        .expect_err("short duration should be rejected");
    assert!(duration_error.to_string().contains("between 50 and 2000"));

    let out_of_bounds = vec![
        MultiTouchPointer {
            x1: 1_080,
            y1: 200,
            x2: 80,
            y2: 180,
        },
        MultiTouchPointer {
            x1: 300,
            y1: 400,
            x2: 340,
            y2: 440,
        },
    ];
    let bounds_error = validate_multi_touch_request(&out_of_bounds, 300, (1_080, 2_400))
        .expect_err("display-edge coordinate should be rejected");
    assert!(
        bounds_error
            .to_string()
            .contains("pointers[0].x1=1080 is outside the 1080x2400 display")
    );
}

#[test]
fn parses_android_window_state_from_dumpsys_output() {
    let window_output = r#"
        WINDOW MANAGER WINDOWS (dumpsys window windows)
          mCurrentFocus=Window{123 u0 com.sednalabs.solarlab/com.sednalabs.solarlab.MainActivity}
          mFocusedApp=AppWindowToken{456 token=Token{789 ActivityRecord{abc com.sednalabs.solarlab/.MainActivity}}}
          mInputMethodTarget=Window{def u0 com.sednalabs.solarlab/com.sednalabs.solarlab.MainActivity}
          mInputShown=true
          mInputMethodWindow=Window{999 u0 InputMethod}
    "#;
    let activity_output = r#"
        topResumedActivity=ActivityRecord{abc u0 com.sednalabs.solarlab/.MainActivity t12}
    "#;
    let state = parse_android_window_state(window_output, activity_output);
    assert_eq!(
        state.current_focus.as_deref(),
        Some("com.sednalabs.solarlab/com.sednalabs.solarlab.MainActivity")
    );
    assert_eq!(
        state.focused_app.as_deref(),
        Some("com.sednalabs.solarlab/.MainActivity")
    );
    assert_eq!(
        state.resumed_activity.as_deref(),
        Some("com.sednalabs.solarlab/.MainActivity")
    );
    assert!(state.input_method_visible);
    assert_eq!(
        state.input_method_target.as_deref(),
        Some("com.sednalabs.solarlab/com.sednalabs.solarlab.MainActivity")
    );
}

#[test]
fn input_method_window_record_alone_is_not_visible() {
    let state = parse_android_window_state(
        r#"
        WINDOW MANAGER WINDOWS (dumpsys window windows)
          mInputMethodTarget=Window{def u0 com.sednalabs.solarlab/com.sednalabs.solarlab.MainActivity}
          Window #7 Window{999 u0 InputMethod}:
        "#,
        "",
    );

    assert!(!state.input_method_visible);
    assert_eq!(
        state.input_method_target.as_deref(),
        Some("com.sednalabs.solarlab/com.sednalabs.solarlab.MainActivity")
    );
}

#[test]
fn input_method_shown_without_target_is_not_visible() {
    let state = parse_android_window_state(
        r#"
        WINDOW MANAGER WINDOWS (dumpsys window windows)
          mInputShown=true
          mInputMethodWindow=Window{999 u0 InputMethod}
        "#,
        "",
    );

    assert!(!state.input_method_visible);
    assert_eq!(state.input_method_target, None);
}

#[test]
fn derives_observed_package_from_resumed_activity_when_focused_app_is_missing() {
    let package = derive_observed_package(&AndroidWindowState {
        current_focus: None,
        focused_app: None,
        resumed_activity: Some("com.sednalabs.solarlab/.MainActivity".to_string()),
        input_method_visible: false,
        input_method_target: None,
    });
    assert_eq!(package.as_deref(), Some("com.sednalabs.solarlab"));
}

#[test]
fn derives_observed_package_from_current_focus_as_fallback() {
    let package = derive_observed_package(&AndroidWindowState {
        current_focus: Some(
            "com.sednalabs.solarlab/com.sednalabs.solarlab.MainActivity".to_string(),
        ),
        focused_app: None,
        resumed_activity: None,
        input_method_visible: false,
        input_method_target: None,
    });
    assert_eq!(package.as_deref(), Some("com.sednalabs.solarlab"));
}

#[test]
fn builds_swipe_points_for_each_direction() {
    assert_eq!(
        swipe_points_for_direction((1080, 2400), ScrollDirection::Up),
        (540, 1800, 540, 600)
    );
    assert_eq!(
        swipe_points_for_direction((1080, 2400), ScrollDirection::Down),
        (540, 600, 540, 1800)
    );
}

#[test]
fn resolve_node_selection_requires_unique_match_without_index() {
    let first = NormalizedUiNode {
        class_name: Some("android.widget.Button".to_string()),
        package_name: Some("com.example".to_string()),
        text: Some("Search".to_string()),
        semantic_label: None,
        content_desc: None,
        resource_id: Some("com.example:id/search_one".to_string()),
        clickable: true,
        focusable: true,
        enabled: true,
        selected: false,
        checked: false,
        focused: false,
        scrollable: false,
        long_clickable: false,
        bounds: Some(UiBounds {
            left: 0,
            top: 0,
            right: 100,
            bottom: 40,
        }),
        center: Some((50, 20)),
    };
    let second = NormalizedUiNode {
        resource_id: Some("com.example:id/search_two".to_string()),
        bounds: Some(UiBounds {
            left: 120,
            top: 0,
            right: 220,
            bottom: 40,
        }),
        center: Some((170, 20)),
        ..first.clone()
    };
    let error = resolve_node_selection(vec![first, second], None)
        .expect_err("ambiguous matches should fail without an explicit index");
    match error {
        SelectionFailure::Ambiguous {
            match_count,
            candidates,
        } => {
            assert_eq!(match_count, 2);
            assert_eq!(candidates.len(), 2);
        }
        other => panic!("unexpected selection failure: {other:?}"),
    }
}

#[test]
fn resolve_node_selection_accepts_explicit_match_index() {
    let first = NormalizedUiNode {
        class_name: Some("android.widget.Button".to_string()),
        package_name: Some("com.example".to_string()),
        text: Some("Search".to_string()),
        semantic_label: None,
        content_desc: None,
        resource_id: Some("com.example:id/search_one".to_string()),
        clickable: true,
        focusable: true,
        enabled: true,
        selected: false,
        checked: false,
        focused: false,
        scrollable: false,
        long_clickable: false,
        bounds: Some(UiBounds {
            left: 0,
            top: 0,
            right: 100,
            bottom: 40,
        }),
        center: Some((50, 20)),
    };
    let second = NormalizedUiNode {
        resource_id: Some("com.example:id/search_two".to_string()),
        bounds: Some(UiBounds {
            left: 120,
            top: 0,
            right: 220,
            bottom: 40,
        }),
        center: Some((170, 20)),
        ..first.clone()
    };
    let selection = resolve_node_selection(vec![first, second], Some(1))
        .expect("explicit index should select the requested candidate");
    assert_eq!(selection.selected_match_index, 1);
    assert_eq!(
        selection.node.resource_id.as_deref(),
        Some("com.example:id/search_two")
    );
}

#[test]
fn resolve_node_selection_prefers_unique_actionable_candidate() {
    let container = NormalizedUiNode {
        class_name: Some("android.view.View".to_string()),
        package_name: Some("com.example".to_string()),
        text: Some("Search".to_string()),
        semantic_label: Some("Search".to_string()),
        content_desc: None,
        resource_id: None,
        clickable: false,
        focusable: false,
        enabled: true,
        selected: false,
        checked: false,
        focused: false,
        scrollable: false,
        long_clickable: false,
        bounds: Some(UiBounds {
            left: 0,
            top: 0,
            right: 220,
            bottom: 80,
        }),
        center: Some((110, 40)),
    };
    let button = NormalizedUiNode {
        class_name: Some("android.widget.Button".to_string()),
        resource_id: Some("com.example:id/search".to_string()),
        clickable: true,
        focusable: true,
        bounds: Some(UiBounds {
            left: 40,
            top: 16,
            right: 180,
            bottom: 64,
        }),
        center: Some((110, 40)),
        ..container.clone()
    };

    let selection = resolve_node_selection(vec![container, button], None)
        .expect("a unique most-actionable candidate should be auto-selected");
    assert_eq!(selection.selected_match_index, 1);
    assert_eq!(
        selection.node.resource_id.as_deref(),
        Some("com.example:id/search")
    );
}

#[test]
fn resolve_node_selection_keeps_ambiguous_ties_ambiguous() {
    let first = NormalizedUiNode {
        class_name: Some("android.widget.Button".to_string()),
        package_name: Some("com.example".to_string()),
        text: Some("Search".to_string()),
        semantic_label: Some("Search".to_string()),
        content_desc: None,
        resource_id: Some("com.example:id/search_one".to_string()),
        clickable: true,
        focusable: true,
        enabled: true,
        selected: false,
        checked: false,
        focused: false,
        scrollable: false,
        long_clickable: false,
        bounds: Some(UiBounds {
            left: 0,
            top: 0,
            right: 100,
            bottom: 40,
        }),
        center: Some((50, 20)),
    };
    let second = NormalizedUiNode {
        resource_id: Some("com.example:id/search_two".to_string()),
        bounds: Some(UiBounds {
            left: 120,
            top: 0,
            right: 220,
            bottom: 40,
        }),
        center: Some((170, 20)),
        ..first.clone()
    };

    let error = resolve_node_selection(vec![first, second], None)
        .expect_err("equally actionable candidates should still require disambiguation");
    assert!(matches!(error, SelectionFailure::Ambiguous { .. }));
}

#[test]
fn tool_postcondition_helper_rejects_unsatisfied_requested_postcondition() {
    let error = ensure_tool_postcondition_satisfied(
        "android.input.tap",
        "postcondition failed after dispatch",
        &ToolPostconditionResult {
            requested: true,
            satisfied: false,
            timed_out: true,
            elapsed_ms: 500,
            evidence_source: Some(ToolPostconditionEvidenceSource::UiHierarchy),
            hierarchy_path: Some("/tmp/raw-tap.xml".to_string()),
            screenshot_path: None,
            observed_activity: None,
            observed_package: None,
            node: None,
            match_count: 0,
            selected_match_index: None,
            candidate_summary: Vec::new(),
        },
        "{\"requested\":true,\"satisfied\":false,\"timed_out\":true}",
    )
    .expect_err("unsatisfied requested postconditions should hard-fail");
    let message = error.to_string();
    assert!(message.contains("android.input.tap postcondition failed after dispatch"));
    assert!(message.contains("\"requested\":true"));
    assert!(message.contains("\"satisfied\":false"));
}

#[test]
fn tool_postcondition_helper_ignores_unrequested_postconditions() {
    ensure_tool_postcondition_satisfied(
        "android.input.keyevent",
        "postcondition failed after dispatch",
        &ToolPostconditionResult {
            requested: false,
            satisfied: true,
            timed_out: false,
            elapsed_ms: 0,
            evidence_source: None,
            hierarchy_path: None,
            screenshot_path: None,
            observed_activity: None,
            observed_package: None,
            node: None,
            match_count: 0,
            selected_match_index: None,
            candidate_summary: Vec::new(),
        },
        "{\"requested\":false,\"satisfied\":true}",
    )
    .expect("unrequested postconditions should not error");
}

#[test]
fn action_outcome_helper_rejects_unsatisfied_requested_outcomes() {
    let error = ensure_action_outcome_satisfied(
        "android.input.swipe",
        "postcondition failed after dispatch",
        true,
        false,
        "{\"postcondition\":{\"requested\":true,\"satisfied\":false},\"scroll_changed\":false}",
    )
    .expect_err("requested outcomes should hard-fail when unsatisfied");
    let message = error.to_string();
    assert!(message.contains("android.input.swipe postcondition failed after dispatch"));
    assert!(message.contains("\"scroll_changed\":false"));
}

#[test]
fn classify_system_dialog_prefers_safe_anr_and_permission_actions() {
    let anr = classify_system_dialog(&[
        "System UI isn't responding".to_string(),
        "Wait".to_string(),
        "Close app".to_string(),
    ])
    .expect("anr dialog should be detected");
    assert_eq!(anr.kind, "anr");
    assert_eq!(anr.action_label, Some("Wait"));

    let permission = classify_system_dialog(&[
        "Allow location permission".to_string(),
        "While using the app".to_string(),
        "Don't allow".to_string(),
    ])
    .expect("permission dialog should be detected");
    assert_eq!(permission.kind, "permission");
    assert_eq!(permission.action_label, Some("While using the app"));

    let crash = classify_system_dialog(&[
        "Solar Lab keeps stopping".to_string(),
        "Close app".to_string(),
    ])
    .expect("crash dialog should be detected");
    assert_eq!(crash.kind, "crash");
    assert_eq!(crash.action_label, None);
}

#[test]
fn system_dialog_action_matches_selector_for_auto_handled_wait_button() {
    let report = SystemDialogReport {
        detected: true,
        kind: "anr".to_string(),
        labels: vec![
            "Pixel Launcher isn't responding".to_string(),
            "Close app".to_string(),
            "Wait".to_string(),
        ],
        action_taken: Some("tap:Wait".to_string()),
        action_label: Some("Wait".to_string()),
        action_resource_id: Some("android:id/aerr_wait".to_string()),
        artifact_path: "/tmp/anr.xml".to_string(),
    };

    assert!(system_dialog_action_matches_selector(
        &UiSelector {
            label: Some("Wait".to_string()),
            label_exact: Some(true),
            clickable: Some(true),
            ..UiSelector::default()
        },
        &report,
    ));
    assert!(system_dialog_action_matches_selector(
        &UiSelector {
            text: Some("Wait".to_string()),
            ..UiSelector::default()
        },
        &report,
    ));
    assert!(system_dialog_action_matches_selector(
        &UiSelector {
            resource_id: Some("android:id/aerr_wait".to_string()),
            clickable: Some(true),
            ..UiSelector::default()
        },
        &report,
    ));
    assert!(!system_dialog_action_matches_selector(
        &UiSelector {
            text: Some("Close app".to_string()),
            ..UiSelector::default()
        },
        &report,
    ));
}

#[test]
fn empty_selector_is_rejected() {
    let err = ensure_selector_not_empty(&UiSelector::default())
        .expect_err("selector should be rejected");
    assert!(
        err.to_string()
            .contains("selector must include at least one field")
    );
}

#[test]
fn state_only_selector_is_accepted() {
    ensure_selector_not_empty(&UiSelector {
        focused: Some(true),
        ..UiSelector::default()
    })
    .expect("focused-only selector should be accepted");
    ensure_selector_not_empty(&UiSelector {
        scrollable: Some(true),
        ..UiSelector::default()
    })
    .expect("scrollable-only selector should be accepted");
    ensure_selector_not_empty(&UiSelector {
        long_clickable: Some(false),
        ..UiSelector::default()
    })
    .expect("long-clickable-only selector should be accepted");
    ensure_selector_not_empty(&UiSelector {
        focusable: Some(true),
        ..UiSelector::default()
    })
    .expect("focusable-only selector should be accepted");
}

#[test]
fn normalize_artifact_name_strips_parent_components() {
    assert_eq!(
        normalize_artifact_name("artifacts/uiautomator/after-earth-focus.xml", Some("xml")),
        Some("after-earth-focus.xml".to_string())
    );
}

#[test]
fn normalize_artifact_name_adds_missing_extension() {
    assert_eq!(
        normalize_artifact_name("after-earth-focus", Some("xml")),
        Some("after-earth-focus.xml".to_string())
    );
    assert_eq!(
        normalize_artifact_name("logcat/latest", Some("txt")),
        Some("latest.txt".to_string())
    );
}

#[test]
fn normalize_artifact_name_rejects_blank_input() {
    assert_eq!(normalize_artifact_name("   ", Some("png")), None);
}

#[test]
fn artifact_read_encoding_defaults_to_base64() {
    assert_eq!(
        normalize_artifact_read_encoding(None).expect("default encoding should succeed"),
        ArtifactReadEncoding::Base64
    );
    assert_eq!(
        normalize_artifact_read_encoding(Some("utf8")).expect("utf8 should succeed"),
        ArtifactReadEncoding::Utf8
    );
}

#[test]
fn artifact_read_encoding_rejects_unknown_values() {
    let err = normalize_artifact_read_encoding(Some("hex"))
        .expect_err("unknown encoding should be rejected");
    assert!(err.to_string().contains("encoding must be one of"));
}

#[test]
fn artifact_mime_type_prefers_known_extensions() {
    assert_eq!(
        guess_artifact_mime_type("screen.png"),
        "image/png"
    );
    assert_eq!(
        guess_artifact_mime_type("hierarchy.xml"),
        "application/xml"
    );
    assert_eq!(
        guess_artifact_mime_type("unknown.bin"),
        "application/octet-stream"
    );
}

#[test]
fn parses_launcher_and_pm_package_names() {
    let launcher = "\
        packageName=com.example.one\n\
        ignored\n\
        packageName=com.example.two\n\
        packageName=com.example.one\n";
    assert_eq!(
        parse_launcher_package_names(launcher),
        vec!["com.example.one", "com.example.two"]
    );

    let packages = "package:android\npackage:com.example.app\n";
    assert_eq!(
        parse_pm_package_names(packages),
        vec!["android", "com.example.app"]
    );
}

#[test]
fn validates_android_package_names() {
    assert_eq!(
        normalize_android_package_name(" com.example_app.test ")
            .expect("package should be valid"),
        "com.example_app.test"
    );
    assert!(normalize_android_package_name("").is_err());
    assert!(normalize_android_package_name("com.example;rm").is_err());
}

#[test]
fn safe_android_url_defaults_to_http_and_https() {
    assert_eq!(
        normalize_safe_android_url(" https://example.test/path ", false)
            .expect("https URL should be valid"),
        "https://example.test/path"
    );
    assert!(normalize_safe_android_url("intent://example", false).is_err());
}

#[test]
fn shell_quotes_android_url_metacharacters() {
    let url = "https://example.test/path?next=a&name=O'Brien;echo nope";
    assert_eq!(
        shell_quote(&normalize_safe_android_url(url, false).expect("https URL should be valid")),
        "'https://example.test/path?next=a&name=O'\"'\"'Brien;echo nope'"
    );
}

#[test]
fn orientation_names_round_trip_to_rotations() {
    assert_eq!(rotation_for_orientation("portrait").unwrap(), 0);
    assert_eq!(rotation_for_orientation("landscape").unwrap(), 1);
    assert_eq!(rotation_for_orientation("reverse-portrait").unwrap(), 2);
    assert_eq!(rotation_for_orientation("reverse_landscape").unwrap(), 3);
    assert_eq!(orientation_name_from_rotation(5), "landscape");
    assert!(rotation_for_orientation("diagonal").is_err());
}

#[test]
fn ui_dump_shell_stream_script_captures_and_cleans_single_remote_file() {
    let script = ui_dump_shell_stream_script("/sdcard/window-dump.xml");
    assert!(script.contains("remote='/sdcard/window-dump.xml'"));
    assert!(script.contains("trap 'rm -f \"$remote\"' EXIT"));
    assert!(script.contains("uiautomator dump \"$remote\" >/dev/null && cat \"$remote\""));
    assert!(!script.contains("adb pull"));
}

#[test]
fn extracts_uiautomator_hierarchy_xml_from_clean_exec_out_payload() {
    let payload = "<?xml version='1.0' encoding='UTF-8' standalone='yes' ?><hierarchy rotation=\"0\"></hierarchy>";
    assert_eq!(extract_uiautomator_hierarchy_xml(payload).as_deref(), Some(payload));
}

#[test]
fn extracts_uiautomator_hierarchy_xml_from_noisy_exec_out_payload() {
    let payload = "UI hierarchy dumped to: /dev/tty\n<?xml version='1.0' encoding='UTF-8' standalone='yes' ?><hierarchy rotation=\"0\"><node /></hierarchy>\nDone.\n";
    assert_eq!(
        extract_uiautomator_hierarchy_xml(payload).as_deref(),
        Some(
            "<?xml version='1.0' encoding='UTF-8' standalone='yes' ?><hierarchy rotation=\"0\"><node /></hierarchy>"
        )
    );
}

#[test]
fn missing_exec_out_hierarchy_xml_is_rejected() {
    assert_eq!(extract_uiautomator_hierarchy_xml("Killed\n"), None);
}

#[test]
fn unsupported_exec_out_uiautomator_failure_is_retryable_via_legacy_path() {
    let error = McpError::internal_error("adb -s emulator-5554 exec-out uiautomator dump /dev/tty failed with exit status 1: usage: uiautomator".to_string());
    assert!(is_exec_out_uiautomator_supported_failure(&error));
}

#[test]
fn timeout_exec_out_uiautomator_failure_is_not_treated_as_fallback_only() {
    let error = McpError::internal_error("adb -s emulator-5554 exec-out uiautomator dump /dev/tty timed out after 5000 ms".to_string());
    assert!(!is_exec_out_uiautomator_supported_failure(&error));
}

#[test]
fn deadline_limited_observation_timeout_recognizes_hierarchy_capture_timeouts() {
    let exec_out_error = McpError::internal_error("adb -s emulator-5554 exec-out uiautomator dump /dev/tty timed out after 1267 ms".to_string());
    let shell_error = McpError::internal_error("adb -s emulator-5554 shell uiautomator dump /sdcard/window-dump-1.xml timed out after 2500 ms".to_string());
    let pull_error = McpError::internal_error("adb -s emulator-5554 pull /sdcard/window-dump-1.xml local.xml timed out after 1800 ms".to_string());

    assert!(is_deadline_limited_observation_timeout(&exec_out_error));
    assert!(is_deadline_limited_observation_timeout(&shell_error));
    assert!(is_deadline_limited_observation_timeout(&pull_error));
}

#[test]
fn deadline_limited_observation_timeout_ignores_unrelated_timeouts() {
    let error = McpError::internal_error("adb -s emulator-5554 exec-out screencap -p timed out after 1500 ms".to_string());
    assert!(!is_deadline_limited_observation_timeout(&error));
}

#[test]
fn missing_remote_ui_dump_pull_is_retryable() {
    let error = McpError::internal_error("adb pull /sdcard/window-dump.xml local.xml failed with exit status 1: adb: error: failed to stat remote object '/sdcard/window-dump.xml': No such file or directory".to_string());
    assert!(should_retry_ui_dump_pull(&error));
}

#[test]
fn transient_remote_ui_dump_pull_error_is_summarized_for_tool_output() {
    let pull_error = McpError::internal_error("adb pull /sdcard/window-dump.xml local.xml failed with exit status 1: adb: error: failed to stat remote object '/sdcard/window-dump.xml': No such file or directory".to_string());
    let error = ui_hierarchy_capture_error(Some(pull_error), None).to_string();
    assert!(error.contains("UI hierarchy capture was unavailable"));
    assert!(!error.contains("failed to stat remote object"));
}

#[test]
fn transient_remote_ui_dump_stream_error_is_summarized_for_tool_output() {
    let stream_error = McpError::internal_error("adb shell sh -c uiautomator dump failed with exit status 1: adb: error: failed to stat remote object '/sdcard/window-dump.xml': No such file or directory".to_string());
    let error = ui_hierarchy_capture_error(None, Some(stream_error)).to_string();
    assert!(error.contains("UI hierarchy capture was unavailable"));
    assert!(!error.contains("failed to stat remote object"));
}

#[test]
fn non_missing_remote_ui_dump_pull_is_not_retryable() {
    let error = McpError::internal_error("adb pull /sdcard/window-dump.xml local.xml failed with exit status 1: permission denied".to_string());
    assert!(!should_retry_ui_dump_pull(&error));
}

#[test]
fn invalid_scroll_direction_is_rejected() {
    let err =
        normalize_scroll_direction(Some("sideways")).expect_err("direction should be rejected");
    assert!(
        err.to_string()
            .contains("direction must be one of: up, down")
    );
}

#[test]
fn actionable_center_rejects_missing_center() {
    let node = Some(NormalizedUiNode {
        class_name: Some("android.widget.TextView".to_string()),
        package_name: Some("com.example".to_string()),
        text: Some("Search".to_string()),
        semantic_label: None,
        content_desc: None,
        resource_id: None,
        clickable: false,
        focusable: false,
        enabled: true,
        selected: false,
        checked: false,
        focused: false,
        scrollable: false,
        long_clickable: false,
        bounds: None,
        center: None,
    });
    let err = actionable_center(
        &node,
        &UiSelector {
            text: Some("Search".to_string()),
            ..UiSelector::default()
        },
        "tap",
    )
    .expect_err("missing center should be rejected");
    assert!(err.to_string().contains("no actionable bounds"));
}

#[test]
fn validates_solarlab_focus_requires_body_query() {
    let err = validate_solarlab_semantic_action("focus_body", None)
        .expect_err("focus_body should require a non-empty body query");
    assert!(err.to_string().contains("requires a non-empty body_query"));
}

#[test]
fn return_to_sandbox_ack_uses_sandbox_specific_matcher() {
    assert_eq!(
        matcher_for_action(&SolarLabSemanticCommand::ReturnToSandbox).description,
        "Search, Immersive, No body selected, or Add object"
    );
}

#[test]
fn return_to_sandbox_ack_accepts_search_surface() {
    let hierarchy = r#"<hierarchy><node text="Search"/><node text="Immersive"/></hierarchy>"#;
    assert!(solarlab_semantic_ack_matches(
        &SolarLabSemanticCommand::ReturnToSandbox,
        hierarchy,
        None,
    ));
}

#[test]
fn open_immersive_ack_accepts_sparse_non_sandbox_hierarchy() {
    let hierarchy = r#"<hierarchy><node class="android.widget.FrameLayout"/></hierarchy>"#;
    assert!(solarlab_semantic_ack_matches(
        &SolarLabSemanticCommand::OpenImmersive,
        hierarchy,
        None,
    ));
}

#[test]
fn open_immersive_ack_rejects_sandbox_markers() {
    let hierarchy = r#"<hierarchy><node text="Search"/><node text="Immersive"/><node text="No body selected"/></hierarchy>"#;
    assert!(!solarlab_semantic_ack_matches(
        &SolarLabSemanticCommand::OpenImmersive,
        hierarchy,
        None,
    ));
}

#[test]
fn focus_body_ack_correlates_request_and_reports_resolved_body() {
    let hierarchy = r#"<hierarchy><node content-desc="Halley. SolarLab semantic focus acknowledged; request-id=semantic-request-42; query=comet; resolved-body=halley"/></hierarchy>"#;
    let action = SolarLabSemanticCommand::FocusBody {
        body_query: "comet".to_string(),
    };

    assert!(solarlab_semantic_ack_matches(
        &action,
        hierarchy,
        Some("semantic-request-42"),
    ));
    assert_eq!(
        solarlab_semantic_resolved_body_id(&action, hierarchy, "semantic-request-42"),
        Some("halley".to_string())
    );
}

#[test]
fn focus_body_ack_rejects_stale_request() {
    let hierarchy = r#"<hierarchy><node content-desc="Halley. SolarLab semantic focus acknowledged; request-id=semantic-request-41; query=comet; resolved-body=halley"/></hierarchy>"#;
    let action = SolarLabSemanticCommand::FocusBody {
        body_query: "comet".to_string(),
    };

    assert!(!solarlab_semantic_ack_matches(
        &action,
        hierarchy,
        Some("semantic-request-42"),
    ));
}

#[test]
fn focus_body_ack_keeps_legacy_literal_match_compatibility() {
    let hierarchy = r#"<hierarchy><node text="Halley"/></hierarchy>"#;
    let action = SolarLabSemanticCommand::FocusBody {
        body_query: "halley".to_string(),
    };

    assert!(solarlab_semantic_ack_matches(
        &action,
        hierarchy,
        Some("semantic-request-42"),
    ));
}

#[test]
fn semantic_ack_tokens_are_stable_across_ui_safe_separators() {
    assert_eq!(
        normalize_solarlab_semantic_ack_token("  Comet / Halley  "),
        "comet-halley"
    );
}

#[test]
fn sanitize_filename_twice_is_once() {
    for raw in ["--Open Immersive View!--", "Pixel_8 Pro", "", "---", "Ünïcode Näme 42"] {
        let once = sanitize_filename(raw);
        assert_eq!(sanitize_filename(&once), once);
    }
    assert_eq!(sanitize_filename("--Open Immersive View!--"), "open-immersive-view");
}

#[test]
fn command_failure_message_prefers_stderr_detail() {
    let rendered = command_failure_message("test failure command", Some(7), "", "boom");
    assert!(rendered.contains("failed with exit status 7"));
    assert!(rendered.contains("boom"));
}

#[test]
fn command_failure_message_falls_back_to_stdout_then_placeholder() {
    assert_eq!(
        command_failure_message("adb devices", Some(1), "  listing failed \n", "   "),
        "adb devices failed with exit status 1: listing failed"
    );
    assert_eq!(
        command_failure_message("adb devices", None, "", ""),
        "adb devices failed with exit status signal: no stdout/stderr captured"
    );
    assert_eq!(
        command_failure_message("adb devices", Some(-2), "", "x"),
        "adb devices failed with exit status -2: x"
    );
}
