use android_computer_use_mcp::ui::{NormalizedUiNode, UiBounds, UiSelector};
use android_computer_use_mcp::verification::{
    tap_verification_fingerprint, text_verification_fingerprint,
};

#[test]
fn tap_verification_fingerprint_ignores_unrelated_background_noise() {
    let refresh_button = NormalizedUiNode {
        class_name: Some("android.widget.Button".to_string()),
        package_name: Some("com.example".to_string()),
        text: Some("Refresh".to_string()),
        semantic_label: None,
        content_desc: None,
        resource_id: Some("com.example:id/refresh".to_string()),
        clickable: true,
        focusable: true,
        enabled: true,
        selected: false,
        checked: false,
        focused: false,
        scrollable: false,
        long_clickable: false,
        bounds: Some(UiBounds {
            left: 0,
            top: 0,
            right: 100,
            bottom: 40,
        }),
        center: Some((50, 20)),
    };
    let list_item = NormalizedUiNode {
        class_name: Some("android.widget.TextView".to_string()),
        package_name: Some("com.example".to_string()),
        text: Some("Earth".to_string()),
        semantic_label: None,
        content_desc: None,
        resource_id: Some("com.example:id/list_item".to_string()),
        clickable: false,
        focusable: false,
        enabled: true,
        selected: false,
        checked: false,
        focused: false,
        scrollable: false,
        long_clickable: false,
        bounds: Some(UiBounds {
            left: 100,
            top: 100,
            right: 240,
            bottom: 160,
        }),
        center: Some((170, 130)),
    };
    let unrelated_spinner = NormalizedUiNode {
        class_name: Some("android.widget.ProgressBar".to_string()),
        package_name: Some("com.example".to_string()),
        text: None,
        semantic_label: None,
        content_desc: None,
        resource_id: Some("com.example:id/spinner".to_string()),
        clickable: false,
        focusable: false,
        enabled: true,
        selected: false,
        checked: false,
        focused: false,
        scrollable: false,
        long_clickable: false,
        bounds: Some(UiBounds {
            left: 400,
            top: 400,
            right: 460,
            bottom: 460,
        }),
        center: Some((430, 430)),
    };
    let unrelated_spinner_shifted = NormalizedUiNode {
        bounds: Some(UiBounds {
            left: 420,
            top: 420,
            right: 480,
            bottom: 480,
        }),
        center: Some((450, 450)),
        ..unrelated_spinner.clone()
    };
    let tapped_selector = UiSelector {
        resource_id: Some("com.example:id/refresh".to_string()),
        clickable: Some(true),
        ..UiSelector::default()
    };
    let follow_up_selector = UiSelector {
        text: Some("Earth".to_string()),
        ..UiSelector::default()
    };

    let first = tap_verification_fingerprint(
        &[refresh_button.clone(), list_item.clone(), unrelated_spinner],
        &tapped_selector,
        None,
        Some(&follow_up_selector),
    );
    let second = tap_verification_fingerprint(
        &[refresh_button, list_item, unrelated_spinner_shifted],
        &tapped_selector,
        None,
        Some(&follow_up_selector),
    );

    assert_eq!(first, second);
}

#[test]
fn tap_verification_fingerprint_ignores_target_bounds_jitter_but_keeps_state_changes() {
    let search_field = NormalizedUiNode {
        class_name: Some("android.widget.EditText".to_string()),
        package_name: Some("com.example".to_string()),
        text: Some("Search".to_string()),
        semantic_label: None,
        content_desc: None,
        resource_id: Some("com.example:id/search".to_string()),
        clickable: true,
        focusable: true,
        enabled: true,
        selected: false,
        checked: false,
        focused: false,
        scrollable: false,
        long_clickable: true,
        bounds: Some(UiBounds {
            left: 0,
            top: 0,
            right: 200,
            bottom: 60,
        }),
        center: Some((100, 30)),
    };
    let search_field_shifted = NormalizedUiNode {
        bounds: Some(UiBounds {
            left: 8,
            top: 4,
            right: 208,
            bottom: 64,
        }),
        center: Some((108, 34)),
        ..search_field.clone()
    };
    let search_field_focused = NormalizedUiNode {
        focused: true,
        ..search_field.clone()
    };
    let tapped_selector = UiSelector {
        resource_id: Some("com.example:id/search".to_string()),
        clickable: Some(true),
        ..UiSelector::default()
    };
    let focus_selector = UiSelector {
        resource_id: Some("com.example:id/search".to_string()),
        focused: Some(true),
        ..UiSelector::default()
    };

    let original = tap_verification_fingerprint(
        std::slice::from_ref(&search_field),
        &tapped_selector,
        None,
        Some(&focus_selector),
    );
    let shifted = tap_verification_fingerprint(
        std::slice::from_ref(&search_field_shifted),
        &tapped_selector,
        None,
        Some(&focus_selector),
    );
    let focused = tap_verification_fingerprint(
        std::slice::from_ref(&search_field_focused),
        &tapped_selector,
        None,
        Some(&focus_selector),
    );

    assert_eq!(original, shifted);
    assert_ne!(original, focused);
}

#[test]
fn text_verification_fingerprint_ignores_target_bounds_jitter_but_keeps_text_changes() {
    let search_field = NormalizedUiNode {
        class_name: Some("android.widget.EditText".to_string()),
        package_name: Some("com.example".to_string()),
        text: Some("Search".to_string()),
        semantic_label: Some("Search".to_string()),
        content_desc: None,
        resource_id: Some("com.example:id/search".to_string()),
        clickable: true,
        focusable: true,
        enabled: true,
        selected: false,
        checked: false,
        focused: true,
        scrollable: false,
        long_clickable: true,
        bounds: Some(UiBounds {
            left: 0,
            top: 0,
            right: 200,
            bottom: 60,
        }),
        center: Some((100, 30)),
    };
    let search_field_shifted = NormalizedUiNode {
        bounds: Some(UiBounds {
            left: 8,
            top: 4,
            right: 208,
            bottom: 64,
        }),
        center: Some((108, 34)),
        ..search_field.clone()
    };
    let search_field_typed = NormalizedUiNode {
        text: Some("earth".to_string()),
        semantic_label: Some("earth".to_string()),
        ..search_field.clone()
    };
    let target_selector = UiSelector {
        resource_id: Some("com.example:id/search".to_string()),
        focused: Some(true),
        ..UiSelector::default()
    };

    let original = text_verification_fingerprint(
        std::slice::from_ref(&search_field),
        None,
        Some(&target_selector),
        None,
    );
    let shifted = text_verification_fingerprint(
        std::slice::from_ref(&search_field_shifted),
        None,
        Some(&target_selector),
        None,
    );
    let typed = text_verification_fingerprint(
        std::slice::from_ref(&search_field_typed),
        None,
        Some(&target_selector),
        None,
    );

    assert_eq!(original, shifted);
    assert_ne!(original, typed);
}

#[test]
fn tap_verification_fingerprint_ignores_order_of_relevant_nodes() {
    let make = |text: &str, id: &str| NormalizedUiNode {
        class_name: Some("android.widget.Button".to_string()),
        package_name: Some("com.example".to_string()),
        text: Some(text.to_string()),
        semantic_label: None,
        content_desc: None,
        resource_id: Some(id.to_string()),
        clickable: true,
        focusable: true,
        enabled: true,
        selected: false,
        checked: false,
        focused: false,
        scrollable: false,
        long_clickable: false,
        bounds: None,
        center: None,
    };
    let ok = make("OK", "com.example:id/ok");
    let also_ok = make("OK", "com.example:id/ok_too");
    let tapped_selector = UiSelector {
        text: Some("OK".to_string()),
        ..UiSelector::default()
    };
    let forward = tap_verification_fingerprint(
        &[ok.clone(), also_ok.clone()],
        &tapped_selector,
        None,
        None,
    );
    let backward = tap_verification_fingerprint(&[also_ok, ok.clone()], &tapped_selector, None, None);
    let single = tap_verification_fingerprint(&[ok], &tapped_selector, None, None);
    assert_eq!(forward, backward);
    assert_ne!(forward, single);
}

#[test]
fn verification_fingerprint_text_is_exact() {
    let node = NormalizedUiNode {
        class_name: Some("Btn".to_string()),
        package_name: None,
        text: Some("OK".to_string()),
        semantic_label: None,
        content_desc: None,
        resource_id: None,
        clickable: true,
        focusable: false,
        enabled: true,
        selected: false,
        checked: false,
        focused: false,
        scrollable: false,
        long_clickable: false,
        bounds: None,
        center: None,
    };
    let selector = UiSelector {
        text: Some("OK".to_string()),
        ..UiSelector::default()
    };
    let fingerprint = text_verification_fingerprint(&[node], None, Some(&selector), None);
    assert_eq!(fingerprint, "3:Btn-2:OK---10100000");
    let none = text_verification_fingerprint(&[], None, Some(&selector), None);
    assert_eq!(none, "");
}
