use android_computer_use_mcp::args::{default_true, TapElementArgs};
use android_computer_use_mcp::ui::{
    normalize_optional_selector_input, normalize_selector_input, UiSelector, UiSelectorInput,
};

#[test]
fn bare_string_selector_deserializes_to_text_matcher() {
    let selector = UiSelectorInput::Text("Search".to_string());
    assert_eq!(
        normalize_selector_input(selector),
        UiSelector {
            text: Some("Search".to_string()),
            ..UiSelector::default()
        }
    );
}

#[test]
fn button_phrase_selector_deserializes_to_label_and_clickable_matcher() {
    let selector = UiSelectorInput::Text("button labelled Search".to_string());
    assert_eq!(
        normalize_selector_input(selector),
        UiSelector {
            label: Some("Search".to_string()),
            label_exact: Some(true),
            clickable: Some(true),
            ..UiSelector::default()
        }
    );
}

#[test]
fn text_field_phrase_selector_deserializes_to_focusable_matcher() {
    let selector = UiSelectorInput::Text("text field".to_string());
    assert_eq!(
        normalize_selector_input(selector),
        UiSelector {
            focusable: Some(true),
            ..UiSelector::default()
        }
    );
}

#[test]
fn labeled_text_field_phrase_deserializes_to_label_and_focusable_matcher() {
    let selector = UiSelectorInput::Text("text field labelled Search by name or id".to_string());
    assert_eq!(
        normalize_selector_input(selector),
        UiSelector {
            label: Some("Search by name or id".to_string()),
            label_exact: Some(true),
            focusable: Some(true),
            ..UiSelector::default()
        }
    );
}

#[test]
fn tap_element_args_accept_string_selectors() {
    let args = TapElementArgs {
        serial: None,
        selector: UiSelectorInput::Text("button labelled Search".to_string()),
        hierarchy_filename: None,
        wait_until_absent: false,
        wait_for_selector: Some(UiSelectorInput::Text(
            "text field labelled Search by name or id".to_string(),
        )),
        timeout_secs: Some(10),
        retry_with_adb_on_no_change: default_true(),
        allow_verification_failure: false,
        match_index: None,
    };
    assert_eq!(
        normalize_selector_input(args.selector),
        UiSelector {
            label: Some("Search".to_string()),
            label_exact: Some(true),
            clickable: Some(true),
            ..UiSelector::default()
        }
    );
    assert_eq!(
        normalize_optional_selector_input(args.wait_for_selector),
        Some(UiSelector {
            label: Some("Search by name or id".to_string()),
            label_exact: Some(true),
            focusable: Some(true),
            ..UiSelector::default()
        })
    );
}

#[test]
fn structured_selector_input_is_kept() {
    let structured = UiSelector {
        resource_id: Some("com.example:id/search".to_string()),
        clickable: Some(true),
        ..UiSelector::default()
    };
    assert_eq!(
        normalize_selector_input(UiSelectorInput::Selector(structured.clone())),
        structured
    );
    assert_eq!(normalize_optional_selector_input(None), None);
}
