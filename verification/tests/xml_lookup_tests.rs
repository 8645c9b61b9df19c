use android_computer_use_mcp::ui::{UiBounds, UiSelector};
use android_computer_use_mcp::xml::{find_interactive_ui_node, parse_ui_nodes_from_xml};

#[test]
fn parses_normalized_ui_nodes_from_xml() {
    let xml = r#"
        <hierarchy>
          <node text="" content-desc="" resource-id="" class="android.widget.FrameLayout" package="com.example" clickable="false" focusable="false" focused="false" scrollable="false" long-clickable="false" enabled="true" selected="false" checked="false" bounds="[0,0][1080,2400]">
            <node text="Search" content-desc="Search action" resource-id="com.example:id/search" class="android.widget.Button" package="com.example" clickable="true" focusable="true" focused="true" scrollable="false" long-clickable="true" enabled="true" selected="false" checked="false" bounds="[48,96][240,180]" />
          </node>
        </hierarchy>
    "#;
    let nodes = parse_ui_nodes_from_xml(xml).expect("ui nodes should parse");
    assert_eq!(nodes.len(), 2);
    let button = nodes
        .iter()
        .find(|node| node.resource_id.as_deref() == Some("com.example:id/search"))
        .expect("button node should be present");
    assert_eq!(button.text.as_deref(), Some("Search"));
    assert_eq!(button.content_desc.as_deref(), Some("Search action"));
    assert!(button.clickable);
    assert!(button.focused);
    assert!(button.long_clickable);
    assert_eq!(button.center, Some((144, 138)));
}

#[test]
fn finds_interactive_node_center_for_text_child() {
    let xml = r#"
        <hierarchy>
          <node text="" content-desc="" resource-id="" class="android.widget.FrameLayout" package="com.example" clickable="false" focusable="false" enabled="true" selected="false" checked="false" bounds="[0,0][1080,2400]">
            <node text="" content-desc="Search action" resource-id="com.example:id/search_button" class="android.widget.Button" package="com.example" clickable="true" focusable="true" enabled="true" selected="false" checked="false" bounds="[48,96][240,180]">
              <node text="Search" content-desc="" resource-id="com.example:id/search_label" class="android.widget.TextView" package="com.example" clickable="false" focusable="false" enabled="true" selected="false" checked="false" bounds="[96,110][180,150]" />
            </node>
          </node>
        </hierarchy>
    "#;
    let selection = find_interactive_ui_node(
        xml,
        &UiSelector {
            text: Some("Search".to_string()),
            ..UiSelector::default()
        },
    )
    .expect("interactive lookup should succeed");
    assert_eq!(selection.matches.len(), 1);
    let node = selection
        .matches
        .first()
        .cloned()
        .expect("interactive node should be found");
    assert_eq!(
        node.bounds,
        Some(UiBounds {
            left: 48,
            top: 96,
            right: 240,
            bottom: 180,
        })
    );
    assert_eq!(node.center, Some((144, 138)));
    assert_eq!(node.class_name.as_deref(), Some("android.widget.Button"));
    assert_eq!(
        node.resource_id.as_deref(),
        Some("com.example:id/search_button")
    );
    assert!(node.clickable);
    assert_eq!(node.semantic_label.as_deref(), Some("Search action"));
}

#[test]
fn button_phrase_matches_clickable_ancestor_by_semantic_label() {
    let xml = r#"
        <hierarchy>
          <node text="" content-desc="" resource-id="" class="android.widget.FrameLayout" package="com.example" clickable="false" focusable="false" enabled="true" selected="false" checked="false" bounds="[0,0][1080,2400]">
            <node text="" content-desc="" resource-id="com.example:id/search_button" class="android.view.View" package="com.example" clickable="true" focusable="true" enabled="true" selected="false" checked="false" bounds="[48,96][240,180]">
              <node text="Search" content-desc="" resource-id="com.example:id/search_label" class="android.widget.TextView" package="com.example" clickable="false" focusable="false" enabled="true" selected="false" checked="false" bounds="[96,110][180,150]" />
            </node>
          </node>
        </hierarchy>
    "#;
    let selection = find_interactive_ui_node(
        xml,
        &UiSelector {
            label: Some("Search".to_string()),
            label_exact: Some(true),
            clickable: Some(true),
            ..UiSelector::default()
        },
    )
    .expect("interactive lookup should succeed");
    assert_eq!(selection.matches.len(), 1);
    let node = selection
        .matches
        .first()
        .cloned()
        .expect("interactive node should be found");
    assert_eq!(node.semantic_label.as_deref(), Some("Search"));
    assert_eq!(
        node.resource_id.as_deref(),
        Some("com.example:id/search_button")
    );
    assert_eq!(
        node.bounds,
        Some(UiBounds {
            left: 48,
            top: 96,
            right: 240,
            bottom: 180,
        })
    );
}

#[test]
fn labeled_text_field_matches_focusable_control_by_placeholder_label() {
    let xml = r#"
        <hierarchy>
          <node text="" content-desc="" resource-id="" class="android.widget.FrameLayout" package="com.example" clickable="false" focusable="false" enabled="true" selected="false" checked="false" bounds="[0,0][1080,2400]">
            <node text="" content-desc="" resource-id="com.example:id/search_field" class="android.widget.EditText" package="com.example" clickable="true" focusable="true" enabled="true" selected="false" checked="false" bounds="[120,220][960,360]">
              <node text="Search by name or id" content-desc="" resource-id="com.example:id/search_placeholder" class="android.widget.TextView" package="com.example" clickable="false" focusable="false" enabled="true" selected="false" checked="false" bounds="[160,260][580,312]" />
            </node>
          </node>
        </hierarchy>
    "#;
    let selection = find_interactive_ui_node(
        xml,
        &UiSelector {
            label: Some("Search by name or id".to_string()),
            label_exact: Some(true),
            focusable: Some(true),
            ..UiSelector::default()
        },
    )
    .expect("interactive lookup should succeed");
    assert_eq!(selection.matches.len(), 1);
    let node = selection
        .matches
        .first()
        .cloned()
        .expect("interactive node should be found");
    assert_eq!(node.semantic_label.as_deref(), Some("Search by name or id"));
    assert_eq!(
        node.resource_id.as_deref(),
        Some("com.example:id/search_field")
    );
    assert_eq!(
        node.bounds,
        Some(UiBounds {
            left: 120,
            top: 220,
            right: 960,
            bottom: 360,
        })
    );
    let text_selection = find_interactive_ui_node(
        xml,
        &UiSelector {
            text: Some("Search by name or id".to_string()),
            ..UiSelector::default()
        },
    )
    .expect("placeholder text lookup should resolve its interactive ancestor");
    let text_node = text_selection
        .matches
        .first()
        .expect("interactive text field should be found");
    assert_eq!(
        text_node.class_name.as_deref(),
        Some("android.widget.EditText")
    );
    assert_eq!(
        text_node.resource_id.as_deref(),
        Some("com.example:id/search_field")
    );
    assert!(text_node.focusable);
    assert_eq!(
        text_node.semantic_label.as_deref(),
        Some("Search by name or id")
    );
}

#[test]
fn labeled_text_field_matches_typed_focusable_control_by_placeholder_descendant() {
    let xml = r#"
        <hierarchy>
          <node text="" content-desc="" resource-id="" class="android.widget.FrameLayout" package="com.example" clickable="false" focusable="false" enabled="true" selected="false" checked="false" bounds="[0,0][1080,2400]">
            <node text="mars" content-desc="" resource-id="" class="android.widget.EditText" package="com.example" clickable="true" focusable="true" enabled="true" selected="false" checked="false" focused="true" long-clickable="true" bounds="[120,220][960,360]">
              <node text="Search by name or id" content-desc="" resource-id="" class="android.widget.TextView" package="com.example" clickable="false" focusable="false" enabled="true" selected="false" checked="false" bounds="[160,260][580,312]" />
            </node>
          </node>
        </hierarchy>
    "#;
    let selection = find_interactive_ui_node(
        xml,
        &UiSelector {
            label: Some("Search by name or id".to_string()),
            label_exact: Some(true),
            focusable: Some(true),
            ..UiSelector::default()
        },
    )
    .expect("interactive lookup should succeed");
    assert_eq!(selection.matches.len(), 1);
    let node = selection
        .matches
        .first()
        .cloned()
        .expect("interactive node should be found");
    assert_eq!(node.text.as_deref(), Some("mars"));
    assert_eq!(node.semantic_label.as_deref(), Some("mars"));
    assert_eq!(node.resource_id, None);
    assert_eq!(
        node.bounds,
        Some(UiBounds {
            left: 120,
            top: 220,
            right: 960,
            bottom: 360,
        })
    );
}

#[test]
fn descendant_placeholder_label_does_not_bypass_non_label_selector_requirements() {
    let xml = r#"
        <hierarchy>
          <node text="" content-desc="" resource-id="" class="android.widget.FrameLayout" package="com.example" clickable="false" focusable="false" enabled="true" selected="false" checked="false" bounds="[0,0][1080,2400]">
            <node text="mars" content-desc="" resource-id="" class="android.widget.EditText" package="com.example" clickable="true" focusable="false" enabled="true" selected="false" checked="false" focused="true" long-clickable="true" bounds="[120,220][960,360]">
              <node text="Search by name or id" content-desc="" resource-id="" class="android.widget.TextView" package="com.example" clickable="false" focusable="false" enabled="true" selected="false" checked="false" bounds="[160,260][580,312]" />
            </node>
          </node>
        </hierarchy>
    "#;
    let selection = find_interactive_ui_node(
        xml,
        &UiSelector {
            label: Some("Search by name or id".to_string()),
            label_exact: Some(true),
            focusable: Some(true),
            ..UiSelector::default()
        },
    )
    .expect("interactive lookup should succeed");
    assert!(selection.matches.is_empty());
}

#[test]
fn interactive_lookup_reports_ambiguity_count() {
    let xml = r#"
        <hierarchy>
          <node text="" content-desc="" resource-id="" class="android.widget.FrameLayout" package="com.example" clickable="false" focusable="false" enabled="true" selected="false" checked="false" bounds="[0,0][1080,2400]">
            <node text="Search" content-desc="" resource-id="com.example:id/search_one" class="android.widget.Button" package="com.example" clickable="true" focusable="true" enabled="true" selected="false" checked="false" bounds="[48,96][240,180]" />
            <node text="Search" content-desc="" resource-id="com.example:id/search_two" class="android.widget.Button" package="com.example" clickable="true" focusable="true" enabled="true" selected="false" checked="false" bounds="[300,96][492,180]" />
          </node>
        </hierarchy>
    "#;
    let selection = find_interactive_ui_node(
        xml,
        &UiSelector {
            text: Some("Search".to_string()),
            ..UiSelector::default()
        },
    )
    .expect("interactive lookup should succeed");
    assert_eq!(selection.matches.len(), 2);
    assert_eq!(
        selection
            .matches
            .first()
            .as_ref()
            .and_then(|node| node.resource_id.as_deref()),
        Some("com.example:id/search_one")
    );
}
