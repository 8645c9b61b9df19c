use android_computer_use_mcp::tool_surface::{
    announced_size, build_about_text, build_help_text, resource_for_uri, scenario_entries,
    tool_group_counts, tool_names_distinct, tool_surface_entries, ResourceKind,
};

#[test]
fn tool_surface_registers_each_tool_once() {
    let entries = tool_surface_entries();
    assert_eq!(entries.len(), 41);
    assert!(tool_names_distinct(&entries));
    assert_eq!(entries[0].name, "interactive_session.get_status");
    assert!(entries[0].read_only);
}

#[test]
fn tool_groups_are_counted_in_order() {
    let counts = tool_group_counts(&tool_surface_entries());
    let expected = vec![
        ("app-control".to_string(), 7usize),
        ("emulator-lifecycle".to_string(), 4),
        ("interactive-session".to_string(), 4),
        ("observation".to_string(), 6),
        ("raw-input".to_string(), 8),
        ("semantic-ui".to_string(), 5),
        ("solarlab-scenarios".to_string(), 3),
        ("status".to_string(), 4),
    ];
    assert_eq!(counts, expected);
}

#[test]
fn scenario_catalog_lists_the_solar_lab_tools() {
    let scenarios = scenario_entries(&tool_surface_entries());
    let names: Vec<&str> = scenarios.iter().map(|e| e.name).collect();
    assert_eq!(
        names,
        vec![
            "solarlab.scenario.stage_first_focus_earth",
            "solarlab.scenario.stage_first_immersive_roundtrip",
            "solarlab.semantic_action"
        ]
    );
}

#[test]
fn discovery_texts_and_resources() {
    let about = build_about_text();
    assert!(about.starts_with("# Android Computer Use MCP\n\nPurpose:\n"));
    assert!(about.ends_with("catalog snapshots guard the public contract.\n"));
    let help = build_help_text();
    assert!(help.starts_with("# Android Computer Use MCP help\n"));
    assert!(help.contains("8. android.input.* only when semantic tools are insufficient."));
    assert_eq!(resource_for_uri("android-computer-use-mcp://help").unwrap(), ResourceKind::Help);
    assert_eq!(ResourceKind::ToolCatalog.mime_type(), "application/json");
    assert_eq!(ResourceKind::About.uri(), "android-computer-use-mcp://about");
    assert_eq!(
        resource_for_uri("android-computer-use-mcp://nope").err().unwrap().to_string(),
        "resource not found"
    );
    assert_eq!(announced_size(12), 12);
}
