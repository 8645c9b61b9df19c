use android_computer_use_mcp::adb::shell_quote;
use android_computer_use_mcp::artifact::{remote_ui_dump_path, timestamp_filename};
use android_computer_use_mcp::commands::{
    disable_rotation_command, keycombination_command, keycombination_keycodes, keyevent_command,
    launch_app_command, launch_wait_targets, list_apps_command, open_url_command, raw_rotation,
    swipe_outcome, terminate_app_command, uninstall_app_command, user_rotation_command,
};
use android_computer_use_mcp::device::{
    orientation_name_from_rotation, rotation_for_orientation, swipe_points_for_direction,
    ScrollDirection,
};
use android_computer_use_mcp::semantic::normalize_solarlab_semantic_ack_token;
use android_computer_use_mcp::touch::lerp_u32;

#[test]
fn launch_app_command_uses_component_or_launcher() {
    assert_eq!(
        launch_app_command(" com.example ", Some(" .Main ")).unwrap(),
        vec!["am", "start", "-n", "com.example/.Main"]
    );
    assert_eq!(
        launch_app_command("com.example", None).unwrap(),
        vec!["monkey", "-p", "com.example", "-c", "android.intent.category.LAUNCHER", "1"]
    );
    assert_eq!(
        launch_app_command("  ", None).err().unwrap().to_string(),
        "package_name must not be empty"
    );
    assert_eq!(
        launch_wait_targets("com.example", Some(".Main"), None, None),
        (Some(".Main"), Some("com.example"))
    );
    assert_eq!(
        launch_wait_targets("com.example", Some(".Main"), Some(".Other"), Some("com.other")),
        (Some(".Other"), Some("com.other"))
    );
}

#[test]
fn app_management_commands() {
    assert_eq!(list_apps_command(false), vec!["pm", "list", "packages"]);
    assert_eq!(list_apps_command(true)[2], "query-activities");
    assert_eq!(terminate_app_command("com.example"), vec!["am", "force-stop", "com.example"]);
    assert_eq!(uninstall_app_command("com.example"), vec!["uninstall", "com.example"]);
    assert_eq!(
        open_url_command("https://example.com/?a=1&b='2'"),
        vec![
            "am",
            "start",
            "-a",
            "android.intent.action.VIEW",
            "-d",
            "'https://example.com/?a=1&b='\"'\"'2'\"'\"''"
        ]
    );
}

#[test]
fn orientation_commands_and_readings() {
    assert_eq!(
        disable_rotation_command(),
        vec!["settings", "put", "system", "accelerometer_rotation", "0"]
    );
    assert_eq!(user_rotation_command(3), vec!["settings", "put", "system", "user_rotation", "3"]);
    assert_eq!(raw_rotation(" 2\n"), 2);
    assert_eq!(raw_rotation("bogus"), 0);
    assert_eq!(raw_rotation("256"), 0);
    for rotation in 0u8..4 {
        assert_eq!(
            rotation_for_orientation(orientation_name_from_rotation(rotation)).unwrap(),
            rotation
        );
    }
}

#[test]
fn key_commands() {
    assert_eq!(keyevent_command(" KEYCODE_ENTER "), vec!["input", "keyevent", "KEYCODE_ENTER"]);
    let keys = keycombination_keycodes(
        vec![" CTRL_LEFT ".to_string(), " ".to_string()],
        Some("A".to_string()),
        Some("".to_string()),
    )
    .unwrap();
    assert_eq!(keys, vec!["CTRL_LEFT", "A"]);
    assert_eq!(
        keycombination_command(&keys),
        vec!["input", "keycombination", "CTRL_LEFT", "A"]
    );
    assert_eq!(
        keycombination_keycodes(vec![" ".to_string()], None, None).err().unwrap().to_string(),
        "keycodes must include at least one non-empty keycode"
    );
}

#[test]
fn swipe_outcome_accepts_selector_or_scroll_change() {
    assert_eq!(swipe_outcome(false, false, true, true), (true, true));
    assert_eq!(swipe_outcome(true, false, false, false), (true, false));
    assert_eq!(swipe_outcome(false, true, false, false), (false, true));
}

#[test]
fn timestamp_filenames_differ_by_sequence() {
    let a = timestamp_filename("window-dump", Some("xml"), 1700, 1);
    let b = timestamp_filename("window-dump", Some("xml"), 1700, 12);
    let c = timestamp_filename("window-dump", Some("xml"), 170, 1);
    assert_eq!(a, "window-dump-1700-1.xml");
    assert_ne!(a, b);
    assert_ne!(a, c);
}

#[test]
fn ack_tokens_are_already_normal() {
    for raw in ["Mars (planet)", "--Earth--", "halley_comet 1P", ""] {
        let once = normalize_solarlab_semantic_ack_token(raw);
        assert_eq!(normalize_solarlab_semantic_ack_token(&once), once);
    }
    assert_eq!(normalize_solarlab_semantic_ack_token("--Earth  Moon--"), "earth-moon");
}

#[test]
fn lerp_reaches_both_endpoints() {
    assert_eq!(lerp_u32(100, 20, 0, 8), 100);
    assert_eq!(lerp_u32(100, 20, 8, 8), 20);
    assert_eq!(lerp_u32(20, 100, 4, 8), 60);
}

#[test]
fn swipe_directions_mirror_each_other() {
    let up = swipe_points_for_direction((1080, 2400), ScrollDirection::Up);
    let down = swipe_points_for_direction((1080, 2400), ScrollDirection::Down);
    assert_eq!((up.0, up.1, up.2, up.3), (down.2, down.3, down.0, down.1));
}

#[test]
fn shell_quote_wraps_metacharacters() {
    assert_eq!(shell_quote(""), "''");
    assert_eq!(shell_quote("a b;c"), "'a b;c'");
}

fn now_millis() -> u64 {
    std::time::SystemTime::now()
        .duration_since(std::time::UNIX_EPOCH)
        .map(|duration| duration.as_millis() as u64)
        .unwrap_or(0)
}

#[test]
fn timestamp_filename_is_unique_across_rapid_calls() {
    let millis = now_millis();
    let generated = (0..64u64)
        .map(|sequence| timestamp_filename("window-dump", Some("xml"), millis, sequence))
        .collect::<std::collections::HashSet<_>>();
    assert_eq!(generated.len(), 64);
}

#[test]
fn remote_ui_dump_path_is_unique_across_rapid_calls() {
    let millis = now_millis();
    let generated = (0..64u64)
        .map(|sequence| remote_ui_dump_path(millis, sequence))
        .collect::<std::collections::HashSet<_>>();
    assert_eq!(generated.len(), 64);
}

#[test]
fn remote_ui_dump_path_is_exact() {
    assert_eq!(remote_ui_dump_path(1700, 3), "/sdcard/window-dump-1700-3.xml");
}
