use android_computer_use_mcp::window_views::{
    format_fingerprint_hex, normalized_visible_window_dump_fingerprint,
    normalized_visible_window_dump_fingerprint_for_package, sort_entry_names,
    visible_window_entry_metadata, VisibleWindowEntryKind,
};
use std::collections::hash_map::DefaultHasher;
use std::hash::{Hash, Hasher};
use std::io::{Cursor, Write};
use zip::write::SimpleFileOptions;
use zip::CompressionMethod;
use zip::ZipWriter;

fn build_window_dump_zip(
    entries: &[(&str, &[u8])],
    reverse_order: bool,
    comment: Option<&str>,
) -> Vec<u8> {
    let buffer = Cursor::new(Vec::new());
    let mut writer = ZipWriter::new(buffer);
    if let Some(comment) = comment {
        writer.set_comment(comment);
    }
    let options = SimpleFileOptions::default().compression_method(CompressionMethod::Deflated);
    let iter: Box<dyn Iterator<Item = &(&str, &[u8])>> = if reverse_order {
        Box::new(entries.iter().rev())
    } else {
        Box::new(entries.iter())
    };
    for (name, payload) in iter {
        writer
            .start_file(name.to_string(), options)
            .expect("zip entry should start");
        writer
            .write_all(payload)
            .expect("zip entry payload should write");
    }
    writer.finish().expect("zip should finish").into_inner()
}

#[test]
fn normalized_visible_window_dump_fingerprint_ignores_zip_packaging_differences() {
    let first = build_window_dump_zip(
        &[("b-window", b"beta"), ("a-window", b"alpha")],
        false,
        Some("first-archive"),
    );
    let second = build_window_dump_zip(
        &[("a-window", b"alpha"), ("b-window", b"beta")],
        true,
        Some("second-archive"),
    );

    let first_fingerprint =
        normalized_visible_window_dump_fingerprint(&first).expect("first zip should parse");
    let second_fingerprint =
        normalized_visible_window_dump_fingerprint(&second).expect("second zip should parse");

    assert_eq!(first_fingerprint, second_fingerprint);
}

#[test]
fn normalized_visible_window_dump_fingerprint_changes_when_entry_payload_changes() {
    let baseline =
        build_window_dump_zip(&[("main-window", b"alpha"), ("ime", b"beta")], false, None);
    let changed =
        build_window_dump_zip(&[("main-window", b"alpha"), ("ime", b"gamma")], false, None);

    let baseline_fingerprint =
        normalized_visible_window_dump_fingerprint(&baseline).expect("baseline zip should parse");
    let changed_fingerprint =
        normalized_visible_window_dump_fingerprint(&changed).expect("changed zip should parse");

    assert_ne!(baseline_fingerprint, changed_fingerprint);
}

#[test]
fn invalid_visible_window_dump_zip_is_rejected() {
    let error = normalized_visible_window_dump_fingerprint(b"not-a-zip")
        .expect_err("invalid payload should fail");
    assert!(error.contains("failed to open visible-window dump zip"));
}

#[test]
fn visible_window_entry_metadata_extracts_package_and_shared_kinds() {
    let app_window =
        visible_window_entry_metadata("7c34837 com.sednalabs.solarlab/com.sednalabs.Main");
    assert_eq!(app_window.package_name.as_deref(), Some("com.sednalabs.solarlab"));
    assert_eq!(app_window.kind, VisibleWindowEntryKind::PackageWindow);

    let ime = visible_window_entry_metadata("eff6665 InputMethod");
    assert_eq!(ime.package_name, None);
    assert_eq!(ime.kind, VisibleWindowEntryKind::InputMethod);

    let popup = visible_window_entry_metadata("bd7ea44 Pop-Up Window");
    assert_eq!(popup.package_name, None);
    assert_eq!(popup.kind, VisibleWindowEntryKind::PopupWindow);
}

#[test]
fn package_aware_visible_window_fingerprint_ignores_unrelated_windows() {
    let baseline = build_window_dump_zip(
        &[
            ("7c34837 com.example.app/.MainActivity", b"app"),
            ("eff6665 InputMethod", b"ime"),
            (
                "a7851fb com.other.launcher/.LauncherActivity",
                b"launcher-a",
            ),
            ("50d5895 StatusBar", b"status"),
        ],
        false,
        None,
    );
    let changed = build_window_dump_zip(
        &[
            ("7c34837 com.example.app/.MainActivity", b"app"),
            ("eff6665 InputMethod", b"ime"),
            (
                "a7851fb com.other.launcher/.LauncherActivity",
                b"launcher-b",
            ),
            ("50d5895 StatusBar", b"status-updated"),
        ],
        false,
        None,
    );

    let baseline_fingerprint = normalized_visible_window_dump_fingerprint_for_package(
        &baseline,
        Some("com.example.app"),
    )
    .expect("baseline zip should parse");
    let changed_fingerprint = normalized_visible_window_dump_fingerprint_for_package(
        &changed,
        Some("com.example.app"),
    )
    .expect("changed zip should parse");

    assert_eq!(baseline_fingerprint, changed_fingerprint);
}

#[test]
fn package_aware_visible_window_fingerprint_keeps_shared_input_method_changes() {
    let baseline = build_window_dump_zip(
        &[
            ("7c34837 com.example.app/.MainActivity", b"app"),
            ("eff6665 InputMethod", b"ime-a"),
        ],
        false,
        None,
    );
    let changed = build_window_dump_zip(
        &[
            ("7c34837 com.example.app/.MainActivity", b"app"),
            ("eff6665 InputMethod", b"ime-b"),
        ],
        false,
        None,
    );

    let baseline_fingerprint = normalized_visible_window_dump_fingerprint_for_package(
        &baseline,
        Some("com.example.app"),
    )
    .expect("baseline zip should parse");
    let changed_fingerprint = normalized_visible_window_dump_fingerprint_for_package(
        &changed,
        Some("com.example.app"),
    )
    .expect("changed zip should parse");

    assert_ne!(baseline_fingerprint, changed_fingerprint);
}

#[test]
fn package_aware_visible_window_fingerprint_falls_back_to_global_when_package_missing() {
    let payload = build_window_dump_zip(
        &[
            ("a7851fb com.other.launcher/.LauncherActivity", b"launcher"),
            ("50d5895 StatusBar", b"status"),
        ],
        false,
        None,
    );

    let global =
        normalized_visible_window_dump_fingerprint(&payload).expect("global fingerprint should parse");
    let missing_package = normalized_visible_window_dump_fingerprint_for_package(
        &payload,
        Some("com.example.app"),
    )
    .expect("package-aware fingerprint should fall back");

    assert_eq!(global, missing_package);
}

#[test]
fn fingerprint_is_sixteen_lowercase_hex_digits() {
    let payload = build_window_dump_zip(&[("main-window", b"alpha")], false, None);
    let fingerprint = normalized_visible_window_dump_fingerprint(&payload).expect("zip should parse");
    assert_eq!(fingerprint.len(), 16);
    assert!(fingerprint.chars().all(|c| c.is_ascii_digit() || ('a'..='f').contains(&c)));
}

#[test]
fn fingerprint_hex_formatting_matches_std() {
    for value in [0u64, 1, 0xabc, 0x0123_4567_89ab_cdef, u64::MAX] {
        assert_eq!(format_fingerprint_hex(value), format!("{:016x}", value));
    }
}

#[test]
fn fingerprint_matches_default_hasher_over_sorted_entries() {
    let payload = build_window_dump_zip(&[("b", b"2"), ("a", b"1")], false, None);
    let mut hasher = DefaultHasher::new();
    "a".to_string().hash(&mut hasher);
    b"1".to_vec().hash(&mut hasher);
    "b".to_string().hash(&mut hasher);
    b"2".to_vec().hash(&mut hasher);
    let expected = format!("{:016x}", hasher.finish());
    assert_eq!(normalized_visible_window_dump_fingerprint(&payload).unwrap(), expected);
}

#[test]
fn package_aware_fingerprint_differs_from_global_when_package_present() {
    let payload = build_window_dump_zip(
        &[
            ("7c34837 com.example.app/.MainActivity", b"app"),
            ("50d5895 StatusBar", b"status"),
        ],
        false,
        None,
    );
    let global = normalized_visible_window_dump_fingerprint(&payload).unwrap();
    let targeted =
        normalized_visible_window_dump_fingerprint_for_package(&payload, Some("com.example.app"))
            .unwrap();
    assert_ne!(global, targeted);
}

#[test]
fn entry_metadata_edge_cases() {
    let no_token = visible_window_entry_metadata("com.example.app/.Main");
    assert_eq!(no_token.package_name.as_deref(), Some("com.example.app"));
    let non_hex_token = visible_window_entry_metadata("zz InputMethod");
    assert_eq!(non_hex_token.kind, VisibleWindowEntryKind::Other);
    let empty_package = visible_window_entry_metadata("abc /Activity");
    assert_eq!(empty_package.package_name, None);
    assert_eq!(empty_package.kind, VisibleWindowEntryKind::Other);
    assert!(VisibleWindowEntryKind::InputMethod.is_shared_with_target_package());
    assert!(!VisibleWindowEntryKind::PackageWindow.is_shared_with_target_package());
}

#[test]
fn entry_names_sort_like_strings() {
    let names = vec!["b".to_string(), "a-window".to_string(), "a".to_string(), "B".to_string()];
    let mut expected = names.clone();
    expected.sort();
    assert_eq!(sort_entry_names(names), expected);
}
