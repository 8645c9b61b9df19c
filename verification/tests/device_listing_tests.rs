use android_computer_use_mcp::target::{parse_adb_devices, parse_avd_names};

#[test]
fn adb_devices_listing_skips_header_and_blank_lines() {
    let output = "List of devices attached\n\
                  emulator-5554          device product:sdk_gphone64 model:Pixel_8 transport_id:1\n\
                  \n\
                  R58M123 unauthorized usb:1-1\r\n\
                  garbage\n";
    let devices = parse_adb_devices(output);
    assert_eq!(devices.len(), 2);
    assert_eq!(devices[0].serial.as_deref(), Some("emulator-5554"));
    assert_eq!(devices[0].state.as_deref(), Some("device"));
    assert_eq!(
        devices[0].extra,
        vec![
            ("product".to_string(), "sdk_gphone64".to_string()),
            ("model".to_string(), "Pixel_8".to_string()),
            ("transport_id".to_string(), "1".to_string()),
        ]
    );
    assert_eq!(devices[1].serial.as_deref(), Some("R58M123"));
    assert_eq!(devices[1].state.as_deref(), Some("unauthorized"));
    assert!(parse_adb_devices("").is_empty());
    assert!(parse_adb_devices("emulator-5554 device\n").is_empty());
}

#[test]
fn avd_names_are_trimmed_non_blank_lines() {
    assert_eq!(
        parse_avd_names("Pixel_8_API_35\n\n  Small_Phone  \r\n"),
        vec!["Pixel_8_API_35", "Small_Phone"]
    );
    assert!(parse_avd_names("").is_empty());
}
