use android_computer_use_mcp::error::ErrorKind;
use android_computer_use_mcp::polling::{
    boot_completed, boot_readiness_timeout_error, package_manager_ready,
};

#[test]
fn boot_completes_on_trimmed_one() {
    assert!(boot_completed("1\n"));
    assert!(boot_completed("  1  "));
    assert!(!boot_completed("0\n"));
    assert!(!boot_completed(""));
    assert!(!boot_completed("11"));
}

#[test]
fn package_manager_ready_needs_package_path() {
    assert_eq!(
        package_manager_ready("package:/system/framework/framework-res.apk\r\n").as_deref(),
        Some("package:/system/framework/framework-res.apk")
    );
    assert_eq!(package_manager_ready("Error: Could not access the Package Manager"), None);
    assert_eq!(package_manager_ready(""), None);
}

#[test]
fn boot_timeout_error_names_device_and_budget() {
    let error = boot_readiness_timeout_error("emulator-5554", 120_000);
    assert_eq!(error.kind, ErrorKind::InternalError);
    assert_eq!(
        error.message,
        "device emulator-5554 did not reach boot readiness within 120s"
    );
    assert_eq!(
        boot_readiness_timeout_error("emulator-5554", 1_500).message,
        "device emulator-5554 did not reach boot readiness within 1.5s"
    );
}
