use android_computer_use_mcp::session::{
    adb_install_failed_due_to_signature_mismatch, adb_install_succeeded,
};

#[test]
fn detects_signature_mismatch_install_failure() {
    let stderr = "adb: failed to install foo.apk: Failure [INSTALL_FAILED_UPDATE_INCOMPATIBLE: Existing package com.example signatures do not match newer version; ignoring!]";
    assert!(adb_install_failed_due_to_signature_mismatch("", stderr));
}

#[test]
fn install_success_detects_success_token() {
    assert!(adb_install_succeeded("Success", ""));
    assert!(adb_install_succeeded("", "Success"));
    assert!(!adb_install_succeeded(
        "",
        "Failure [INSTALL_FAILED_VERSION_DOWNGRADE]"
    ));
}
