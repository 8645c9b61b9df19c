use android_computer_use_mcp::device::should_launch_without_window;
use android_computer_use_mcp::args::{
    default_true, emulator_launch_command, emulator_unit_name, systemd_scope_launch_command,
    LaunchAvdArgs, LaunchRequest, SolarLabAppArgs, SolarLabScenarioArgs,
};

#[test]
fn emulator_args_follow_the_request() {
    let args = LaunchAvdArgs {
        avd_name: "  Pixel_8  ".to_string(),
        no_window: false,
        gpu: Some("swiftshader_indirect".to_string()),
        grpc_port: None,
        extra_args: vec!["-wipe-data".to_string()],
    };
    let request = LaunchRequest::from_launch_avd(&args);
    assert_eq!(request.avd_name, "Pixel_8");
    let emulator_args = request.emulator_args(Some(8554), Some(":0".to_string()), None);
    assert_eq!(
        emulator_args,
        vec![
            "-avd", "Pixel_8", "-no-audio", "-no-boot-anim", "-netdelay", "none", "-netspeed",
            "full", "-no-snapshot-load", "-gpu", "swiftshader_indirect", "-grpc", "8554",
            "-wipe-data"
        ]
    );
}

#[test]
fn emulator_args_go_headless_without_a_display_and_prefer_the_requested_port() {
    let request = LaunchRequest {
        avd_name: "avd".to_string(),
        no_window: false,
        gpu: None,
        grpc_port: Some(9000),
        extra_args: Vec::new(),
    };
    let emulator_args = request.emulator_args(Some(8554), None, Some("".to_string()));
    assert_eq!(
        emulator_args,
        vec![
            "-avd", "avd", "-no-window", "-no-audio", "-no-boot-anim", "-netdelay", "none",
            "-netspeed", "full", "-no-snapshot-load", "-grpc", "9000"
        ]
    );
}

#[test]
fn scenario_app_defaults_to_solar_lab() {
    let app = SolarLabAppArgs::from_scenario_args(SolarLabScenarioArgs {
        serial: None,
        package_name: None,
        activity: Some(".Main".to_string()),
    });
    assert_eq!(app.package_name, "com.sednalabs.solarlab");
    assert_eq!(app.activity.as_deref(), Some(".Main"));
    assert!(default_true());
}

#[test]
fn launch_request_forces_headless_mode_when_no_display_is_available() {
    assert!(should_launch_without_window(false, None, Some(String::from(""))));
}

#[test]
fn launch_request_preserves_windowed_mode_when_display_exists() {
    assert!(!should_launch_without_window(false, Some(String::from(":0")), None));
}

#[test]
fn launch_request_honors_explicit_no_window() {
    assert!(should_launch_without_window(
        true,
        Some(String::from(":0")),
        Some(String::from("wayland-0")),
    ));
}

#[test]
fn emulator_launch_command_runs_directly_or_through_kvm_group() {
    let args = vec!["-avd".to_string(), "Pixel 8".to_string()];
    assert_eq!(
        emulator_launch_command(false, "/sdk/emulator/emulator", &args),
        vec!["/sdk/emulator/emulator", "-avd", "Pixel 8"]
    );
    assert_eq!(
        emulator_launch_command(true, "/sdk/emulator/emulator", &args),
        vec!["sg", "kvm", "-c", "'/sdk/emulator/emulator' '-avd' 'Pixel 8'"]
    );
}

#[test]
fn systemd_scope_launch_command_appends_output_to_log() {
    let args = vec!["-avd".to_string(), "Pixel_8".to_string()];
    let unit = emulator_unit_name("Pixel 8", 1700, 2);
    assert_eq!(unit, "android-emulator-avd-pixel-8-1700-2");
    assert_eq!(
        systemd_scope_launch_command(&unit, "/tmp/emulator.log", false, "emulator", &args),
        vec![
            "systemd-run",
            "--user",
            "--quiet",
            "--no-block",
            "--same-dir",
            "--collect",
            "--unit",
            "android-emulator-avd-pixel-8-1700-2",
            "--property",
            "StandardOutput=append:/tmp/emulator.log",
            "--property",
            "StandardError=append:/tmp/emulator.log",
            "emulator",
            "-avd",
            "Pixel_8",
        ]
    );
}
