//! The arguments of the harness's tools, as plain values, and the requests
//! that some of them turn into.
use vstd::prelude::*;
use crate::adb::{sanitize_filename, shell_quote_command, spec_sanitize_filename, spec_shell_quote_command};
use crate::artifact::{spec_timestamp_filename, timestamp_filename};
use crate::device::{MultiTouchPointer, should_launch_without_window, spec_launch_without_window};
use crate::error::{ErrorKind, McpError, owned};
use crate::target::{AndroidExecutionTarget};
use crate::text::{trimmed, append_str, chars_of, decimal, lines, push_decimal, push_owned, string_of, string_views, trim, trim_string};
use crate::ui::{strs_view, UiSelectorInput, clone_opt, opt_view};

verus! {

pub struct EmptyArgs {}

/// Arguments for launching an Android Virtual Device (AVD).
pub struct LaunchAvdArgs {
    /// Name of the AVD to launch.
    pub avd_name: String,
    /// Launch the emulator without a UI window.
    pub no_window: bool,
    /// Hardware acceleration/GPU configuration.
    pub gpu: Option<String>,
    /// Optional port for the emulator's gRPC control service.
    pub grpc_port: Option<u16>,
    /// Additional arguments passed directly to the emulator binary.
    pub extra_args: Vec<String>,
}

/// Arguments for launching an AVD and awaiting successful boot.
pub struct LaunchAvdAndWaitArgs {
    /// Name of the AVD to launch.
    pub avd_name: String,
    /// Launch the emulator without a UI window.
    pub no_window: bool,
    /// Hardware acceleration/GPU configuration.
    pub gpu: Option<String>,
    /// Optional port for the emulator's gRPC control service.
    pub grpc_port: Option<u16>,
    /// Additional arguments passed directly to the emulator binary.
    pub extra_args: Vec<String>,
    /// Expected ADB serial for the booted emulator.
    pub expected_serial: Option<String>,
    /// Timeout in seconds to wait for boot completion.
    pub timeout_secs: Option<u64>,
}

pub struct SerialArgs {
    /// ADB serial of the target device.
    pub serial: Option<String>,
}

/// Resolve and validate the exact Android provider session for a call.
pub struct ResolveAndroidTargetArgs {
    /// Optional exact session target. Omitted fields resolve only from this
    /// provider process's one configured identity tuple.
    pub target: Option<AndroidExecutionTarget>,
    /// Compatibility serial hint. When both this and target.device_serial are
    /// supplied, they must identify the same device.
    pub serial: Option<String>,
}

/// Arguments for waiting until an emulator reports boot completion.
pub struct WaitForBootArgs {
    /// ADB serial of the target device.
    pub serial: Option<String>,
    /// Timeout in seconds to wait for boot completion.
    pub timeout_secs: Option<u64>,
}

/// Arguments for installing an APK onto a device.
pub struct InstallApkArgs {
    /// ADB serial of the target device.
    pub serial: Option<String>,
    /// Absolute or relative path to the APK file on the host.
    pub apk_path: String,
    /// Whether to replace an existing installation in place.
    pub reinstall: bool,
}

/// Arguments for launching an installed Android app and optionally waiting for readiness.
pub struct LaunchAppArgs {
    /// ADB serial of the target device.
    pub serial: Option<String>,
    /// Android package name to launch.
    pub package_name: String,
    /// Optional fully qualified activity name to launch directly.
    pub activity: Option<String>,
    /// Optional selector to verify after launch.
    pub wait_for_selector: Option<UiSelectorInput>,
    /// Optional activity name expected after launch.
    pub wait_for_activity: Option<String>,
    /// Optional package name expected after launch.
    pub wait_for_package: Option<String>,
    /// Timeout in seconds for launch and post-launch verification.
    pub timeout_secs: Option<u64>,
}

/// Arguments for listing installed Android apps.
pub struct ListAppsArgs {
    /// ADB serial of the target device.
    pub serial: Option<String>,
    /// Return only apps with launcher activities.
    pub launcher_only: bool,
}

/// Arguments for app-management operations by package name.
pub struct PackageNameArgs {
    /// ADB serial of the target device.
    pub serial: Option<String>,
    /// Android package name.
    pub package_name: String,
    /// Timeout in seconds for dispatch and optional verification.
    pub timeout_secs: Option<u64>,
}

/// Arguments for opening a URL on the Android device.
pub struct OpenUrlArgs {
    /// ADB serial of the target device.
    pub serial: Option<String>,
    /// URL to open. http:// and https:// are allowed by default.
    pub url: String,
    /// Optional selector to verify after the URL is opened.
    pub wait_for_selector: Option<UiSelectorInput>,
    /// Optional activity name expected after opening the URL.
    pub wait_for_activity: Option<String>,
    /// Optional package name expected after opening the URL.
    pub wait_for_package: Option<String>,
    /// Timeout in seconds for dispatch and postcondition verification.
    pub timeout_secs: Option<u64>,
}

/// Arguments for changing device orientation.
pub struct SetOrientationArgs {
    /// ADB serial of the target device.
    pub serial: Option<String>,
    /// Desired orientation: portrait, landscape, reverse_portrait, or reverse_landscape.
    pub orientation: String,
    /// Optional selector to verify after changing orientation.
    pub wait_for_selector: Option<UiSelectorInput>,
    /// Timeout in seconds for dispatch and postcondition verification.
    pub timeout_secs: Option<u64>,
}

/// Arguments for capturing a device screenshot artifact.
pub struct ScreenshotArgs {
    /// ADB serial of the target device.
    pub serial: Option<String>,
    /// Optional path to save the screenshot artifact.
    pub filename: Option<String>,
}

/// Arguments for dumping the current UI hierarchy as an artifact.
pub struct UiDumpArgs {
    /// ADB serial of the target device.
    pub serial: Option<String>,
    /// Optional path to save the dumped hierarchy.
    pub filename: Option<String>,
}

/// Arguments for reading a previously generated artifact file.
pub struct ReadArtifactArgs {
    /// Absolute or relative path to the artifact file previously returned by the harness.
    pub path: String,
    /// Encoding for the response payload. Use `utf8` for textual artifacts and `base64` for binary payloads.
    pub encoding: Option<String>,
}

/// Arguments for inspecting the current UI hierarchy and screenshot.
pub struct InspectUiArgs {
    /// ADB serial of the target device.
    pub serial: Option<String>,
    /// Path to save the extracted UI hierarchy.
    pub hierarchy_filename: Option<String>,
    /// Whether to include a screenshot of the current state.
    pub include_screenshot: bool,
    /// Path to save the screenshot.
    pub screenshot_filename: Option<String>,
}

/// Arguments for waiting until the UI state has stabilized.
pub struct WaitForStableUiArgs {
    /// ADB serial of the target device.
    pub serial: Option<String>,
    /// Timeout in seconds to wait for stabilization.
    pub timeout_secs: Option<u64>,
    /// Interval in milliseconds to poll for stability.
    pub poll_interval_ms: Option<u64>,
    /// Number of consecutive stable polls required.
    pub stable_polls: Option<u32>,
    /// Optional path to save the hierarchy if inspection is desired.
    pub hierarchy_filename: Option<String>,
    /// Whether to include a screenshot.
    pub include_screenshot: bool,
    /// Path to save the screenshot.
    pub screenshot_filename: Option<String>,
}

/// Arguments for finding a UI element based on a selector.
pub struct FindUiElementArgs {
    /// ADB serial of the target device.
    pub serial: Option<String>,
    /// The selector defining the UI element to locate.
    pub selector: UiSelectorInput,
    /// Optional path to save the hierarchy.
    pub hierarchy_filename: Option<String>,
    /// The index to match if multiple elements are found.
    pub match_index: Option<usize>,
}

/// Arguments for tapping on a UI element.
pub struct TapElementArgs {
    /// ADB serial of the target device.
    pub serial: Option<String>,
    /// The selector defining the element to tap.
    pub selector: UiSelectorInput,
    /// Optional path to save the hierarchy.
    pub hierarchy_filename: Option<String>,
    /// Whether to wait for the element to disappear after the tap.
    pub wait_until_absent: bool,
    /// Optional selector to verify success after the tap.
    pub wait_for_selector: Option<UiSelectorInput>,
    /// Timeout in seconds for the operation.
    pub timeout_secs: Option<u64>,
    /// Whether to retry the operation using ADB if UI does not change.
    pub retry_with_adb_on_no_change: bool,
    /// Whether to allow the tool to succeed even if verification fails.
    pub allow_verification_failure: bool,
    /// The index to match if multiple elements are found.
    pub match_index: Option<usize>,
}

pub struct TypeIntoElementArgs {
    /// ADB serial of the target device.
    pub serial: Option<String>,
    /// Selector for the element that should receive the text.
    pub selector: UiSelectorInput,
    /// Text value that should be set into the target field.
    pub text: String,
    /// Optional path to save the hierarchy captured during verification.
    pub hierarchy_filename: Option<String>,
    /// Timeout in seconds for focus, dispatch, and text verification.
    pub timeout_secs: Option<u64>,
    /// The index to match if multiple elements satisfy the selector.
    pub match_index: Option<usize>,
}

/// Arguments for scrolling until a matching element becomes visible.
pub struct ScrollUntilVisibleArgs {
    /// ADB serial of the target device.
    pub serial: Option<String>,
    /// Selector for the element that should become visible.
    pub selector: UiSelectorInput,
    /// Scroll direction such as `up`, `down`, `left`, or `right`.
    pub direction: Option<String>,
    /// Maximum number of swipe attempts before giving up.
    pub max_swipes: Option<u32>,
    /// Optional path to save the final hierarchy snapshot.
    pub hierarchy_filename: Option<String>,
    /// The index to match if multiple elements satisfy the selector.
    pub match_index: Option<usize>,
}

/// Arguments for collecting recent logcat output as an artifact.
pub struct LogcatArgs {
    /// ADB serial of the target device.
    pub serial: Option<String>,
    /// Optional path to save the collected logcat output.
    pub filename: Option<String>,
    /// Number of recent log lines to capture.
    pub lines: Option<u32>,
}

/// Arguments for tapping an absolute screen coordinate.
pub struct TapArgs {
    /// ADB serial of the target device.
    pub serial: Option<String>,
    /// Horizontal coordinate in device pixels.
    pub x: u32,
    /// Vertical coordinate in device pixels.
    pub y: u32,
    /// Optional selector describing the tapped element for verification.
    pub tapped_selector: Option<UiSelectorInput>,
    /// Whether to wait for the tapped selector to disappear.
    pub wait_until_absent: bool,
    /// Optional selector to verify after the tap.
    pub wait_for_selector: Option<UiSelectorInput>,
    /// Timeout in seconds for tap dispatch and verification.
    pub timeout_secs: Option<u64>,
    /// Whether to retry with ADB if the first backend reports no UI change.
    pub retry_with_adb_on_no_change: bool,
}

/// Arguments for sending a double-tap input event to an absolute screen coordinate.
pub struct DoubleTapArgs {
    /// ADB serial of the target device.
    pub serial: Option<String>,
    /// Horizontal coordinate in device pixels.
    pub x: u32,
    /// Vertical coordinate in device pixels.
    pub y: u32,
    /// Optional selector to verify after the double tap.
    pub wait_for_selector: Option<UiSelectorInput>,
    /// Timeout in seconds for dispatch and verification.
    pub timeout_secs: Option<u64>,
}

/// Arguments for sending a long-press input event to an absolute screen coordinate.
pub struct LongPressArgs {
    /// ADB serial of the target device.
    pub serial: Option<String>,
    /// Horizontal coordinate in device pixels.
    pub x: u32,
    /// Vertical coordinate in device pixels.
    pub y: u32,
    /// Duration of the press in milliseconds.
    pub duration_ms: Option<u64>,
    /// Optional selector to verify after the long press.
    pub wait_for_selector: Option<UiSelectorInput>,
    /// Timeout in seconds for dispatch and verification.
    pub timeout_secs: Option<u64>,
}

/// Arguments for sending text input to the currently focused element.
pub struct TextArgs {
    /// ADB serial of the target device.
    pub serial: Option<String>,
    /// Text to dispatch to the focused field.
    pub text: String,
    /// Optional selector that must be focused before dispatching text.
    pub expect_focus_selector: Option<UiSelectorInput>,
    /// Optional selector to verify after text dispatch.
    pub wait_for_selector: Option<UiSelectorInput>,
    /// Timeout in seconds for dispatch and verification.
    pub timeout_secs: Option<u64>,
}

/// Arguments for waiting for a UI element to appear or disappear.
pub struct WaitUiElementArgs {
    /// ADB serial of the target device.
    pub serial: Option<String>,
    /// The selector defining the UI element to wait for.
    pub selector: UiSelectorInput,
    /// Optional path to save the hierarchy.
    pub hierarchy_filename: Option<String>,
    /// The index to match if multiple elements are found.
    pub match_index: Option<usize>,
    /// Wait for the selector to be absent instead of present.
    pub absent: bool,
    /// Timeout in seconds for the operation.
    pub timeout_secs: Option<u64>,
}

/// Arguments for swiping between two screen coordinates.
pub struct SwipeArgs {
    /// ADB serial of the target device.
    pub serial: Option<String>,
    /// Starting horizontal coordinate in device pixels.
    pub x1: u32,
    /// Starting vertical coordinate in device pixels.
    pub y1: u32,
    /// Ending horizontal coordinate in device pixels.
    pub x2: u32,
    /// Ending vertical coordinate in device pixels.
    pub y2: u32,
    /// Optional swipe duration in milliseconds.
    pub duration_ms: Option<u64>,
    /// Optional selector to verify after the swipe.
    pub wait_for_selector: Option<UiSelectorInput>,
    /// Whether the caller expects the swipe to change scroll position.
    pub expect_scroll_change: bool,
    /// Timeout in seconds for swipe dispatch and verification.
    pub timeout_secs: Option<u64>,
}

/// Arguments for sending an atomic multi-touch gesture.
pub struct MultiTouchArgs {
    /// ADB serial of the target emulator.
    pub serial: Option<String>,
    /// Two to five pointer paths dispatched together in every frame.
    pub pointers: Vec<MultiTouchPointer>,
    /// Optional gesture duration in milliseconds, from 50 through 2000.
    pub duration_ms: Option<u64>,
    /// Timeout in seconds for multi-touch dispatch.
    pub timeout_secs: Option<u64>,
}

/// Arguments for sending a key event to the device.
pub struct KeyeventArgs {
    /// ADB serial of the target device.
    pub serial: Option<String>,
    /// Android keycode name to dispatch, such as `KEYCODE_ENTER`.
    pub keycode: String,
    /// Optional selector to verify after the key event.
    pub wait_for_selector: Option<UiSelectorInput>,
    /// Optional activity name expected after the key event.
    pub wait_for_activity: Option<String>,
    /// Optional package name expected after the key event.
    pub wait_for_package: Option<String>,
    /// Timeout in seconds for dispatch and postcondition verification.
    pub timeout_secs: Option<u64>,
}

/// Arguments for sending a chorded Android key combination to the device.
pub struct KeycombinationArgs {
    /// ADB serial of the target device.
    pub serial: Option<String>,
    /// Android keycode names to dispatch as one combination, such as `CTRL_LEFT` and `A`.
    pub keycodes: Vec<String>,
    /// Compatibility alias for callers that send one key as `keycode`.
    pub keycode: Option<String>,
    /// Compatibility alias for callers that send one key as `key`.
    pub key: Option<String>,
    /// Optional selector to verify after the key combination.
    pub wait_for_selector: Option<UiSelectorInput>,
    /// Optional activity name expected after the key combination.
    pub wait_for_activity: Option<String>,
    /// Optional package name expected after the key combination.
    pub wait_for_package: Option<String>,
    /// Timeout in seconds for dispatch and postcondition verification.
    pub timeout_secs: Option<u64>,
}

pub struct SolarLabScenarioArgs {
    pub serial: Option<String>,
    pub package_name: Option<String>,
    pub activity: Option<String>,
}

/// The default of the boolean arguments that are on unless turned off.
pub fn default_true() -> (r: bool)
    ensures
        r,
{
    true
}

/// The app that a Solar Lab scenario drives.
pub struct SolarLabAppArgs {
    pub package_name: String,
    pub activity: Option<String>,
}

impl SolarLabAppArgs {
    /// The scenario's app: its package, or Solar Lab's own, and its activity.
    pub fn from_scenario_args(value: SolarLabScenarioArgs) -> (r: Self)
        ensures
            r.package_name@ == (match value.package_name {
                Some(p) => p@,
                None => "com.sednalabs.solarlab"@,
            }),
            r.activity == value.activity,
    {
        let package_name = match value.package_name {
            Some(p) => p,
            None => owned("com.sednalabs.solarlab"),
        };
        SolarLabAppArgs { package_name, activity: value.activity }
    }
}

/// What launching an emulator needs from the launch arguments.
pub struct LaunchRequest {
    pub avd_name: String,
    pub no_window: bool,
    pub gpu: Option<String>,
    pub grpc_port: Option<u16>,
    pub extra_args: Vec<String>,
}

/// The emulator's command-line arguments: the AVD, `-no-window` where the
/// emulator runs without a window, the fixed options that make a test
/// emulator quick and quiet, the GPU mode and gRPC port where given, and the
/// caller's extra arguments last.
pub open spec fn emulator_args_spec(
    avd_name: Seq<char>,
    windowless: bool,
    gpu: Option<Seq<char>>,
    grpc_port: Option<u16>,
    extra_args: Seq<Seq<char>>,
) -> Seq<Seq<char>> {
    seq!["-avd"@, avd_name] + (if windowless {
        seq!["-no-window"@]
    } else {
        Seq::empty()
    }) + seq![
        "-no-audio"@,
        "-no-boot-anim"@,
        "-netdelay"@,
        "none"@,
        "-netspeed"@,
        "full"@,
        "-no-snapshot-load"@,
    ] + (match gpu {
        Some(g) => seq!["-gpu"@, g],
        None => Seq::empty(),
    }) + (match grpc_port {
        Some(p) => seq!["-grpc"@, decimal(p as nat)],
        None => Seq::empty(),
    }) + extra_args
}

fn clone_strings(v: &Vec<String>) -> (r: Vec<String>)
    ensures
        string_views(r@) == string_views(v@),
{
    let mut r: Vec<String> = Vec::new();
    let mut i: usize = 0;
    while i < v.len()
        invariant
            i <= v.len(),
            string_views(r@) == string_views(v@).subrange(0, i as int),
        decreases v.len() - i,
    {
        push_owned(&mut r, v[i].as_str());
        assert(string_views(v@).subrange(0, i + 1) =~= string_views(v@).subrange(0, i as int).push(v@[i as int]@));
        i = i + 1;
    }
    assert(string_views(v@).subrange(0, v.len() as int) =~= string_views(v@));
    r
}

impl LaunchRequest {
    /// The request of `android.launch_avd`: the AVD name trimmed, the rest as given.
    pub fn from_launch_avd(value: &LaunchAvdArgs) -> (r: Self)
        ensures
            r.avd_name@ == trim(value.avd_name@),
            r.no_window == value.no_window,
            r.gpu == value.gpu,
            r.grpc_port == value.grpc_port,
            string_views(r.extra_args@) == string_views(value.extra_args@),
    {
        LaunchRequest {
            avd_name: trim_string(value.avd_name.as_str()),
            no_window: value.no_window,
            gpu: clone_opt(&value.gpu),
            grpc_port: value.grpc_port,
            extra_args: clone_strings(&value.extra_args),
        }
    }

    /// The request of `android.launch_avd_and_wait`, as `from_launch_avd` builds it.
    pub fn from_launch_avd_and_wait(value: &LaunchAvdAndWaitArgs) -> (r: Self)
        ensures
            r.avd_name@ == trim(value.avd_name@),
            r.no_window == value.no_window,
            r.gpu == value.gpu,
            r.grpc_port == value.grpc_port,
            string_views(r.extra_args@) == string_views(value.extra_args@),
    {
        LaunchRequest {
            avd_name: trim_string(value.avd_name.as_str()),
            no_window: value.no_window,
            gpu: clone_opt(&value.gpu),
            grpc_port: value.grpc_port,
            extra_args: clone_strings(&value.extra_args),
        }
    }

    /// The emulator's arguments, given the port to use where the request names
    /// none and the session's `DISPLAY` and `WAYLAND_DISPLAY`.
    pub fn emulator_args(
        &self,
        default_grpc_port: Option<u16>,
        display: Option<String>,
        wayland_display: Option<String>,
    ) -> (r: Vec<String>)
        ensures
            string_views(r@) == emulator_args_spec(
                self.avd_name@,
                spec_launch_without_window(self.no_window, opt_view(display), opt_view(wayland_display)),
                opt_view(self.gpu),
                if self.grpc_port is Some { self.grpc_port } else { default_grpc_port },
                string_views(self.extra_args@),
            ),
    {
        let mut args: Vec<String> = Vec::new();
        push_owned(&mut args, "-avd");
        push_owned(&mut args, self.avd_name.as_str());
        if should_launch_without_window(self.no_window, display, wayland_display) {
            push_owned(&mut args, "-no-window");
        }
        push_owned(&mut args, "-no-audio");
        push_owned(&mut args, "-no-boot-anim");
        push_owned(&mut args, "-netdelay");
        push_owned(&mut args, "none");
        push_owned(&mut args, "-netspeed");
        push_owned(&mut args, "full");
        push_owned(&mut args, "-no-snapshot-load");
        if let Some(gpu) = &self.gpu {
            push_owned(&mut args, "-gpu");
            push_owned(&mut args, gpu.as_str());
        }
        let port = match self.grpc_port {
            Some(p) => Some(p),
            None => default_grpc_port,
        };
        if let Some(p) = port {
            push_owned(&mut args, "-grpc");
            let mut digits: Vec<char> = Vec::new();
            push_decimal(&mut digits, p as u64);
            let spelled = string_of(digits.as_slice());
            push_owned(&mut args, spelled.as_str());
        }
        let ghost before = string_views(args@);
        let mut i: usize = 0;
        while i < self.extra_args.len()
            invariant
                i <= self.extra_args.len(),
                string_views(args@) == before + string_views(self.extra_args@).subrange(0, i as int),
            decreases self.extra_args.len() - i,
        {
            push_owned(&mut args, self.extra_args[i].as_str());
            assert(string_views(self.extra_args@).subrange(0, i + 1) =~= string_views(self.extra_args@).subrange(0, i as int).push(self.extra_args@[i as int]@));
            i = i + 1;
        }
        assert(string_views(self.extra_args@).subrange(0, self.extra_args.len() as int) =~= string_views(self.extra_args@));
        assert(string_views(args@) =~= emulator_args_spec(
            self.avd_name@,
            spec_launch_without_window(self.no_window, opt_view(display), opt_view(wayland_display)),
            opt_view(self.gpu),
            if self.grpc_port is Some { self.grpc_port } else { default_grpc_port },
            string_views(self.extra_args@),
        ));
        args
    }
}


/// A launch needs an AVD name that is not blank.
pub fn require_avd_name(request: &LaunchRequest) -> (r: Result<(), McpError>)
    ensures
        trim(request.avd_name@).len() > 0 ==> r is Ok,
        trim(request.avd_name@).len() == 0 ==> (r matches Err(e) && e.kind == ErrorKind::InvalidParams
            && e.message@ == "avd_name must not be empty"@),
{
    let t = trimmed(request.avd_name.as_str());
    if t.len() == 0 {
        Err(McpError::invalid_params(owned("avd_name must not be empty")))
    } else {
        Ok(())
    }
}

/// The command line that starts the emulator: through `sg kvm -c` with the
/// command shell-quoted where the emulator must run in the `kvm` group, else
/// the emulator itself with its arguments.
pub open spec fn spec_emulator_launch_command(
    use_sg_kvm: bool,
    emulator_path: Seq<char>,
    emulator_args: Seq<Seq<char>>,
) -> Seq<Seq<char>> {
    if use_sg_kvm {
        seq!["sg"@, "kvm"@, "-c"@, spec_shell_quote_command(emulator_path, emulator_args)]
    } else {
        seq![emulator_path] + emulator_args
    }
}

pub fn emulator_launch_command(use_sg_kvm: bool, emulator_path: &str, emulator_args: &Vec<String>) -> (r:
    Vec<String>)
    ensures
        string_views(r@) == spec_emulator_launch_command(
            use_sg_kvm,
            emulator_path@,
            string_views(emulator_args@),
        ),
{
    let mut command: Vec<String> = Vec::new();
    if use_sg_kvm {
        push_owned(&mut command, "sg");
        push_owned(&mut command, "kvm");
        push_owned(&mut command, "-c");
        let quoted = shell_quote_command(emulator_path, emulator_args.as_slice());
        assert(strs_view(emulator_args@) =~= string_views(emulator_args@));
        push_owned(&mut command, quoted.as_str());
    } else {
        push_owned(&mut command, emulator_path);
        let mut i: usize = 0;
        while i < emulator_args.len()
            invariant
                i <= emulator_args@.len(),
                string_views(command@) == seq![emulator_path@] + string_views(emulator_args@).subrange(
                    0,
                    i as int,
                ),
            decreases emulator_args.len() - i,
        {
            push_owned(&mut command, emulator_args[i].as_str());
            assert(string_views(emulator_args@).subrange(0, i + 1) =~= string_views(
                emulator_args@,
            ).subrange(0, i as int).push(emulator_args@[i as int]@));
            i = i + 1;
        }
        assert(string_views(emulator_args@).subrange(0, emulator_args.len() as int) =~= string_views(
            emulator_args@,
        ));
    }
    assert(string_views(command@) =~= spec_emulator_launch_command(
        use_sg_kvm,
        emulator_path@,
        string_views(emulator_args@),
    ));
    command
}

/// The name of the user unit that runs an emulator: the AVD name made safe
/// for a file name, timestamped.
pub open spec fn spec_emulator_unit_name(avd_name: Seq<char>, millis: u64, sequence: u64) -> Seq<char> {
    "android-emulator-avd-"@ + spec_timestamp_filename(spec_sanitize_filename(avd_name), None, millis, sequence)
}

pub fn emulator_unit_name(avd_name: &str, millis: u64, sequence: u64) -> (r: String)
    ensures
        r@ == spec_emulator_unit_name(avd_name@, millis, sequence),
{
    let safe = sanitize_filename(avd_name);
    let name = timestamp_filename(safe.as_str(), None, millis, sequence);
    let mut v = chars_of("android-emulator-avd-");
    append_str(&mut v, name.as_str());
    string_of(v.as_slice())
}

/// The command line that starts the emulator in a transient user unit of
/// its own, with both output streams appended to the log file.
pub open spec fn spec_systemd_scope_launch_command(
    unit_name: Seq<char>,
    log_path: Seq<char>,
    use_sg_kvm: bool,
    emulator_path: Seq<char>,
    emulator_args: Seq<Seq<char>>,
) -> Seq<Seq<char>> {
    seq![
        "systemd-run"@,
        "--user"@,
        "--quiet"@,
        "--no-block"@,
        "--same-dir"@,
        "--collect"@,
        "--unit"@,
        unit_name,
        "--property"@,
        "StandardOutput=append:"@ + log_path,
        "--property"@,
        "StandardError=append:"@ + log_path,
    ] + spec_emulator_launch_command(use_sg_kvm, emulator_path, emulator_args)
}

pub fn systemd_scope_launch_command(
    unit_name: &str,
    absolute_log_path: &str,
    use_sg_kvm: bool,
    emulator_path: &str,
    emulator_args: &Vec<String>,
) -> (r: Vec<String>)
    ensures
        string_views(r@) == spec_systemd_scope_launch_command(
            unit_name@,
            absolute_log_path@,
            use_sg_kvm,
            emulator_path@,
            string_views(emulator_args@),
        ),
{
    let mut command: Vec<String> = Vec::new();
    push_owned(&mut command, "systemd-run");
    push_owned(&mut command, "--user");
    push_owned(&mut command, "--quiet");
    push_owned(&mut command, "--no-block");
    push_owned(&mut command, "--same-dir");
    push_owned(&mut command, "--collect");
    push_owned(&mut command, "--unit");
    push_owned(&mut command, unit_name);
    push_owned(&mut command, "--property");
    let mut out = chars_of("StandardOutput=append:");
    append_str(&mut out, absolute_log_path);
    let out = string_of(out.as_slice());
    push_owned(&mut command, out.as_str());
    push_owned(&mut command, "--property");
    let mut err = chars_of("StandardError=append:");
    append_str(&mut err, absolute_log_path);
    let err = string_of(err.as_slice());
    push_owned(&mut command, err.as_str());
    let ghost head = string_views(command@);
    let launch = emulator_launch_command(use_sg_kvm, emulator_path, emulator_args);
    let mut i: usize = 0;
    while i < launch.len()
        invariant
            i <= launch@.len(),
            string_views(command@) == head + string_views(launch@).subrange(0, i as int),
        decreases launch.len() - i,
    {
        push_owned(&mut command, launch[i].as_str());
        assert(string_views(launch@).subrange(0, i + 1) =~= string_views(launch@).subrange(
            0,
            i as int,
        ).push(launch@[i as int]@));
        i = i + 1;
    }
    assert(string_views(launch@).subrange(0, launch.len() as int) =~= string_views(launch@));
    assert(string_views(command@) =~= spec_systemd_scope_launch_command(
        unit_name@,
        absolute_log_path@,
        use_sg_kvm,
        emulator_path@,
        string_views(emulator_args@),
    ));
    command
}

} // verus!
