//! The public tool surface: every tool with its group, whether it only
//! reads, and when to use it; and the discovery resources that describe the
//! harness to a new agent.
use vstd::prelude::*;
use crate::error::{ErrorKind, McpError, owned};
use crate::semantic::{dedup_sorted, distinct_actions};
use crate::text::{chars_of, join, join_chars, lines, str_eq, string_of, string_views, views};
use crate::ui::{matching, strs_view};
use crate::window_views::{lemma_sorted_names_of, sort_entry_names};

verus! {

/// One tool of the public surface.
#[derive(Debug, Clone, Copy)]
pub struct ToolSurfaceEntry {
    pub name: &'static str,
    pub group: &'static str,
    pub read_only: bool,
    pub description: &'static str,
    pub use_when: &'static str,
}

/// The name, group and read-only flag of every tool, in registration order.
pub open spec fn tool_surface_spec() -> Seq<(Seq<char>, Seq<char>, bool)> {
    seq![
        ("interactive_session.get_status"@, "interactive-session"@, true),
        ("interactive_session.get_current_build"@, "interactive-session"@, true),
        ("interactive_session.install_build_from_run"@, "interactive-session"@, false),
        ("interactive_session.relaunch_current_build"@, "interactive-session"@, false),
        ("android.health"@, "status"@, true),
        ("android.list_avds"@, "emulator-lifecycle"@, true),
        ("android.list_devices"@, "status"@, true),
        ("android.resolve_target"@, "status"@, true),
        ("android.launch_avd"@, "emulator-lifecycle"@, false),
        ("android.launch_avd_and_wait"@, "emulator-lifecycle"@, false),
        ("android.wait_for_boot"@, "emulator-lifecycle"@, true),
        ("android.install_apk"@, "app-control"@, false),
        ("android.launch_app"@, "app-control"@, false),
        ("android.list_apps"@, "app-control"@, true),
        ("android.terminate_app"@, "app-control"@, false),
        ("android.uninstall_app"@, "app-control"@, false),
        ("android.open_url"@, "app-control"@, false),
        ("android.get_orientation"@, "status"@, true),
        ("android.set_orientation"@, "app-control"@, false),
        ("android.capture_screenshot"@, "observation"@, false),
        ("android.dump_ui_hierarchy"@, "observation"@, false),
        ("android.read_artifact"@, "observation"@, true),
        ("android.inspect_ui"@, "observation"@, false),
        ("android.wait_for_stable_ui"@, "observation"@, false),
        ("android.find_ui_element"@, "semantic-ui"@, false),
        ("android.wait_for_ui_element"@, "semantic-ui"@, false),
        ("android.tap_element"@, "semantic-ui"@, false),
        ("android.type_into_element"@, "semantic-ui"@, false),
        ("android.scroll_until_visible"@, "semantic-ui"@, false),
        ("android.collect_logcat"@, "observation"@, false),
        ("android.input.tap"@, "raw-input"@, false),
        ("android.input.double_tap"@, "raw-input"@, false),
        ("android.input.long_press"@, "raw-input"@, false),
        ("android.input.text"@, "raw-input"@, false),
        ("android.input.swipe"@, "raw-input"@, false),
        ("android.input.multi_touch"@, "raw-input"@, false),
        ("android.input.keyevent"@, "raw-input"@, false),
        ("android.input.keycombination"@, "raw-input"@, false),
        ("solarlab.scenario.stage_first_focus_earth"@, "solarlab-scenarios"@, false),
        ("solarlab.scenario.stage_first_immersive_roundtrip"@, "solarlab-scenarios"@, false),
        ("solarlab.semantic_action"@, "solarlab-scenarios"@, false),
    ]
}

pub open spec fn entry_view(e: ToolSurfaceEntry) -> (Seq<char>, Seq<char>, bool) {
    (e.name@, e.group@, e.read_only)
}

pub open spec fn entries_view(es: Seq<ToolSurfaceEntry>) -> Seq<(Seq<char>, Seq<char>, bool)> {
    Seq::new(es.len(), |i: int| entry_view(es[i]))
}

/// The description and the advice on when to use it of every tool, in
/// registration order.
pub open spec fn tool_texts_spec() -> Seq<(Seq<char>, Seq<char>)> {
    seq![
        ("Report hosted interactive-session configuration, live session root, and active build metadata."@, "Use this first when you need to understand the current hosted runner-backed session before switching builds."@),
        ("Read the current active-build metadata for the hosted interactive session."@, "Use this when you want the exact build currently installed without changing live session state."@),
        ("Download a reusable interactive build artifact from a GitHub Actions run, install it into the live session, and optionally relaunch the app."@, "Use this to swap a newly built APK into an already-live hosted session instead of restarting the runner."@),
        ("Relaunch the current active build inside the live hosted interactive session."@, "Use this for a cheap retry loop when the active build is already installed and only needs relaunch."@),
        ("Report SDK paths, known AVDs, and attached Android devices."@, "Use this first to understand the local Android harness posture before taking action."@),
        ("List known local Android virtual devices."@, "Use this when you need to choose or verify an AVD name before launch."@),
        ("List adb-visible Android devices."@, "Use this when you need the current device serials or want to confirm device visibility."@),
        ("Resolve one exact Android provider, session, and device target."@, "Use this before a target-bound Android operation to reject a stale or mismatched provider session."@),
        ("Launch a named AVD in the background."@, "Use this to start an emulator when no suitable device is already running."@),
        ("Launch a named AVD, wait for its emulator serial to appear, and verify boot readiness."@, "Use this when you want one bounded boot flow instead of separate launch and boot checks."@),
        ("Wait until sys.boot_completed=1 and package manager is responsive."@, "Use this after launch when the device exists but may not be ready for app work yet."@),
        ("Install an APK onto the target device."@, "Use this when the app under test is not already installed or needs updating."@),
        ("Launch an installed Android app by package name and optional activity."@, "Use this to bring an app to the foreground before semantic UI interaction."@),
        ("List installed Android apps, optionally limited to launcher-visible apps."@, "Use this when you need package names before launching, terminating, or uninstalling apps."@),
        ("Force-stop an installed Android app by package name."@, "Use this to reset app state without uninstalling it."@),
        ("Uninstall an Android app by package name."@, "Use this only when the app should be removed from the device."@),
        ("Open an http:// or https:// URL on the Android device."@, "Use this when the browser or URL intent path is the task under test."@),
        ("Read the device user_rotation setting and normalized orientation class."@, "Use this to record orientation before choosing gestures or validation expectations."@),
        ("Set the device user_rotation after disabling accelerometer rotation."@, "Use this when validation needs a known portrait or landscape posture."@),
        ("Capture a PNG screenshot from the device and save it locally."@, "Use this when a visual artifact is more important than the normalized UI tree."@),
        ("Dump the current UI hierarchy XML and save it locally."@, "Use this when you need raw hierarchy XML for debugging or later parsing."@),
        ("Read a previously generated artifact file from the configured artifact directory and return its contents for remote consumers."@, "Use this when a remote consumer needs the bytes or text for a screenshot, UI dump, or other artifact path that was returned earlier."@),
        ("Capture the current UI hierarchy, optionally pair it with a screenshot, and return a normalized UI tree."@, "Use this for a rich one-shot observation of the current Android state."@),
        ("Wait until the UI hierarchy and top window state stop changing, then return a paired observation bundle."@, "Use this before acting when the UI may still be animating or transitioning."@),
        ("Find the first normalized UI element matching a semantic selector in the current hierarchy."@, "Use this to inspect whether a target control is present and how it resolved before acting."@),
        ("Wait until a semantic UI selector is present or absent in the current hierarchy."@, "Use this when a UI transition is expected and success depends on a selector appearing or disappearing."@),
        ("Find a semantic UI element and tap its center point."@, "Use this as the default interaction path when you can describe the target semantically."@),
        ("Find a semantic UI element, tap it, and send text input."@, "Use this for text entry into a known field when semantic targeting is available."@),
        ("Swipe the viewport until a semantic UI selector becomes visible or the swipe budget is exhausted."@, "Use this when the target probably exists off-screen and semantic scrolling is preferable to raw swipes."@),
        ("Capture recent logcat output and save it locally."@, "Use this after a failure or suspicious behavior when app/runtime logs matter."@),
        ("Send a tap input event to the device."@, "Use this only when semantic selection is insufficient and you already know the screen coordinates."@),
        ("Send a double-tap input event to the device as one bounded gesture."@, "Use this only when a genuine Android double-tap gesture is needed and semantic interaction is insufficient."@),
        ("Send a long-press input event to the device as one bounded gesture."@, "Use this only when a genuine Android long-press gesture is needed and semantic interaction is insufficient."@),
        ("Send text input to the device."@, "Use this when raw keyboard-style entry is required after focus is already established."@),
        ("Send a swipe gesture to the device."@, "Use this only when semantic scrolling is insufficient or you need an exact gesture path."@),
        ("Send two to five pointer paths as one atomic emulator gRPC gesture."@, "Use this for pinch, two-finger pan, or another gesture that must keep every pointer in the same device frame."@),
        ("Send a keyevent to the device."@, "Use this for bounded low-level actions like Back or Enter when semantic tools are not the right fit."@),
        ("Send a chorded key combination to the device."@, "Use this for computer-use key chords such as Ctrl+C that must be dispatched atomically."@),
        ("Launch Solar Lab, open search, focus Earth, and capture step-by-step artifacts."@, "Use this to run a durable Stage First Solar Lab scenario rather than reassembling the flow by hand."@),
        ("Launch Solar Lab, open immersive view, return to sandbox, and capture artifacts."@, "Use this to validate the immersive roundtrip flow with consistent artifact capture."@),
        ("Send a narrow semantic action into the Solar Lab app and optionally capture post-action screenshot and UI artifacts."@, "Use this for narrow Solar Lab domain actions when a full scenario would be too broad."@),
    ]
}

pub open spec fn texts_view(es: Seq<ToolSurfaceEntry>) -> Seq<(Seq<char>, Seq<char>)> {
    Seq::new(es.len(), |i: int| (es[i].description@, es[i].use_when@))
}

fn push_entry(
    es: &mut Vec<ToolSurfaceEntry>,
    name: &'static str,
    group: &'static str,
    read_only: bool,
    description: &'static str,
    use_when: &'static str,
)
    ensures
        entries_view(final(es)@) == entries_view(old(es)@).push((name@, group@, read_only)),
        texts_view(final(es)@) == texts_view(old(es)@).push((description@, use_when@)),
{
    es.push(ToolSurfaceEntry { name, group, read_only, description, use_when });
    assert(entries_view(es@) =~= entries_view(old(es)@).push((name@, group@, read_only)));
    assert(texts_view(es@) =~= texts_view(old(es)@).push((description@, use_when@)));
}

/// The public tools, in registration order.
#[verifier::rlimit(50)]
pub fn tool_surface_entries() -> (r: Vec<ToolSurfaceEntry>)
    ensures
        entries_view(r@) == tool_surface_spec(),
        texts_view(r@) == tool_texts_spec(),
{
    let mut es: Vec<ToolSurfaceEntry> = Vec::new();
    push_entry(&mut es, "interactive_session.get_status", "interactive-session", true, "Report hosted interactive-session configuration, live session root, and active build metadata.", "Use this first when you need to understand the current hosted runner-backed session before switching builds.");
    push_entry(&mut es, "interactive_session.get_current_build", "interactive-session", true, "Read the current active-build metadata for the hosted interactive session.", "Use this when you want the exact build currently installed without changing live session state.");
    push_entry(&mut es, "interactive_session.install_build_from_run", "interactive-session", false, "Download a reusable interactive build artifact from a GitHub Actions run, install it into the live session, and optionally relaunch the app.", "Use this to swap a newly built APK into an already-live hosted session instead of restarting the runner.");
    push_entry(&mut es, "interactive_session.relaunch_current_build", "interactive-session", false, "Relaunch the current active build inside the live hosted interactive session.", "Use this for a cheap retry loop when the active build is already installed and only needs relaunch.");
    push_entry(&mut es, "android.health", "status", true, "Report SDK paths, known AVDs, and attached Android devices.", "Use this first to understand the local Android harness posture before taking action.");
    push_entry(&mut es, "android.list_avds", "emulator-lifecycle", true, "List known local Android virtual devices.", "Use this when you need to choose or verify an AVD name before launch.");
    push_entry(&mut es, "android.list_devices", "status", true, "List adb-visible Android devices.", "Use this when you need the current device serials or want to confirm device visibility.");
    push_entry(&mut es, "android.resolve_target", "status", true, "Resolve one exact Android provider, session, and device target.", "Use this before a target-bound Android operation to reject a stale or mismatched provider session.");
    push_entry(&mut es, "android.launch_avd", "emulator-lifecycle", false, "Launch a named AVD in the background.", "Use this to start an emulator when no suitable device is already running.");
    push_entry(&mut es, "android.launch_avd_and_wait", "emulator-lifecycle", false, "Launch a named AVD, wait for its emulator serial to appear, and verify boot readiness.", "Use this when you want one bounded boot flow instead of separate launch and boot checks.");
    push_entry(&mut es, "android.wait_for_boot", "emulator-lifecycle", true, "Wait until sys.boot_completed=1 and package manager is responsive.", "Use this after launch when the device exists but may not be ready for app work yet.");
    push_entry(&mut es, "android.install_apk", "app-control", false, "Install an APK onto the target device.", "Use this when the app under test is not already installed or needs updating.");
    push_entry(&mut es, "android.launch_app", "app-control", false, "Launch an installed Android app by package name and optional activity.", "Use this to bring an app to the foreground before semantic UI interaction.");
    push_entry(&mut es, "android.list_apps", "app-control", true, "List installed Android apps, optionally limited to launcher-visible apps.", "Use this when you need package names before launching, terminating, or uninstalling apps.");
    push_entry(&mut es, "android.terminate_app", "app-control", false, "Force-stop an installed Android app by package name.", "Use this to reset app state without uninstalling it.");
    push_entry(&mut es, "android.uninstall_app", "app-control", false, "Uninstall an Android app by package name.", "Use this only when the app should be removed from the device.");
    push_entry(&mut es, "android.open_url", "app-control", false, "Open an http:// or https:// URL on the Android device.", "Use this when the browser or URL intent path is the task under test.");
    push_entry(&mut es, "android.get_orientation", "status", true, "Read the device user_rotation setting and normalized orientation class.", "Use this to record orientation before choosing gestures or validation expectations.");
    push_entry(&mut es, "android.set_orientation", "app-control", false, "Set the device user_rotation after disabling accelerometer rotation.", "Use this when validation needs a known portrait or landscape posture.");
    push_entry(&mut es, "android.capture_screenshot", "observation", false, "Capture a PNG screenshot from the device and save it locally.", "Use this when a visual artifact is more important than the normalized UI tree.");
    push_entry(&mut es, "android.dump_ui_hierarchy", "observation", false, "Dump the current UI hierarchy XML and save it locally.", "Use this when you need raw hierarchy XML for debugging or later parsing.");
    push_entry(&mut es, "android.read_artifact", "observation", true, "Read a previously generated artifact file from the configured artifact directory and return its contents for remote consumers.", "Use this when a remote consumer needs the bytes or text for a screenshot, UI dump, or other artifact path that was returned earlier.");
    push_entry(&mut es, "android.inspect_ui", "observation", false, "Capture the current UI hierarchy, optionally pair it with a screenshot, and return a normalized UI tree.", "Use this for a rich one-shot observation of the current Android state.");
    push_entry(&mut es, "android.wait_for_stable_ui", "observation", false, "Wait until the UI hierarchy and top window state stop changing, then return a paired observation bundle.", "Use this before acting when the UI may still be animating or transitioning.");
    push_entry(&mut es, "android.find_ui_element", "semantic-ui", false, "Find the first normalized UI element matching a semantic selector in the current hierarchy.", "Use this to inspect whether a target control is present and how it resolved before acting.");
    push_entry(&mut es, "android.wait_for_ui_element", "semantic-ui", false, "Wait until a semantic UI selector is present or absent in the current hierarchy.", "Use this when a UI transition is expected and success depends on a selector appearing or disappearing.");
    push_entry(&mut es, "android.tap_element", "semantic-ui", false, "Find a semantic UI element and tap its center point.", "Use this as the default interaction path when you can describe the target semantically.");
    push_entry(&mut es, "android.type_into_element", "semantic-ui", false, "Find a semantic UI element, tap it, and send text input.", "Use this for text entry into a known field when semantic targeting is available.");
    push_entry(&mut es, "android.scroll_until_visible", "semantic-ui", false, "Swipe the viewport until a semantic UI selector becomes visible or the swipe budget is exhausted.", "Use this when the target probably exists off-screen and semantic scrolling is preferable to raw swipes.");
    push_entry(&mut es, "android.collect_logcat", "observation", false, "Capture recent logcat output and save it locally.", "Use this after a failure or suspicious behavior when app/runtime logs matter.");
    push_entry(&mut es, "android.input.tap", "raw-input", false, "Send a tap input event to the device.", "Use this only when semantic selection is insufficient and you already know the screen coordinates.");
    push_entry(&mut es, "android.input.double_tap", "raw-input", false, "Send a double-tap input event to the device as one bounded gesture.", "Use this only when a genuine Android double-tap gesture is needed and semantic interaction is insufficient.");
    push_entry(&mut es, "android.input.long_press", "raw-input", false, "Send a long-press input event to the device as one bounded gesture.", "Use this only when a genuine Android long-press gesture is needed and semantic interaction is insufficient.");
    push_entry(&mut es, "android.input.text", "raw-input", false, "Send text input to the device.", "Use this when raw keyboard-style entry is required after focus is already established.");
    push_entry(&mut es, "android.input.swipe", "raw-input", false, "Send a swipe gesture to the device.", "Use this only when semantic scrolling is insufficient or you need an exact gesture path.");
    push_entry(&mut es, "android.input.multi_touch", "raw-input", false, "Send two to five pointer paths as one atomic emulator gRPC gesture.", "Use this for pinch, two-finger pan, or another gesture that must keep every pointer in the same device frame.");
    push_entry(&mut es, "android.input.keyevent", "raw-input", false, "Send a keyevent to the device.", "Use this for bounded low-level actions like Back or Enter when semantic tools are not the right fit.");
    push_entry(&mut es, "android.input.keycombination", "raw-input", false, "Send a chorded key combination to the device.", "Use this for computer-use key chords such as Ctrl+C that must be dispatched atomically.");
    push_entry(&mut es, "solarlab.scenario.stage_first_focus_earth", "solarlab-scenarios", false, "Launch Solar Lab, open search, focus Earth, and capture step-by-step artifacts.", "Use this to run a durable Stage First Solar Lab scenario rather than reassembling the flow by hand.");
    push_entry(&mut es, "solarlab.scenario.stage_first_immersive_roundtrip", "solarlab-scenarios", false, "Launch Solar Lab, open immersive view, return to sandbox, and capture artifacts.", "Use this to validate the immersive roundtrip flow with consistent artifact capture.");
    push_entry(&mut es, "solarlab.semantic_action", "solarlab-scenarios", false, "Send a narrow semantic action into the Solar Lab app and optionally capture post-action screenshot and UI artifacts.", "Use this for narrow Solar Lab domain actions when a full scenario would be too broad.");
    assert(entries_view(es@) =~= tool_surface_spec());
    assert(texts_view(es@) =~= tool_texts_spec());
    es
}

/// The lines of the about text.
pub open spec fn about_lines() -> Seq<Seq<char>> {
    seq![
        "# Android Computer Use MCP"@,
        ""@,
        "Purpose:"@,
        "- Provide a structured Android execution substrate for emulator lifecycle, app control, observation, semantic UI interaction, raw input fallback, and Solar Lab scenarios."@,
        ""@,
        "Current posture:"@,
        "- Hosted interactive-session tools can reuse a live runner-backed emulator without rebuilding or rebooting it for each new APK."@,
        "- Semantic Android tools are the preferred interaction lane."@,
        "- Raw input tools remain available as fallback when semantic selection is insufficient."@,
        "- Solar Lab scenarios are first-class tools rather than private hand-assembled scripts."@,
        ""@,
        "Contract:"@,
        "- Public tool exposure is governed by explicit tool inventory registration."@,
        "- Discovery resources are read-only and intended for cold-start orientation."@,
        "- Tool schema and resource catalog snapshots guard the public contract."@,
        ""@,
    ]
}

/// The lines of the help text.
pub open spec fn help_lines() -> Seq<Seq<char>> {
    seq![
        "# Android Computer Use MCP help"@,
        ""@,
        "Recommended interaction order:"@,
        "1. interactive_session.get_status when working against a hosted runner-backed session."@,
        "2. android.health or android.list_devices to understand the current harness state."@,
        "3. android.wait_for_boot if a device may still be starting."@,
        "4. interactive_session.install_build_from_run to swap a fresh remote-built APK into a live hosted session."@,
        "5. android.launch_app or a Solar Lab scenario to reach the target surface."@,
        "6. android.wait_for_stable_ui before acting through semantic UI tools."@,
        "7. android.tap_element or android.type_into_element for semantic interaction."@,
        "8. android.input.* only when semantic tools are insufficient."@,
        ""@,
        "Guidance:"@,
        "- Prefer semantic UI tools over raw input whenever a selector can describe the target."@,
        "- Prefer scenario tools for durable Solar Lab flows instead of rebuilding them ad hoc."@,
        "- Use observation tools when you need artifacts or structured state, not just one action."@,
        ""@,
        "Hosted usage notes:"@,
        "- This server works well as a runner-backed Android substrate over Streamable HTTP."@,
        "- interactive_session.* tools exist to avoid restarting the hosted runner for each new build."@,
        "- Discovery resources exist so a fresh agent can orient without local repo context."@,
        ""@,
    ]
}

/// The about text: its lines joined by newlines.
pub fn build_about_text() -> (r: String)
    ensures
        r@ == join(about_lines(), "\n"@),
{
    let mut lines: Vec<Vec<char>> = Vec::new();
    lines.push(chars_of("# Android Computer Use MCP"));
    lines.push(chars_of(""));
    lines.push(chars_of("Purpose:"));
    lines.push(chars_of("- Provide a structured Android execution substrate for emulator lifecycle, app control, observation, semantic UI interaction, raw input fallback, and Solar Lab scenarios."));
    lines.push(chars_of(""));
    lines.push(chars_of("Current posture:"));
    lines.push(chars_of("- Hosted interactive-session tools can reuse a live runner-backed emulator without rebuilding or rebooting it for each new APK."));
    lines.push(chars_of("- Semantic Android tools are the preferred interaction lane."));
    lines.push(chars_of("- Raw input tools remain available as fallback when semantic selection is insufficient."));
    lines.push(chars_of("- Solar Lab scenarios are first-class tools rather than private hand-assembled scripts."));
    lines.push(chars_of(""));
    lines.push(chars_of("Contract:"));
    lines.push(chars_of("- Public tool exposure is governed by explicit tool inventory registration."));
    lines.push(chars_of("- Discovery resources are read-only and intended for cold-start orientation."));
    lines.push(chars_of("- Tool schema and resource catalog snapshots guard the public contract."));
    lines.push(chars_of(""));
    assert(views(lines@) =~= about_lines());
    let sep = chars_of("\n");
    string_of(join_chars(&lines, sep.as_slice()).as_slice())
}

/// The help text: its lines joined by newlines.
pub fn build_help_text() -> (r: String)
    ensures
        r@ == join(help_lines(), "\n"@),
{
    let mut lines: Vec<Vec<char>> = Vec::new();
    lines.push(chars_of("# Android Computer Use MCP help"));
    lines.push(chars_of(""));
    lines.push(chars_of("Recommended interaction order:"));
    lines.push(chars_of("1. interactive_session.get_status when working against a hosted runner-backed session."));
    lines.push(chars_of("2. android.health or android.list_devices to understand the current harness state."));
    lines.push(chars_of("3. android.wait_for_boot if a device may still be starting."));
    lines.push(chars_of("4. interactive_session.install_build_from_run to swap a fresh remote-built APK into a live hosted session."));
    lines.push(chars_of("5. android.launch_app or a Solar Lab scenario to reach the target surface."));
    lines.push(chars_of("6. android.wait_for_stable_ui before acting through semantic UI tools."));
    lines.push(chars_of("7. android.tap_element or android.type_into_element for semantic interaction."));
    lines.push(chars_of("8. android.input.* only when semantic tools are insufficient."));
    lines.push(chars_of(""));
    lines.push(chars_of("Guidance:"));
    lines.push(chars_of("- Prefer semantic UI tools over raw input whenever a selector can describe the target."));
    lines.push(chars_of("- Prefer scenario tools for durable Solar Lab flows instead of rebuilding them ad hoc."));
    lines.push(chars_of("- Use observation tools when you need artifacts or structured state, not just one action."));
    lines.push(chars_of(""));
    lines.push(chars_of("Hosted usage notes:"));
    lines.push(chars_of("- This server works well as a runner-backed Android substrate over Streamable HTTP."));
    lines.push(chars_of("- interactive_session.* tools exist to avoid restarting the hosted runner for each new build."));
    lines.push(chars_of("- Discovery resources exist so a fresh agent can orient without local repo context."));
    lines.push(chars_of(""));
    assert(views(lines@) =~= help_lines());
    let sep = chars_of("\n");
    string_of(join_chars(&lines, sep.as_slice()).as_slice())
}
/// The entries of the Solar Lab scenario group, in order.
pub fn scenario_entries(entries: &Vec<ToolSurfaceEntry>) -> (r: Vec<ToolSurfaceEntry>)
    ensures
        entries_view(r@) == entries_view(entries@).filter(
            |e: (Seq<char>, Seq<char>, bool)| e.1 == "solarlab-scenarios"@,
        ),
{
    let ghost all = entries_view(entries@);
    let ghost pred = |e: (Seq<char>, Seq<char>, bool)| e.1 == "solarlab-scenarios"@;
    let mut r: Vec<ToolSurfaceEntry> = Vec::new();
    let mut i: usize = 0;
    while i < entries.len()
        invariant
            i <= entries.len(),
            all == entries_view(entries@),
            pred == (|e: (Seq<char>, Seq<char>, bool)| e.1 == "solarlab-scenarios"@),
            entries_view(r@) == all.take(i as int).filter(pred),
        decreases entries.len() - i,
    {
        let e = entries[i];
        let ghost before = all.take(i as int);
        let ghost after = all.take(i + 1);
        assert(after.drop_last() =~= before);
        assert(after.last() == entry_view(e));
        reveal(Seq::filter);
        if str_eq(e.group, "solarlab-scenarios") {
            r.push(e);
            assert(entries_view(r@) =~= before.filter(pred).push(entry_view(e)));
        }
        i = i + 1;
    }
    assert(all.take(entries.len() as int) =~= all);
    r
}

/// How many entries belong to `group`.
pub open spec fn group_count(es: Seq<(Seq<char>, Seq<char>, bool)>, group: Seq<char>) -> nat
    decreases es.len(),
{
    if es.len() == 0 {
        0
    } else {
        group_count(es.drop_last(), group) + if es.last().1 == group {
            1nat
        } else {
            0nat
        }
    }
}

/// The groups of the entries, each once, in ascending order, with how many
/// entries each has (the counts a `BTreeMap` of groups gives).
pub fn tool_group_counts(entries: &Vec<ToolSurfaceEntry>) -> (r: Vec<(String, usize)>)
    requires
        entries@.len() <= usize::MAX,
    ensures
        r@.len() == distinct_actions(Seq::new(entries@.len(), |i: int| entries@[i].group@)).len(),
        forall|k: int|
            0 <= k < r@.len() ==> #[trigger] r@[k].0@ == distinct_actions(
                Seq::new(entries@.len(), |i: int| entries@[i].group@),
            )[k] && r@[k].1 as nat == group_count(entries_view(entries@), r@[k].0@),
{
    let ghost groups = Seq::new(entries@.len(), |i: int| entries@[i].group@);
    let mut names: Vec<String> = Vec::new();
    let mut i: usize = 0;
    while i < entries.len()
        invariant
            i <= entries.len(),
            groups == Seq::new(entries@.len(), |i: int| entries@[i].group@),
            strs_view(names@) == groups.take(i as int),
        decreases entries.len() - i,
    {
        let ghost prev = strs_view(names@);
        names.push(owned(entries[i].group));
        assert(strs_view(names@) =~= prev.push(entries@[i as int].group@));
        assert(groups.take(i + 1) =~= groups.take(i as int).push(groups[i as int]));
        i = i + 1;
    }
    assert(groups.take(entries.len() as int) =~= groups);
    assert(string_views(names@) =~= groups);
    let sorted = sort_entry_names(names);
    proof {
        assert(string_views(sorted@) =~= strs_view(sorted@));
        lemma_sorted_names_of(groups, strs_view(sorted@));
    }
    let distinct = dedup_sorted(sorted);
    let mut r: Vec<(String, usize)> = Vec::new();
    let mut k: usize = 0;
    while k < distinct.len()
        invariant
            k <= distinct.len(),
            r@.len() == k,
            strs_view(distinct@) == distinct_actions(groups),
            groups == Seq::new(entries@.len(), |i: int| entries@[i].group@),
            forall|j: int|
                0 <= j < k ==> #[trigger] r@[j].0@ == strs_view(distinct@)[j] && r@[j].1 as nat
                    == group_count(entries_view(entries@), r@[j].0@),
        decreases distinct.len() - k,
    {
        let g = owned(distinct[k].as_str());
        let n = count_group(entries, distinct[k].as_str());
        r.push((g, n));
        k = k + 1;
    }
    r
}

fn count_group(entries: &Vec<ToolSurfaceEntry>, group: &str) -> (r: usize)
    ensures
        r as nat == group_count(entries_view(entries@), group@),
{
    let ghost all = entries_view(entries@);
    let mut n: usize = 0;
    let mut i: usize = 0;
    while i < entries.len()
        invariant
            i <= entries.len(),
            all == entries_view(entries@),
            n as nat == group_count(all.take(i as int), group@),
            n <= i,
        decreases entries.len() - i,
    {
        let ghost before = all.take(i as int);
        let ghost after = all.take(i + 1);
        assert(after.drop_last() =~= before);
        if str_eq(entries[i].group, group) {
            n = n + 1;
        }
        i = i + 1;
    }
    assert(all.take(entries.len() as int) =~= all);
    n
}

/// Whether no two entries share a name (the inventory registers each tool once).
pub fn tool_names_distinct(entries: &Vec<ToolSurfaceEntry>) -> (r: bool)
    ensures
        r == (forall|a: int, b: int|
            0 <= a < b < entries@.len() ==> #[trigger] entries@[a].name@ != #[trigger] entries@[b].name@),
{
    let mut a: usize = 0;
    while a < entries.len()
        invariant
            a <= entries.len(),
            forall|x: int, y: int| 0 <= x < a && x < y < entries@.len() ==> #[trigger] entries@[x].name@ != #[trigger] entries@[y].name@,
        decreases entries.len() - a,
    {
        let mut b: usize = a + 1;
        while b < entries.len()
            invariant
                a < entries.len(),
                a + 1 <= b <= entries.len(),
                forall|x: int, y: int| 0 <= x < a && x < y < entries@.len() ==> #[trigger] entries@[x].name@ != #[trigger] entries@[y].name@,
                forall|y: int| a < y < b ==> entries@[a as int].name@ != #[trigger] entries@[y].name@,
            decreases entries.len() - b,
        {
            if str_eq(entries[a].name, entries[b].name) {
                return false;
            }
            b = b + 1;
        }
        a = a + 1;
    }
    true
}

// ---------------------------------------------------------------------------
// Discovery resources.
// ---------------------------------------------------------------------------

/// A discovery resource and how it is presented.
#[derive(Debug, Clone, Copy, PartialEq, Eq, Structural)]
pub enum ResourceKind {
    About,
    Help,
    ToolCatalog,
    ScenarioCatalog,
}

impl ResourceKind {
    /// The resource's address.
    pub fn uri(self) -> (r: &'static str)
        ensures
            r@ == resource_uri(self),
    {
        match self {
            ResourceKind::About => "android-computer-use-mcp://about",
            ResourceKind::Help => "android-computer-use-mcp://help",
            ResourceKind::ToolCatalog => "android-computer-use-mcp://tool-catalog",
            ResourceKind::ScenarioCatalog => "android-computer-use-mcp://scenario-catalog",
        }
    }

    /// The media type of the resource's text.
    pub fn mime_type(self) -> (r: &'static str)
        ensures
            r@ == (if self is About || self is Help {
                "text/markdown"@
            } else {
                "application/json"@
            }),
    {
        match self {
            ResourceKind::About | ResourceKind::Help => "text/markdown",
            _ => "application/json",
        }
    }
}

pub open spec fn resource_uri(k: ResourceKind) -> Seq<char> {
    match k {
        ResourceKind::About => "android-computer-use-mcp://about"@,
        ResourceKind::Help => "android-computer-use-mcp://help"@,
        ResourceKind::ToolCatalog => "android-computer-use-mcp://tool-catalog"@,
        ResourceKind::ScenarioCatalog => "android-computer-use-mcp://scenario-catalog"@,
    }
}

/// The resource at an address; any other address is not found.
pub fn resource_for_uri(uri: &str) -> (r: Result<ResourceKind, McpError>)
    ensures
        match r {
            Ok(k) => resource_uri(k) == uri@,
            Err(e) => e.kind == ErrorKind::ResourceNotFound && e.message@ == "resource not found"@ && uri@
                != resource_uri(ResourceKind::About) && uri@ != resource_uri(ResourceKind::Help) && uri@
                != resource_uri(ResourceKind::ToolCatalog) && uri@ != resource_uri(
                ResourceKind::ScenarioCatalog,
            ),
        },
{
    if str_eq(uri, "android-computer-use-mcp://about") {
        Ok(ResourceKind::About)
    } else if str_eq(uri, "android-computer-use-mcp://help") {
        Ok(ResourceKind::Help)
    } else if str_eq(uri, "android-computer-use-mcp://tool-catalog") {
        Ok(ResourceKind::ToolCatalog)
    } else if str_eq(uri, "android-computer-use-mcp://scenario-catalog") {
        Ok(ResourceKind::ScenarioCatalog)
    } else {
        Err(McpError::resource_not_found(owned("resource not found")))
    }
}

/// A resource's size as announced: its length, at most `u32::MAX`.
pub fn announced_size(len: usize) -> (r: u32)
    ensures
        r as int == (if len > u32::MAX {
            u32::MAX as int
        } else {
            len as int
        }),
{
    if len > u32::MAX as usize {
        u32::MAX
    } else {
        len as u32
    }
}

} // verus!
