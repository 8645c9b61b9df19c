use android_computer_use_mcp::config::InteractiveSessionConfig;
use android_computer_use_mcp::error::ErrorKind;
use android_computer_use_mcp::session::{
    build_activation, build_cache_components, find_cached_bundle, check_manifest_target, github_artifacts_url,
    install_build_request, manifest_launch_command, no_active_build_error,
    require_github_token, require_interactive_session_config, select_workflow_artifact,
    BuildActivation, GitHubArtifact, InteractiveSessionInstallBuildArgs,
};

fn session_config(token: Option<&str>) -> InteractiveSessionConfig {
    InteractiveSessionConfig {
        session_root: "/var/lib/session".to_string(),
        github_repository: "acme/solarlab".to_string(),
        github_token: token.map(ToOwned::to_owned),
        app_package: "com.acme.solarlab".to_string(),
        app_activity: ".MainActivity".to_string(),
    }
}

fn artifact(id: u64, name: &str, expired: bool) -> GitHubArtifact {
    GitHubArtifact {
        id,
        name: name.to_string(),
        expired,
        archive_download_url: format!("https://example.invalid/{id}.zip"),
    }
}

fn install_args(artifact_name: &str, repository: Option<&str>) -> InteractiveSessionInstallBuildArgs {
    InteractiveSessionInstallBuildArgs {
        workflow_run_id: 42,
        artifact_name: artifact_name.to_string(),
        repository: repository.map(ToOwned::to_owned),
        launch_after_install: true,
        serial: None,
        timeout_secs: None,
    }
}

#[test]
fn session_controls_need_configuration() {
    let error = require_interactive_session_config(None).unwrap_err();
    assert_eq!(error.kind, ErrorKind::InvalidParams);
    assert_eq!(
        error.message,
        "interactive session controls are not configured for this server"
    );
    let config = session_config(None);
    assert!(require_interactive_session_config(Some(&config)).is_ok());
}

#[test]
fn downloads_need_a_token() {
    let error = require_github_token(&session_config(None)).unwrap_err();
    assert_eq!(
        error.message,
        "interactive session download requires ANDROID_COMPUTER_USE_MCP_INTERACTIVE_SESSION_GITHUB_TOKEN"
    );
    assert_eq!(require_github_token(&session_config(Some("t0k"))).unwrap(), "t0k");
}

#[test]
fn install_request_trims_and_falls_back_to_session_repository() {
    let blank = install_build_request(&install_args("   ", None), "acme/solarlab").unwrap_err();
    assert_eq!(blank.message, "artifact_name must not be empty");
    let request = install_build_request(&install_args(" apk-debug ", Some("  ")), "acme/solarlab").unwrap();
    assert_eq!(request.artifact_name, "apk-debug");
    assert_eq!(request.repository, "acme/solarlab");
    let request =
        install_build_request(&install_args("apk-debug", Some(" fork/solarlab ")), "acme/solarlab")
            .unwrap();
    assert_eq!(request.repository, "fork/solarlab");
}

#[test]
fn artifacts_url_lists_one_page_of_the_run() {
    assert_eq!(
        github_artifacts_url("acme/solarlab", 42),
        "https://api.github.com/repos/acme/solarlab/actions/runs/42/artifacts?per_page=100"
    );
}

#[test]
fn selects_first_unexpired_artifact_with_the_name() {
    let chosen = select_workflow_artifact(
        vec![
            artifact(1, "apk-debug", true),
            artifact(2, "apk-release", false),
            artifact(3, "apk-debug", false),
            artifact(4, "apk-debug", false),
        ],
        "apk-debug",
        42,
    )
    .unwrap();
    assert_eq!(chosen.id, 3);
    let missing = select_workflow_artifact(vec![artifact(1, "apk-debug", true)], "apk-debug", 42)
        .unwrap_err();
    assert_eq!(missing.kind, ErrorKind::InvalidParams);
    assert_eq!(missing.message, "artifact apk-debug was not found on workflow run 42");
}

#[test]
fn build_cache_lives_under_run_directory() {
    assert_eq!(
        build_cache_components(42, "apk-debug"),
        vec!["build-cache", "run-42", "apk-debug"]
    );
}

#[test]
fn manifest_must_target_the_session_app() {
    assert!(check_manifest_target(
        "apk-debug",
        "com.acme.solarlab",
        ".MainActivity",
        "com.acme.solarlab",
        ".MainActivity"
    )
    .is_ok());
    let error = check_manifest_target(
        "apk-debug",
        "com.acme.other",
        ".MainActivity",
        "com.acme.solarlab",
        ".MainActivity",
    )
    .unwrap_err();
    assert_eq!(
        error.message,
        "artifact apk-debug targets com.acme.other/.MainActivity but the session expects com.acme.solarlab/.MainActivity"
    );
}

#[test]
fn active_build_is_not_installed_again() {
    assert_eq!(build_activation(Some("abc"), "abc", false), BuildActivation::ReuseExisting);
    assert_eq!(
        build_activation(Some("abc"), "abc", true),
        BuildActivation::Launch { install: false }
    );
    assert_eq!(
        build_activation(Some("abc"), "def", false),
        BuildActivation::Launch { install: true }
    );
    assert_eq!(build_activation(None, "def", true), BuildActivation::Launch { install: true });
}

#[test]
fn relaunch_and_launch_command() {
    assert_eq!(
        no_active_build_error().message,
        "No active-build.json is available for relaunch"
    );
    assert_eq!(
        manifest_launch_command("com.acme.solarlab", ".MainActivity"),
        vec!["am", "start", "-n", "com.acme.solarlab/.MainActivity"]
    );
}

#[test]
fn cached_bundle_is_found_by_run_and_artifact() {
    let cached = vec![
        ("41".to_string(), "apk-debug".to_string()),
        ("42".to_string(), "apk-release".to_string()),
        ("42".to_string(), "apk-debug".to_string()),
    ];
    assert_eq!(find_cached_bundle(&cached, "42", "apk-debug").unwrap(), 2);
    assert_eq!(
        find_cached_bundle(&cached, "43", "apk-debug").unwrap_err().message,
        "could not locate cached bundle for run 43 and artifact apk-debug"
    );
}
