use android_computer_use_mcp::config::{
    csv_setting, flag_setting, integer_setting, interactive_session_config, optional_path_setting,
    optional_port_setting, parse_i64, positive_limit, text_setting, EnvVar, IntParseFailure,
};

fn chars(s: &str) -> Vec<char> {
    s.chars().collect()
}

#[test]
fn empty_env_path_is_ignored() {
    assert_eq!(optional_path_setting(Some("   ".to_string())), None);
}

#[test]
fn empty_env_port_is_rejected() {
    const TEST_VAR: &str = "ANDROID_COMPUTER_USE_MCP_TMP_EMPTY_PORT";
    let err = optional_port_setting(TEST_VAR, Some("   ".to_string()))
        .expect("port env should be present")
        .expect_err("empty port should be rejected");
    assert!(err.contains("ANDROID_COMPUTER_USE_MCP_TMP_EMPTY_PORT must not be empty when set"));
}

#[test]
fn parses_env_port() {
    const TEST_VAR: &str = "ANDROID_COMPUTER_USE_MCP_TMP_VALID_PORT";
    let port = optional_port_setting(TEST_VAR, Some("8554".to_string()))
        .expect("port env should be present")
        .expect("port should parse");
    assert_eq!(port, 8554);
}

#[test]
fn streamable_http_defaults_to_loopback() {
    let bind_addr = text_setting("ANDROID_COMPUTER_USE_MCP_BIND_ADDR", EnvVar::Unset, "127.0.0.1:9526")
        .expect("bind addr");
    assert_eq!(bind_addr, "127.0.0.1:9526");
    let allowed_hosts = csv_setting(EnvVar::Unset, "localhost,127.0.0.1,::1");
    assert_eq!(
        allowed_hosts,
        vec!["localhost".to_string(), "127.0.0.1".to_string(), "::1".to_string()]
    );
    let max_sessions =
        integer_setting("ANDROID_COMPUTER_USE_MCP_HTTP_MAX_SESSIONS", EnvVar::Unset, 32).unwrap();
    let channel_capacity =
        integer_setting("ANDROID_COMPUTER_USE_MCP_HTTP_CHANNEL_CAPACITY", EnvVar::Unset, 200).unwrap();
    assert_eq!(positive_limit("ANDROID_COMPUTER_USE_MCP_HTTP_MAX_SESSIONS", max_sessions), Ok(32));
    assert_eq!(
        positive_limit("ANDROID_COMPUTER_USE_MCP_HTTP_CHANNEL_CAPACITY", channel_capacity),
        Ok(200)
    );
    assert!(flag_setting("ANDROID_COMPUTER_USE_MCP_HTTP_ALLOW_RESUME", None, true).unwrap());
}

#[test]
fn streamable_http_allows_resume_override() {
    assert!(!flag_setting(
        "ANDROID_COMPUTER_USE_MCP_HTTP_ALLOW_RESUME",
        Some("false".to_string()),
        true
    )
    .unwrap());
}

#[test]
fn flag_setting_accepts_every_word_in_any_case() {
    for word in ["1", "true", "YES", " On "] {
        assert_eq!(flag_setting("F", Some(word.to_string()), false), Ok(true));
    }
    for word in ["0", "False", "no", "OFF"] {
        assert_eq!(flag_setting("F", Some(word.to_string()), true), Ok(false));
    }
    assert_eq!(flag_setting("F", Some("  ".to_string()), true), Ok(true));
    assert_eq!(
        flag_setting("F", Some("maybe".to_string()), true),
        Err("F must be one of true/false/1/0/yes/no/on/off".to_string())
    );
}

#[test]
fn text_setting_trims_and_rejects_blank_or_unreadable_values() {
    assert_eq!(text_setting("T", EnvVar::Value("  x  ".to_string()), "d"), Ok("x".to_string()));
    assert_eq!(
        text_setting("T", EnvVar::Value(" ".to_string()), "d"),
        Err("T must not be empty when set".to_string())
    );
    assert_eq!(
        text_setting("T", EnvVar::NotUnicode("bad".to_string()), "d"),
        Err("T could not be read: bad".to_string())
    );
}

#[test]
fn integer_parsing_matches_std_messages() {
    for text in ["0", "-5", "+7", "9223372036854775807", "-9223372036854775808", "", "-", "+", "12a", "9223372036854775808", "-9223372036854775809", "99999999999999999999x"] {
        let ours = parse_i64(&chars(text)).map_err(|f| f.message());
        let std = text.parse::<i64>().map_err(|e| e.to_string());
        assert_eq!(ours, std, "{text}");
    }
    assert_eq!(parse_i64(&chars("")), Err(IntParseFailure::Empty));
    assert_eq!(
        integer_setting("N", EnvVar::Value(" 12x ".to_string()), 1),
        Err("N must be a valid integer: invalid digit found in string".to_string())
    );
    assert_eq!(integer_setting("N", EnvVar::Value(" -3 ".to_string()), 1), Ok(-3));
}

#[test]
fn port_setting_reports_the_std_reason() {
    assert_eq!(
        optional_port_setting("P", Some("70000".to_string())),
        Some(Err("P must be a valid u16 port: number too large to fit in target type".to_string()))
    );
    assert_eq!(
        optional_port_setting("P", Some("-1".to_string())),
        Some(Err("P must be a valid u16 port: invalid digit found in string".to_string()))
    );
    assert_eq!(optional_port_setting("P", None), None);
}

#[test]
fn csv_setting_drops_blank_items() {
    assert_eq!(
        csv_setting(EnvVar::Value(" a, ,b ,,".to_string()), "x"),
        vec!["a".to_string(), "b".to_string()]
    );
    assert_eq!(csv_setting(EnvVar::NotUnicode("e".to_string()), "x,y"), vec!["x".to_string(), "y".to_string()]);
}

#[test]
fn limits_are_at_least_one() {
    assert_eq!(positive_limit("L", -4), Ok(1));
    assert_eq!(positive_limit("L", 0), Ok(1));
    assert_eq!(positive_limit("L", 9), Ok(9));
}

#[test]
fn interactive_session_requires_its_settings() {
    assert!(matches!(
        interactive_session_config(None, EnvVar::Unset, EnvVar::Unset, EnvVar::Unset, EnvVar::Unset),
        Ok(None)
    ));
    let err = interactive_session_config(
        Some("/tmp/s".to_string()),
        EnvVar::Value("owner/repo".to_string()),
        EnvVar::Unset,
        EnvVar::Value(".Main".to_string()),
        EnvVar::Unset,
    )
    .err()
    .unwrap();
    assert!(err.contains("requires repository, app package, and app activity"));
    let config = interactive_session_config(
        Some(" /tmp/s ".to_string()),
        EnvVar::Value("owner/repo".to_string()),
        EnvVar::Value("com.example".to_string()),
        EnvVar::Value(".Main".to_string()),
        EnvVar::Value("  ".to_string()),
    )
    .unwrap()
    .unwrap();
    assert_eq!(config.session_root, "/tmp/s");
    assert_eq!(config.github_token, None);
}
