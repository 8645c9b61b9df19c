use android_computer_use_mcp::discovery::{
    GrpcEndpoint, IniMap, any_grpc_endpoint_published, configured_grpc_endpoint,
    grpc_endpoint_for_serial, grpc_endpoint_from_entry, parse_ini_map,
};

#[test]
fn parses_grpc_endpoint_from_matching_serial_entry() {
    let mut entry = IniMap::new();
    entry.insert("port.serial".to_string(), "5554".to_string());
    entry.insert("grpc.port".to_string(), "8554".to_string());
    entry.insert("grpc.token".to_string(), "token-123".to_string());
    assert_eq!(
        grpc_endpoint_from_entry(&entry, 5554),
        Some(GrpcEndpoint {
            port: 8554,
            auth_token: Some("token-123".to_string()),
        })
    );
    assert_eq!(grpc_endpoint_from_entry(&entry, 5556), None);
}

#[test]
fn parses_ini_map_with_quoted_values() {
    let parsed = parse_ini_map("port.serial=5554\ngrpc.token=\"abc\"\n").unwrap();
    assert_eq!(parsed.get("port.serial").map(String::as_str), Some("5554"));
    assert_eq!(parsed.get("grpc.token").map(String::as_str), Some("abc"));
}

fn running_files() -> Vec<String> {
    vec![
        "port.serial=5556\ngrpc.port=8556\n".to_string(),
        "port.serial=5554\ngrpc.port=8554\ngrpc.token=  secret  \n".to_string(),
        "port.serial=5554\ngrpc.port=9999\n".to_string(),
    ]
}

#[test]
fn grpc_endpoint_for_serial_takes_first_matching_file() {
    assert_eq!(
        grpc_endpoint_for_serial("emulator-5554", &running_files()),
        Some(GrpcEndpoint {
            port: 8554,
            auth_token: Some("secret".to_string()),
        })
    );
    assert_eq!(
        grpc_endpoint_for_serial("emulator-5556", &running_files()),
        Some(GrpcEndpoint {
            port: 8556,
            auth_token: None,
        })
    );
    assert_eq!(grpc_endpoint_for_serial("emulator-5558", &running_files()), None);
    assert_eq!(grpc_endpoint_for_serial("R58M123", &running_files()), None);
    assert_eq!(grpc_endpoint_for_serial("emulator-x", &running_files()), None);
}

#[test]
fn any_grpc_endpoint_published_needs_a_readable_port() {
    assert!(any_grpc_endpoint_published(&running_files()));
    assert!(!any_grpc_endpoint_published(&["port.serial=5554\ngrpc.port=x\n".to_string()]));
    assert!(!any_grpc_endpoint_published(&[]));
}

#[test]
fn configured_grpc_port_keeps_published_token() {
    assert_eq!(
        configured_grpc_endpoint("emulator-5554", Some(7000), &running_files()),
        Some(GrpcEndpoint {
            port: 7000,
            auth_token: Some("secret".to_string()),
        })
    );
    assert_eq!(
        configured_grpc_endpoint("emulator-5558", Some(7000), &running_files()),
        Some(GrpcEndpoint {
            port: 7000,
            auth_token: None,
        })
    );
    assert_eq!(configured_grpc_endpoint("R58M123", Some(7000), &running_files()), None);
    assert_eq!(
        configured_grpc_endpoint("emulator-5556", None, &running_files()),
        Some(GrpcEndpoint {
            port: 8556,
            auth_token: None,
        })
    );
}
