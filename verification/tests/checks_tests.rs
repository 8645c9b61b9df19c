use android_computer_use_mcp::artifact::{
    artifact_read_request, encode_artifact_base64, ensure_artifact_within_root,
};
use android_computer_use_mcp::session::{
    check_sha256_digest, chrono_like_iso, lower_hex_of, timestamp_slug, verify_sha256,
};

#[test]
fn sha256_check_compares_lower_hex_digests() {
    let expected = "ba7816bf8f01cfea414140de5dae2223b00361a396177a9cb410ff61f20015ad";
    assert!(verify_sha256("app.apk", b"abc", expected).is_ok());
    let err = verify_sha256("app.apk", b"abd", expected).err().unwrap();
    assert!(err
        .to_string()
        .starts_with("sha256 mismatch for app.apk: expected ba7816bf"));
    assert_eq!(lower_hex_of(&[0x00, 0x0f, 0xa0, 0xff]), "000fa0ff");
    assert!(check_sha256_digest("p", &[0xab], "ab").is_ok());
    assert_eq!(
        check_sha256_digest("p", &[0xab], "AB").err().unwrap().to_string(),
        "sha256 mismatch for p: expected AB, observed ab"
    );
}

#[test]
fn base64_payload_is_standard_with_padding() {
    assert_eq!(encode_artifact_base64(b""), "");
    assert_eq!(encode_artifact_base64(b"h"), "aA==");
    assert_eq!(encode_artifact_base64(b"he"), "aGU=");
    assert_eq!(encode_artifact_base64(b"hello"), "aGVsbG8=");
    assert_eq!(encode_artifact_base64(&[0xfb, 0xff]), "+/8=");
}

#[test]
fn iso_timestamps_and_slugs() {
    assert_eq!(chrono_like_iso(0).as_deref(), Some("1970-01-01T00:00:00Z"));
    assert_eq!(timestamp_slug(1_431_648_000).as_deref(), Some("20150515T000000Z"));
}

#[test]
fn artifact_paths_must_stay_inside_the_directory() {
    assert_eq!(artifact_read_request("  out/a.png ").unwrap(), "out/a.png");
    assert_eq!(artifact_read_request("  ").err().unwrap().to_string(), "path must not be empty");
    assert!(ensure_artifact_within_root("/srv/artifacts/a.png", "/srv/artifacts").is_ok());
    assert!(ensure_artifact_within_root("/srv/artifacts-other/a.png", "/srv/artifacts").is_err());
}
