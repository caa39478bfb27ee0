use mobius_device_lab::scrcpy::{new_stream_identity, parse_scrcpy_version, valid_stream_request, validate_bit_rate};

#[test]
fn stream_http_request_requires_exact_token_and_loopback_host() {
    let expected = "/screen/001122?token=aabbcc";
    assert!(valid_stream_request(
        "GET /screen/001122?token=aabbcc HTTP/1.1\r\nHost: 127.0.0.1:43000\r\nOrigin: tauri://localhost\r\n\r\n",
        expected,
    ));
    assert!(!valid_stream_request(
        "GET /screen/001122?token=wrong HTTP/1.1\r\nHost: 127.0.0.1:43000\r\n\r\n",
        expected,
    ));
    assert!(!valid_stream_request(
        "GET /screen/001122?token=aabbcc HTTP/1.1\r\nHost: 192.168.1.20:43000\r\n\r\n",
        expected,
    ));
}

#[test]
fn stream_http_request_rejects_foreign_origin() {
    assert!(!valid_stream_request(
        "GET /screen/id?token=secret HTTP/1.1\r\nHost: localhost:43000\r\nOrigin: https://example.invalid\r\n\r\n",
        "/screen/id?token=secret",
    ));
}

#[test]
fn scrcpy_version_parser_only_accepts_safe_version_token() {
    assert_eq!(
        parse_scrcpy_version("scrcpy 4.0 <https://github.com/Genymobile/scrcpy>\n"),
        Some("4.0".into())
    );
    assert_eq!(parse_scrcpy_version("scrcpy 4.0;touch_bad\n"), None);
    assert_eq!(parse_scrcpy_version("not scrcpy\n"), None);
}

#[test]
fn bit_rate_validation_is_bounded() {
    assert!(validate_bit_rate("8M").is_ok());
    assert!(validate_bit_rate("63K").is_err());
    assert!(validate_bit_rate("101M").is_err());
}

#[test]
fn stream_identities_are_fresh_hex() {
    let (scid, session, token) = new_stream_identity().expect("random bytes");
    assert_eq!(scid.len(), 8);
    assert_eq!(session.len(), 32);
    assert_eq!(token.len(), 32);
    assert!(u32::from_str_radix(&scid, 16).unwrap() < 0x8000_0000);
    let (_, other, _) = new_stream_identity().expect("random bytes");
    assert_ne!(session, other);
}
