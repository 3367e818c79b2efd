use mysql_passwordless_proxy::error::AuthError;
use mysql_passwordless_proxy::greeting::parse_initial_handshake;

/// A hand-built server greeting: protocol 10, version "8.0.33", connection
/// id 11, seed part 1 = 1..=8, seed part 2 = 9..=20 plus terminator, plugin
/// auth advertised, plugin "mysql_native_password".
fn reference_greeting() -> Vec<u8> {
    vec![
        74, 0, 0, 0, // header: payload length 74, sequence id 0
        10, // protocol version
        56, 46, 48, 46, 51, 51, 0, // "8.0.33\0"
        11, 0, 0, 0, // connection id
        1, 2, 3, 4, 5, 6, 7, 8, // auth seed part 1
        0, // filler
        255, 247, // capability flags, low
        33, // charset
        2, 0, // status flags
        255, 223, // capability flags, high
        21, // auth seed total length
        0, 0, 0, 0, 0, 0, 0, 0, 0, 0, // reserved
        9, 10, 11, 12, 13, 14, 15, 16, 17, 18, 19, 20, 0, // auth seed part 2
        109, 121, 115, 113, 108, 95, 110, 97, 116, 105, 118, 101, 95, 112, 97, 115, 115, 119,
        111, 114, 100, 0, // "mysql_native_password\0"
    ]
}

#[test]
fn parse_reference_greeting() {
    let buf = reference_greeting();
    let h = parse_initial_handshake(&buf).expect("reference greeting must parse");
    assert_eq!(h.payload_len, 74);
    assert_eq!(h.sequence_id, 0);
    assert_eq!(h.protocol_version, 10);
    assert_eq!(h.server_version, b"8.0.33".to_vec());
    assert_eq!(h.connection_id, 11);
    assert_eq!(h.seed1, vec![1, 2, 3, 4, 5, 6, 7, 8]);
    assert_eq!(h.seed2, vec![9, 10, 11, 12, 13, 14, 15, 16, 17, 18, 19, 20, 0]);
    assert_eq!(h.capability_flags, 3758094335);
    assert_eq!(h.charset, 33);
    assert_eq!(h.status_flags, 2);
    assert_eq!(h.auth_plugin_name, b"mysql_native_password".to_vec());
}

#[test]
fn parse_ignores_bytes_past_frame_end() {
    let mut buf = reference_greeting();
    buf.extend_from_slice(&[7, 7, 7, 7]);
    let h = parse_initial_handshake(&buf).expect("trailing bytes are outside the frame");
    assert_eq!(h.payload_len, 74);
    assert_eq!(h.auth_plugin_name, b"mysql_native_password".to_vec());
}

#[test]
fn missing_version_terminator_is_parse_error() {
    // a frame whose server-version field never terminates
    let buf = vec![10, 0, 0, 0, 10, 65, 66, 67, 68, 69, 70, 71, 72, 73];
    assert_eq!(parse_initial_handshake(&buf), Err(AuthError::ParseError));
}

#[test]
fn empty_buffer_is_parse_error() {
    assert_eq!(parse_initial_handshake(&[]), Err(AuthError::ParseError));
}

#[test]
fn short_header_is_parse_error() {
    assert_eq!(parse_initial_handshake(&[1, 0]), Err(AuthError::ParseError));
}

#[test]
fn truncated_frame_is_parse_error() {
    let mut buf = reference_greeting();
    buf.truncate(40); // header still declares 74 payload bytes
    assert_eq!(parse_initial_handshake(&buf), Err(AuthError::ParseError));
}

#[test]
fn empty_payload_is_parse_error() {
    assert_eq!(parse_initial_handshake(&[0, 0, 0, 0]), Err(AuthError::ParseError));
}

#[test]
fn missing_plugin_auth_capability_is_unsupported() {
    let mut buf = reference_greeting();
    // clear bit 3 of the third capability byte: no plugin auth
    buf[30] = 0xf7;
    assert_eq!(parse_initial_handshake(&buf), Err(AuthError::ProtocolUnsupported));
}

#[test]
fn other_auth_plugin_is_unsupported() {
    let mut buf = reference_greeting();
    let last = buf.len() - 2;
    buf[last] = b'x'; // "...passworx"
    assert_eq!(parse_initial_handshake(&buf), Err(AuthError::ProtocolUnsupported));
}

#[test]
fn implausible_seed_length_is_parse_error() {
    let mut buf = reference_greeting();
    buf[32] = 8; // the challenge needs 8 + 12 seed bytes
    assert_eq!(parse_initial_handshake(&buf), Err(AuthError::ParseError));
}

#[test]
fn missing_plugin_terminator_is_parse_error() {
    let mut buf = reference_greeting();
    let last = buf.len() - 1;
    buf[last] = b'd'; // plugin name runs to the frame end unterminated
    assert_eq!(parse_initial_handshake(&buf), Err(AuthError::ParseError));
}

#[test]
fn error_descriptions_are_nonempty() {
    assert!(!AuthError::IoError.describe().is_empty());
    assert!(!AuthError::ParseError.describe().is_empty());
    assert!(!AuthError::ProtocolUnsupported.describe().is_empty());
    assert!(!AuthError::EncodingError.describe().is_empty());
}
