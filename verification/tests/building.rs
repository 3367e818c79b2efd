use mysql_passwordless_proxy::digest::compute_auth_digest;
use mysql_passwordless_proxy::error::AuthError;
use mysql_passwordless_proxy::frame::{decode_frame, encode_frame, Frame};
use mysql_passwordless_proxy::greeting::parse_initial_handshake;
use mysql_passwordless_proxy::response::{
    build_handshake_response, parse_handshake_response, Credentials, RESPONSE_CHARSET,
    RESPONSE_MAX_PACKET_SIZE, RESPONSE_SEQUENCE_ID,
};

fn reference_greeting() -> Vec<u8> {
    vec![
        74, 0, 0, 0, 10, 56, 46, 48, 46, 51, 51, 0, 11, 0, 0, 0, 1, 2, 3, 4, 5, 6, 7, 8, 0, 255,
        247, 33, 2, 0, 255, 223, 21, 0, 0, 0, 0, 0, 0, 0, 0, 0, 0, 9, 10, 11, 12, 13, 14, 15, 16,
        17, 18, 19, 20, 0, 109, 121, 115, 113, 108, 95, 110, 97, 116, 105, 118, 101, 95, 112, 97,
        115, 115, 119, 111, 114, 100, 0,
    ]
}

/// The digest for seed 1..=20 and password "password", computed with an
/// independent SHA-1 implementation.
fn reference_digest() -> Vec<u8> {
    vec![
        193, 125, 96, 9, 165, 203, 71, 229, 159, 116, 131, 252, 240, 85, 83, 187, 191, 125, 208,
        214,
    ]
}

fn proxy_credentials() -> Credentials {
    Credentials { username: b"root".to_vec(), password: b"password".to_vec() }
}

#[test]
fn known_digest_vector() {
    let seed: Vec<u8> = (1..=20).collect();
    let digest = compute_auth_digest(b"password", &seed);
    assert_eq!(digest, reference_digest());
}

#[test]
fn digest_depends_on_seed() {
    let seed_a: Vec<u8> = (1..=20).collect();
    let seed_b: Vec<u8> = (2..=21).collect();
    assert_ne!(compute_auth_digest(b"password", &seed_a), compute_auth_digest(b"password", &seed_b));
}

#[test]
fn build_is_deterministic() {
    let h = parse_initial_handshake(&reference_greeting()).unwrap();
    let c = proxy_credentials();
    let first = build_handshake_response(&h, &c).unwrap();
    let second = build_handshake_response(&h, &c).unwrap();
    assert_eq!(first, second);
}

#[test]
fn response_layout() {
    let h = parse_initial_handshake(&reference_greeting()).unwrap();
    let c = proxy_credentials();
    let v = build_handshake_response(&h, &c).unwrap();
    // header: payload length, fixed sequence id
    let plen = 55 + c.username.len() + h.auth_plugin_name.len();
    assert_eq!(v.len(), 4 + plen);
    assert_eq!(v[0] as usize + 256 * v[1] as usize + 65536 * v[2] as usize, plen);
    assert_eq!(v[3], RESPONSE_SEQUENCE_ID);
    // capability flags and max packet size, little-endian
    assert_eq!(&v[4..8], &[0x85, 0xa6, 0x00, 0x09]);
    assert_eq!(&v[8..12], &[0x00, 0x00, 0x00, 0x01]);
    assert_eq!(v[12], RESPONSE_CHARSET);
    assert_eq!(&v[13..36], &[0u8; 23]);
    assert_eq!(&v[36..40], b"root");
    assert_eq!(v[40], 0);
    assert_eq!(v[41], 20);
    // the challenge is seed part 1 ++ seed part 2 [0..12] = 1..=20
    assert_eq!(&v[42..62], reference_digest().as_slice());
    assert_eq!(&v[62..83], b"mysql_native_password");
    assert_eq!(v[83], 0);
}

#[test]
fn response_round_trip() {
    let h = parse_initial_handshake(&reference_greeting()).unwrap();
    let c = proxy_credentials();
    let v = build_handshake_response(&h, &c).unwrap();
    let r = parse_handshake_response(&v).expect("a built response must parse");
    assert_eq!(r.username, c.username);
    assert_eq!(r.auth_plugin_name, h.auth_plugin_name);
    assert_eq!(r.auth_response, reference_digest());
    assert_eq!(r.max_packet_size, RESPONSE_MAX_PACKET_SIZE);
    assert_eq!(r.charset, RESPONSE_CHARSET);
    assert_eq!(r.capability_flags, 0x0900a685);
}

#[test]
fn oversized_username_is_encoding_error() {
    let h = parse_initial_handshake(&reference_greeting()).unwrap();
    let c = Credentials { username: vec![b'a'; 16777216], password: b"password".to_vec() };
    assert_eq!(build_handshake_response(&h, &c), Err(AuthError::EncodingError));
}

#[test]
fn credentials_validity() {
    assert!(proxy_credentials().valid());
    let bad = Credentials { username: vec![b'r', 0, b't'], password: Vec::new() };
    assert!(!bad.valid());
}

#[test]
fn unterminated_response_username_is_parse_error() {
    // a response frame whose username field never terminates
    let mut buf = vec![35, 0, 0, 1];
    buf.extend_from_slice(&[1u8; 35]);
    assert_eq!(parse_handshake_response(&buf).unwrap_err(), AuthError::ParseError);
}

#[test]
fn frame_round_trip() {
    let f = Frame { sequence_id: 3, payload: vec![1, 2, 3, 4, 5] };
    let encoded = encode_frame(&f);
    assert_eq!(encoded, vec![5, 0, 0, 3, 1, 2, 3, 4, 5]);
    let decoded = decode_frame(&encoded).unwrap();
    assert_eq!(decoded.sequence_id, 3);
    assert_eq!(decoded.payload, vec![1, 2, 3, 4, 5]);
}

#[test]
fn incomplete_frame_is_parse_error() {
    assert!(decode_frame(&[5, 0, 0, 3, 1, 2]).is_err());
}
