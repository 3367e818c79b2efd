//! Building the client handshake-response frame from held credentials and the
//! parsed greeting, and decoding such a frame back into its fields.

use crate::bytes::{
    append_bytes, append_zeros, copy_range, find_zero, first_zero_from, le4_bytes, le4_value,
    lemma_first_zero_from, lemma_first_zero_from_exact,
};
use crate::digest::{auth_digest, compute_auth_digest, lemma_auth_digest_len};
use crate::error::AuthError;
use crate::frame::{frame_bytes, frame_payload, holds_frame, Frame};
use crate::greeting::{GreetingView, InitialHandshake};
use vstd::prelude::*;

verus! {

pub const CLIENT_LONG_PASSWORD: u32 = 1;
pub const CLIENT_LONG_FLAG: u32 = 4;
pub const CLIENT_LOCAL_FILES: u32 = 128;
pub const CLIENT_PROTOCOL_41: u32 = 512;
pub const CLIENT_INTERACTIVE: u32 = 1024;
pub const CLIENT_TRANSACTIONS: u32 = 8192;
pub const CLIENT_SECURE_CONNECTION: u32 = 32768;
pub const CLIENT_DEPRECATE_EOF: u32 = 16777216;
pub const CLIENT_QUERY_ATTRIBUTES: u32 = 134217728;

/// The capability bitmask the response advertises.  The flags are distinct
/// bits, so their sum is their union.
pub const RESPONSE_CAPABILITIES: u32 = CLIENT_LONG_PASSWORD + CLIENT_LONG_FLAG
    + CLIENT_LOCAL_FILES + CLIENT_PROTOCOL_41 + CLIENT_INTERACTIVE + CLIENT_TRANSACTIONS
    + CLIENT_SECURE_CONNECTION + CLIENT_DEPRECATE_EOF + CLIENT_QUERY_ATTRIBUTES;

/// The fixed max-packet-size the response declares.
pub const RESPONSE_MAX_PACKET_SIZE: u32 = 16777216;

/// The fixed charset id the response declares.
pub const RESPONSE_CHARSET: u8 = 45;

/// The response is the second message the client sends, after the greeting
/// exchange.
pub const RESPONSE_SEQUENCE_ID: u8 = 1;

/// The identity the proxy holds and substitutes into the handshake.
pub struct Credentials {
    pub username: Vec<u8>,
    pub password: Vec<u8>,
}

/// The mathematical content of the credentials.
pub ghost struct CredentialsView {
    pub username: Seq<u8>,
    pub password: Seq<u8>,
}

impl View for Credentials {
    type V = CredentialsView;

    open spec fn view(&self) -> CredentialsView {
        CredentialsView { username: self.username@, password: self.password@ }
    }
}

impl CredentialsView {
    /// The username is written null-terminated, so it must hold no zero byte.
    pub open spec fn wf(self) -> bool {
        forall|i: int| 0 <= i < self.username.len() ==> self.username[i] != 0
    }
}

impl Credentials {
    /// Whether these credentials can be encoded: the username holds no zero
    /// byte.
    pub fn valid(&self) -> (r: bool)
        ensures
            r == self@.wf(),
    {
        let mut i: usize = 0;
        while i < self.username.len()
            invariant
                i <= self.username@.len(),
                forall|j: int| 0 <= j < i ==> self.username@[j] != 0,
            decreases self.username@.len() - i,
        {
            if self.username[i] == 0 {
                proof {
                    let v = self@;
                    assert(v.username[i as int] == 0);
                    assert(!v.wf());
                }
                return false;
            }
            i += 1;
        }
        true
    }
}

/// The 20-byte challenge the digest is computed over: seed part 1 and the
/// first 12 bytes of seed part 2, terminator byte excluded.
pub open spec fn challenge_of(g: GreetingView) -> Seq<u8> {
    g.seed1 + g.seed2.take(12)
}

/// The payload of the client response: capability flags(4), max packet
/// size(4), charset(1), 23 zero bytes, null-terminated username, digest
/// length(1), 20-byte digest, null-terminated echo of the server's plugin
/// name.
pub open spec fn response_payload(g: GreetingView, c: CredentialsView) -> Seq<u8> {
    le4_bytes(RESPONSE_CAPABILITIES as int) + le4_bytes(RESPONSE_MAX_PACKET_SIZE as int) + seq![
        RESPONSE_CHARSET,
    ] + Seq::new(23, |i: int| 0u8) + c.username + seq![0u8] + seq![20u8] + auth_digest(
        c.password,
        challenge_of(g),
    ) + g.auth_plugin_name + seq![0u8]
}

/// The full response frame: header carrying the payload length and the fixed
/// sequence id, then the payload.
pub open spec fn response_bytes(g: GreetingView, c: CredentialsView) -> Seq<u8> {
    frame_bytes(RESPONSE_SEQUENCE_ID, response_payload(g, c))
}

/// The response payload's length: 55 fixed bytes plus username and plugin
/// name.
pub proof fn lemma_response_payload_len(g: GreetingView, c: CredentialsView)
    ensures
        response_payload(g, c).len() == 55 + c.username.len() + g.auth_plugin_name.len(),
{
    lemma_auth_digest_len(c.password, challenge_of(g));
}

/// Encodes the client response from the parsed greeting and the held
/// credentials.  Succeeds exactly when the payload fits the 3-byte length
/// field of the frame header.
pub fn build_handshake_response(g: &InitialHandshake, c: &Credentials) -> (r: Result<
    Vec<u8>,
    AuthError,
>)
    requires
        g@.wf(),
        c@.wf(),
    ensures
        match r {
            Ok(v) => v@ == response_bytes(g@, c@) && 55 + c@.username.len()
                + g@.auth_plugin_name.len() < 16777216,
            Err(e) => e == AuthError::EncodingError && 55 + c@.username.len()
                + g@.auth_plugin_name.len() >= 16777216,
        },
{
    if c.username.len() > 16777160 {
        return Err(AuthError::EncodingError);
    }
    if g.auth_plugin_name.len() > 16777160 - c.username.len() {
        return Err(AuthError::EncodingError);
    }
    // challenge = seed part 1 ++ seed part 2 [0..12]
    let mut challenge: Vec<u8> = Vec::new();
    append_bytes(&mut challenge, g.seed1.as_slice());
    let seed2_head = copy_range(g.seed2.as_slice(), 0, 12);
    append_bytes(&mut challenge, seed2_head.as_slice());
    proof {
        assert(g@.seed2.take(12) =~= g.seed2@.subrange(0, 12));
        assert(challenge@ =~= challenge_of(g@));
    }
    let digest = compute_auth_digest(c.password.as_slice(), challenge.as_slice());

    let mut payload: Vec<u8> = Vec::new();
    payload.push((RESPONSE_CAPABILITIES % 256) as u8);
    payload.push(((RESPONSE_CAPABILITIES / 256) % 256) as u8);
    payload.push(((RESPONSE_CAPABILITIES / 65536) % 256) as u8);
    payload.push(((RESPONSE_CAPABILITIES / 16777216) % 256) as u8);
    payload.push((RESPONSE_MAX_PACKET_SIZE % 256) as u8);
    payload.push(((RESPONSE_MAX_PACKET_SIZE / 256) % 256) as u8);
    payload.push(((RESPONSE_MAX_PACKET_SIZE / 65536) % 256) as u8);
    payload.push(((RESPONSE_MAX_PACKET_SIZE / 16777216) % 256) as u8);
    payload.push(RESPONSE_CHARSET);
    append_zeros(&mut payload, 23);
    append_bytes(&mut payload, c.username.as_slice());
    payload.push(0u8);
    payload.push(20u8);
    append_bytes(&mut payload, digest.as_slice());
    append_bytes(&mut payload, g.auth_plugin_name.as_slice());
    payload.push(0u8);
    proof {
        assert(payload@ =~= response_payload(g@, c@));
        lemma_response_payload_len(g@, c@);
    }
    let frame = Frame { sequence_id: RESPONSE_SEQUENCE_ID, payload };
    let v = crate::frame::encode_frame(&frame);
    Ok(v)
}

/// The fields a response payload decodes to.
pub ghost struct ResponseView {
    pub capability_flags: int,
    pub max_packet_size: int,
    pub charset: u8,
    pub username: Seq<u8>,
    pub auth_response: Seq<u8>,
    pub auth_plugin_name: Seq<u8>,
}

/// A decoded client response.
#[derive(Debug, PartialEq, Eq)]
pub struct HandshakeResponse {
    pub capability_flags: u32,
    pub max_packet_size: u32,
    pub charset: u8,
    pub username: Vec<u8>,
    pub auth_response: Vec<u8>,
    pub auth_plugin_name: Vec<u8>,
}

impl View for HandshakeResponse {
    type V = ResponseView;

    open spec fn view(&self) -> ResponseView {
        ResponseView {
            capability_flags: self.capability_flags as int,
            max_packet_size: self.max_packet_size as int,
            charset: self.charset,
            username: self.username@,
            auth_response: self.auth_response@,
            auth_plugin_name: self.auth_plugin_name@,
        }
    }
}

/// What `parse_handshake_response` returns for a response payload: capability
/// flags(4), max packet size(4), charset(1), 23 filler bytes, null-terminated
/// username, digest length(1), digest, null-terminated plugin name.
pub open spec fn parse_response_payload(pay: Seq<u8>) -> Result<ResponseView, AuthError> {
    if pay.len() < 33 {
        // no room for the fixed head and the username terminator
        Err(AuthError::ParseError)
    } else {
        let u_end = first_zero_from(pay, 32);
        if u_end >= pay.len() {
            // username has no terminator
            Err(AuthError::ParseError)
        } else if u_end + 2 > pay.len() {
            // no room for the digest length byte
            Err(AuthError::ParseError)
        } else {
            let dlen = pay[u_end + 1] as int;
            if u_end + 2 + dlen > pay.len() {
                // digest does not fit
                Err(AuthError::ParseError)
            } else {
                let p_end = first_zero_from(pay, u_end + 2 + dlen);
                if p_end >= pay.len() {
                    // plugin name has no terminator
                    Err(AuthError::ParseError)
                } else {
                    Ok(
                        ResponseView {
                            capability_flags: le4_value(pay[0], pay[1], pay[2], pay[3]),
                            max_packet_size: le4_value(pay[4], pay[5], pay[6], pay[7]),
                            charset: pay[8],
                            username: pay.subrange(32, u_end),
                            auth_response: pay.subrange(u_end + 2, u_end + 2 + dlen),
                            auth_plugin_name: pay.subrange(u_end + 2 + dlen, p_end),
                        },
                    )
                }
            }
        }
    }
}

/// What `parse_handshake_response` returns for a full response frame.
pub open spec fn parse_response(buf: Seq<u8>) -> Result<ResponseView, AuthError> {
    if !holds_frame(buf) {
        Err(AuthError::ParseError)
    } else {
        parse_response_payload(frame_payload(buf))
    }
}

/// Decodes a client response frame back into its fields.
pub fn parse_handshake_response(buf: &[u8]) -> (r: Result<HandshakeResponse, AuthError>)
    ensures
        match r {
            Ok(h) => parse_response(buf@) == Ok::<ResponseView, AuthError>(h@),
            Err(e) => parse_response(buf@) == Err::<ResponseView, AuthError>(e),
        },
{
    let frame = match crate::frame::decode_frame(buf) {
        Ok(f) => f,
        Err(e) => {
            return Err(e);
        },
    };
    let pay = frame.payload.as_slice();
    if pay.len() < 33 {
        return Err(AuthError::ParseError);
    }
    let u_end: usize = match find_zero(pay, 32, pay.len()) {
        Some(z) => z,
        None => {
            proof {
                lemma_first_zero_from(pay@, 32);
            }
            return Err(AuthError::ParseError);
        },
    };
    if u_end + 2 > pay.len() {
        return Err(AuthError::ParseError);
    }
    let dlen: usize = pay[u_end + 1] as usize;
    if dlen > pay.len() - u_end - 2 {
        return Err(AuthError::ParseError);
    }
    let p_end: usize = match find_zero(pay, u_end + 2 + dlen, pay.len()) {
        Some(z) => z,
        None => {
            proof {
                lemma_first_zero_from(pay@, u_end + 2 + dlen);
            }
            return Err(AuthError::ParseError);
        },
    };
    let capability_flags: u32 = pay[0] as u32 + 256 * (pay[1] as u32) + 65536 * (pay[2] as u32)
        + 16777216 * (pay[3] as u32);
    let max_packet_size: u32 = pay[4] as u32 + 256 * (pay[5] as u32) + 65536 * (pay[6] as u32)
        + 16777216 * (pay[7] as u32);
    let h = HandshakeResponse {
        capability_flags,
        max_packet_size,
        charset: pay[8],
        username: copy_range(pay, 32, u_end),
        auth_response: copy_range(pay, u_end + 2, u_end + 2 + dlen),
        auth_plugin_name: copy_range(pay, u_end + 2 + dlen, p_end),
    };
    proof {
        assert(parse_response_payload(pay@) == Ok::<ResponseView, AuthError>(h@));
    }
    Ok(h)
}

/// The response bytes are a function of the parsed greeting and the
/// credentials alone: builds from equal inputs are byte-identical.
pub proof fn lemma_build_deterministic(
    g1: GreetingView,
    c1: CredentialsView,
    g2: GreetingView,
    c2: CredentialsView,
)
    requires
        g1 == g2,
        c1 == c2,
    ensures
        response_bytes(g1, c1) == response_bytes(g2, c2),
{
}

/// Round trip: decoding a response built from a well-formed greeting and
/// valid credentials recovers the username and the echoed plugin name, along
/// with the fixed fields and the digest.
/// Where each field lies inside a built response payload: the fixed head,
/// the null-terminated username, the digest length byte, the digest, and the
/// null-terminated plugin name.
#[verifier::rlimit(60)]
proof fn lemma_response_payload_fields(g: GreetingView, c: CredentialsView)
    requires
        g.wf(),
        c.wf(),
    ensures
        ({
            let pay = response_payload(g, c);
            let ulen = c.username.len() as int;
            let plen = g.auth_plugin_name.len() as int;
            let d = auth_digest(c.password, challenge_of(g));
            &&& pay.len() == 55 + ulen + plen
            &&& pay.subrange(32, 32 + ulen) == c.username
            &&& forall|j: int| 32 <= j < 32 + ulen ==> pay[j] != 0
            &&& pay[32 + ulen] == 0
            &&& pay[33 + ulen] == 20
            &&& pay.subrange(34 + ulen, 54 + ulen) == d
            &&& pay.subrange(54 + ulen, 54 + ulen + plen) == g.auth_plugin_name
            &&& forall|j: int| 54 + ulen <= j < 54 + ulen + plen ==> pay[j] != 0
            &&& pay[54 + ulen + plen] == 0
            &&& le4_value(pay[0], pay[1], pay[2], pay[3]) == RESPONSE_CAPABILITIES
            &&& le4_value(pay[4], pay[5], pay[6], pay[7]) == RESPONSE_MAX_PACKET_SIZE
            &&& pay[8] == RESPONSE_CHARSET
        }),
{
    let pay = response_payload(g, c);
    let ulen = c.username.len() as int;
    let plen = g.auth_plugin_name.len() as int;
    let d = auth_digest(c.password, challenge_of(g));
    lemma_auth_digest_len(c.password, challenge_of(g));
    lemma_response_payload_len(g, c);

    // peel the concatenation one piece at a time: s3 is the fixed head, s4
    // adds the username, s7 reaches the end of the digest
    let s1 = le4_bytes(RESPONSE_CAPABILITIES as int) + le4_bytes(RESPONSE_MAX_PACKET_SIZE as int);
    let s2 = s1 + seq![RESPONSE_CHARSET];
    let s3 = s2 + Seq::new(23, |i: int| 0u8);
    let s4 = s3 + c.username;
    let s5 = s4 + seq![0u8];
    let s6 = s5 + seq![20u8];
    let s7 = s6 + d;
    let s8 = s7 + g.auth_plugin_name;
    assert(pay == s8 + seq![0u8]);
    assert(s3.len() == 32);
    assert(s7.len() == 54 + ulen);

    assert forall|j: int| 0 <= j < 54 + ulen implies pay[j] == s7[j] by {
        assert(s8[j] == s7[j]);
    }

    // the username field: bytes 32 .. 32 + ulen, then its terminator
    assert forall|j: int| 32 <= j < 32 + ulen implies pay[j] == c.username[j - 32] by {
        assert(s7[j] == s6[j]);
        assert(s6[j] == s5[j]);
        assert(s5[j] == s4[j]);
        assert(s4[j] == c.username[j - 32]);
    }
    assert forall|j: int| 32 <= j < 32 + ulen implies pay[j] != 0 by {
        assert(c.username[j - 32] != 0);
    }
    assert(pay[32 + ulen] == s5[32 + ulen] == 0);
    assert(pay.subrange(32, 32 + ulen) =~= c.username);

    // the digest length byte and the digest
    assert(pay[33 + ulen] == s6[33 + ulen] == 20);
    assert forall|j: int| 34 + ulen <= j < 54 + ulen implies pay[j] == d[j - 34 - ulen] by {
        assert(s7[j] == d[j - 34 - ulen]);
    }
    assert(pay.subrange(34 + ulen, 54 + ulen) =~= d);

    // the plugin name and its terminator
    assert forall|j: int| 54 + ulen <= j < 54 + ulen + plen implies pay[j]
        == g.auth_plugin_name[j - 54 - ulen] by {
        assert(pay[j] == s8[j]);
        assert(s8[j] == g.auth_plugin_name[j - 54 - ulen]);
    }
    assert forall|j: int| 54 + ulen <= j < 54 + ulen + plen implies pay[j] != 0 by {
        assert(g.auth_plugin_name[j - 54 - ulen] != 0);
    }
    assert(pay[54 + ulen + plen] == 0);
    assert(pay.subrange(54 + ulen, 54 + ulen + plen) =~= g.auth_plugin_name);

    // the fixed head
    assert forall|j: int| 0 <= j < 9 implies pay[j] == s2[j] by {
        assert(s7[j] == s6[j]);
        assert(s6[j] == s5[j]);
        assert(s5[j] == s4[j]);
        assert(s4[j] == s3[j]);
        assert(s3[j] == s2[j]);
    }
    assert(le4_value(pay[0], pay[1], pay[2], pay[3]) == RESPONSE_CAPABILITIES);
    assert(le4_value(pay[4], pay[5], pay[6], pay[7]) == RESPONSE_MAX_PACKET_SIZE);
    assert(pay[8] == RESPONSE_CHARSET);
}

/// Round trip: decoding a response built from a well-formed greeting and
/// valid credentials recovers the username and the echoed plugin name, along
/// with the fixed fields and the digest.
#[verifier::rlimit(60)]
pub proof fn lemma_response_round_trip(g: GreetingView, c: CredentialsView)
    requires
        g.wf(),
        c.wf(),
        55 + c.username.len() + g.auth_plugin_name.len() < 16777216,
    ensures
        parse_response(response_bytes(g, c)) matches Ok(r) && r.username == c.username
            && r.auth_plugin_name == g.auth_plugin_name && r.auth_response == auth_digest(
            c.password,
            challenge_of(g),
        ) && r.capability_flags == RESPONSE_CAPABILITIES && r.max_packet_size
            == RESPONSE_MAX_PACKET_SIZE && r.charset == RESPONSE_CHARSET,
{
    let pay = response_payload(g, c);
    let buf = response_bytes(g, c);
    let ulen = c.username.len() as int;
    let plen = g.auth_plugin_name.len() as int;
    lemma_response_payload_fields(g, c);

    // the frame header declares exactly the payload
    crate::frame::lemma_frame_round_trip(RESPONSE_SEQUENCE_ID, pay);
    assert(holds_frame(buf));
    assert(frame_payload(buf) == pay);

    // walk `parse_response_payload` over the field layout
    lemma_first_zero_from_exact(pay, 32, 32 + ulen);
    assert(first_zero_from(pay, 32) == 32 + ulen);
    assert(pay[32 + ulen + 1] == 20);
    lemma_first_zero_from_exact(pay, 54 + ulen, 54 + ulen + plen);
    assert(first_zero_from(pay, 54 + ulen) == 54 + ulen + plen);
}

} // verus!
