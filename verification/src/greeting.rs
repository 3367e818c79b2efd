//! Decoding the server's greeting frame into structured fields.
//!
//! The greeting is walked positionally: header(4), protocol version(1),
//! null-terminated server version, connection id(4), auth-seed part 1(8),
//! filler(1), capability flags low(2), charset(1), status flags(2),
//! capability flags high(2), auth-seed total length(1), reserved(10),
//! auth-seed part 2 (total length − 8), null-terminated auth-plugin name.
//! Every field access is bounds-checked; a malformed buffer yields an error,
//! never an out-of-bounds access.

use crate::bytes::{
    copy_range, find_zero, first_zero_from, le2_value, le3_value, le4_value,
    lemma_first_zero_from,
};
use crate::error::AuthError;
use vstd::prelude::*;

verus! {

/// The mathematical content of a parsed greeting.
pub ghost struct GreetingView {
    pub payload_len: int,
    pub sequence_id: u8,
    pub protocol_version: u8,
    pub server_version: Seq<u8>,
    pub connection_id: int,
    pub seed1: Seq<u8>,
    pub seed2: Seq<u8>,
    pub capability_flags: int,
    pub charset: u8,
    pub status_flags: int,
    pub auth_plugin_name: Seq<u8>,
}

impl GreetingView {
    /// What holds of every successfully parsed greeting: the seed parts have
    /// the lengths the digest needs, the length fields are in range, and the
    /// null-terminated fields are free of zero bytes.
    pub open spec fn wf(self) -> bool {
        &&& self.seed1.len() == 8
        &&& self.seed2.len() >= 12
        &&& 0 <= self.payload_len < 16777216
        &&& forall|i: int| 0 <= i < self.server_version.len() ==> self.server_version[i] != 0
        &&& forall|i: int|
            0 <= i < self.auth_plugin_name.len() ==> self.auth_plugin_name[i] != 0
    }
}

/// A parsed server greeting.
#[derive(Debug, PartialEq, Eq)]
pub struct InitialHandshake {
    pub payload_len: usize,
    pub sequence_id: u8,
    pub protocol_version: u8,
    pub server_version: Vec<u8>,
    pub connection_id: u32,
    pub seed1: Vec<u8>,
    pub seed2: Vec<u8>,
    pub capability_flags: u32,
    pub charset: u8,
    pub status_flags: u16,
    pub auth_plugin_name: Vec<u8>,
}

impl View for InitialHandshake {
    type V = GreetingView;

    open spec fn view(&self) -> GreetingView {
        GreetingView {
            payload_len: self.payload_len as int,
            sequence_id: self.sequence_id,
            protocol_version: self.protocol_version,
            server_version: self.server_version@,
            connection_id: self.connection_id as int,
            seed1: self.seed1@,
            seed2: self.seed2@,
            capability_flags: self.capability_flags as int,
            charset: self.charset,
            status_flags: self.status_flags as int,
            auth_plugin_name: self.auth_plugin_name@,
        }
    }
}

/// Whether the capability byte carrying bit 19 of the flags (the third flag
/// byte on the wire) advertises plugin authentication.
pub open spec fn has_plugin_auth(flag_byte: u8) -> bool {
    (flag_byte / 8) % 2 == 1
}

/// The name of the one authentication plugin this scheme supports.
pub open spec fn native_password_plugin() -> Seq<u8> {
    seq![
        109u8, 121u8, 115u8, 113u8, 108u8, 95u8, 110u8, 97u8, 116u8, 105u8, 118u8, 101u8, 95u8,
        112u8, 97u8, 115u8, 115u8, 119u8, 111u8, 114u8, 100u8,
    ]
}

/// The plugin name as a vector, for byte comparison against a parsed field.
pub fn native_password_plugin_bytes() -> (r: Vec<u8>)
    ensures
        r@ == native_password_plugin(),
{
    let v: Vec<u8> = vec![
        109u8, 121u8, 115u8, 113u8, 108u8, 95u8, 110u8, 97u8, 116u8, 105u8, 118u8, 101u8, 95u8,
        112u8, 97u8, 115u8, 115u8, 119u8, 111u8, 114u8, 100u8,
    ];
    proof {
        assert(v@ =~= native_password_plugin());
    }
    v
}

/// Whether two byte slices hold the same bytes.
pub fn bytes_eq(a: &[u8], b: &[u8]) -> (r: bool)
    ensures
        r <==> a@ == b@,
{
    if a.len() != b.len() {
        proof {
            assert(a@.len() != b@.len());
        }
        return false;
    }
    let mut i: usize = 0;
    while i < a.len()
        invariant
            i <= a@.len(),
            a@.len() == b@.len(),
            forall|j: int| 0 <= j < i ==> a@[j] == b@[j],
        decreases a@.len() - i,
    {
        if a[i] != b[i] {
            return false;
        }
        i += 1;
    }
    proof {
        assert(a@ =~= b@);
    }
    true
}

/// What `parse_initial_handshake` returns, stated over the raw bytes.  The
/// buffer is read exactly as the wire format lays the greeting out; each check
/// names the condition under which parsing stops.
pub open spec fn parse_greeting(buf: Seq<u8>) -> Result<GreetingView, AuthError> {
    if buf.len() < 4 {
        // no complete header
        Err(AuthError::ParseError)
    } else {
        let end = 4 + le3_value(buf[0], buf[1], buf[2]);
        if end > buf.len() {
            // truncated: fewer bytes than the header declares
            Err(AuthError::ParseError)
        } else if end < 5 {
            // no room for the protocol version byte
            Err(AuthError::ParseError)
        } else {
            let sv_end = first_zero_from(buf, 5);
            if sv_end >= end {
                // server version has no terminator inside the frame
                Err(AuthError::ParseError)
            } else {
                // fixed block after the terminator: connection id(4), seed
                // part 1(8), filler(1), flags low(2), charset(1), status(2),
                // flags high(2), auth-seed total length(1)
                let p = sv_end + 1;
                if p + 21 > end {
                    Err(AuthError::ParseError)
                } else if !has_plugin_auth(buf[p + 18]) {
                    // a server without plugin auth sends a shorter greeting
                    Err(AuthError::ProtocolUnsupported)
                } else {
                    let seed_total = buf[p + 20] as int;
                    if seed_total < 20 {
                        // implausible: the challenge needs 8 + 12 seed bytes
                        Err(AuthError::ParseError)
                    } else if p + 23 + seed_total > end {
                        // reserved block and seed part 2 do not fit
                        Err(AuthError::ParseError)
                    } else {
                        let plugin_end = first_zero_from(buf, p + 23 + seed_total);
                        if plugin_end >= end {
                            // plugin name has no terminator inside the frame
                            Err(AuthError::ParseError)
                        } else {
                            let g = GreetingView {
                                payload_len: end - 4,
                                sequence_id: buf[3],
                                protocol_version: buf[4],
                                server_version: buf.subrange(5, sv_end),
                                connection_id: le4_value(
                                    buf[p],
                                    buf[p + 1],
                                    buf[p + 2],
                                    buf[p + 3],
                                ),
                                seed1: buf.subrange(p + 4, p + 12),
                                seed2: buf.subrange(p + 31, p + 23 + seed_total),
                                capability_flags: le2_value(buf[p + 13], buf[p + 14]) + 65536
                                    * le2_value(buf[p + 18], buf[p + 19]),
                                charset: buf[p + 15],
                                status_flags: le2_value(buf[p + 16], buf[p + 17]),
                                auth_plugin_name: buf.subrange(p + 23 + seed_total, plugin_end),
                            };
                            if g.auth_plugin_name == native_password_plugin() {
                                Ok(g)
                            } else {
                                // an auth plugin outside the password scheme
                                Err(AuthError::ProtocolUnsupported)
                            }
                        }
                    }
                }
            }
        }
    }
}

/// A greeting that parses is well formed, and its declared frame lies inside
/// the buffer.
pub proof fn lemma_parse_greeting_ok(buf: Seq<u8>)
    requires
        parse_greeting(buf) is Ok,
    ensures
        parse_greeting(buf)->Ok_0.wf(),
        4 + parse_greeting(buf)->Ok_0.payload_len <= buf.len(),
{
    let g = parse_greeting(buf)->Ok_0;
    let end = 4 + le3_value(buf[0], buf[1], buf[2]);
    let sv_end = first_zero_from(buf, 5);
    lemma_first_zero_from(buf, 5);
    let p = sv_end + 1;
    let seed_total = buf[p + 20] as int;
    let plugin_end = first_zero_from(buf, p + 23 + seed_total);
    lemma_first_zero_from(buf, p + 23 + seed_total);
    assert(g.server_version =~= buf.subrange(5, sv_end));
    assert(forall|i: int| 0 <= i < g.server_version.len() ==> g.server_version[i] != 0);
    assert(forall|i: int| 0 <= i < g.auth_plugin_name.len() ==> g.auth_plugin_name[i] != 0);
}

/// Decodes a server greeting.  The result matches `parse_greeting` on the
/// buffer's bytes exactly: structured fields on success, `ParseError` for a
/// malformed buffer, `ProtocolUnsupported` for a server outside the
/// single-round-trip password scheme.
pub fn parse_initial_handshake(buf: &[u8]) -> (r: Result<InitialHandshake, AuthError>)
    ensures
        match r {
            Ok(h) => parse_greeting(buf@) == Ok::<GreetingView, AuthError>(h@) && h@.wf(),
            Err(e) => parse_greeting(buf@) == Err::<GreetingView, AuthError>(e),
        },
{
    if buf.len() < 4 {
        return Err(AuthError::ParseError);
    }
    let payload_len: usize = buf[0] as usize + 256 * (buf[1] as usize) + 65536 * (buf[2]
        as usize);
    let end: usize = 4 + payload_len;
    if end > buf.len() {
        return Err(AuthError::ParseError);
    }
    if end < 5 {
        return Err(AuthError::ParseError);
    }
    let sv_end: usize = match find_zero(buf, 5, end) {
        Some(z) => z,
        None => {
            return Err(AuthError::ParseError);
        },
    };
    let p: usize = sv_end + 1;
    if end < 21 || p > end - 21 {
        return Err(AuthError::ParseError);
    }
    if (buf[p + 18] / 8) % 2 != 1 {
        return Err(AuthError::ProtocolUnsupported);
    }
    let seed_total: usize = buf[p + 20] as usize;
    if seed_total < 20 {
        return Err(AuthError::ParseError);
    }
    if p + 23 + seed_total > end {
        return Err(AuthError::ParseError);
    }
    let plugin_end: usize = match find_zero(buf, p + 23 + seed_total, end) {
        Some(z) => z,
        None => {
            return Err(AuthError::ParseError);
        },
    };
    let auth_plugin_name = copy_range(buf, p + 23 + seed_total, plugin_end);
    let expected = native_password_plugin_bytes();
    if !bytes_eq(auth_plugin_name.as_slice(), expected.as_slice()) {
        return Err(AuthError::ProtocolUnsupported);
    }
    let connection_id: u32 = buf[p] as u32 + 256 * (buf[p + 1] as u32) + 65536 * (buf[p + 2]
        as u32) + 16777216 * (buf[p + 3] as u32);
    let capability_flags: u32 = buf[p + 13] as u32 + 256 * (buf[p + 14] as u32) + 65536 * (buf[p
        + 18] as u32) + 16777216 * (buf[p + 19] as u32);
    let status_flags: u16 = buf[p + 16] as u16 + 256 * (buf[p + 17] as u16);
    let h = InitialHandshake {
        payload_len,
        sequence_id: buf[3],
        protocol_version: buf[4],
        server_version: copy_range(buf, 5, sv_end),
        connection_id,
        seed1: copy_range(buf, p + 4, p + 12),
        seed2: copy_range(buf, p + 31, p + 23 + seed_total),
        capability_flags,
        charset: buf[p + 15],
        status_flags,
        auth_plugin_name,
    };
    proof {
        lemma_first_zero_from(buf@, 5);
        lemma_first_zero_from(buf@, p + 23 + seed_total);
        assert(parse_greeting(buf@) == Ok::<GreetingView, AuthError>(h@));
        lemma_parse_greeting_ok(buf@);
    }
    Ok(h)
}

} // verus!
