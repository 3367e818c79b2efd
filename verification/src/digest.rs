//! The password-challenge digest of the wire authentication scheme:
//!
//! ```text
//! stage1 = SHA1(password)
//! stage2 = SHA1(stage1)
//! stage3 = SHA1(challenge ++ stage2)
//! digest = stage1 XOR stage3        (byte-wise, 20 bytes)
//! ```
//!
//! SHA-1 itself is computed by the `sha1` crate; its digest is named
//! abstractly by `sha1_of` rather than restated.

use sha1::Digest;
use vstd::prelude::*;

verus! {

/// The SHA-1 digest of a byte sequence, a function of those bytes alone.
pub uninterp spec fn sha1_of(data: Seq<u8>) -> Seq<u8>;

/// Relies on sha1::Sha1 through digest::Digest::digest: the SHA-1 digest of
/// the input bytes, always 20 bytes long and a function of the input alone.
#[verifier::external_body]
fn sha1(data: &[u8]) -> (r: Vec<u8>)
    ensures
        r@ == sha1_of(data@),
        r@.len() == 20,
{
    sha1::Sha1::digest(data).to_vec()
}

/// The SHA-1 digest as the other specifications use it: `sha1_of`, with its
/// 20-byte length available at the specification level.  The wrapper below
/// shows that the two agree on every input the executable code hashes.
pub open spec fn sha1_digest(data: Seq<u8>) -> Seq<u8> {
    if sha1_of(data).len() == 20 {
        sha1_of(data)
    } else {
        Seq::new(20, |i: int| 0u8)
    }
}

/// The byte-wise XOR of two equally long byte sequences.
pub open spec fn xor_bytes(a: Seq<u8>, b: Seq<u8>) -> Seq<u8>
    recommends
        a.len() == b.len(),
{
    Seq::new(a.len(), |i: int| a[i] ^ b[i])
}

/// The 20-byte proof of password knowledge:
/// `SHA1(password) XOR SHA1(challenge ++ SHA1(SHA1(password)))`.
pub open spec fn auth_digest(password: Seq<u8>, challenge: Seq<u8>) -> Seq<u8> {
    let stage1 = sha1_digest(password);
    let stage2 = sha1_digest(stage1);
    let stage3 = sha1_digest(challenge + stage2);
    xor_bytes(stage1, stage3)
}

/// The digest of the scheme is always 20 bytes.
pub proof fn lemma_auth_digest_len(password: Seq<u8>, challenge: Seq<u8>)
    ensures
        auth_digest(password, challenge).len() == 20,
{
}

/// Computes the password-challenge digest.
pub fn compute_auth_digest(password: &[u8], challenge: &[u8]) -> (r: Vec<u8>)
    ensures
        r@ == auth_digest(password@, challenge@),
        r@.len() == 20,
{
    let stage1 = sha1(password);
    let stage2 = sha1(stage1.as_slice());
    let mut salted: Vec<u8> = Vec::new();
    crate::bytes::append_bytes(&mut salted, challenge);
    crate::bytes::append_bytes(&mut salted, stage2.as_slice());
    proof {
        assert(salted@ =~= challenge@ + stage2@);
    }
    let stage3 = sha1(salted.as_slice());

    let mut out: Vec<u8> = Vec::new();
    let mut i: usize = 0;
    while i < 20
        invariant
            i <= 20,
            stage1@.len() == 20,
            stage3@.len() == 20,
            out@.len() == i,
            forall|j: int| 0 <= j < i ==> out@[j] == (stage1@[j] ^ stage3@[j]),
        decreases 20 - i,
    {
        let b = stage1[i] ^ stage3[i];
        out.push(b);
        i += 1;
    }
    proof {
        assert(stage1@ == sha1_digest(password@));
        assert(stage2@ == sha1_digest(stage1@));
        assert(stage3@ == sha1_digest(challenge@ + stage2@));
        assert(out@ =~= xor_bytes(stage1@, stage3@));
    }
    out
}

} // verus!
