//! Small verified helpers on byte buffers: concatenation, terminator search,
//! and the little-endian integer fields of the wire format.

use vstd::prelude::*;

verus! {

/// The index of the first zero byte of `s` at or after `i`, or `s.len()` if
/// there is none.
pub open spec fn first_zero_from(s: Seq<u8>, i: int) -> int
    decreases s.len() - i,
{
    if i < 0 || i >= s.len() {
        s.len() as int
    } else if s[i] == 0 {
        i
    } else {
        first_zero_from(s, i + 1)
    }
}

/// `first_zero_from` returns an index between `i` and `s.len()`; if it is
/// below `s.len()` it points at a zero byte and nothing before it (from `i`
/// on) is zero; if it is `s.len()` there is no zero at or after `i`.
pub proof fn lemma_first_zero_from(s: Seq<u8>, i: int)
    requires
        0 <= i <= s.len(),
    ensures
        i <= first_zero_from(s, i) <= s.len(),
        first_zero_from(s, i) < s.len() ==> s[first_zero_from(s, i)] == 0,
        forall|j: int| i <= j < first_zero_from(s, i) ==> s[j] != 0,
        first_zero_from(s, i) == s.len() ==> forall|j: int| i <= j < s.len() ==> s[j] != 0,
    decreases s.len() - i,
{
    if i < s.len() && s[i] != 0 {
        lemma_first_zero_from(s, i + 1);
    }
}

/// Where a buffer is known piecewise — non-zero bytes over `[i, z)` and a zero
/// at `z` — the first zero from `i` is exactly `z`.
pub proof fn lemma_first_zero_from_exact(s: Seq<u8>, i: int, z: int)
    requires
        0 <= i <= z < s.len(),
        s[z] == 0,
        forall|j: int| i <= j < z ==> s[j] != 0,
    ensures
        first_zero_from(s, i) == z,
    decreases z - i,
{
    if i < z {
        lemma_first_zero_from_exact(s, i + 1, z);
    }
}

/// Finds the first zero byte of `buf` at or after `start`, scanning no further
/// than `end`.  Returns its index only when it lies before `end`.
pub fn find_zero(buf: &[u8], start: usize, end: usize) -> (r: Option<usize>)
    requires
        start <= end <= buf@.len(),
    ensures
        match r {
            Some(z) => start <= z < end && z == first_zero_from(buf@, start as int),
            None => first_zero_from(buf@, start as int) >= end,
        },
{
    let mut i: usize = start;
    while i < end
        invariant
            start <= i <= end <= buf@.len(),
            forall|j: int| start <= j < i ==> buf@[j] != 0,
        decreases end - i,
    {
        if buf[i] == 0 {
            proof {
                lemma_first_zero_from_exact(buf@, start as int, i as int);
            }
            return Some(i);
        }
        i += 1;
    }
    proof {
        lemma_first_zero_from(buf@, start as int);
    }
    None
}

/// Appends all of `src` to `dst`.
pub fn append_bytes(dst: &mut Vec<u8>, src: &[u8])
    ensures
        final(dst)@ == old(dst)@ + src@,
{
    let mut i: usize = 0;
    while i < src.len()
        invariant
            i <= src@.len(),
            dst@ == old(dst)@ + src@.take(i as int),
        decreases src@.len() - i,
    {
        dst.push(src[i]);
        i += 1;
        proof {
            assert(dst@ =~= old(dst)@ + src@.take(i as int));
        }
    }
    proof {
        assert(src@.take(src@.len() as int) =~= src@);
    }
}

/// Appends `n` zero bytes to `dst`.
pub fn append_zeros(dst: &mut Vec<u8>, n: usize)
    ensures
        final(dst)@ == old(dst)@ + Seq::new(n as nat, |j: int| 0u8),
{
    let mut i: usize = 0;
    while i < n
        invariant
            i <= n,
            dst@ == old(dst)@ + Seq::new(i as nat, |j: int| 0u8),
        decreases n - i,
    {
        dst.push(0u8);
        i += 1;
        proof {
            assert(dst@ =~= old(dst)@ + Seq::new(i as nat, |j: int| 0u8));
        }
    }
}

/// Copies `buf[start..end]` into a fresh vector.
pub fn copy_range(buf: &[u8], start: usize, end: usize) -> (r: Vec<u8>)
    requires
        start <= end <= buf@.len(),
    ensures
        r@ == buf@.subrange(start as int, end as int),
{
    let mut v: Vec<u8> = Vec::new();
    proof {
        assert(v@ =~= buf@.subrange(start as int, start as int));
    }
    let mut i: usize = start;
    while i < end
        invariant
            start <= i <= end <= buf@.len(),
            v@ == buf@.subrange(start as int, i as int),
        decreases end - i,
    {
        v.push(buf[i]);
        i += 1;
        proof {
            assert(v@ =~= buf@.subrange(start as int, i as int));
        }
    }
    v
}

/// The value of a 3-byte little-endian length field.
pub open spec fn le3_value(b0: u8, b1: u8, b2: u8) -> int {
    b0 + 256 * b1 + 65536 * b2
}

/// The value of a 4-byte little-endian integer field.
pub open spec fn le4_value(b0: u8, b1: u8, b2: u8, b3: u8) -> int {
    b0 + 256 * b1 + 65536 * b2 + 16777216 * b3
}

/// The value of a 2-byte little-endian integer field.
pub open spec fn le2_value(b0: u8, b1: u8) -> int {
    b0 + 256 * b1
}

/// The three little-endian bytes of a value below 2^24.
pub open spec fn le3_bytes(n: int) -> Seq<u8> {
    seq![(n % 256) as u8, ((n / 256) % 256) as u8, ((n / 65536) % 256) as u8]
}

/// The four little-endian bytes of a value below 2^32.
pub open spec fn le4_bytes(n: int) -> Seq<u8> {
    seq![
        (n % 256) as u8,
        ((n / 256) % 256) as u8,
        ((n / 65536) % 256) as u8,
        ((n / 16777216) % 256) as u8,
    ]
}

/// Writing a value below 2^24 as three little-endian bytes and reading them
/// back yields the value.
pub proof fn lemma_le3_round_trip(n: int)
    requires
        0 <= n < 16777216,
    ensures
        le3_value(le3_bytes(n)[0], le3_bytes(n)[1], le3_bytes(n)[2]) == n,
{
}

} // verus!
