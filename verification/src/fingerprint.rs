//! Content fingerprinting for the shape cache.
//!
//! A fingerprint is the 64-bit FNV-1a hash of the text's UTF-8 bytes.  The
//! hash is a pure function of the bytes alone, so equal texts always map to
//! equal fingerprints, in every call and in every process.  Collisions are
//! possible and are an accepted risk of the cache design, not an error.

use vstd::prelude::*;
use vstd::string::StringSliceAdditionalSpecFns;

verus! {

/// The FNV-1a offset basis.
pub const FNV_OFFSET_BASIS: u64 = 0xcbf29ce484222325;

/// The 64-bit FNV prime.
pub const FNV_PRIME: u64 = 0x100000001b3;

/// Multiplication on `u64` that wraps around, as the hash requires.
pub open spec fn wrapping_mul_u64(a: u64, b: u64) -> u64 {
    vstd::wrapping::u64_specs::wrapping_mul(a, b)
}

/// The hash state after absorbing the first `n` bytes of `bytes`.
pub open spec fn fnv1a_acc(bytes: Seq<u8>, n: int) -> u64
    decreases n,
{
    if n <= 0 {
        FNV_OFFSET_BASIS
    } else {
        wrapping_mul_u64(fnv1a_acc(bytes, n - 1) ^ (bytes[n - 1] as u64), FNV_PRIME)
    }
}

/// The FNV-1a hash of a byte sequence.
pub open spec fn fnv1a(bytes: Seq<u8>) -> u64 {
    fnv1a_acc(bytes, bytes.len() as int)
}

/// Hash the UTF-8 bytes of `text` with FNV-1a.
pub fn fnv1a_hash(text: &str) -> (r: u64)
    ensures
        r == fnv1a(text.spec_bytes()),
{
    let bytes = text.as_bytes();
    let mut h: u64 = FNV_OFFSET_BASIS;
    let mut i: usize = 0;
    while i < bytes.len()
        invariant
            i <= bytes@.len(),
            h == fnv1a_acc(bytes@, i as int),
        decreases bytes@.len() - i,
    {
        let x: u64 = h ^ (bytes[i] as u64);
        h = x.wrapping_mul(FNV_PRIME);
        i = i + 1;
    }
    h
}

/// The fingerprint is deterministic: it depends on the bytes alone, so two
/// texts with equal bytes always receive the same fingerprint.
pub proof fn lemma_fingerprint_deterministic(a: Seq<u8>, b: Seq<u8>)
    requires
        a == b,
    ensures
        fnv1a(a) == fnv1a(b),
{
}

} // verus!
