//! The three digests that the host offers, computed by the crates that
//! implement them.

use vstd::prelude::*;
use ripemd::Ripemd160;
use sha2::{Digest, Sha256};
use tiny_keccak::{Hasher, Keccak};

verus! {

/// The Keccak-256 digest of a byte string.
pub uninterp spec fn keccak256_digest(input: Seq<u8>) -> Seq<u8>;

/// The RIPEMD-160 digest of a byte string.
pub uninterp spec fn ripemd160_digest(input: Seq<u8>) -> Seq<u8>;

/// The SHA-256 digest of a byte string.
pub uninterp spec fn sha256_digest(input: Seq<u8>) -> Seq<u8>;

/// Keccak-256 by `tiny_keccak`: `Keccak::v256`, one `update` with the whole
/// input, and `finalize` into a 32-byte buffer. The contract names the
/// digest and fixes its length; nothing else is claimed.
#[verifier::external_body]
pub(crate) fn keccak256(input: &Vec<u8>) -> (out: Vec<u8>)
    ensures
        out@ == keccak256_digest(input@),
        out@.len() == 32,
{
    let mut hasher = Keccak::v256();
    hasher.update(input.as_slice());
    let mut digest = [0u8; 32];
    hasher.finalize(&mut digest);
    digest.to_vec()
}

/// RIPEMD-160 by `ripemd`: `Ripemd160::digest` on the whole input, which
/// returns 20 bytes. The contract names the digest and fixes its length.
#[verifier::external_body]
pub(crate) fn ripemd160(input: &Vec<u8>) -> (out: Vec<u8>)
    ensures
        out@ == ripemd160_digest(input@),
        out@.len() == 20,
{
    Ripemd160::digest(input.as_slice()).to_vec()
}

/// SHA-256 by `sha2`: `Sha256::digest` on the whole input, which returns 32
/// bytes. The contract names the digest and fixes its length.
#[verifier::external_body]
pub(crate) fn sha256(input: &Vec<u8>) -> (out: Vec<u8>)
    ensures
        out@ == sha256_digest(input@),
        out@.len() == 32,
{
    Sha256::digest(input.as_slice()).to_vec()
}

} // verus!
