//! The cryptographic boundary: signature verification and address
//! derivation. The two hash/signature primitives are outside calls whose
//! results are named by uninterpreted spec functions; everything built on
//! them is verified against those names.

use vstd::prelude::*;
use crate::codec::{address_preimage, encode_address_preimage};

verus! {

/// Whether `ed25519_dalek` accepts `sig` as a valid Ed25519 signature by
/// the key `pk` over the message `msg`. Verification is a deterministic
/// function of these three byte strings alone.
pub uninterp spec fn ed25519_valid(pk: Seq<u8>, msg: Seq<u8>, sig: Seq<u8>) -> bool;

/// The SHA-256 digest of a byte string: a deterministic function of the
/// input bytes alone.
pub uninterp spec fn sha256_of(data: Seq<u8>) -> Seq<u8>;

/// A bet record's address, derived deterministically from the player key
/// and the player-chosen seed by hashing their fixed-width encoding. One
/// player therefore has at most one open bet per seed.
pub open spec fn address_of(player: Seq<u8>, seed: u64) -> Seq<u8> {
    sha256_of(address_preimage(player, seed))
}

/// Relies on `ed25519_dalek::VerifyingKey::verify_strict` for the actual
/// signature check; `VerifyingKey::from_bytes` and `Signature::from_slice`
/// only convert the raw arguments, and a key or signature they reject is
/// one the verifier would reject too. `Signature::from_slice` accepts only
/// 64-byte inputs, so a signature this function accepts has 64 bytes.
#[verifier::external_body]
pub(crate) fn ed25519_verify(pk: &[u8; 32], msg: &[u8], sig: &[u8]) -> (r: bool)
    ensures
        r == ed25519_valid(pk@, msg@, sig@),
        r ==> sig@.len() == 64,
{
    match ed25519_dalek::VerifyingKey::from_bytes(pk) {
        Ok(key) => match ed25519_dalek::Signature::from_slice(sig) {
            Ok(s) => key.verify_strict(msg, &s).is_ok(),
            Err(_) => false,
        },
        Err(_) => false,
    }
}

/// Relies on `sha2::Sha256::digest`: the 32-byte SHA-256 digest of the
/// input, a pure function of the input bytes.
#[verifier::external_body]
fn sha256(data: &[u8]) -> (r: [u8; 32])
    ensures
        r@ == sha256_of(data@),
{
    <sha2::Sha256 as sha2::Digest>::digest(data).into()
}

/// Derives a bet's address from the player key and seed.
pub fn derive_bet_address(player: &[u8; 32], seed: u64) -> (r: [u8; 32])
    ensures
        r@ == address_of(player@, seed),
{
    let preimage = encode_address_preimage(player, seed);
    sha256(preimage.as_slice())
}

} // verus!
