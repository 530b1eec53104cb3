use ripemd160::{Digest, Ripemd160};
use secret_toolkit::crypto::Prng;
use sha2::Sha256;
use vstd::prelude::*;

verus! {

/// The SHA-256 digest of a byte string.
pub uninterp spec fn sha256_of(data: Seq<u8>) -> Seq<u8>;

/// The RIPEMD-160 digest of a byte string.
pub uninterp spec fn ripemd160_of(data: Seq<u8>) -> Seq<u8>;

/// The standard base64 text of a byte string, with padding.
pub uninterp spec fn base64_of(data: Seq<u8>) -> Seq<char>;

/// The first 32 bytes drawn from the ChaCha generator keyed by a seed and entropy.
pub uninterp spec fn prng_bytes_of(seed: Seq<u8>, entropy: Seq<u8>) -> Seq<u8>;

/// Relies on `sha2::Sha256`: the 32-byte SHA-256 digest of `data`.
#[verifier::external_body]
pub fn sha_256(data: &[u8]) -> (r: [u8; 32])
    ensures
        r@ == sha256_of(data@),
{
    let mut hasher = Sha256::new();
    hasher.update(data);
    let hash = hasher.finalize();
    let mut result = [0u8; 32];
    result.copy_from_slice(hash.as_slice());
    result
}

/// Relies on `ripemd160::Ripemd160`: the 20-byte RIPEMD-160 digest of `data`.
#[verifier::external_body]
pub(crate) fn ripemd160(data: &[u8]) -> (r: Vec<u8>)
    ensures
        r@ == ripemd160_of(data@),
        r@.len() == 20,
{
    let mut hasher = Ripemd160::new();
    hasher.update(data);
    hasher.finalize().to_vec()
}

/// Relies on `base64::encode`: the standard base64 text of `data`.
#[verifier::external_body]
pub(crate) fn base64_encode(data: &[u8]) -> (r: String)
    ensures
        r@ == base64_of(data@),
{
    base64::encode(data)
}

/// Relies on `secret_toolkit::crypto::Prng`: a generator keyed by the SHA-256 of
/// `seed` and `entropy`, and the 32 bytes it yields first.
#[verifier::external_body]
pub(crate) fn prng_bytes(seed: &[u8], entropy: &[u8]) -> (r: [u8; 32])
    ensures
        r@ == prng_bytes_of(seed@, entropy@),
{
    let mut rng = Prng::new(seed, entropy);
    rng.rand_bytes()
}

} // verus!
