use crate::codec::string_from_utf8;
use crate::crypto::{base64_encode, base64_of, prng_bytes, prng_bytes_of, sha256_of, sha_256};
use crate::msg::Env;
use crate::error::{ContractError, Entity};
use crate::state::{key_generation_key, spec_key_generation_key, spec_viewing_key_key, viewing_key_key};
use crate::store::Store;
use vstd::bytes::{spec_u64_from_le_bytes, spec_u64_to_le_bytes, u64_from_le_bytes, u64_to_le_bytes};
use vstd::prelude::*;
use vstd::slice::slice_to_vec;
use vstd::utf8::{encode_utf8, valid_utf8_concat};

verus! {

broadcast use {vstd::utf8::encode_utf8_valid_utf8, vstd::utf8::decode_utf8_encode_utf8};

/// Length of a stored viewing-key secret.
pub const VIEWING_KEY_SIZE: usize = 32;

/// `x` in eight big-endian bytes.
pub open spec fn spec_u64_to_be_bytes(x: u64) -> Seq<u8> {
    let l = spec_u64_to_le_bytes(x);
    seq![l[7], l[6], l[5], l[4], l[3], l[2], l[1], l[0]]
}

/// The entropy handed to the generator: block height and time, how many keys
/// the caller was issued before, the caller's address, and what the caller
/// supplied. The count stands at a fixed place, so two generations for one
/// account never feed the generator the same bytes.
pub open spec fn spec_key_entropy(height: u64, time: u64, generation: u64, sender: Seq<char>, entropy: Seq<u8>) -> Seq<u8> {
    spec_u64_to_be_bytes(height) + spec_u64_to_be_bytes(time) + spec_u64_to_be_bytes(generation)
        + encode_utf8(sender) + entropy
}

/// How many viewing keys `account` was issued: none when nothing is stored, else
/// the stored eight little-endian bytes.
pub open spec fn spec_key_generation(m: Map<Seq<u8>, Seq<u8>>, account: Seq<u8>) -> Result<u64, ContractError> {
    let k = spec_key_generation_key(account);
    if !m.contains_key(k) {
        Ok(0)
    } else if m[k].len() == 8 {
        Ok(spec_u64_from_le_bytes(m[k]))
    } else {
        Err(ContractError::SerializationError(Entity::KeyGeneration))
    }
}

/// The count after one more key; it stops at the largest `u64`.
pub open spec fn spec_next_generation(g: u64) -> u64 {
    if g < u64::MAX {
        (g + 1) as u64
    } else {
        g
    }
}

/// Reads how many viewing keys `account` was issued.
pub fn read_key_generation(store: &Store, account: &[u8]) -> (r: Result<u64, ContractError>)
    requires
        store.wf(),
    ensures
        match spec_key_generation(store@, account@) {
            Ok(g) => r == Ok::<u64, ContractError>(g),
            Err(e) => r == Err::<u64, ContractError>(e),
        },
{
    match store.get(key_generation_key(account).as_slice()) {
        None => Ok(0),
        Some(bytes) => {
            if bytes.len() == 8 {
                Ok(u64_from_le_bytes(bytes.as_slice()))
            } else {
                Err(ContractError::SerializationError(Entity::KeyGeneration))
            }
        },
    }
}

/// Records that `account` was issued one more key than `generation`.
pub fn write_key_generation(store: &mut Store, account: &[u8], generation: u64)
    requires
        old(store).wf(),
    ensures
        final(store).wf(),
        final(store)@ == old(store)@.insert(
            spec_key_generation_key(account@),
            spec_u64_to_le_bytes(spec_next_generation(generation)),
        ),
{
    let next: u64 = if generation < u64::MAX {
        generation + 1
    } else {
        generation
    };
    store.set(key_generation_key(account).as_slice(), u64_to_le_bytes(next).as_slice());
}

/// The printable prefix of every viewing key.
pub open spec fn spec_key_prefix() -> Seq<char> {
    "api_key_"@
}

/// The bytes of the key generated from a seed and entropy: the prefix, then the
/// base64 text of the SHA-256 of the generator's output.
pub open spec fn spec_viewing_key_bytes(seed: Seq<u8>, rng_entropy: Seq<u8>) -> Seq<u8> {
    encode_utf8(spec_key_prefix()) + encode_utf8(base64_of(sha256_of(prng_bytes_of(seed, rng_entropy))))
}

/// The 32 bytes kept for a key: the SHA-256 of its text.
pub open spec fn spec_hashed_key(key: Seq<char>) -> Seq<u8> {
    sha256_of(encode_utf8(key))
}

/// Appends `x` in eight big-endian bytes.
fn push_u64_be(out: &mut Vec<u8>, x: u64)
    ensures
        final(out)@ == old(out)@ + spec_u64_to_be_bytes(x),
{
    let ghost start = out@;
    let l: Vec<u8> = u64_to_le_bytes(x);
    out.push(l[7]);
    out.push(l[6]);
    out.push(l[5]);
    out.push(l[4]);
    out.push(l[3]);
    out.push(l[2]);
    out.push(l[1]);
    out.push(l[0]);
    assert(out@ =~= start + spec_u64_to_be_bytes(x));
}

/// Compares two byte strings in time that depends on their lengths only: every
/// byte is read, with no early exit on the first difference.
pub fn ct_slice_compare(s1: &[u8], s2: &[u8]) -> (r: bool)
    ensures
        r == (s1@ == s2@),
{
    if s1.len() != s2.len() {
        return false;
    }
    let mut diff: u8 = 0;
    let mut i: usize = 0;
    while i < s1.len()
        invariant
            s1@.len() == s2@.len(),
            0 <= i <= s1@.len(),
            (diff == 0) == (forall|k: int| 0 <= k < i ==> s1@[k] == s2@[k]),
        decreases s1@.len() - i,
    {
        let a: u8 = s1[i];
        let b: u8 = s2[i];
        let d: u8 = diff | (a ^ b);
        assert((d == 0) == (diff == 0 && a == b)) by (bit_vector)
            requires
                d == diff | (a ^ b),
        ;
        diff = d;
        i = i + 1;
    }
    if diff == 0 {
        assert(s1@ =~= s2@);
    }
    diff == 0
}

/// A viewing key as the caller holds it: printable text.
pub struct ViewingKey(pub String);

impl ViewingKey {
    /// Derives a fresh key from the stored seed, the block, the caller and the
    /// caller's entropy.
    pub fn new(env: &Env, seed: &[u8], generation: u64, entropy: &[u8]) -> (r: ViewingKey)
        ensures
            encode_utf8(r.0@) == spec_viewing_key_bytes(
                seed@,
                spec_key_entropy(env.block_height, env.block_time, generation, env.sender@, entropy@),
            ),
    {
        let mut rng_entropy: Vec<u8> = Vec::new();
        push_u64_be(&mut rng_entropy, env.block_height);
        push_u64_be(&mut rng_entropy, env.block_time);
        push_u64_be(&mut rng_entropy, generation);
        let mut sender: Vec<u8> = slice_to_vec(env.sender.as_str().as_bytes());
        rng_entropy.append(&mut sender);
        let mut extra: Vec<u8> = slice_to_vec(entropy);
        rng_entropy.append(&mut extra);
        assert(rng_entropy@ =~= spec_key_entropy(env.block_height, env.block_time, generation, env.sender@, entropy@));

        let rand_slice: [u8; 32] = prng_bytes(seed, rng_entropy.as_slice());
        let key: [u8; 32] = sha_256(&rand_slice);
        let text: String = base64_encode(&key);

        let prefix: String = "api_key_".to_owned();
        let mut bytes: Vec<u8> = slice_to_vec(prefix.as_str().as_bytes());
        let mut tail: Vec<u8> = slice_to_vec(text.as_str().as_bytes());
        bytes.append(&mut tail);
        proof {
            valid_utf8_concat(encode_utf8(prefix@), encode_utf8(text@));
        }
        assert(bytes@ == spec_viewing_key_bytes(seed@, rng_entropy@));
        match string_from_utf8(bytes) {
            Some(s) => ViewingKey(s),
            None => {
                assert(false);
                ViewingKey(String::new())
            },
        }
    }

    /// The 32 bytes that are stored for this key.
    pub fn to_hashed(&self) -> (r: [u8; 32])
        ensures
            r@ == spec_hashed_key(self.0@),
    {
        sha_256(self.0.as_str().as_bytes())
    }

    /// Whether this key hashes to `hashed_pw`, compared in constant time.
    pub fn check_viewing_key(&self, hashed_pw: &[u8]) -> (r: bool)
        ensures
            r == (spec_hashed_key(self.0@) == hashed_pw@),
    {
        let mine: [u8; 32] = self.to_hashed();
        ct_slice_compare(&mine, hashed_pw)
    }
}

/// Stores the hash of `key` as `account`'s viewing key, replacing any earlier one.
pub fn write_viewing_key(store: &mut Store, account: &[u8], key: &ViewingKey)
    requires
        old(store).wf(),
    ensures
        final(store).wf(),
        final(store)@ == old(store)@.insert(spec_viewing_key_key(account@), spec_hashed_key(key.0@)),
        spec_hashed_key(key.0@).len() == VIEWING_KEY_SIZE,
{
    let hashed: [u8; 32] = key.to_hashed();
    store.set(viewing_key_key(account).as_slice(), &hashed);
}

/// The hash stored as `account`'s viewing key, if one was set.
pub fn read_viewing_key(store: &Store, account: &[u8]) -> (r: Option<Vec<u8>>)
    requires
        store.wf(),
    ensures
        match r {
            Some(h) => store@.contains_key(spec_viewing_key_key(account@)) && h@ == store@[spec_viewing_key_key(account@)],
            None => !store@.contains_key(spec_viewing_key_key(account@)),
        },
{
    store.get(viewing_key_key(account).as_slice())
}

} // verus!
