use crate::codec::{
    lemma_int_codec, push_bytes_field, push_u16, push_u64, read_u16_at, read_u64_at,
    spec_bytes_field, spec_u64_at, string_from_utf8, tail_bytes,
};
use crate::error::{ContractError, Entity};
use crate::store::{lemma_namespaced_key_injective, namespaced_key, spec_namespaced_key, Store};
use vstd::slice::slice_to_vec;
use vstd::bytes::{spec_u16_from_le_bytes, spec_u16_to_le_bytes, spec_u64_to_le_bytes};
use vstd::prelude::*;
use vstd::utf8::{decode_utf8, encode_utf8, valid_utf8};

verus! {

broadcast use {vstd::utf8::encode_utf8_valid_utf8, vstd::utf8::encode_utf8_decode_utf8, vstd::utf8::decode_utf8_encode_utf8};

/// The contract's global state: the description bound, how many accounts have
/// recorded a score, and the seed of viewing-key generation.
#[derive(Clone, Debug)]
pub struct State {
    pub max_size: u16,
    pub score_count: u64,
    pub prng_seed: Vec<u8>,
}

pub struct StateModel {
    pub max_size: u16,
    pub score_count: u64,
    pub prng_seed: Seq<u8>,
}

impl View for State {
    type V = StateModel;

    open spec fn view(&self) -> StateModel {
        StateModel { max_size: self.max_size, score_count: self.score_count, prng_seed: self.prng_seed@ }
    }
}

/// One account's recorded score.
#[derive(Clone, Debug)]
pub struct User {
    pub score: u64,
    pub timestamp: u64,
    pub description: Vec<u8>,
}

pub struct UserModel {
    pub score: u64,
    pub timestamp: u64,
    pub description: Seq<u8>,
}

impl View for User {
    type V = UserModel;

    open spec fn view(&self) -> UserModel {
        UserModel { score: self.score, timestamp: self.timestamp, description: self.description@ }
    }
}

/// Values fixed at instantiation.
#[derive(Clone, Debug)]
pub struct Constants {
    pub contract_address: String,
}

impl View for Constants {
    type V = Seq<char>;

    open spec fn view(&self) -> Seq<char> {
        self.contract_address@
    }
}

pub open spec fn spec_encode_state(m: StateModel) -> Seq<u8> {
    spec_u16_to_le_bytes(m.max_size) + spec_u64_to_le_bytes(m.score_count) + spec_bytes_field(m.prng_seed)
}

pub open spec fn spec_decode_state(b: Seq<u8>) -> Option<StateModel> {
    if b.len() < 18 || b.len() != 18 + spec_u64_at(b, 10) {
        None
    } else {
        Some(StateModel {
            max_size: spec_u16_from_le_bytes(b.subrange(0, 2)),
            score_count: spec_u64_at(b, 2),
            prng_seed: b.subrange(18, b.len() as int),
        })
    }
}

pub open spec fn spec_encode_user(m: UserModel) -> Seq<u8> {
    spec_u64_to_le_bytes(m.score) + spec_u64_to_le_bytes(m.timestamp) + spec_bytes_field(m.description)
}

pub open spec fn spec_decode_user(b: Seq<u8>) -> Option<UserModel> {
    if b.len() < 24 || b.len() != 24 + spec_u64_at(b, 16) {
        None
    } else {
        Some(UserModel {
            score: spec_u64_at(b, 0),
            timestamp: spec_u64_at(b, 8),
            description: b.subrange(24, b.len() as int),
        })
    }
}

pub open spec fn spec_encode_constants(address: Seq<char>) -> Seq<u8> {
    spec_bytes_field(encode_utf8(address))
}

pub open spec fn spec_decode_constants(b: Seq<u8>) -> Option<Seq<char>> {
    if b.len() < 8 || b.len() != 8 + spec_u64_at(b, 0) || !valid_utf8(b.subrange(8, b.len() as int)) {
        None
    } else {
        Some(decode_utf8(b.subrange(8, b.len() as int)))
    }
}

/// A value that passes through the store in the contract's binary format.
pub trait Persist: View + Sized {
    spec fn spec_encode(v: Self::V) -> Seq<u8>;

    spec fn spec_decode(b: Seq<u8>) -> Option<Self::V>;

    spec fn spec_entity() -> Entity;

    fn encode(&self) -> (r: Vec<u8>)
        ensures
            r@ == Self::spec_encode(self@),
    ;

    fn decode(b: &[u8]) -> (r: Option<Self>)
        ensures
            match r {
                Some(x) => Self::spec_decode(b@) == Some(x@),
                None => Self::spec_decode(b@) is None,
            },
    ;

    fn entity() -> (r: Entity)
        ensures
            r == Self::spec_entity(),
    ;
}

impl Persist for State {
    open spec fn spec_encode(v: StateModel) -> Seq<u8> {
        spec_encode_state(v)
    }

    open spec fn spec_decode(b: Seq<u8>) -> Option<StateModel> {
        spec_decode_state(b)
    }

    open spec fn spec_entity() -> Entity {
        Entity::State
    }

    fn encode(&self) -> (r: Vec<u8>) {
        let mut r: Vec<u8> = Vec::new();
        push_u16(&mut r, self.max_size);
        push_u64(&mut r, self.score_count);
        push_bytes_field(&mut r, self.prng_seed.as_slice());
        assert(r@ =~= spec_encode_state(self@));
        r
    }

    fn decode(b: &[u8]) -> (r: Option<State>) {
        if b.len() < 18 {
            return None;
        }
        let n: u64 = read_u64_at(b, 10);
        if (b.len() - 18) as u64 != n {
            return None;
        }
        let max_size: u16 = read_u16_at(b, 0);
        let score_count: u64 = read_u64_at(b, 2);
        let prng_seed: Vec<u8> = tail_bytes(b, 18);
        Some(State { max_size, score_count, prng_seed })
    }

    fn entity() -> (r: Entity) {
        Entity::State
    }
}

impl Persist for User {
    open spec fn spec_encode(v: UserModel) -> Seq<u8> {
        spec_encode_user(v)
    }

    open spec fn spec_decode(b: Seq<u8>) -> Option<UserModel> {
        spec_decode_user(b)
    }

    open spec fn spec_entity() -> Entity {
        Entity::User
    }

    fn encode(&self) -> (r: Vec<u8>) {
        let mut r: Vec<u8> = Vec::new();
        push_u64(&mut r, self.score);
        push_u64(&mut r, self.timestamp);
        push_bytes_field(&mut r, self.description.as_slice());
        assert(r@ =~= spec_encode_user(self@));
        r
    }

    fn decode(b: &[u8]) -> (r: Option<User>) {
        if b.len() < 24 {
            return None;
        }
        let n: u64 = read_u64_at(b, 16);
        if (b.len() - 24) as u64 != n {
            return None;
        }
        let score: u64 = read_u64_at(b, 0);
        let timestamp: u64 = read_u64_at(b, 8);
        let description: Vec<u8> = tail_bytes(b, 24);
        Some(User { score, timestamp, description })
    }

    fn entity() -> (r: Entity) {
        Entity::User
    }
}

impl Persist for Constants {
    open spec fn spec_encode(v: Seq<char>) -> Seq<u8> {
        spec_encode_constants(v)
    }

    open spec fn spec_decode(b: Seq<u8>) -> Option<Seq<char>> {
        spec_decode_constants(b)
    }

    open spec fn spec_entity() -> Entity {
        Entity::Constants
    }

    fn encode(&self) -> (r: Vec<u8>) {
        let mut r: Vec<u8> = Vec::new();
        push_bytes_field(&mut r, self.contract_address.as_str().as_bytes());
        r
    }

    fn decode(b: &[u8]) -> (r: Option<Constants>) {
        if b.len() < 8 {
            return None;
        }
        let n: u64 = read_u64_at(b, 0);
        if (b.len() - 8) as u64 != n {
            return None;
        }
        match string_from_utf8(tail_bytes(b, 8)) {
            Some(contract_address) => Some(Constants { contract_address }),
            None => None,
        }
    }

    fn entity() -> (r: Entity) {
        Entity::Constants
    }
}

/// The binary format is lossless: decoding an encoded state gives back every field.
pub proof fn lemma_state_round_trip(m: StateModel)
    requires
        m.prng_seed.len() <= u64::MAX,
    ensures
        spec_decode_state(spec_encode_state(m)) == Some(m),
{
    lemma_int_codec();
    let b = spec_encode_state(m);
    assert(b.subrange(0, 2) =~= spec_u16_to_le_bytes(m.max_size));
    assert(b.subrange(2, 10) =~= spec_u64_to_le_bytes(m.score_count));
    assert(b.subrange(10, 18) =~= spec_u64_to_le_bytes(m.prng_seed.len() as u64));
    assert(b.subrange(18, b.len() as int) =~= m.prng_seed);
}

/// The binary format is lossless: decoding an encoded record gives back every field.
pub proof fn lemma_user_round_trip(m: UserModel)
    requires
        m.description.len() <= u64::MAX,
    ensures
        spec_decode_user(spec_encode_user(m)) == Some(m),
{
    lemma_int_codec();
    let b = spec_encode_user(m);
    assert(b.subrange(0, 8) =~= spec_u64_to_le_bytes(m.score));
    assert(b.subrange(8, 16) =~= spec_u64_to_le_bytes(m.timestamp));
    assert(b.subrange(16, 24) =~= spec_u64_to_le_bytes(m.description.len() as u64));
    assert(b.subrange(24, b.len() as int) =~= m.description);
}

/// The binary format is lossless for the constants as well.
pub proof fn lemma_constants_round_trip(address: Seq<char>)
    requires
        encode_utf8(address).len() <= u64::MAX,
    ensures
        spec_decode_constants(spec_encode_constants(address)) == Some(address),
{
    lemma_int_codec();
    let e = encode_utf8(address);
    let b = spec_encode_constants(address);
    assert(b.subrange(0, 8) =~= spec_u64_to_le_bytes(e.len() as u64));
    assert(b.subrange(8, b.len() as int) =~= e);
}

/// The format is canonical: bytes that decode to a state are exactly its encoding.
pub proof fn lemma_state_decode_canonical(b: Seq<u8>)
    requires
        spec_decode_state(b) is Some,
    ensures
        spec_encode_state(spec_decode_state(b)->Some_0) == b,
{
    lemma_int_codec();
    let m = spec_decode_state(b)->Some_0;
    assert(b.subrange(10, 18) == spec_u64_to_le_bytes(spec_u64_at(b, 10)));
    assert(b.subrange(2, 10) == spec_u64_to_le_bytes(spec_u64_at(b, 2)));
    assert(b.subrange(0, 2) == spec_u16_to_le_bytes(spec_u16_from_le_bytes(b.subrange(0, 2))));
    assert(spec_encode_state(m) =~= b.subrange(0, 2) + b.subrange(2, 10) + b.subrange(10, 18) + b.subrange(18, b.len() as int));
    assert(b =~= b.subrange(0, 2) + b.subrange(2, 10) + b.subrange(10, 18) + b.subrange(18, b.len() as int));
}

/// The format is canonical: bytes that decode to a record are exactly its encoding.
pub proof fn lemma_user_decode_canonical(b: Seq<u8>)
    requires
        spec_decode_user(b) is Some,
    ensures
        spec_encode_user(spec_decode_user(b)->Some_0) == b,
{
    lemma_int_codec();
    let m = spec_decode_user(b)->Some_0;
    assert(b.subrange(0, 8) == spec_u64_to_le_bytes(spec_u64_at(b, 0)));
    assert(b.subrange(8, 16) == spec_u64_to_le_bytes(spec_u64_at(b, 8)));
    assert(b.subrange(16, 24) == spec_u64_to_le_bytes(spec_u64_at(b, 16)));
    assert(spec_encode_user(m) =~= b.subrange(0, 8) + b.subrange(8, 16) + b.subrange(16, 24) + b.subrange(24, b.len() as int));
    assert(b =~= b.subrange(0, 8) + b.subrange(8, 16) + b.subrange(16, 24) + b.subrange(24, b.len() as int));
}

/// Tag of the partition holding the constants and the global state.
pub open spec fn spec_config_tag() -> Seq<u8> {
    seq![99u8, 111, 110, 102, 105, 103]
}

/// Tag of the root partition, holding one record per account id.
pub open spec fn spec_records_tag() -> Seq<u8> {
    Seq::<u8>::empty()
}

/// Tag of the partition holding the hashed viewing keys.
pub open spec fn spec_viewing_keys_tag() -> Seq<u8> {
    seq![118u8, 105, 101, 119, 105, 110, 103, 95, 107, 101, 121, 115]
}

/// Tag of the partition counting the viewing keys issued to each account.
pub open spec fn spec_key_generations_tag() -> Seq<u8> {
    seq![118u8, 105, 101, 119, 105, 110, 103, 95, 107, 101, 121, 95, 99, 111, 117, 110, 116, 115]
}

/// Tag of the partition holding the revocation markers.
pub open spec fn spec_revoked_permits_tag() -> Seq<u8> {
    seq![114u8, 101, 118, 111, 107, 101, 100, 95, 112, 101, 114, 109, 105, 116, 115]
}

pub open spec fn spec_state_key() -> Seq<u8> {
    spec_namespaced_key(spec_config_tag(), seq![115u8, 116, 97, 116, 101])
}

pub open spec fn spec_constants_key() -> Seq<u8> {
    spec_namespaced_key(
        spec_config_tag(),
        seq![99u8, 111, 110, 115, 116, 97, 110, 116, 115],
    )
}

pub open spec fn spec_record_key(account: Seq<u8>) -> Seq<u8> {
    spec_namespaced_key(spec_records_tag(), account)
}

pub open spec fn spec_viewing_key_key(account: Seq<u8>) -> Seq<u8> {
    spec_namespaced_key(spec_viewing_keys_tag(), account)
}

pub open spec fn spec_key_generation_key(account: Seq<u8>) -> Seq<u8> {
    spec_namespaced_key(spec_key_generations_tag(), account)
}

/// The marker key of (account, permit name): the account is length-delimited, so
/// no two pairs share a key.
pub open spec fn spec_revocation_key(account: Seq<u8>, permit_name: Seq<u8>) -> Seq<u8> {
    spec_namespaced_key(spec_revoked_permits_tag(), spec_bytes_field(account) + permit_name)
}

/// Storage key of the global state.
pub fn state_key() -> (r: Vec<u8>)
    ensures
        r@ == spec_state_key(),
{
    let tag: Vec<u8> = vec![99u8, 111, 110, 102, 105, 103];
    let key: Vec<u8> = vec![115u8, 116, 97, 116, 101];
    assert(tag@ =~= spec_config_tag());
    namespaced_key(tag.as_slice(), key.as_slice())
}

/// Storage key of the constants.
pub fn constants_key() -> (r: Vec<u8>)
    ensures
        r@ == spec_constants_key(),
{
    let tag: Vec<u8> = vec![99u8, 111, 110, 102, 105, 103];
    let key: Vec<u8> = vec![99u8, 111, 110, 115, 116, 97, 110, 116, 115];
    assert(tag@ =~= spec_config_tag());
    namespaced_key(tag.as_slice(), key.as_slice())
}

/// Storage key of an account's record.
pub fn record_key(account: &[u8]) -> (r: Vec<u8>)
    ensures
        r@ == spec_record_key(account@),
{
    let tag: Vec<u8> = Vec::new();
    assert(tag@ =~= spec_records_tag());
    namespaced_key(tag.as_slice(), account)
}

/// Storage key of an account's hashed viewing key.
pub fn viewing_key_key(account: &[u8]) -> (r: Vec<u8>)
    ensures
        r@ == spec_viewing_key_key(account@),
{
    let tag: Vec<u8> = vec![118u8, 105, 101, 119, 105, 110, 103, 95, 107, 101, 121, 115];
    assert(tag@ =~= spec_viewing_keys_tag());
    namespaced_key(tag.as_slice(), account)
}

/// Storage key of the number of viewing keys issued to an account.
pub fn key_generation_key(account: &[u8]) -> (r: Vec<u8>)
    ensures
        r@ == spec_key_generation_key(account@),
{
    let tag: Vec<u8> = vec![118u8, 105, 101, 119, 105, 110, 103, 95, 107, 101, 121, 95, 99, 111, 117, 110, 116, 115];
    assert(tag@ =~= spec_key_generations_tag());
    namespaced_key(tag.as_slice(), account)
}

/// Storage key of the marker that revokes `permit_name` for `account`.
pub fn revocation_key(account: &[u8], permit_name: &[u8]) -> (r: Vec<u8>)
    ensures
        r@ == spec_revocation_key(account@, permit_name@),
{
    let tag: Vec<u8> = vec![114u8, 101, 118, 111, 107, 101, 100, 95, 112, 101, 114, 109, 105, 116, 115];
    assert(tag@ =~= spec_revoked_permits_tag());
    let mut inner: Vec<u8> = Vec::new();
    push_bytes_field(&mut inner, account);
    let mut name: Vec<u8> = slice_to_vec(permit_name);
    inner.append(&mut name);
    namespaced_key(tag.as_slice(), inner.as_slice())
}

/// Two (account, permit name) pairs share a revocation marker only when equal.
pub proof fn lemma_revocation_key_injective(a1: Seq<u8>, n1: Seq<u8>, a2: Seq<u8>, n2: Seq<u8>)
    requires
        a1.len() <= u64::MAX,
        a2.len() <= u64::MAX,
        spec_revocation_key(a1, n1) == spec_revocation_key(a2, n2),
    ensures
        a1 == a2,
        n1 == n2,
{
    lemma_int_codec();
    let t = spec_revoked_permits_tag();
    let i1 = spec_bytes_field(a1) + n1;
    let i2 = spec_bytes_field(a2) + n2;
    lemma_namespaced_key_injective(t, i1, t, i2);
    assert(i1.subrange(0, 8) =~= spec_u64_to_le_bytes(a1.len() as u64));
    assert(i2.subrange(0, 8) =~= spec_u64_to_le_bytes(a2.len() as u64));
    assert(a1.len() == a2.len());
    assert(a1 =~= i1.subrange(8, 8 + a1.len() as int));
    assert(a2 =~= i2.subrange(8, 8 + a2.len() as int));
    assert(n1 =~= i1.subrange(8 + a1.len() as int, i1.len() as int));
    assert(n2 =~= i2.subrange(8 + a2.len() as int, i2.len() as int));
}

/// What reading `key` yields: absent, undecodable, or the decoded value.
pub open spec fn spec_load<T: Persist>(m: Map<Seq<u8>, Seq<u8>>, key: Seq<u8>) -> Result<T::V, ContractError> {
    if !m.contains_key(key) {
        Err(ContractError::NotFound(T::spec_entity()))
    } else {
        match T::spec_decode(m[key]) {
            Some(v) => Ok(v),
            None => Err(ContractError::SerializationError(T::spec_entity())),
        }
    }
}

/// What reading `key` yields when absence is a normal outcome.
pub open spec fn spec_may_load<T: Persist>(m: Map<Seq<u8>, Seq<u8>>, key: Seq<u8>) -> Result<Option<T::V>, ContractError> {
    if !m.contains_key(key) {
        Ok(None)
    } else {
        match T::spec_decode(m[key]) {
            Some(v) => Ok(Some(v)),
            None => Err(ContractError::SerializationError(T::spec_entity())),
        }
    }
}

/// Encodes `value` and stores it under `key`.
pub fn save<T: Persist>(store: &mut Store, key: &[u8], value: &T)
    requires
        old(store).wf(),
    ensures
        final(store).wf(),
        final(store)@ == old(store)@.insert(key@, T::spec_encode(value@)),
{
    let bytes: Vec<u8> = value.encode();
    store.set(key, bytes.as_slice());
}

/// Reads and decodes the value under `key`; a missing value is an error.
pub fn load<T: Persist>(store: &Store, key: &[u8]) -> (r: Result<T, ContractError>)
    requires
        store.wf(),
    ensures
        match r {
            Ok(x) => spec_load::<T>(store@, key@) == Ok::<T::V, ContractError>(x@),
            Err(e) => spec_load::<T>(store@, key@) == Err::<T::V, ContractError>(e),
        },
{
    match store.get(key) {
        None => Err(ContractError::NotFound(T::entity())),
        Some(bytes) => match T::decode(bytes.as_slice()) {
            Some(x) => Ok(x),
            None => Err(ContractError::SerializationError(T::entity())),
        },
    }
}

/// Reads and decodes the value under `key`, if there is one.
pub fn may_load<T: Persist>(store: &Store, key: &[u8]) -> (r: Result<Option<T>, ContractError>)
    requires
        store.wf(),
    ensures
        match r {
            Ok(Some(x)) => spec_may_load::<T>(store@, key@) == Ok::<Option<T::V>, ContractError>(Some(x@)),
            Ok(None) => spec_may_load::<T>(store@, key@) == Ok::<Option<T::V>, ContractError>(None),
            Err(e) => spec_may_load::<T>(store@, key@) == Err::<Option<T::V>, ContractError>(e),
        },
{
    match store.get(key) {
        None => Ok(None),
        Some(bytes) => match T::decode(bytes.as_slice()) {
            Some(x) => Ok(Some(x)),
            None => Err(ContractError::SerializationError(T::entity())),
        },
    }
}

/// Whether anything is stored under `key`.
pub fn does_user_exist(store: &Store, key: &[u8]) -> (r: bool)
    requires
        store.wf(),
    ensures
        r == store@.contains_key(key@),
{
    store.contains(key)
}

} // verus!
