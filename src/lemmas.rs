use crate::codec::lemma_int_codec;
use crate::contract::{
    spec_bump, spec_generate_error, spec_generated, spec_key_matches, spec_query_read, spec_record,
    ReadOutcome,
};
use crate::msg::Env;
use crate::error::ContractError;
use crate::permit::{spec_permit_revocation_key, spec_pubkey_to_account, spec_validate_error, Permit};
use crate::state::{
    lemma_state_round_trip, lemma_user_round_trip, spec_config_tag, spec_decode_state,
    spec_load, spec_record_key, spec_records_tag, spec_state_key, spec_viewing_key_key,
    spec_key_generation_key, spec_key_generations_tag, spec_viewing_keys_tag, State, StateModel,
    UserModel,
};
use crate::store::lemma_partitions_disjoint;
use crate::viewing_key::{
    spec_hashed_key, spec_key_entropy, spec_key_generation, spec_next_generation, spec_u64_to_be_bytes,
};
use vstd::bytes::spec_u64_to_le_bytes;
use vstd::prelude::*;
use vstd::utf8::encode_utf8;

verus! {

broadcast use {vstd::utf8::encode_utf8_valid_utf8, vstd::utf8::encode_utf8_decode_utf8};

/// An account's record never shares a key with the global state.
pub proof fn lemma_record_key_not_state_key(account: Seq<u8>)
    ensures
        spec_record_key(account) != spec_state_key(),
{
    assert(spec_records_tag() != spec_config_tag()) by {
        assert(spec_config_tag().len() == 6);
    }
    lemma_partitions_disjoint(spec_records_tag(), account, spec_config_tag(), seq![115u8, 116, 97, 116, 101]);
}

/// A state that decodes can be re-encoded with any count and decodes again.
proof fn lemma_state_reencode(st: StateModel, b: Seq<u8>, count: u64)
    requires
        spec_decode_state(b) == Some(st),
    ensures
        spec_decode_state(crate::state::spec_encode_state(StateModel { score_count: count, ..st }))
            == Some(StateModel { score_count: count, ..st }),
{
    lemma_state_round_trip(StateModel { score_count: count, ..st });
}

/// After an account records a score, reading that account finds exactly the
/// score, the block time and the description it recorded.
pub proof fn lemma_record_then_read(
    m: Map<Seq<u8>, Seq<u8>>,
    account: Seq<u8>,
    time: u64,
    score: u64,
    description: Seq<char>,
)
    requires
        spec_record(m, account, time, score, encode_utf8(description)) is Ok,
        encode_utf8(description).len() <= u64::MAX,
    ensures
        spec_query_read(spec_record(m, account, time, score, encode_utf8(description))->Ok_0, account)
            == (ReadOutcome::Found { score, timestamp: time, description }),
{
    let d = encode_utf8(description);
    lemma_user_round_trip(UserModel { score, timestamp: time, description: d });
    lemma_record_key_not_state_key(account);
}

/// An account that never recorded reads as not found.
pub proof fn lemma_read_absent(m: Map<Seq<u8>, Seq<u8>>, account: Seq<u8>)
    requires
        !m.contains_key(spec_record_key(account)),
    ensures
        spec_query_read(m, account) == ReadOutcome::NotFound,
{
}

/// A record leaves the state as it was but for the count, which grows by one
/// exactly when the account had no record before; afterwards it has one.
pub proof fn lemma_record_count(
    m: Map<Seq<u8>, Seq<u8>>,
    account: Seq<u8>,
    time: u64,
    score: u64,
    description: Seq<u8>,
)
    requires
        spec_record(m, account, time, score, description) is Ok,
    ensures
        spec_load::<State>(m, spec_state_key()) is Ok,
        spec_record(m, account, time, score, description)->Ok_0.contains_key(spec_record_key(account)),
        spec_load::<State>(spec_record(m, account, time, score, description)->Ok_0, spec_state_key())
            == Ok::<StateModel, ContractError>(StateModel {
                score_count: if m.contains_key(spec_record_key(account)) {
                    spec_load::<State>(m, spec_state_key())->Ok_0.score_count
                } else {
                    spec_bump(spec_load::<State>(m, spec_state_key())->Ok_0.score_count)
                },
                ..spec_load::<State>(m, spec_state_key())->Ok_0
            }),
{
    lemma_record_key_not_state_key(account);
    let st = spec_load::<State>(m, spec_state_key())->Ok_0;
    if !m.contains_key(spec_record_key(account)) {
        lemma_state_reencode(st, m[spec_state_key()], spec_bump(st.score_count));
    }
}

/// However often one account records, the count grows by one at most, on its
/// first record: two records in a row count as one.
pub proof fn lemma_repeat_record_counts_once(
    m: Map<Seq<u8>, Seq<u8>>,
    account: Seq<u8>,
    t1: u64,
    s1: u64,
    d1: Seq<u8>,
    t2: u64,
    s2: u64,
    d2: Seq<u8>,
)
    requires
        spec_record(m, account, t1, s1, d1) is Ok,
    ensures
        spec_record(spec_record(m, account, t1, s1, d1)->Ok_0, account, t2, s2, d2) is Ok,
        spec_load::<State>(
            spec_record(spec_record(m, account, t1, s1, d1)->Ok_0, account, t2, s2, d2)->Ok_0,
            spec_state_key(),
        ) == spec_load::<State>(spec_record(m, account, t1, s1, d1)->Ok_0, spec_state_key()),
{
    lemma_record_count(m, account, t1, s1, d1);
    let m1 = spec_record(m, account, t1, s1, d1)->Ok_0;
    lemma_record_key_not_state_key(account);
    assert(spec_record(m1, account, t2, s2, d2) is Ok);
    lemma_record_count(m1, account, t2, s2, d2);
}

/// Recording never removes a stored key: in particular, no revocation is undone.
pub proof fn lemma_record_keeps_keys(
    m: Map<Seq<u8>, Seq<u8>>,
    account: Seq<u8>,
    time: u64,
    score: u64,
    description: Seq<u8>,
    k: Seq<u8>,
)
    requires
        spec_record(m, account, time, score, description) is Ok,
        m.contains_key(k),
    ensures
        spec_record(m, account, time, score, description)->Ok_0.contains_key(k),
{
}

/// Once a key is set, it verifies, and another key verifies only if its hash
/// equals the latest key's: setting a new key retires the earlier one.
pub proof fn lemma_latest_key_verifies(m: Map<Seq<u8>, Seq<u8>>, account: Seq<u8>, key: Seq<char>, other: Seq<char>)
    ensures
        spec_key_matches(m.insert(spec_viewing_key_key(account), spec_hashed_key(key)), account, key),
        spec_key_matches(m.insert(spec_viewing_key_key(account), spec_hashed_key(key)), account, other)
            <==> spec_hashed_key(other) == spec_hashed_key(key),
{
}

/// After an account revokes a permit name, every permit it signed under that
/// name is refused as revoked, whatever its signature.
pub proof fn lemma_revoked_permit_refused(m: Map<Seq<u8>, Seq<u8>>, p: Permit, token: Seq<char>)
    requires
        p.spec_allows_token(token),
    ensures
        spec_validate_error(
            m.insert(
                spec_permit_revocation_key(spec_pubkey_to_account(p.pubkey@), p.permit_name@),
                Seq::<u8>::empty(),
            ),
            p,
            token,
        ) == Some(ContractError::PermitRevoked),
{
}

/// An account's first record raises the count by exactly one, below the
/// largest `u64`; later records by it leave the count alone.
pub proof fn lemma_first_record_counts_one(
    m: Map<Seq<u8>, Seq<u8>>,
    account: Seq<u8>,
    time: u64,
    score: u64,
    description: Seq<u8>,
)
    requires
        spec_record(m, account, time, score, description) is Ok,
        spec_load::<State>(m, spec_state_key())->Ok_0.score_count < u64::MAX,
    ensures
        spec_load::<State>(spec_record(m, account, time, score, description)->Ok_0, spec_state_key())->Ok_0.score_count
            == if m.contains_key(spec_record_key(account)) {
                spec_load::<State>(m, spec_state_key())->Ok_0.score_count as int
            } else {
                spec_load::<State>(m, spec_state_key())->Ok_0.score_count + 1
            },
{
    lemma_record_count(m, account, time, score, description);
}

/// The eight big-endian bytes of a count determine it.
proof fn lemma_be_bytes_injective(a: u64, b: u64)
    requires
        spec_u64_to_be_bytes(a) == spec_u64_to_be_bytes(b),
    ensures
        a == b,
{
    lemma_int_codec();
    let la = spec_u64_to_le_bytes(a);
    let lb = spec_u64_to_le_bytes(b);
    assert forall|i: int| 0 <= i < 8 implies la[i] == lb[i] by {
        assert(spec_u64_to_be_bytes(a)[7 - i] == spec_u64_to_be_bytes(b)[7 - i]);
    }
    assert(la =~= lb);
}

/// Two successive key generations for one account never feed the generator the
/// same input, whatever the block and entropy of each: the account's key count,
/// which stands at a fixed place in the input, has grown in between (below the
/// largest `u64`). After the second, its key verifies, and the first one does
/// not unless the two keys hash alike.
pub proof fn lemma_successive_generations(
    m: Map<Seq<u8>, Seq<u8>>,
    env1: Env,
    e1: Seq<char>,
    k1: Seq<char>,
    m1: Map<Seq<u8>, Seq<u8>>,
    env2: Env,
    e2: Seq<char>,
    k2: Seq<char>,
    m2: Map<Seq<u8>, Seq<u8>>,
)
    requires
        env1.sender_id@ == env2.sender_id@,
        spec_generate_error(m, env1.sender_id@) is None,
        spec_generated(m, env1, e1, k1, m1),
        spec_generate_error(m1, env2.sender_id@) is None,
        spec_generated(m1, env2, e2, k2, m2),
        spec_key_generation(m, env1.sender_id@)->Ok_0 < u64::MAX,
    ensures
        spec_key_generation(m1, env2.sender_id@)->Ok_0 == spec_key_generation(m, env1.sender_id@)->Ok_0 + 1,
        spec_key_entropy(
            env1.block_height,
            env1.block_time,
            spec_key_generation(m, env1.sender_id@)->Ok_0,
            env1.sender@,
            encode_utf8(e1),
        ) != spec_key_entropy(
            env2.block_height,
            env2.block_time,
            spec_key_generation(m1, env2.sender_id@)->Ok_0,
            env2.sender@,
            encode_utf8(e2),
        ),
        spec_key_matches(m2, env2.sender_id@, k2),
        spec_hashed_key(k1) != spec_hashed_key(k2) ==> !spec_key_matches(m2, env1.sender_id@, k1),
{
    lemma_int_codec();
    let a = env1.sender_id@;
    let g1 = spec_key_generation(m, a)->Ok_0;
    let g2 = spec_key_generation(m1, a)->Ok_0;
    lemma_key_partitions_disjoint(a);
    assert(m1[spec_key_generation_key(a)] == spec_u64_to_le_bytes(spec_next_generation(g1)));
    assert(g2 == g1 + 1);
    let x1 = spec_key_entropy(env1.block_height, env1.block_time, g1, env1.sender@, encode_utf8(e1));
    let x2 = spec_key_entropy(env2.block_height, env2.block_time, g2, env2.sender@, encode_utf8(e2));
    if x1 == x2 {
        assert(x1.subrange(16, 24) =~= spec_u64_to_be_bytes(g1));
        assert(x2.subrange(16, 24) =~= spec_u64_to_be_bytes(g2));
        lemma_be_bytes_injective(g1, g2);
    }
}

/// An account's viewing-key hash and key count never share a storage key.
pub proof fn lemma_key_partitions_disjoint(account: Seq<u8>)
    ensures
        spec_viewing_key_key(account) != spec_key_generation_key(account),
{
    assert(spec_viewing_keys_tag().len() != spec_key_generations_tag().len());
    lemma_partitions_disjoint(spec_viewing_keys_tag(), account, spec_key_generations_tag(), account);
}

/// A superseded key is refused once a key with another hash replaced it.
pub proof fn lemma_superseded_key_rejected(m: Map<Seq<u8>, Seq<u8>>, account: Seq<u8>, old_key: Seq<char>, new_key: Seq<char>)
    requires
        spec_hashed_key(old_key) != spec_hashed_key(new_key),
    ensures
        !spec_key_matches(m.insert(spec_viewing_key_key(account), spec_hashed_key(new_key)), account, old_key),
{
}

} // verus!
