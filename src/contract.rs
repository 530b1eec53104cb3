use crate::codec::string_from_utf8;
use crate::crypto::{base64_encode, base64_of, sha256_of, sha_256};
use crate::error::{ContractError, Entity};
use crate::msg::{
    Env, HandleAnswer, HandleMsg, InitMsg, QueryAnswer, QueryMsg, QueryWithPermit, ResponseStatus,
    ScoreResponse, StateResponse, StatsResponse,
};
use crate::permit::{
    accept_signature, revoke, spec_accept, spec_permit_revocation_key, spec_pubkey_to_account,
    spec_validate_error, validate, Permit, PermitChallenge, SignatureCheck,
};
use crate::state::{
    constants_key, does_user_exist, load, may_load, record_key, save, spec_constants_key, spec_encode_constants,
    spec_encode_state, spec_encode_user, spec_load, spec_may_load, spec_record_key, spec_state_key,
    spec_key_generation_key, spec_viewing_key_key, state_key, Constants, State, StateModel, User, UserModel,
};
use crate::store::Store;
use crate::viewing_key::{
    read_key_generation, read_viewing_key, spec_hashed_key, spec_key_entropy, spec_key_generation,
    spec_next_generation, spec_viewing_key_bytes, write_key_generation, write_viewing_key, ViewingKey,
    VIEWING_KEY_SIZE,
};
use vstd::bytes::spec_u64_to_le_bytes;
use vstd::prelude::*;
use vstd::slice::slice_to_vec;
use vstd::utf8::{decode_utf8, encode_utf8, valid_utf8};

verus! {

broadcast use {vstd::utf8::encode_utf8_valid_utf8, vstd::utf8::decode_utf8_encode_utf8, vstd::utf8::encode_utf8_decode_utf8};

/// The seed kept at instantiation: SHA-256 of the base64 text of the caller's seed.
pub open spec fn spec_initial_seed(prng_seed: Seq<char>) -> Seq<u8> {
    sha256_of(encode_utf8(base64_of(encode_utf8(prng_seed))))
}

/// The store right after instantiation with a valid `max_size`.
pub open spec fn spec_init(m: Map<Seq<u8>, Seq<u8>>, contract_address: Seq<char>, max_size: u16, prng_seed: Seq<char>) -> Map<Seq<u8>, Seq<u8>> {
    m.insert(
        spec_state_key(),
        spec_encode_state(StateModel { max_size, score_count: 0, prng_seed: spec_initial_seed(prng_seed) }),
    ).insert(spec_constants_key(), spec_encode_constants(contract_address))
}

/// The count after one more account recorded; it stops at the largest `u64`.
pub open spec fn spec_bump(c: u64) -> u64 {
    if c < u64::MAX {
        (c + 1) as u64
    } else {
        c
    }
}

/// The store after `account` records a score: its record is overwritten, and the
/// count grows by one exactly when the account had no record before. Both writes
/// follow from one read of the store.
pub open spec fn spec_record(
    m: Map<Seq<u8>, Seq<u8>>,
    account: Seq<u8>,
    time: u64,
    score: u64,
    description: Seq<u8>,
) -> Result<Map<Seq<u8>, Seq<u8>>, ContractError> {
    match spec_load::<State>(m, spec_state_key()) {
        Err(e) => Err(e),
        Ok(st) => {
            let m1 = m.insert(
                spec_record_key(account),
                spec_encode_user(UserModel { score, timestamp: time, description }),
            );
            if m.contains_key(spec_record_key(account)) {
                Ok(m1)
            } else {
                Ok(m1.insert(
                    spec_state_key(),
                    spec_encode_state(StateModel { score_count: spec_bump(st.score_count), ..st }),
                ))
            }
        },
    }
}

/// What reading an account's score finds.
pub enum ReadOutcome {
    NotFound,
    Found { score: u64, timestamp: u64, description: Seq<char> },
    Failed(ContractError),
}

pub open spec fn spec_query_read(m: Map<Seq<u8>, Seq<u8>>, account: Seq<u8>) -> ReadOutcome {
    match spec_may_load::<User>(m, spec_record_key(account)) {
        Err(e) => ReadOutcome::Failed(e),
        Ok(None) => ReadOutcome::NotFound,
        Ok(Some(u)) => if valid_utf8(u.description) {
            ReadOutcome::Found { score: u.score, timestamp: u.timestamp, description: decode_utf8(u.description) }
        } else {
            ReadOutcome::Failed(ContractError::SerializationError(Entity::User))
        },
    }
}

/// A response carries exactly what the read found.
pub open spec fn spec_reports(r: Result<ScoreResponse, ContractError>, o: ReadOutcome) -> bool {
    match o {
        ReadOutcome::NotFound => r matches Ok(resp) && resp.score is None && resp.timestamp is None
            && resp.status@ == "Score not found."@ && resp.description@ == "N/A"@,
        ReadOutcome::Found { score, timestamp, description } => r matches Ok(resp)
            && resp.score == Some(score) && resp.timestamp == Some(timestamp)
            && resp.status@ == "Score found."@ && resp.description@ == description,
        ReadOutcome::Failed(e) => r matches Err(e2) && e2 == e,
    }
}

/// Whether `key` is the viewing key last set for `account`.
pub open spec fn spec_key_matches(m: Map<Seq<u8>, Seq<u8>>, account: Seq<u8>, key: Seq<char>) -> bool {
    m.contains_key(spec_viewing_key_key(account)) && m[spec_viewing_key_key(account)] == spec_hashed_key(key)
}

/// Accepts `max_size` in `1..=65535`.
pub fn valid_max_size(val: u16) -> (r: Option<u16>)
    ensures
        val >= 1 ==> r == Some(val),
        val < 1 ==> r is None,
{
    if val < 1 {
        None
    } else {
        Some(val)
    }
}

/// Instantiates the contract: keeps `max_size`, a zero count, the derived seed and
/// this contract's address. A `max_size` of 0 is refused and nothing is written.
pub fn init(store: &mut Store, env: &Env, msg: &InitMsg) -> (r: Result<(), ContractError>)
    requires
        old(store).wf(),
    ensures
        final(store).wf(),
        msg.max_size == 0 ==> r == Err::<(), ContractError>(ContractError::InvalidConfig)
            && final(store)@ == old(store)@,
        msg.max_size != 0 ==> r is Ok && spec_initial_seed(msg.prng_seed@).len() == 32 && final(store)@ == spec_init(
            old(store)@,
            env.contract_address@,
            msg.max_size,
            msg.prng_seed@,
        ),
{
    let max_size: u16 = match valid_max_size(msg.max_size) {
        Some(v) => v,
        None => {
            return Err(ContractError::InvalidConfig);
        },
    };
    let encoded_seed: String = base64_encode(msg.prng_seed.as_str().as_bytes());
    let seed: [u8; 32] = sha_256(encoded_seed.as_str().as_bytes());
    let state = State { max_size, score_count: 0, prng_seed: slice_to_vec(&seed) };
    save(store, state_key().as_slice(), &state);
    let mut config = Config::from_storage(store);
    config.set_constants(&Constants { contract_address: env.contract_address.clone() });
    Ok(())
}

/// Read access to the constants.
pub struct ReadonlyConfig<'a> {
    storage: &'a Store,
}

impl<'a> ReadonlyConfig<'a> {
    pub fn from_storage(storage: &'a Store) -> (r: ReadonlyConfig<'a>)
        ensures
            r.view() == storage@,
            r.wf() == storage.wf(),
    {
        ReadonlyConfig { storage }
    }

    pub closed spec fn view(&self) -> Map<Seq<u8>, Seq<u8>> {
        self.storage@
    }

    pub closed spec fn wf(&self) -> bool {
        self.storage.wf()
    }

    /// The constants kept at instantiation.
    pub fn constants(&self) -> (r: Result<Constants, ContractError>)
        requires
            self.wf(),
        ensures
            match r {
                Ok(c) => spec_load::<Constants>(self.view(), spec_constants_key()) == Ok::<Seq<char>, ContractError>(c@),
                Err(e) => spec_load::<Constants>(self.view(), spec_constants_key()) == Err::<Seq<char>, ContractError>(e),
            },
    {
        load::<Constants>(self.storage, constants_key().as_slice())
    }
}

/// Write access to the constants.
pub struct Config<'a> {
    pub storage: &'a mut Store,
}

impl<'a> Config<'a> {
    pub fn from_storage(storage: &'a mut Store) -> (r: Config<'a>)
        ensures
            *r.storage == *old(storage),
            *final(storage) == *final(r.storage),
    {
        Config { storage }
    }

    /// Stores the constants.
    pub fn set_constants(&mut self, constants: &Constants)
        requires
            old(self).storage.wf(),
        ensures
            final(self).storage.wf(),
            final(self).storage@ == old(self).storage@.insert(spec_constants_key(), spec_encode_constants(constants@)),
            *final(final(self).storage) == *final(old(self).storage),
    {
        save(self.storage, constants_key().as_slice(), constants);
    }
}

/// Records `score` and `description` for the caller at the block's time. The
/// global state is read once, before any write; the count grows only on the
/// caller's first record.
pub fn try_record(store: &mut Store, env: &Env, score: u64, description: &String) -> (r: Result<String, ContractError>)
    requires
        old(store).wf(),
    ensures
        final(store).wf(),
        match spec_record(old(store)@, env.sender_id@, env.block_time, score, encode_utf8(description@)) {
            Ok(m) => r matches Ok(status) && status@ == "Score recorded!"@ && final(store)@ == m,
            Err(e) => r matches Err(e2) && e2 == e && final(store)@ == old(store)@,
        },
{
    let state: State = match load::<State>(store, state_key().as_slice()) {
        Ok(s) => s,
        Err(e) => {
            return Err(e);
        },
    };
    let key: Vec<u8> = record_key(env.sender_id.as_slice());
    let user_exists: bool = does_user_exist(store, key.as_slice());
    let stored_score = User {
        score,
        timestamp: env.block_time,
        description: slice_to_vec(description.as_str().as_bytes()),
    };
    save(store, key.as_slice(), &stored_score);
    if !user_exists {
        let score_count: u64 = if state.score_count < u64::MAX {
            state.score_count + 1
        } else {
            state.score_count
        };
        let new_state = State { max_size: state.max_size, score_count, prng_seed: state.prng_seed };
        save(store, state_key().as_slice(), &new_state);
    }
    Ok("Score recorded!".to_owned())
}

/// Reads an account's score: absent is a normal result, reported as not found.
pub fn query_read(store: &Store, account: &[u8]) -> (r: Result<ScoreResponse, ContractError>)
    requires
        store.wf(),
    ensures
        spec_reports(r, spec_query_read(store@, account@)),
{
    let result: Option<User> = match may_load::<User>(store, record_key(account).as_slice()) {
        Ok(x) => x,
        Err(e) => {
            return Err(e);
        },
    };
    match result {
        Some(stored_score) => {
            let score: u64 = stored_score.score;
            let timestamp: u64 = stored_score.timestamp;
            match string_from_utf8(stored_score.description) {
                Some(description) => Ok(ScoreResponse {
                    score: Some(score),
                    timestamp: Some(timestamp),
                    status: "Score found.".to_owned(),
                    description,
                }),
                None => Err(ContractError::SerializationError(Entity::User)),
            }
        },
        None => Ok(ScoreResponse {
            score: None,
            timestamp: None,
            status: "Score not found.".to_owned(),
            description: "N/A".to_owned(),
        }),
    }
}

/// How many accounts recorded a score, and the configured `max_size`.
pub fn query_stats(store: &Store) -> (r: Result<StatsResponse, ContractError>)
    requires
        store.wf(),
    ensures
        match spec_load::<State>(store@, spec_state_key()) {
            Ok(st) => r == Ok::<StatsResponse, ContractError>(StatsResponse { score_count: st.score_count, max_size: st.max_size }),
            Err(e) => r == Err::<StatsResponse, ContractError>(e),
        },
{
    let config: State = load::<State>(store, state_key().as_slice())?;
    Ok(StatsResponse { score_count: config.score_count, max_size: config.max_size })
}

/// The whole global state.
pub fn query_state(store: &Store) -> (r: Result<StateResponse, ContractError>)
    requires
        store.wf(),
    ensures
        match spec_load::<State>(store@, spec_state_key()) {
            Ok(st) => r matches Ok(resp) && resp.score_count == st.score_count
                && resp.max_size == st.max_size && resp.prng_seed@ == st.prng_seed,
            Err(e) => r matches Err(e2) && e2 == e,
        },
{
    let config: State = load::<State>(store, state_key().as_slice())?;
    Ok(StateResponse { score_count: config.score_count, max_size: config.max_size, prng_seed: config.prng_seed })
}

/// Why issuing `account` a viewing key fails, if it does: the global state or
/// the account's key count cannot be read.
pub open spec fn spec_generate_error(m: Map<Seq<u8>, Seq<u8>>, account: Seq<u8>) -> Option<ContractError> {
    match spec_load::<State>(m, spec_state_key()) {
        Err(e) => Some(e),
        Ok(_) => match spec_key_generation(m, account) {
            Err(e) => Some(e),
            Ok(_) => None,
        },
    }
}

/// `key` is the key issued to the caller of `env` on store `m`, and `m2` the
/// store afterwards: the key's hash replaces the earlier one and the caller's
/// key count grows by one.
pub open spec fn spec_generated(
    m: Map<Seq<u8>, Seq<u8>>,
    env: Env,
    entropy: Seq<char>,
    key: Seq<char>,
    m2: Map<Seq<u8>, Seq<u8>>,
) -> bool {
    let st = spec_load::<State>(m, spec_state_key())->Ok_0;
    let g = spec_key_generation(m, env.sender_id@)->Ok_0;
    &&& encode_utf8(key) == spec_viewing_key_bytes(
        st.prng_seed,
        spec_key_entropy(env.block_height, env.block_time, g, env.sender@, encode_utf8(entropy)),
    )
    &&& m2 == m.insert(spec_viewing_key_key(env.sender_id@), spec_hashed_key(key)).insert(
        spec_key_generation_key(env.sender_id@),
        spec_u64_to_le_bytes(spec_next_generation(g)),
    )
}

/// Issues the caller a fresh viewing key and keeps only its hash; the key itself
/// is returned this once. The generator is fed the caller's key count, so no two
/// generations for one account share their input.
pub fn try_generate_viewing_key(store: &mut Store, env: &Env, entropy: &String) -> (r: Result<String, ContractError>)
    requires
        old(store).wf(),
    ensures
        final(store).wf(),
        match spec_generate_error(old(store)@, env.sender_id@) {
            None => r matches Ok(key) && spec_generated(old(store)@, *env, entropy@, key@, final(store)@),
            Some(e) => r matches Err(e2) && e2 == e && final(store)@ == old(store)@,
        },
{
    let config: State = load::<State>(store, state_key().as_slice())?;
    let generation: u64 = read_key_generation(store, env.sender_id.as_slice())?;
    let key: ViewingKey = ViewingKey::new(env, config.prng_seed.as_slice(), generation, entropy.as_str().as_bytes());
    write_viewing_key(store, env.sender_id.as_slice(), &key);
    write_key_generation(store, env.sender_id.as_slice(), generation);
    Ok(key.0)
}

/// Revokes, for good, the caller's permits named `permit_name`.
pub fn revoke_permit(store: &mut Store, env: &Env, permit_name: &String) -> (r: ResponseStatus)
    requires
        old(store).wf(),
    ensures
        final(store).wf(),
        r == ResponseStatus::Success,
        final(store)@ == old(store)@.insert(
            spec_permit_revocation_key(env.sender_id@, permit_name@),
            Seq::<u8>::empty(),
        ),
{
    revoke(store, env.sender_id.as_slice(), permit_name);
    ResponseStatus::Success
}

/// Whether `key` is `account`'s current viewing key. The comparison runs over a
/// 32-byte buffer whether or not a key was ever set (an all-zero one when none
/// was), so its cost does not tell the two cases apart.
pub fn check_viewing_key_of(store: &Store, account: &[u8], key: &String) -> (r: bool)
    requires
        store.wf(),
    ensures
        r == spec_key_matches(store@, account@, key@),
{
    let stored: Option<Vec<u8>> = read_viewing_key(store, account);
    let is_set: bool = stored.is_some();
    let expected: Vec<u8> = match stored {
        Some(h) => h,
        None => vec![0u8; VIEWING_KEY_SIZE],
    };
    let matches: bool = ViewingKey(key.clone()).check_viewing_key(expected.as_slice());
    is_set && matches
}

/// Reads `address`'s score for a caller that presents its viewing key; any
/// mismatch, including an account that never set a key, is one `Unauthorized`.
pub fn authenticated_queries(store: &Store, address: &[u8], key: &String) -> (r: Result<ScoreResponse, ContractError>)
    requires
        store.wf(),
    ensures
        spec_key_matches(store@, address@, key@) ==> spec_reports(r, spec_query_read(store@, address@)),
        !spec_key_matches(store@, address@, key@) ==> r == Err::<ScoreResponse, ContractError>(ContractError::Unauthorized),
{
    if check_viewing_key_of(store, address, key) {
        query_read(store, address)
    } else {
        Err(ContractError::Unauthorized)
    }
}

/// What a permit query returns once its signature was checked: the signer's
/// score, provided the signature held and the permit grants the query.
pub open spec fn spec_permit_read(
    m: Map<Seq<u8>, Seq<u8>>,
    account: Seq<u8>,
    check: SignatureCheck,
    permit: Permit,
    query: QueryWithPermit,
) -> ReadOutcome {
    match spec_accept(account, check) {
        Err(e) => ReadOutcome::Failed(e),
        Ok(a) => if !permit.spec_grants(query.spec_required_permission()) {
            ReadOutcome::Failed(ContractError::NoPermission)
        } else {
            spec_query_read(m, a)
        },
    }
}

/// Answers a permit query for this contract's address `token`. The checks run in
/// a fixed order: token binding, then revocation of the name by the signer's
/// account, then the outcome `check` of verifying the permit's signature, then
/// the capability. The answer is the record of the account the permit's key
/// belongs to.
pub fn permit_queries(
    store: &Store,
    permit: &Permit,
    token: &String,
    check: SignatureCheck,
    query: QueryWithPermit,
) -> (r: Result<ScoreResponse, ContractError>)
    requires
        store.wf(),
    ensures
        match spec_validate_error(store@, *permit, token@) {
            Some(e) => r matches Err(e2) && e2 == e,
            None => spec_reports(
                r,
                spec_permit_read(store@, spec_pubkey_to_account(permit.pubkey@), check, *permit, query),
            ),
        },
{
    let challenge: PermitChallenge = validate(store, permit, token)?;
    let account: Vec<u8> = accept_signature(&challenge, check)?;
    if !permit.check_permission(&query.required_permission()) {
        return Err(ContractError::NoPermission);
    }
    query_read(store, account.as_slice())
}

/// The same as `permit_queries`, answered as a transaction's result.
pub fn permit_handle(
    store: &Store,
    permit: &Permit,
    token: &String,
    check: SignatureCheck,
    query: QueryWithPermit,
) -> (r: Result<HandleAnswer, ContractError>)
    requires
        store.wf(),
    ensures
        match spec_validate_error(store@, *permit, token@) {
            Some(e) => r matches Err(e2) && e2 == e,
            None => match spec_permit_read(store@, spec_pubkey_to_account(permit.pubkey@), check, *permit, query) {
                ReadOutcome::Failed(e) => r matches Err(e2) && e2 == e,
                o => r matches Ok(HandleAnswer::PermitHandle { data }) && spec_reports(Ok(data), o),
            },
        },
{
    let data: ScoreResponse = permit_queries(store, permit, token, check, query)?;
    Ok(HandleAnswer::PermitHandle { data })
}

/// Runs a transaction.
pub fn handle(store: &mut Store, env: &Env, msg: &HandleMsg) -> (r: Result<HandleAnswer, ContractError>)
    requires
        old(store).wf(),
    ensures
        final(store).wf(),
        match msg {
            HandleMsg::Record { score, description } => match spec_record(old(store)@, env.sender_id@, env.block_time, *score, encode_utf8(description@)) {
                Ok(m) => r matches Ok(HandleAnswer::Record { status }) && status@ == "Score recorded!"@ && final(store)@ == m,
                Err(e) => r matches Err(e2) && e2 == e && final(store)@ == old(store)@,
            },
            HandleMsg::RevokePermit { permit_name } => r matches Ok(HandleAnswer::RevokePermit { status })
                && status == ResponseStatus::Success && final(store)@ == old(store)@.insert(
                spec_permit_revocation_key(env.sender_id@, permit_name@),
                Seq::<u8>::empty(),
            ),
            HandleMsg::GenerateViewingKey { entropy } => match spec_generate_error(old(store)@, env.sender_id@) {
                None => r matches Ok(HandleAnswer::GenerateViewingKey { key })
                    && spec_generated(old(store)@, *env, entropy@, key@, final(store)@),
                Some(e) => r matches Err(e2) && e2 == e && final(store)@ == old(store)@,
            },
        },
{
    match msg {
        HandleMsg::Record { score, description } => {
            let status: String = try_record(store, env, *score, description)?;
            Ok(HandleAnswer::Record { status })
        },
        HandleMsg::RevokePermit { permit_name } => {
            let status: ResponseStatus = revoke_permit(store, env, permit_name);
            Ok(HandleAnswer::RevokePermit { status })
        },
        HandleMsg::GenerateViewingKey { entropy } => {
            let key: String = try_generate_viewing_key(store, env, entropy)?;
            Ok(HandleAnswer::GenerateViewingKey { key })
        },
    }
}

/// Answers a query that needs no permit.
pub fn query(store: &Store, msg: &QueryMsg) -> (r: Result<QueryAnswer, ContractError>)
    requires
        store.wf(),
    ensures
        match msg {
            QueryMsg::GetStats => match spec_load::<State>(store@, spec_state_key()) {
                Ok(st) => r matches Ok(QueryAnswer::Stats(s)) && s.score_count == st.score_count && s.max_size == st.max_size,
                Err(e) => r matches Err(e2) && e2 == e,
            },
            QueryMsg::Read { address, key } => if spec_key_matches(store@, address@, key@) {
                match spec_query_read(store@, address@) {
                    ReadOutcome::Failed(e) => r matches Err(e2) && e2 == e,
                    o => r matches Ok(QueryAnswer::Read(resp)) && spec_reports(Ok(resp), o),
                }
            } else {
                r == Err::<QueryAnswer, ContractError>(ContractError::Unauthorized)
            },
        },
{
    match msg {
        QueryMsg::GetStats => {
            let stats: StatsResponse = query_stats(store)?;
            Ok(QueryAnswer::Stats(stats))
        },
        QueryMsg::Read { .. } => {
            let (address, key) = msg.get_validation_params();
            let resp: ScoreResponse = authenticated_queries(store, address.as_slice(), key)?;
            Ok(QueryAnswer::Read(resp))
        },
    }
}

} // verus!
