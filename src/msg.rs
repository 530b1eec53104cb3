use crate::permit::TokenPermission;
use vstd::prelude::*;

verus! {

/// What the host tells each call: the block, the caller, and this contract.
pub struct Env {
    pub block_height: u64,
    pub block_time: u64,
    /// The caller's human-readable address.
    pub sender: String,
    /// The caller's canonical account id.
    pub sender_id: Vec<u8>,
    pub contract_address: String,
}

/// Instantiation: the description bound and the seed of viewing-key generation.
pub struct InitMsg {
    pub max_size: u16,
    pub prng_seed: String,
}

/// The transactions that need no permit.
pub enum HandleMsg {
    Record { score: u64, description: String },
    RevokePermit { permit_name: String },
    GenerateViewingKey { entropy: String },
}

/// Outcome reported by transactions that cannot fail.
#[derive(Clone, Copy, Debug, PartialEq, Eq, Structural)]
pub enum ResponseStatus {
    Success,
    Failure,
}

/// What a transaction returns.
pub enum HandleAnswer {
    Record { status: String },
    RevokePermit { status: ResponseStatus },
    PermitHandle { data: ScoreResponse },
    GenerateViewingKey { key: String },
}

/// The queries that need no permit.
pub enum QueryMsg {
    GetStats,
    /// Reads an account's score with its viewing key; `address` is the account id.
    Read { address: Vec<u8>, key: String },
}

/// The queries a permit can authorize.
#[derive(Clone, Copy, Debug, PartialEq, Eq, Structural)]
pub enum QueryWithPermit {
    Balance,
}

impl QueryWithPermit {
    /// The capability a permit must grant for this query.
    pub open spec fn spec_required_permission(self) -> TokenPermission {
        match self {
            QueryWithPermit::Balance => TokenPermission::Balance,
        }
    }

    pub fn required_permission(&self) -> (r: TokenPermission)
        ensures
            r == self.spec_required_permission(),
    {
        match self {
            QueryWithPermit::Balance => TokenPermission::Balance,
        }
    }
}

impl QueryMsg {
    /// The account and key that a viewing-key query presents; only such a query
    /// needs authentication.
    pub fn get_validation_params(&self) -> (r: (&Vec<u8>, &String))
        requires
            self is Read,
        ensures
            match self {
                QueryMsg::Read { address, key } => r == (address, key),
                _ => false,
            },
    {
        match self {
            QueryMsg::Read { address, key } => (address, key),
            QueryMsg::GetStats => {
                assert(false);
                unreached()
            },
        }
    }
}

/// An account's score as a query returns it.
#[derive(Clone, Debug)]
pub struct ScoreResponse {
    pub score: Option<u64>,
    pub timestamp: Option<u64>,
    pub status: String,
    pub description: String,
}

/// How many accounts recorded a score, and the description bound.
#[derive(Clone, Copy, Debug, PartialEq, Eq, Structural)]
pub struct StatsResponse {
    pub score_count: u64,
    pub max_size: u16,
}

/// The whole global state.
#[derive(Clone, Debug)]
pub struct StateResponse {
    pub score_count: u64,
    pub max_size: u16,
    pub prng_seed: Vec<u8>,
}

/// What a query returns.
pub enum QueryAnswer {
    Stats(StatsResponse),
    Read(ScoreResponse),
}

} // verus!
