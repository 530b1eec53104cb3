use vstd::prelude::*;

verus! {

/// The persisted entities, named in storage errors.
#[derive(Clone, Copy, Debug, PartialEq, Eq, Structural)]
pub enum Entity {
    State,
    User,
    Constants,
    /// How many viewing keys an account was issued.
    KeyGeneration,
}

/// Every way a call of the contract can fail.
#[derive(Clone, Copy, Debug, PartialEq, Eq, Structural)]
pub enum ContractError {
    /// `max_size` outside `1..=65535`.
    InvalidConfig,
    /// A value the call needs was never stored.
    NotFound(Entity),
    /// A viewing key did not match.
    Unauthorized,
    /// The permit does not name this contract among its allowed tokens.
    TokenMismatch,
    /// The signer revoked a permit of this name.
    PermitRevoked,
    /// The permit's signature bytes are not a well-formed signature.
    MalformedSignature,
    /// The permit's public key is not a well-formed key.
    MalformedPubkey,
    /// The signature does not verify against the permit's public key.
    SignatureVerificationFailed,
    /// The permit is valid but does not grant the capability being exercised.
    NoPermission,
    /// Stored bytes do not decode as the entity.
    SerializationError(Entity),
}

impl ContractError {
    /// Whether the error comes from a failed permit or viewing-key check.
    pub open spec fn spec_is_auth_failure(self) -> bool {
        match self {
            ContractError::Unauthorized | ContractError::TokenMismatch
            | ContractError::PermitRevoked | ContractError::MalformedSignature
            | ContractError::MalformedPubkey | ContractError::SignatureVerificationFailed
            | ContractError::NoPermission => true,
            _ => false,
        }
    }

    pub fn is_auth_failure(&self) -> (r: bool)
        ensures
            r == self.spec_is_auth_failure(),
    {
        match self {
            ContractError::Unauthorized | ContractError::TokenMismatch
            | ContractError::PermitRevoked | ContractError::MalformedSignature
            | ContractError::MalformedPubkey | ContractError::SignatureVerificationFailed
            | ContractError::NoPermission => true,
            _ => false,
        }
    }

    /// The message shown to users: every authentication failure reads the same, so
    /// that the text reveals nothing of which check failed.
    pub fn user_message(&self) -> (r: String)
        ensures
            self.spec_is_auth_failure() ==> r@ == "Unauthorized"@,
            *self == ContractError::InvalidConfig ==> r@ == "Invalid max_size. Must be in the range of 1..65535."@,
            self is NotFound ==> r@ == "Value not found in storage"@,
            self is SerializationError ==> r@ == "Stored data could not be decoded"@,
    {
        if self.is_auth_failure() {
            "Unauthorized".to_owned()
        } else {
            match self {
                ContractError::InvalidConfig => "Invalid max_size. Must be in the range of 1..65535.".to_owned(),
                ContractError::NotFound(_) => "Value not found in storage".to_owned(),
                _ => "Stored data could not be decoded".to_owned(),
            }
        }
    }
}

} // verus!
