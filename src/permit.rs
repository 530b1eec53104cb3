use crate::crypto::{ripemd160, ripemd160_of, sha256_of, sha_256};
use crate::error::ContractError;
use crate::state::{revocation_key, spec_revocation_key};
use crate::store::Store;
use vstd::prelude::*;
use vstd::slice::slice_to_vec;
use vstd::utf8::encode_utf8;

verus! {

/// A capability that a permit can grant.
#[derive(Clone, Copy, Debug, PartialEq, Eq, Structural)]
pub enum TokenPermission {
    Allowance,
    Balance,
    History,
    Owner,
}

/// A signed, stateless bearer credential: which contracts it is for, a name its
/// signer may revoke, what it grants, and the signer's key and signature.
pub struct Permit {
    pub allowed_tokens: Vec<String>,
    pub chain_id: String,
    pub permit_name: String,
    pub permissions: Vec<TokenPermission>,
    pub pubkey: Vec<u8>,
    pub signature: Vec<u8>,
}

impl Permit {
    pub open spec fn spec_allows_token(&self, token: Seq<char>) -> bool {
        exists|i: int| 0 <= i < self.allowed_tokens@.len() && #[trigger] self.allowed_tokens@[i]@ == token
    }

    pub open spec fn spec_grants(&self, permission: TokenPermission) -> bool {
        exists|i: int| 0 <= i < self.permissions@.len() && #[trigger] self.permissions@[i] == permission
    }

    /// Whether the permit names `token` among the contracts it is for.
    pub fn check_token(&self, token: &String) -> (r: bool)
        ensures
            r == self.spec_allows_token(token@),
    {
        let mut i: usize = 0;
        while i < self.allowed_tokens.len()
            invariant
                0 <= i <= self.allowed_tokens@.len(),
                forall|k: int| 0 <= k < i ==> self.allowed_tokens@[k]@ != token@,
            decreases self.allowed_tokens@.len() - i,
        {
            if self.allowed_tokens[i] == *token {
                return true;
            }
            i = i + 1;
        }
        false
    }

    /// Whether the permit grants `permission`.
    pub fn check_permission(&self, permission: &TokenPermission) -> (r: bool)
        ensures
            r == self.spec_grants(*permission),
    {
        let mut i: usize = 0;
        while i < self.permissions.len()
            invariant
                0 <= i <= self.permissions@.len(),
                forall|k: int| 0 <= k < i ==> self.permissions@[k] != *permission,
            decreases self.permissions@.len() - i,
        {
            if self.permissions[i] == *permission {
                return true;
            }
            i = i + 1;
        }
        false
    }
}

/// The escaped form of one byte inside a JSON string: quote, backslash and
/// control bytes are escaped, upper-case hex where no short form exists.
pub open spec fn spec_json_escape_byte(c: u8) -> Seq<u8> {
    if c == 34 {
        seq![92u8, 34]
    } else if c == 92 {
        seq![92u8, 92]
    } else if c == 8 {
        seq![92u8, 98]
    } else if c == 9 {
        seq![92u8, 116]
    } else if c == 10 {
        seq![92u8, 110]
    } else if c == 12 {
        seq![92u8, 102]
    } else if c == 13 {
        seq![92u8, 114]
    } else if c < 32 {
        seq![92u8, 117, 48, 48, if c < 16 { 48u8 } else { 49u8 }, spec_hex_digit(c % 16)]
    } else {
        seq![c]
    }
}

pub open spec fn spec_hex_digit(d: u8) -> u8 {
    if d < 10 {
        (48 + d) as u8
    } else {
        (55 + d) as u8
    }
}

pub open spec fn spec_json_escape(s: Seq<u8>) -> Seq<u8>
    decreases s.len(),
{
    if s.len() == 0 {
        Seq::empty()
    } else {
        spec_json_escape(s.drop_last()) + spec_json_escape_byte(s.last())
    }
}

/// A string as a quoted, escaped JSON string.
pub open spec fn spec_json_string(s: Seq<char>) -> Seq<u8> {
    seq![34u8] + spec_json_escape(encode_utf8(s)) + seq![34u8]
}

/// JSON values joined by commas.
pub open spec fn spec_json_items(items: Seq<Seq<u8>>) -> Seq<u8>
    decreases items.len(),
{
    if items.len() == 0 {
        Seq::empty()
    } else if items.len() == 1 {
        items[0]
    } else {
        spec_json_items(items.drop_last()) + seq![44u8] + items.last()
    }
}

pub open spec fn spec_json_list(items: Seq<Seq<u8>>) -> Seq<u8> {
    seq![91u8] + spec_json_items(items) + seq![93u8]
}

pub open spec fn spec_permission_name(p: TokenPermission) -> Seq<char> {
    match p {
        TokenPermission::Allowance => "allowance"@,
        TokenPermission::Balance => "balance"@,
        TokenPermission::History => "history"@,
        TokenPermission::Owner => "owner"@,
    }
}

pub open spec fn spec_tokens_json(tokens: Seq<String>) -> Seq<u8> {
    spec_json_list(tokens.map_values(|t: String| spec_json_string(t@)))
}

pub open spec fn spec_permissions_json(ps: Seq<TokenPermission>) -> Seq<u8> {
    spec_json_list(ps.map_values(|p: TokenPermission| spec_json_string(spec_permission_name(p))))
}

/// The bytes a permit's signer signs: the sign document of a zero-fee query
/// message carrying the permit's tokens, permissions and name, as compact JSON
/// with keys in sorted order.
pub open spec fn spec_signed_bytes(p: Permit) -> Seq<u8> {
    encode_utf8("{\"account_number\":\"0\",\"chain_id\":"@)
        + spec_json_string(p.chain_id@)
        + encode_utf8(",\"fee\":{\"amount\":[{\"amount\":\"0\",\"denom\":\"uscrt\"}],\"gas\":\"1\"},\"memo\":\"\",\"msgs\":[{\"type\":\"query_permit\",\"value\":{\"allowed_tokens\":"@)
        + spec_tokens_json(p.allowed_tokens@)
        + encode_utf8(",\"permissions\":"@)
        + spec_permissions_json(p.permissions@)
        + encode_utf8(",\"permit_name\":"@)
        + spec_json_string(p.permit_name@)
        + encode_utf8("}}],\"sequence\":\"0\"}"@)
}

/// The account id of a public key: RIPEMD-160 of its SHA-256.
pub open spec fn spec_pubkey_to_account(pubkey: Seq<u8>) -> Seq<u8> {
    ripemd160_of(sha256_of(pubkey))
}

/// Appends the UTF-8 bytes of `s`.
fn push_str(out: &mut Vec<u8>, s: &str)
    ensures
        final(out)@ == old(out)@ + encode_utf8(s@),
{
    let mut t: Vec<u8> = slice_to_vec(s.as_bytes());
    out.append(&mut t);
}

fn hex_digit(d: u8) -> (r: u8)
    requires
        d < 16,
    ensures
        r == spec_hex_digit(d),
{
    if d < 10 {
        48 + d
    } else {
        55 + d
    }
}

fn push_escaped_byte(out: &mut Vec<u8>, c: u8)
    ensures
        final(out)@ == old(out)@ + spec_json_escape_byte(c),
{
    let ghost start = out@;
    if c == 34 {
        out.push(92);
        out.push(34);
    } else if c == 92 {
        out.push(92);
        out.push(92);
    } else if c == 8 {
        out.push(92);
        out.push(98);
    } else if c == 9 {
        out.push(92);
        out.push(116);
    } else if c == 10 {
        out.push(92);
        out.push(110);
    } else if c == 12 {
        out.push(92);
        out.push(102);
    } else if c == 13 {
        out.push(92);
        out.push(114);
    } else if c < 32 {
        out.push(92);
        out.push(117);
        out.push(48);
        out.push(48);
        out.push(if c < 16 { 48u8 } else { 49u8 });
        out.push(hex_digit(c % 16));
    } else {
        out.push(c);
    }
    assert(out@ =~= start + spec_json_escape_byte(c));
}

/// Appends `s` as a quoted, escaped JSON string.
fn push_json_string(out: &mut Vec<u8>, s: &String)
    ensures
        final(out)@ == old(out)@ + spec_json_string(s@),
{
    let ghost start = out@;
    let bytes: &[u8] = s.as_str().as_bytes();
    out.push(34);
    let mut i: usize = 0;
    while i < bytes.len()
        invariant
            0 <= i <= bytes@.len(),
            bytes@ == encode_utf8(s@),
            out@ == start + seq![34u8] + spec_json_escape(bytes@.subrange(0, i as int)),
        decreases bytes@.len() - i,
    {
        push_escaped_byte(out, bytes[i]);
        assert(bytes@.subrange(0, i + 1).drop_last() =~= bytes@.subrange(0, i as int));
        i = i + 1;
    }
    assert(bytes@.subrange(0, bytes@.len() as int) =~= bytes@);
    out.push(34);
    assert(out@ =~= start + spec_json_string(s@));
}

fn permission_name(p: &TokenPermission) -> (r: &'static str)
    ensures
        r@ == spec_permission_name(*p),
{
    match p {
        TokenPermission::Allowance => "allowance",
        TokenPermission::Balance => "balance",
        TokenPermission::History => "history",
        TokenPermission::Owner => "owner",
    }
}

proof fn lemma_json_items_push(items: Seq<Seq<u8>>, x: Seq<u8>)
    ensures
        spec_json_items(items.push(x)) == if items.len() == 0 {
            x
        } else {
            spec_json_items(items) + seq![44u8] + x
        },
{
    assert(items.push(x).drop_last() =~= items);
    if items.len() == 0 {
        assert(items.push(x)[0] == x);
    }
}

fn push_tokens_json(out: &mut Vec<u8>, tokens: &Vec<String>)
    ensures
        final(out)@ == old(out)@ + spec_tokens_json(tokens@),
{
    let ghost start = out@;
    let ghost all = tokens@.map_values(|t: String| spec_json_string(t@));
    out.push(91);
    let mut i: usize = 0;
    while i < tokens.len()
        invariant
            0 <= i <= tokens@.len(),
            all == tokens@.map_values(|t: String| spec_json_string(t@)),
            out@ == start + seq![91u8] + spec_json_items(all.subrange(0, i as int)),
        decreases tokens@.len() - i,
    {
        proof {
            lemma_json_items_push(all.subrange(0, i as int), all[i as int]);
            assert(all.subrange(0, i as int).push(all[i as int]) =~= all.subrange(0, i + 1));
        }
        if i > 0 {
            out.push(44);
        }
        push_json_string(out, &tokens[i]);
        i = i + 1;
    }
    assert(all.subrange(0, tokens@.len() as int) =~= all);
    out.push(93);
    assert(out@ =~= start + spec_tokens_json(tokens@));
}

fn push_permissions_json(out: &mut Vec<u8>, ps: &Vec<TokenPermission>)
    ensures
        final(out)@ == old(out)@ + spec_permissions_json(ps@),
{
    let ghost start = out@;
    let ghost all = ps@.map_values(|p: TokenPermission| spec_json_string(spec_permission_name(p)));
    out.push(91);
    let mut i: usize = 0;
    while i < ps.len()
        invariant
            0 <= i <= ps@.len(),
            all == ps@.map_values(|p: TokenPermission| spec_json_string(spec_permission_name(p))),
            out@ == start + seq![91u8] + spec_json_items(all.subrange(0, i as int)),
        decreases ps@.len() - i,
    {
        proof {
            lemma_json_items_push(all.subrange(0, i as int), all[i as int]);
            assert(all.subrange(0, i as int).push(all[i as int]) =~= all.subrange(0, i + 1));
        }
        if i > 0 {
            out.push(44);
        }
        let name: String = permission_name(&ps[i]).to_owned();
        push_json_string(out, &name);
        i = i + 1;
    }
    assert(all.subrange(0, ps@.len() as int) =~= all);
    out.push(93);
    assert(out@ =~= start + spec_permissions_json(ps@));
}

/// The bytes whose signature a permit carries.
pub fn signed_bytes(p: &Permit) -> (r: Vec<u8>)
    ensures
        r@ == spec_signed_bytes(*p),
{
    let mut out: Vec<u8> = Vec::new();
    push_str(&mut out, "{\"account_number\":\"0\",\"chain_id\":");
    push_json_string(&mut out, &p.chain_id);
    push_str(&mut out, ",\"fee\":{\"amount\":[{\"amount\":\"0\",\"denom\":\"uscrt\"}],\"gas\":\"1\"},\"memo\":\"\",\"msgs\":[{\"type\":\"query_permit\",\"value\":{\"allowed_tokens\":");
    push_tokens_json(&mut out, &p.allowed_tokens);
    push_str(&mut out, ",\"permissions\":");
    push_permissions_json(&mut out, &p.permissions);
    push_str(&mut out, ",\"permit_name\":");
    push_json_string(&mut out, &p.permit_name);
    push_str(&mut out, "}}],\"sequence\":\"0\"}");
    assert(out@ =~= spec_signed_bytes(*p));
    out
}

/// The account id of the key that signed a permit.
pub fn pubkey_to_account(pubkey: &[u8]) -> (r: Vec<u8>)
    ensures
        r@ == spec_pubkey_to_account(pubkey@),
        r@.len() == 20,
{
    let h: [u8; 32] = sha_256(pubkey);
    ripemd160(&h)
}

/// What the signature check is still owed once the other checks have passed:
/// the recovered account and the digest, key and signature to verify.
pub struct PermitChallenge {
    pub account: Vec<u8>,
    pub message_hash: [u8; 32],
    pub pubkey: Vec<u8>,
    pub signature: Vec<u8>,
}

/// The outcome of an ECDSA secp256k1 verification of a challenge.
#[derive(Clone, Copy, Debug, PartialEq, Eq, Structural)]
pub enum SignatureCheck {
    Valid,
    Invalid,
    MalformedSignature,
    MalformedPubkey,
}

/// The marker key that revokes the permit named `permit_name` for `account`.
pub open spec fn spec_permit_revocation_key(account: Seq<u8>, permit_name: Seq<char>) -> Seq<u8> {
    spec_revocation_key(account, encode_utf8(permit_name))
}

/// The error, if any, that the checks before the signature give: token binding
/// first, then revocation of the name by the recovered account.
pub open spec fn spec_validate_error(m: Map<Seq<u8>, Seq<u8>>, p: Permit, token: Seq<char>) -> Option<ContractError> {
    if !p.spec_allows_token(token) {
        Some(ContractError::TokenMismatch)
    } else if m.contains_key(spec_permit_revocation_key(spec_pubkey_to_account(p.pubkey@), p.permit_name@)) {
        Some(ContractError::PermitRevoked)
    } else {
        None
    }
}

/// Whether `account` revoked the permits named `permit_name`.
pub fn is_permit_revoked(store: &Store, account: &[u8], permit_name: &String) -> (r: bool)
    requires
        store.wf(),
    ensures
        r == store@.contains_key(spec_permit_revocation_key(account@, permit_name@)),
{
    store.contains(revocation_key(account, permit_name.as_str().as_bytes()).as_slice())
}

/// Revokes, for good, the permits that `account` signed under `permit_name`.
pub fn revoke(store: &mut Store, account: &[u8], permit_name: &String)
    requires
        old(store).wf(),
    ensures
        final(store).wf(),
        final(store)@ == old(store)@.insert(spec_permit_revocation_key(account@, permit_name@), Seq::<u8>::empty()),
{
    let empty: Vec<u8> = Vec::new();
    store.set(revocation_key(account, permit_name.as_str().as_bytes()).as_slice(), empty.as_slice());
}

/// Checks a permit up to its signature: it must name `token`, and its signer must
/// not have revoked its name. On success, returns what the signature check needs.
pub fn validate(store: &Store, permit: &Permit, token: &String) -> (r: Result<PermitChallenge, ContractError>)
    requires
        store.wf(),
    ensures
        match spec_validate_error(store@, *permit, token@) {
            Some(e) => r matches Err(e2) && e2 == e,
            None => r matches Ok(c) && c.account@ == spec_pubkey_to_account(permit.pubkey@)
                && c.message_hash@ == sha256_of(spec_signed_bytes(*permit))
                && c.pubkey@ == permit.pubkey@ && c.signature@ == permit.signature@,
        },
{
    if !permit.check_token(token) {
        return Err(ContractError::TokenMismatch);
    }
    let account: Vec<u8> = pubkey_to_account(permit.pubkey.as_slice());
    if is_permit_revoked(store, account.as_slice(), &permit.permit_name) {
        return Err(ContractError::PermitRevoked);
    }
    let bytes: Vec<u8> = signed_bytes(permit);
    let message_hash: [u8; 32] = sha_256(bytes.as_slice());
    Ok(PermitChallenge {
        account,
        message_hash,
        pubkey: slice_to_vec(permit.pubkey.as_slice()),
        signature: slice_to_vec(permit.signature.as_slice()),
    })
}

pub open spec fn spec_accept(account: Seq<u8>, check: SignatureCheck) -> Result<Seq<u8>, ContractError> {
    match check {
        SignatureCheck::Valid => Ok(account),
        SignatureCheck::Invalid => Err(ContractError::SignatureVerificationFailed),
        SignatureCheck::MalformedSignature => Err(ContractError::MalformedSignature),
        SignatureCheck::MalformedPubkey => Err(ContractError::MalformedPubkey),
    }
}

/// Finishes a permit check with the outcome of its signature verification: only
/// a valid signature yields the signer's account.
pub fn accept_signature(challenge: &PermitChallenge, check: SignatureCheck) -> (r: Result<Vec<u8>, ContractError>)
    ensures
        match spec_accept(challenge.account@, check) {
            Ok(a) => r matches Ok(a2) && a2@ == a,
            Err(e) => r matches Err(e2) && e2 == e,
        },
{
    match check {
        SignatureCheck::Valid => Ok(slice_to_vec(challenge.account.as_slice())),
        SignatureCheck::Invalid => Err(ContractError::SignatureVerificationFailed),
        SignatureCheck::MalformedSignature => Err(ContractError::MalformedSignature),
        SignatureCheck::MalformedPubkey => Err(ContractError::MalformedPubkey),
    }
}

} // verus!
