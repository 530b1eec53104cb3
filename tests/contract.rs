use sibyl_score::contract::{
    authenticated_queries, handle, init, permit_queries, query, query_read, query_stats,
    revoke_permit, try_generate_viewing_key, try_record,
};
use sibyl_score::error::ContractError;
use sibyl_score::msg::{Env, HandleAnswer, HandleMsg, InitMsg, QueryAnswer, QueryMsg, QueryWithPermit, ResponseStatus};
use sibyl_score::permit::{pubkey_to_account, validate, Permit, SignatureCheck, TokenPermission};
use sibyl_score::state::revocation_key;
use sibyl_score::store::Store;

const CONTRACT: &str = "contract0000";

fn env_of(sender: &str, height: u64) -> Env {
    Env {
        block_height: height,
        block_time: 1_571_797_419,
        sender: sender.to_string(),
        sender_id: sender.as_bytes().to_vec(),
        contract_address: CONTRACT.to_string(),
    }
}

fn mock_env(sender: &str) -> Env {
    env_of(sender, 12_345)
}

fn instantiated(max_size: u16) -> Store {
    let mut store = Store::new();
    let msg = InitMsg { max_size, prng_seed: "this is a padding".to_string() };
    init(&mut store, &mock_env("creator"), &msg).unwrap();
    store
}

fn sample_permit(name: &str, tokens: Vec<String>, permissions: Vec<TokenPermission>) -> Permit {
    Permit {
        allowed_tokens: tokens,
        chain_id: "pulsar-2".to_string(),
        permit_name: name.to_string(),
        permissions,
        pubkey: vec![3, 147, 56, 246, 93, 246, 102, 181, 126, 72, 59, 15, 158, 132, 111, 241, 241, 251],
        signature: vec![7; 64],
    }
}

#[test]
fn init_recore_query() {
    let mut store = Store::new();
    let init_msg = InitMsg { max_size: 10000, prng_seed: "this is a padding".to_string() };
    let res = init(&mut store, &mock_env("creator"), &init_msg);
    assert!(res.is_ok());

    let msg = HandleMsg::Record { score: 300, description: "This describes your score".to_string() };
    let record_res = handle(&mut store, &mock_env("creator"), &msg).unwrap();
    match record_res {
        HandleAnswer::Record { status } => assert_eq!(status, "Score recorded!"),
        _ => panic!("unexpected answer"),
    }
}

#[test]
fn stats_increment() {
    let mut store = instantiated(10000);

    let msg = HandleMsg::Record { score: 300, description: "This describes your score".to_string() };
    handle(&mut store, &mock_env("submitter"), &msg).unwrap();
    let value = query_stats(&store).unwrap();
    assert_eq!(1, value.score_count);

    let msg = HandleMsg::Record { score: 200, description: "This describes your 2nd score".to_string() };
    handle(&mut store, &mock_env("submitter"), &msg).unwrap();
    let value2 = query_stats(&store).unwrap();
    assert_eq!(1, value2.score_count);
}

#[test]
fn handle_revoke_permit() {
    let mut store = instantiated(10000);
    let sender = "secret1nl7dnjcs9w2a4mn4q43nwyptf3uyllp3xh44j0";
    let msg = HandleMsg::Record { score: 300, description: String::from("Good job dude") };
    handle(&mut store, &mock_env(sender), &msg).unwrap();

    let revoke_msg = HandleMsg::RevokePermit { permit_name: String::from("test") };
    let answer = handle(&mut store, &mock_env("creator"), &revoke_msg).unwrap();
    match answer {
        HandleAnswer::RevokePermit { status } => assert_eq!(status, ResponseStatus::Success),
        _ => panic!("unexpected answer"),
    }

    let storage_key = revocation_key(b"creator", b"test");
    assert_eq!(true, store.contains(&storage_key));
    assert_eq!(false, store.contains(&revocation_key(b"creat", b"ortest")));
}

const LONG_DESCRIPTION: &str = "Your SCRTSibyl score is FAIR, with a total of 581 points, which qualifies you for a loan of up to $5000 USD. SCRTSibyl computed your score accounting for your Plaid diamond 12.5% apr interest credit card credit card your total current balance of $44520 and your 9 different bank accounts. An error occurred during computation of the metrics: velocity, and your score was rounded down. Try again later or log in using a different account.";

#[test]
fn handle_viewing_key() {
    let mut store = instantiated(10000);
    let msg = HandleMsg::Record { score: 300, description: String::from(LONG_DESCRIPTION) };
    handle(&mut store, &mock_env("creator"), &msg).unwrap();

    let v_key_msg = HandleMsg::GenerateViewingKey { entropy: "This is a string".to_string() };
    let key = match handle(&mut store, &mock_env("creator"), &v_key_msg).unwrap() {
        HandleAnswer::GenerateViewingKey { key } => key,
        _ => panic!("unexpected answer"),
    };
    assert!(key.starts_with("api_key_"));
    assert_eq!(key.len(), "api_key_j0y+6OGIPoHIcEEJw3WiM2695AzuNcBu/qjDwDPdwUQ=".len());

    let query_msg = QueryMsg::Read { address: b"creator".to_vec(), key: key.clone() };
    let value = match query(&store, &query_msg).unwrap() {
        QueryAnswer::Read(resp) => resp,
        _ => panic!("unexpected answer"),
    };
    assert_eq!(300, value.score.unwrap());
    assert_eq!(LONG_DESCRIPTION, value.description);
}

#[test]
fn init_rejects_zero_max_size() {
    let mut store = Store::new();
    let msg = InitMsg { max_size: 0, prng_seed: "seed".to_string() };
    assert_eq!(init(&mut store, &mock_env("creator"), &msg), Err(ContractError::InvalidConfig));
    assert!(store.entries().is_empty());
    assert_eq!(query_stats(&store).unwrap_err(), ContractError::NotFound(sibyl_score::error::Entity::State));

    let msg = InitMsg { max_size: 65535, prng_seed: "seed".to_string() };
    assert!(init(&mut store, &mock_env("creator"), &msg).is_ok());
    let stats = query_stats(&store).unwrap();
    assert_eq!((stats.score_count, stats.max_size), (0, 65535));
}

#[test]
fn record_then_read_finds_it() {
    let mut store = instantiated(10000);
    try_record(&mut store, &mock_env("alice"), 300, &"ok".to_string()).unwrap();
    let resp = query_read(&store, b"alice").unwrap();
    assert_eq!(resp.score, Some(300));
    assert_eq!(resp.timestamp, Some(1_571_797_419));
    assert_eq!(resp.status, "Score found.");
    assert_eq!(resp.description, "ok");
}

#[test]
fn read_of_unknown_account_is_not_found() {
    let store = instantiated(10000);
    let resp = query_read(&store, b"bob").unwrap();
    assert_eq!(resp.score, None);
    assert_eq!(resp.timestamp, None);
    assert_eq!(resp.status, "Score not found.");
    assert_eq!(resp.description, "N/A");
}

#[test]
fn stats_count_distinct_accounts() {
    let mut store = instantiated(10000);
    try_record(&mut store, &mock_env("alice"), 300, &"ok".to_string()).unwrap();
    let s = query_stats(&store).unwrap();
    assert_eq!((s.score_count, s.max_size), (1, 10000));
    try_record(&mut store, &mock_env("alice"), 200, &"ok2".to_string()).unwrap();
    let s = query_stats(&store).unwrap();
    assert_eq!((s.score_count, s.max_size), (1, 10000));
    try_record(&mut store, &mock_env("bob"), 50, &"x".to_string()).unwrap();
    let s = query_stats(&store).unwrap();
    assert_eq!((s.score_count, s.max_size), (2, 10000));
    for i in 0..5u64 {
        try_record(&mut store, &mock_env("alice"), i, &"again".to_string()).unwrap();
    }
    assert_eq!(query_stats(&store).unwrap().score_count, 2);
    let resp = query_read(&store, b"alice").unwrap();
    assert_eq!((resp.score, resp.description.as_str()), (Some(4), "again"));
}

#[test]
fn record_without_init_fails_and_writes_nothing() {
    let mut store = Store::new();
    let r = try_record(&mut store, &mock_env("alice"), 1, &"x".to_string());
    assert_eq!(r, Err(ContractError::NotFound(sibyl_score::error::Entity::State)));
    assert!(store.entries().is_empty());
}

#[test]
fn only_latest_viewing_key_verifies() {
    let mut store = instantiated(10000);
    try_record(&mut store, &mock_env("alice"), 300, &"ok".to_string()).unwrap();
    let first = try_generate_viewing_key(&mut store, &env_of("alice", 100), &"e".to_string()).unwrap();
    let second = try_generate_viewing_key(&mut store, &env_of("alice", 101), &"e".to_string()).unwrap();
    assert_ne!(first, second);
    assert!(first.starts_with("api_key_"));
    assert!(authenticated_queries(&store, b"alice", &second).is_ok());
    assert_eq!(authenticated_queries(&store, b"alice", &first).unwrap_err(), ContractError::Unauthorized);
}

#[test]
fn viewing_key_failures_look_alike() {
    let mut store = instantiated(10000);
    try_record(&mut store, &mock_env("alice"), 300, &"ok".to_string()).unwrap();
    let never_set = authenticated_queries(&store, b"alice", &"api_key_x".to_string()).unwrap_err();
    try_generate_viewing_key(&mut store, &mock_env("alice"), &"e".to_string()).unwrap();
    let wrong = authenticated_queries(&store, b"alice", &"api_key_x".to_string()).unwrap_err();
    assert_eq!(never_set, wrong);
    assert_eq!(never_set.user_message(), ContractError::PermitRevoked.user_message());
    assert_eq!(wrong.user_message(), "Unauthorized");
}

#[test]
fn revoked_permit_is_refused() {
    let mut store = instantiated(10000);
    let permit = sample_permit("test", vec![CONTRACT.to_string()], vec![TokenPermission::Balance]);
    let account = pubkey_to_account(&permit.pubkey);
    assert_eq!(account.len(), 20);
    assert!(validate(&store, &permit, &CONTRACT.to_string()).is_ok());
    let mut env = mock_env("signer");
    env.sender_id = account.clone();
    assert_eq!(revoke_permit(&mut store, &env, &"test".to_string()), ResponseStatus::Success);
    assert_eq!(validate(&store, &permit, &CONTRACT.to_string()).err(), Some(ContractError::PermitRevoked));
    let other = sample_permit("other", vec![CONTRACT.to_string()], vec![TokenPermission::Balance]);
    assert!(validate(&store, &other, &CONTRACT.to_string()).is_ok());
}

#[test]
fn permit_for_other_token_is_refused_first() {
    let mut store = instantiated(10000);
    let permit = sample_permit("test", vec!["another".to_string()], vec![TokenPermission::Balance]);
    let mut env = mock_env("signer");
    env.sender_id = pubkey_to_account(&permit.pubkey);
    revoke_permit(&mut store, &env, &"test".to_string());
    assert_eq!(validate(&store, &permit, &CONTRACT.to_string()).err(), Some(ContractError::TokenMismatch));
}

#[test]
fn permit_query_reads_signer_score() {
    let mut store = instantiated(10000);
    let permit = sample_permit("p", vec![CONTRACT.to_string()], vec![TokenPermission::Balance]);
    let mut env = mock_env("signer");
    env.sender_id = pubkey_to_account(&permit.pubkey);
    try_record(&mut store, &env, 77, &"signed".to_string()).unwrap();
    let challenge = validate(&store, &permit, &CONTRACT.to_string()).unwrap();
    assert_eq!(challenge.account, env.sender_id);
    let token = CONTRACT.to_string();
    let resp = permit_queries(&store, &permit, &token, SignatureCheck::Valid, QueryWithPermit::Balance).unwrap();
    assert_eq!((resp.score, resp.description.as_str()), (Some(77), "signed"));
    let bad = permit_queries(&store, &permit, &token, SignatureCheck::Invalid, QueryWithPermit::Balance);
    assert_eq!(bad.unwrap_err(), ContractError::SignatureVerificationFailed);
    let bad = permit_queries(&store, &permit, &token, SignatureCheck::MalformedSignature, QueryWithPermit::Balance);
    assert_eq!(bad.unwrap_err(), ContractError::MalformedSignature);
    let bad = permit_queries(&store, &permit, &token, SignatureCheck::MalformedPubkey, QueryWithPermit::Balance);
    assert_eq!(bad.unwrap_err(), ContractError::MalformedPubkey);
}

#[test]
fn permit_without_capability_is_refused() {
    let store = instantiated(10000);
    let permit = sample_permit("p", vec![CONTRACT.to_string()], vec![TokenPermission::History, TokenPermission::Owner]);
    let token = CONTRACT.to_string();
    let r = permit_queries(&store, &permit, &token, SignatureCheck::Valid, QueryWithPermit::Balance);
    assert_eq!(r.unwrap_err(), ContractError::NoPermission);
}

#[test]
fn constants_kept_at_init() {
    let store = instantiated(10);
    let config = sibyl_score::contract::ReadonlyConfig::from_storage(&store);
    assert_eq!(config.constants().unwrap().contract_address, CONTRACT);
    let empty = Store::new();
    let config = sibyl_score::contract::ReadonlyConfig::from_storage(&empty);
    assert_eq!(
        config.constants().unwrap_err(),
        ContractError::NotFound(sibyl_score::error::Entity::Constants)
    );
}

#[test]
fn init_derives_seed_from_base64_digest() {
    let store = instantiated(10);
    let state = sibyl_score::contract::query_state(&store).unwrap();
    let expected = sibyl_score::crypto::sha_256(base64::encode("this is a padding").as_bytes());
    assert_eq!(state.prng_seed, expected.to_vec());
    assert_ne!(state.prng_seed, sibyl_score::crypto::sha_256(b"this is a padding").to_vec());
    assert_eq!((state.score_count, state.max_size), (0, 10));
}

fn bech32_data(s: &str) -> Vec<u8> {
    let charset = "qpzry9x8gf2tvdw0s3jn54khce6mua7l";
    let mut bits: u32 = 0;
    let mut n = 0;
    let mut out = Vec::new();
    for c in s.chars() {
        bits = (bits << 5) | charset.find(c).unwrap() as u32;
        n += 5;
        if n >= 8 {
            n -= 8;
            out.push((bits >> n) as u8);
            bits &= (1 << n) - 1;
        }
    }
    out
}

#[test]
fn account_of_known_public_key() {
    let pubkey = base64::decode("A5M49l32ZrV+SDsPnoRv8fH7ivNC4gEX9prvd4RwvRaL").unwrap();
    // secret1399pyvvk3hvwgxwt3udkslsc5jl3rqv4yshfrl without its prefix and checksum
    let expected = bech32_data("399pyvvk3hvwgxwt3udkslsc5jl3rqv4");
    assert_eq!(expected.len(), 20);
    assert_eq!(pubkey_to_account(&pubkey), expected);
}

#[test]
fn permit_query_checks_token_and_revocation_first() {
    let mut store = instantiated(10000);
    let permit = sample_permit("p", vec![CONTRACT.to_string()], vec![TokenPermission::Balance]);
    let mut env = mock_env("signer");
    env.sender_id = pubkey_to_account(&permit.pubkey);
    try_record(&mut store, &env, 77, &"signed".to_string()).unwrap();
    let other = "elsewhere".to_string();
    let r = permit_queries(&store, &permit, &other, SignatureCheck::MalformedPubkey, QueryWithPermit::Balance);
    assert_eq!(r.unwrap_err(), ContractError::TokenMismatch);
    revoke_permit(&mut store, &env, &"p".to_string());
    let token = CONTRACT.to_string();
    let r = permit_queries(&store, &permit, &token, SignatureCheck::Valid, QueryWithPermit::Balance);
    assert_eq!(r.unwrap_err(), ContractError::PermitRevoked);
    let r = sibyl_score::contract::permit_handle(&store, &permit, &token, SignatureCheck::Valid, QueryWithPermit::Balance);
    assert_eq!(r.err(), Some(ContractError::PermitRevoked));
}

#[test]
fn same_block_same_entropy_keys_differ() {
    let mut store = instantiated(10000);
    let env = mock_env("alice");
    let k1 = try_generate_viewing_key(&mut store, &env, &"same".to_string()).unwrap();
    let k2 = try_generate_viewing_key(&mut store, &env, &"same".to_string()).unwrap();
    let k3 = try_generate_viewing_key(&mut store, &env, &"same".to_string()).unwrap();
    assert_ne!(k1, k2);
    assert_ne!(k2, k3);
    assert_ne!(k1, k3);
    try_record(&mut store, &env, 1, &"x".to_string()).unwrap();
    assert!(authenticated_queries(&store, b"alice", &k3).is_ok());
    assert_eq!(authenticated_queries(&store, b"alice", &k2).unwrap_err(), ContractError::Unauthorized);
    assert_eq!(authenticated_queries(&store, b"alice", &k1).unwrap_err(), ContractError::Unauthorized);
}
