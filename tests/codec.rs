use sibyl_score::crypto::sha_256;
use sibyl_score::permit::{signed_bytes, Permit, TokenPermission};
use sibyl_score::state::{Constants, Persist, State, User};
use sibyl_score::store::{namespaced_key, Store};
use sibyl_score::viewing_key::ct_slice_compare;

#[test]
fn state_round_trips_at_the_bounds() {
    for (max_size, count) in [(1u16, 0u64), (65535, u64::MAX), (10000, 1)] {
        let s = State { max_size, score_count: count, prng_seed: vec![0xff; 32] };
        let bytes = s.encode();
        assert_eq!(bytes.len(), 2 + 8 + 8 + 32);
        let back = State::decode(&bytes).unwrap();
        assert_eq!((back.max_size, back.score_count, back.prng_seed), (max_size, count, vec![0xff; 32]));
    }
    let empty = State { max_size: 1, score_count: 0, prng_seed: vec![] };
    assert_eq!(empty.encode(), vec![1, 0, 0, 0, 0, 0, 0, 0, 0, 0, 0, 0, 0, 0, 0, 0, 0, 0]);
}

#[test]
fn user_round_trips_with_description_of_max_size() {
    let description = vec![b'a'; 65535];
    let u = User { score: u64::MAX, timestamp: 0, description: description.clone() };
    let bytes = u.encode();
    assert_eq!(bytes.len(), 24 + 65535);
    let back = User::decode(&bytes).unwrap();
    assert_eq!((back.score, back.timestamp, back.description), (u64::MAX, 0, description));
    let u = User { score: 300, timestamp: 7, description: b"ok".to_vec() };
    assert_eq!(
        u.encode(),
        vec![44, 1, 0, 0, 0, 0, 0, 0, 7, 0, 0, 0, 0, 0, 0, 0, 2, 0, 0, 0, 0, 0, 0, 0, b'o', b'k']
    );
}

#[test]
fn malformed_bytes_do_not_decode() {
    assert!(State::decode(&[1, 0, 0]).is_none());
    let mut bytes = User { score: 1, timestamp: 2, description: b"xy".to_vec() }.encode();
    bytes.push(0);
    assert!(User::decode(&bytes).is_none());
    let mut bad_utf8 = vec![1, 0, 0, 0, 0, 0, 0, 0];
    bad_utf8.push(0xff);
    assert!(Constants::decode(&bad_utf8).is_none());
    let c = Constants { contract_address: "secret1xyz".to_string() };
    assert_eq!(Constants::decode(&c.encode()).unwrap().contract_address, "secret1xyz");
}

#[test]
fn namespaces_are_length_delimited() {
    assert_eq!(namespaced_key(b"ab", b"c"), vec![0, 2, b'a', b'b', b'c']);
    assert_ne!(namespaced_key(b"ab", b"c"), namespaced_key(b"a", b"bc"));
    let mut store = Store::new();
    store.set(&namespaced_key(b"ab", b"c"), b"1");
    store.set(&namespaced_key(b"a", b"bc"), b"2");
    store.set(&namespaced_key(b"ab", b"c"), b"3");
    assert_eq!(store.get(&namespaced_key(b"ab", b"c")), Some(b"3".to_vec()));
    assert_eq!(store.get(&namespaced_key(b"a", b"bc")), Some(b"2".to_vec()));
    assert_eq!(store.get(b"missing"), None);
    assert_eq!(store.entries().len(), 2);
}

#[test]
fn sha_256_digest() {
    let expected: [u8; 32] = [
        159, 134, 208, 129, 136, 76, 125, 101, 154, 47, 234, 160, 197, 90, 208, 21, 163, 191, 79, 27,
        43, 11, 130, 44, 209, 93, 108, 21, 176, 240, 10, 8,
    ];
    assert_eq!(sha_256(b"test"), expected);
}

#[test]
fn constant_time_compare() {
    assert!(ct_slice_compare(&[1, 2, 3], &[1, 2, 3]));
    assert!(!ct_slice_compare(&[1, 2, 3], &[1, 2, 4]));
    assert!(!ct_slice_compare(&[1, 2], &[1, 2, 3]));
    assert!(ct_slice_compare(&[], &[]));
}

#[test]
fn permit_sign_document() {
    let token = "secret1rf03820fp8gngzg2w02vd30ns78qkc8rg8dxaq".to_string();
    let permit = Permit {
        allowed_tokens: vec![token.clone()],
        chain_id: "pulsar-2".to_string(),
        permit_name: "memo_secret1rf03820fp8gngzg2w02vd30ns78qkc8rg8dxaq".to_string(),
        permissions: vec![TokenPermission::History],
        pubkey: vec![],
        signature: vec![],
    };
    let expected = "{\"account_number\":\"0\",\"chain_id\":\"pulsar-2\",\"fee\":{\"amount\":[{\"amount\":\"0\",\"denom\":\"uscrt\"}],\"gas\":\"1\"},\"memo\":\"\",\"msgs\":[{\"type\":\"query_permit\",\"value\":{\"allowed_tokens\":[\"secret1rf03820fp8gngzg2w02vd30ns78qkc8rg8dxaq\"],\"permissions\":[\"history\"],\"permit_name\":\"memo_secret1rf03820fp8gngzg2w02vd30ns78qkc8rg8dxaq\"}}],\"sequence\":\"0\"}";
    assert_eq!(String::from_utf8(signed_bytes(&permit)).unwrap(), expected);
}

#[test]
fn permit_sign_document_escapes_strings() {
    let permit = Permit {
        allowed_tokens: vec!["a".to_string(), "b\"c".to_string()],
        chain_id: "x\\y\n\u{1}\u{1f}é".to_string(),
        permit_name: "t\tr\r".to_string(),
        permissions: vec![TokenPermission::Balance, TokenPermission::Allowance, TokenPermission::Owner],
        pubkey: vec![],
        signature: vec![],
    };
    let expected = "{\"account_number\":\"0\",\"chain_id\":\"x\\\\y\\n\\u0001\\u001Fé\",\"fee\":{\"amount\":[{\"amount\":\"0\",\"denom\":\"uscrt\"}],\"gas\":\"1\"},\"memo\":\"\",\"msgs\":[{\"type\":\"query_permit\",\"value\":{\"allowed_tokens\":[\"a\",\"b\\\"c\"],\"permissions\":[\"balance\",\"allowance\",\"owner\"],\"permit_name\":\"t\\tr\\r\"}}],\"sequence\":\"0\"}";
    assert_eq!(String::from_utf8(signed_bytes(&permit)).unwrap(), expected);
}
