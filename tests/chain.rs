use rust_arb_bot::abi::{
    address_less, decode_quote_output_response, decode_quote_response, function_selector,
    quote_calldata, quote_exact_output_calldata, DecodeError, LOWER_PRICE_LIMIT,
    QUOTE_EXACT_INPUT_SINGLE, QUOTE_EXACT_OUTPUT_SINGLE, UPPER_PRICE_LIMIT,
};
use rust_arb_bot::overlay::{AccountRecord, HydrationError, OverlayCache};
use rust_arb_bot::quote::{init_account_with_bytecode, init_cache_db, insert_mapping_storage_slot, mapping_slot};

fn word(last: u8) -> [u8; 32] {
    let mut w = [0u8; 32];
    w[31] = last;
    w
}

fn hex(bytes: &[u8]) -> String {
    bytes.iter().map(|b| format!("{:02x}", b)).collect()
}

#[test]
fn selectors_are_digests_of_signatures() {
    assert_eq!(hex(&function_selector("transfer(address,uint256)")), "a9059cbb");
    assert_eq!(hex(&function_selector("balanceOf(address)")), "70a08231");
    assert_eq!(hex(&function_selector(QUOTE_EXACT_INPUT_SINGLE)), "c6a5026a");
    assert_eq!(hex(&function_selector(QUOTE_EXACT_OUTPUT_SINGLE)), "bd21704a");
}

#[test]
fn quote_calldata_layout() {
    let low = [1u8; 20];
    let high = [2u8; 20];
    let data = quote_calldata(low, high, 1_000_000_000_000_000_000, 3000);
    assert_eq!(data.len(), 4 + 5 * 32);
    assert_eq!(hex(&data[..4]), "c6a5026a");
    assert_eq!(&data[4..16], &[0u8; 12]);
    assert_eq!(&data[16..36], &low);
    assert_eq!(&data[48..68], &high);
    assert_eq!(hex(&data[68..100]), format!("{:064x}", 1_000_000_000_000_000_000u128));
    assert_eq!(hex(&data[100..132]), format!("{:064x}", 3000));
    assert_eq!(&data[144..164], &LOWER_PRICE_LIMIT);

    let out = quote_exact_output_calldata(high, low, 5, 500);
    assert_eq!(hex(&out[..4]), "bd21704a");
    assert_eq!(&out[16..36], &high);
    assert_eq!(&out[48..68], &low);
    assert_eq!(&out[144..164], &UPPER_PRICE_LIMIT);
}

#[test]
fn price_limit_sentinels_are_exact() {
    let mut lo = [0u8; 32];
    lo[12..].copy_from_slice(&LOWER_PRICE_LIMIT);
    assert_eq!(hex(&lo), format!("{:064x}", 4295128749u128));
    assert_eq!(hex(&UPPER_PRICE_LIMIT), "fffd8963efd1fc6a506488495d951d5263988d25");
}

#[test]
fn addresses_order_bytewise() {
    let mut a = [0u8; 20];
    let mut b = [0u8; 20];
    a[19] = 1;
    b[0] = 1;
    assert!(address_less(&a, &b));
    assert!(!address_less(&b, &a));
    assert!(!address_less(&a, &a));
}

#[test]
fn decode_reads_first_word_as_uint128() {
    let mut resp = vec![0u8; 128];
    resp[31] = 7;
    resp[16] = 1;
    resp[0] = 0xff;
    resp[63] = 9;
    let expected = (1u128 << 120) + 7;
    assert_eq!(decode_quote_response(&resp), Ok(expected));
    assert_eq!(decode_quote_output_response(&resp), Ok(expected));
    resp.extend_from_slice(&[1, 2, 3]);
    assert_eq!(decode_quote_response(&resp), Ok(expected));
    assert_eq!(decode_quote_response(&resp[..127]), Err(DecodeError::TooShort));
    assert_eq!(decode_quote_output_response(&[]), Err(DecodeError::TooShort));
}

#[test]
fn mapping_slot_is_deterministic_and_key_sensitive() {
    let base = word(0);
    let k1 = [0x11u8; 20];
    let k2 = [0x22u8; 20];
    assert_eq!(mapping_slot(&base, &k1), mapping_slot(&base, &k1));
    assert_ne!(mapping_slot(&base, &k1), mapping_slot(&base, &k2));
    assert_ne!(mapping_slot(&base, &k1), mapping_slot(&word(1), &k1));
    let mut k0 = [0u8; 20];
    k0[19] = 0;
    // keccak256 of 64 zero bytes: the slot of mapping[address(0)] at slot 0.
    assert_eq!(
        hex(&mapping_slot(&base, &k0)),
        "ad3228b676f7d3cd4284a5443f17f1962b36e491b30a40b2405849e597ba5fb5"
    );
}

#[test]
fn code_override_carries_its_digest() {
    let mut cache = init_cache_db();
    let addr = [9u8; 20];
    init_account_with_bytecode(addr, vec![], &mut cache);
    let rec = cache.get_account(&addr).unwrap();
    assert_eq!(hex(&rec.code_hash), "c5d2460186f7233c927e7db2dcc703c0e500b653ca82273b7bfad8045d85a470");
    assert_eq!(rec.code, Some(vec![]));
    assert_eq!(rec.nonce, 0);
    assert_eq!(rec.balance, [0u8; 32]);
}

#[test]
fn mapping_override_is_read_at_the_derived_slot() {
    let mut cache = init_cache_db();
    let token = [3u8; 20];
    let holder = [4u8; 20];
    insert_mapping_storage_slot(token, word(0), holder, word(42), &mut cache);
    let slot = mapping_slot(&word(0), &holder);
    assert_eq!(cache.get_slot(&token, &slot), Some(word(42)));
    assert_eq!(cache.get_slot(&token, &word(0)), None);
}

#[test]
fn override_survives_refreshes() {
    let mut cache = OverlayCache::new();
    let a = [1u8; 20];
    cache.set_slot_override(a, word(1), word(77));
    cache.refresh_slot(a, word(1), Ok(word(5))).unwrap();
    cache.refresh_slot(a, word(2), Ok(word(6))).unwrap();
    cache.refresh_slot([2u8; 20], word(1), Ok(word(7))).unwrap();
    assert_eq!(cache.get_slot(&a, &word(1)), Some(word(77)));
    assert_eq!(cache.hydrate_slot(a, word(1), Ok(word(8))), Ok(word(77)));
    assert_eq!(cache.get_slot(&a, &word(2)), Some(word(6)));
}

#[test]
fn hydrated_word_stays_until_refresh() {
    let mut cache = OverlayCache::new();
    let pool = [5u8; 20];
    let slot0 = word(0);
    assert_eq!(cache.get_slot(&pool, &slot0), None);
    assert_eq!(cache.hydrate_slot(pool, slot0, Ok(word(10))), Ok(word(10)));
    // the remote value moved on; the cache keeps what it read
    assert_eq!(cache.hydrate_slot(pool, slot0, Ok(word(11))), Ok(word(10)));
    assert_eq!(cache.get_slot(&pool, &slot0), Some(word(10)));
    cache.refresh_slot(pool, slot0, Ok(word(12))).unwrap();
    assert_eq!(cache.get_slot(&pool, &slot0), Some(word(12)));
}

#[test]
fn failed_hydration_leaves_key_absent() {
    let mut cache = OverlayCache::new();
    let a = [1u8; 20];
    assert_eq!(cache.hydrate_slot(a, word(3), Err(HydrationError::FetchFailed)), Err(HydrationError::FetchFailed));
    assert_eq!(cache.get_slot(&a, &word(3)), None);
    assert_eq!(cache.refresh_slot(a, word(3), Err(HydrationError::FetchFailed)), Err(HydrationError::FetchFailed));
    assert_eq!(cache.get_slot(&a, &word(3)), None);
    assert!(cache.hydrate_account(a, Err(HydrationError::FetchFailed)).is_err());
    assert!(cache.get_account(&a).is_none());
}

#[test]
fn account_override_wins_over_hydration() {
    let mut cache = OverlayCache::new();
    let a = [1u8; 20];
    let fetched = AccountRecord { balance: word(1), nonce: 3, code: None, code_hash: word(0) };
    let got = cache.hydrate_account(a, Ok(fetched.clone())).unwrap();
    assert_eq!(got.nonce, 3);
    let over = AccountRecord { balance: word(9), nonce: 0, code: Some(vec![0x60, 0x00]), code_hash: word(2) };
    cache.set_account_override(a, over);
    let got = cache.get_account(&a).unwrap();
    assert_eq!(got.balance, word(9));
    let again = cache.hydrate_account(a, Ok(fetched)).unwrap();
    assert_eq!(again.code, Some(vec![0x60, 0x00]));
    assert_eq!(cache.account_override_entries().len(), 1);
}

#[test]
fn two_mapping_writes_both_stay() {
    let mut cache = init_cache_db();
    let token = [3u8; 20];
    insert_mapping_storage_slot(token, word(0), [4u8; 20], word(1), &mut cache);
    insert_mapping_storage_slot(token, word(0), [5u8; 20], word(2), &mut cache);
    assert_eq!(cache.get_slot(&token, &mapping_slot(&word(0), &[4u8; 20])), Some(word(1)));
    assert_eq!(cache.get_slot(&token, &mapping_slot(&word(0), &[5u8; 20])), Some(word(2)));
    assert_eq!(cache.slot_override_entries().len(), 2);
}

#[test]
fn hydrated_entries_list_the_hydrated_layer() {
    let mut cache = OverlayCache::new();
    let a = [1u8; 20];
    cache.set_slot_override(a, word(1), word(9));
    cache.hydrate_slot(a, word(2), Ok(word(5))).unwrap();
    cache.refresh_slot(a, word(3), Ok(word(6))).unwrap();
    let entries = cache.hydrated_slot_entries();
    assert_eq!(entries.len(), 2);
    assert!(entries.iter().any(|e| e.slot == word(2) && e.value == word(5)));
    assert!(entries.iter().any(|e| e.slot == word(3) && e.value == word(6)));
}
