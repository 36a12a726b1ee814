use rust_arb_bot::abi::{quote_calldata, quote_exact_output_calldata};
use rust_arb_bot::arbitrage::PriceData;
use rust_arb_bot::channel::LatestValue;
use rust_arb_bot::feeds::{parse_price, price_from_message, FeedFilter, FeedMessage};
use rust_arb_bot::overlay::HydrationError;
use rust_arb_bot::quote::{
    mapping_slot, ExecutionError, QuoteAction, QuoteEngine, QuoteError, QuoteEvent, QuotePhase,
    ONE_ETHER, POOL_STATE_SLOT,
};
use rust_arb_bot::settings::{ConfigError, Settings};

fn settings(fee_tier: u32) -> Settings {
    Settings {
        self_addr: [1; 20],
        weth_addr: [2; 20],
        usdt_addr: [3; 20],
        quoter_v2_addr: [4; 20],
        pool_addr: [5; 20],
        bybit_ticker: String::new(),
        gateio_ticker: String::new(),
        dex_fee_tier: fee_tier,
        cex_fee_bps: 10,
        dex_fee_bps: 0,
        dex_gas_used: 0,
        rpc_url: String::new(),
        bybit_ws_endpoint: String::new(),
        gateio_ws_endpoint: String::new(),
    }
}

fn response(amount: u128) -> Vec<u8> {
    let mut r = vec![0u8; 128];
    r[16..32].copy_from_slice(&amount.to_be_bytes());
    r
}

#[test]
fn conflation_keeps_only_the_latest() {
    let mut ch: LatestValue<u32> = LatestValue::new();
    let mut sub = ch.subscribe();
    assert_eq!(ch.poll_change(&mut sub), None);
    ch.publish(1);
    ch.publish(2);
    assert_eq!(ch.poll_change(&mut sub), Some(Some(2)));
    assert_eq!(ch.poll_change(&mut sub), None);
    assert_eq!(ch.borrow(), Some(2));
    let mut late = ch.subscribe();
    assert_eq!(ch.poll_change(&mut late), None);
    ch.publish(3);
    assert_eq!(ch.poll_change(&mut late), Some(Some(3)));
}

#[test]
fn quote_cycle_publishes_bid_and_ask() {
    let mut q = QuoteEngine::new(&settings(3000), vec![0x60, 0x00]).unwrap();
    let pool = [5u8; 20];
    match q.advance(QuoteEvent::Tick) {
        QuoteAction::FetchSlot { address, slot } => {
            assert_eq!(address, pool);
            assert_eq!(slot, POOL_STATE_SLOT);
        }
        _ => panic!("expected a slot read"),
    }
    let mut w = [0u8; 32];
    w[31] = 42;
    match q.advance(QuoteEvent::PoolSlot(Ok(w))) {
        QuoteAction::Execute { caller, target, calldata } => {
            assert_eq!(caller, [1u8; 20]);
            assert_eq!(target, [4u8; 20]);
            assert_eq!(calldata, quote_calldata([2; 20], [3; 20], ONE_ETHER, 3000));
        }
        _ => panic!("expected the bid quote"),
    }
    assert_eq!(q.cache.get_slot(&pool, &POOL_STATE_SLOT), Some(w));
    match q.advance(QuoteEvent::CallResult(Ok(response(40_123_456)))) {
        QuoteAction::Execute { calldata, .. } => {
            assert_eq!(calldata, quote_exact_output_calldata([3; 20], [2; 20], ONE_ETHER, 3000));
        }
        _ => panic!("expected the ask quote"),
    }
    assert_eq!(q.phase, QuotePhase::QuotingAsk { bid: 4_012_345_600 });
    match q.advance(QuoteEvent::CallResult(Ok(response(40_200_000)))) {
        QuoteAction::Publish(p) => assert_eq!(p, PriceData { bid: 4_012_345_600, ask: 4_020_000_000 }),
        _ => panic!("expected a price"),
    }
    assert_eq!(q.phase, QuotePhase::Idle);
}

#[test]
fn quote_cycle_aborts_on_failures() {
    let mut q = QuoteEngine::new(&settings(500), vec![]).unwrap();
    q.advance(QuoteEvent::Tick);
    match q.advance(QuoteEvent::PoolSlot(Err(HydrationError::FetchFailed))) {
        QuoteAction::Abort(e) => assert_eq!(e, QuoteError::Hydration(HydrationError::FetchFailed)),
        _ => panic!("expected an abort"),
    }
    q.advance(QuoteEvent::Tick);
    q.advance(QuoteEvent::PoolSlot(Ok([0; 32])));
    match q.advance(QuoteEvent::CallResult(Err(ExecutionError::Reverted))) {
        QuoteAction::Abort(e) => assert_eq!(e, QuoteError::Execution(ExecutionError::Reverted)),
        _ => panic!("expected an abort"),
    }
    q.advance(QuoteEvent::Tick);
    q.advance(QuoteEvent::PoolSlot(Ok([0; 32])));
    match q.advance(QuoteEvent::CallResult(Ok(vec![0; 10]))) {
        QuoteAction::Abort(QuoteError::Decode(_)) => {}
        _ => panic!("expected a decode failure"),
    }
    q.advance(QuoteEvent::Tick);
    q.advance(QuoteEvent::PoolSlot(Ok([0; 32])));
    match q.advance(QuoteEvent::CallResult(Ok(response(u128::MAX)))) {
        QuoteAction::Abort(e) => assert_eq!(e, QuoteError::PriceOutOfRange),
        _ => panic!("expected an abort"),
    }
    assert_eq!(q.phase, QuotePhase::Idle);
    assert!(matches!(q.advance(QuoteEvent::CallResult(Ok(response(1)))), QuoteAction::Wait));
}

#[test]
fn quote_engine_installs_its_overrides() {
    assert!(matches!(QuoteEngine::new(&settings(1 << 24), vec![]), Err(ConfigError::FeeTierOutOfRange)));
    let q = QuoteEngine::new(&settings(3000), vec![0x60]).unwrap();
    let key = mapping_slot(&[0u8; 32], &[5u8; 20]);
    let mut half = [0xffu8; 32];
    half[0] = 0x7f;
    assert_eq!(q.cache.get_slot(&[2u8; 20], &key), Some(half));
    assert_eq!(q.cache.get_slot(&[3u8; 20], &key), Some(half));
    assert_eq!(q.cache.get_account(&[2u8; 20]).unwrap().code, Some(vec![0x60]));
    assert_eq!(q.cache.slot_override_entries().len(), 2);
}

#[test]
fn prices_parse_to_price_units() {
    assert_eq!(parse_price("100.25"), Some(10_025_000_000));
    assert_eq!(parse_price("100"), Some(10_000_000_000));
    assert_eq!(parse_price("0.123456789"), Some(12_345_678));
    assert_eq!(parse_price("007.5"), Some(750_000_000));
    assert_eq!(parse_price("184467440737.09551615"), Some(u64::MAX));
    assert_eq!(parse_price("184467440737.09551616"), None);
    assert_eq!(parse_price("99999999999999999999999"), None);
    for bad in ["", "abc", "1.", ".5", "-1", "1e3", "1.2.3", " 1"] {
        assert_eq!(parse_price(bad), None, "{bad:?}");
    }
}

#[test]
fn feed_messages_give_prices() {
    let book = FeedMessage::Book { bid: Some("40.10".to_string()), ask: Some("40.12".to_string()) };
    assert_eq!(price_from_message(&book), Some(PriceData { bid: 4_010_000_000, ask: 4_012_000_000 }));
    assert_eq!(price_from_message(&FeedMessage::Control), None);
    let half = FeedMessage::Book { bid: Some("40.10".to_string()), ask: None };
    assert_eq!(price_from_message(&half), None);
    let bad = FeedMessage::Book { bid: Some("x".to_string()), ask: Some("1".to_string()) };
    assert_eq!(price_from_message(&bad), None);
    let mut f = FeedFilter::new();
    let p = PriceData { bid: 1, ask: 2 };
    assert!(f.accept(p));
    assert!(!f.accept(p));
    assert!(f.accept(PriceData { bid: 1, ask: 3 }));
}

