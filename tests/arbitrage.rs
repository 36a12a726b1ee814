use rust_arb_bot::arbitrage::{
    gas_cost_usd, opportunity, profitability, ArbDirection, ArbEngine, EngineAction, EngineEvent,
    EngineState, PriceData,
};
use rust_arb_bot::settings::{ConfigError, Settings};

fn settings(cex_fee_bps: u32, dex_fee_bps: u32, dex_gas_used: u64) -> Settings {
    Settings {
        self_addr: [1; 20],
        weth_addr: [2; 20],
        usdt_addr: [3; 20],
        quoter_v2_addr: [4; 20],
        pool_addr: [5; 20],
        bybit_ticker: "HYPEUSDT".to_string(),
        gateio_ticker: "HYPE_USDT".to_string(),
        dex_fee_tier: 3000,
        cex_fee_bps,
        dex_fee_bps,
        dex_gas_used,
        rpc_url: String::new(),
        bybit_ws_endpoint: String::new(),
        gateio_ws_endpoint: String::new(),
    }
}

/// Dollars with two decimals, in price units.
fn usd(cents: u64) -> u64 {
    cents * 1_000_000
}

#[test]
fn scenario_buy_cex_reports_opportunity() {
    let buy = usd(10_000);
    let sell = usd(10_050);
    let gas = usd(5);
    let p = profitability(buy, sell, 10, gas);
    assert_eq!(p.gross / buy as i128, 50);
    assert_eq!(p.gas / buy as i128, 5);
    assert_eq!(p.fee / buy as i128, 10);
    assert_eq!(p.net, 35 * buy as i128);
    let o = opportunity(ArbDirection::BuyCex, buy, sell, 10, gas).expect("reported");
    assert_eq!(o.net_profit_bps, 3_500);
    assert_eq!(o.net_profit_usd, usd(35) as u128);
    assert_eq!(o.gas_cost_usd, gas);
    assert_eq!(o.fee_cost_usd, usd(10) as u128);
    assert_eq!(o.buy_price, buy);
    assert_eq!(o.sell_price, sell);
}

#[test]
fn scenario_no_crossing_reports_nothing() {
    let engine = ArbEngine::new(&settings(5, 5, 200_000)).unwrap();
    let cex = PriceData { bid: usd(9_900), ask: usd(9_950) };
    let dex = PriceData { bid: usd(9_940), ask: usd(10_000) };
    let e = engine.check_for_opportunity(cex, dex, 1_000_000_000);
    assert!(e.buy_cex.is_none());
    assert!(e.buy_dex.is_none());
}

#[test]
fn no_spread_is_never_reported() {
    assert!(opportunity(ArbDirection::BuyDex, usd(100), usd(100), 0, 0).is_none());
    assert!(opportunity(ArbDirection::BuyDex, usd(101), usd(100), 0, 0).is_none());
    assert!(opportunity(ArbDirection::BuyCex, 0, usd(100), 0, 0).is_none());
}

#[test]
fn fees_and_gas_lower_the_net_strictly() {
    let (buy, sell) = (usd(10_000), usd(10_100));
    let a = profitability(buy, sell, 10, usd(5)).net;
    let b = profitability(buy, sell, 11, usd(5)).net;
    let c = profitability(buy, sell, 10, usd(5) + 1).net;
    assert!(a > b);
    assert!(a > c);
}

#[test]
fn both_directions_use_one_formula() {
    let a = opportunity(ArbDirection::BuyCex, usd(10_000), usd(10_100), 20, usd(3)).unwrap();
    let b = opportunity(ArbDirection::BuyDex, usd(10_000), usd(10_100), 20, usd(3)).unwrap();
    assert_eq!(a.direction, ArbDirection::BuyCex);
    assert_eq!(b.direction, ArbDirection::BuyDex);
    assert_eq!(a.net_profit_bps, b.net_profit_bps);
    assert_eq!(a.net_profit_usd, b.net_profit_usd);
}

#[test]
fn gas_cost_in_price_units() {
    // 100 gwei * 200_000 gas = 0.02 native; at $40 that is $0.80.
    assert_eq!(gas_cost_usd(100_000_000_000, 200_000, usd(4_000)), Some(usd(80)));
    assert_eq!(gas_cost_usd(0, 200_000, usd(4_000)), Some(0));
    assert_eq!(gas_cost_usd(u128::MAX, u64::MAX, u64::MAX), None);
}

#[test]
fn fees_that_overflow_are_refused() {
    assert!(matches!(ArbEngine::new(&settings(u32::MAX, 1, 0)), Err(ConfigError::FeesOutOfRange)));
    let e = ArbEngine::new(&settings(7, 3, 42)).unwrap();
    assert_eq!(e.total_fee_bps, 10);
    assert_eq!(e.dex_gas_used, 42);
}

#[test]
fn engine_evaluates_with_one_gas_price() {
    let mut engine = ArbEngine::new(&settings(5, 5, 0)).unwrap();
    let cex = PriceData { bid: usd(9_900), ask: usd(10_000) };
    let dex = PriceData { bid: usd(10_050), ask: usd(10_060) };
    assert_eq!(engine.step(EngineEvent::Changed { cex: Some(cex), dex: None }), EngineAction::Wait);
    assert_eq!(engine.step(EngineEvent::Changed { cex: Some(cex), dex: Some(dex) }), EngineAction::QueryGasPrice);
    assert_eq!(engine.state, EngineState::Evaluating { cex, dex });
    match engine.step(EngineEvent::GasPrice { wei: 0 }) {
        EngineAction::Report(e) => {
            let o = e.buy_cex.expect("buy on the exchange pays");
            assert_eq!(o.net_profit_bps, 4_000);
            assert!(e.buy_dex.is_none());
        }
        other => panic!("unexpected {:?}", other),
    }
    assert_eq!(engine.state, EngineState::Idle);
}

#[test]
fn failed_gas_query_abandons_the_evaluation() {
    let mut engine = ArbEngine::new(&settings(0, 0, 0)).unwrap();
    let p = PriceData { bid: usd(100), ask: usd(101) };
    engine.step(EngineEvent::Changed { cex: Some(p), dex: Some(p) });
    assert_eq!(engine.step(EngineEvent::GasPriceFailed), EngineAction::Wait);
    assert_eq!(engine.state, EngineState::Idle);
    assert_eq!(engine.step(EngineEvent::GasPrice { wei: 1 }), EngineAction::Wait);
}
