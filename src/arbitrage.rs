use vstd::prelude::*;

use crate::settings::{ConfigError, Settings};

verus! {

/// Basis points in one whole.
pub const BPS: u64 = 10_000;

/// Price units in one US dollar: prices are fixed-point with eight decimals.
pub const PRICE_SCALE: u64 = 100_000_000;

/// Smallest units (wei) in one native token.
pub const WEI_PER_NATIVE: u128 = 1_000_000_000_000_000_000;

/// Exact profitability of one trade. Every amount is basis points times the
/// buy price: divided by the buy price it is a figure in basis points, divided
/// by `BPS` it is an amount in price units.
#[derive(Clone, Copy, Debug, PartialEq, Eq, Structural)]
pub struct Profit {
    pub gross: i128,
    pub fee: i128,
    pub gas: i128,
    pub net: i128,
}

/// `(sell - buy) / buy * 10000`, times `buy`.
pub open spec fn gross_profit(buy: int, sell: int) -> int {
    (sell - buy) * BPS
}

/// The venue fees of both legs, times `buy`.
pub open spec fn fee_cost(buy: int, total_fee_bps: int) -> int {
    total_fee_bps * buy
}

/// `gas_usd / buy * 10000`, times `buy`.
pub open spec fn gas_cost(gas_usd: int) -> int {
    gas_usd * BPS
}

/// Net profit in basis points, times `buy`.
pub open spec fn net_profit(buy: int, sell: int, total_fee_bps: int, gas_usd: int) -> int {
    gross_profit(buy, sell) - fee_cost(buy, total_fee_bps) - gas_cost(gas_usd)
}

/// The profitability formula: a function of the four scalars alone, the same
/// for both trade directions.
pub fn profitability(buy_price: u64, sell_price: u64, total_fee_bps: u32, gas_cost_usd: u64) -> (r:
    Profit)
    ensures
        r.gross == gross_profit(buy_price as int, sell_price as int),
        r.fee == fee_cost(buy_price as int, total_fee_bps as int),
        r.gas == gas_cost(gas_cost_usd as int),
        r.net == net_profit(buy_price as int, sell_price as int, total_fee_bps as int, gas_cost_usd as int),
{
    let diff: i128 = sell_price as i128 - buy_price as i128;
    let gross: i128 = diff * 10_000;
    assert(0 <= (total_fee_bps as int) * (buy_price as int) <= 0xffff_ffff * 0xffff_ffff_ffff_ffff)
        by (nonlinear_arith)
        requires
            total_fee_bps <= 0xffff_ffff,
            buy_price <= 0xffff_ffff_ffff_ffff,
    ;
    let fee: i128 = total_fee_bps as i128 * buy_price as i128;
    let gas: i128 = gas_cost_usd as i128 * 10_000;
    let net: i128 = gross - fee - gas;
    Profit { gross, fee, gas, net }
}

/// Gas cost in price units: `gas_price * gas_units / WEI_PER_NATIVE * native_price`,
/// computed as one product before the division, rounded down.
pub open spec fn gas_cost_usd_of(gas_price_wei: int, gas_units: int, native_price: int) -> int {
    gas_price_wei * gas_units * native_price / (WEI_PER_NATIVE as int)
}

proof fn lemma_huge_quotient(x: int)
    requires
        x > u128::MAX,
    ensures
        x / (WEI_PER_NATIVE as int) > u64::MAX,
{
    assert(x / 1_000_000_000_000_000_000int >= 0x1_0000_0000_0000_0000int) by (nonlinear_arith)
        requires
            x >= 0x1_0000_0000_0000_0000_0000_0000_0000_0000int,
    ;
}

/// The gas cost of a swap in price units, or `None` where it exceeds `u64`
/// (the cost then exceeds any price, so no trade can pay for it).
pub fn gas_cost_usd(gas_price_wei: u128, gas_units: u64, native_price: u64) -> (r: Option<u64>)
    ensures
        r is None <==> gas_cost_usd_of(gas_price_wei as int, gas_units as int, native_price as int)
            > u64::MAX,
        r matches Some(v) ==> v == gas_cost_usd_of(
            gas_price_wei as int,
            gas_units as int,
            native_price as int,
        ),
{
    let ghost exact = gas_cost_usd_of(gas_price_wei as int, gas_units as int, native_price as int);
    if gas_price_wei == 0 || gas_units == 0 || native_price == 0 {
        assert(gas_price_wei * gas_units * native_price == 0) by (nonlinear_arith)
            requires
                gas_price_wei == 0 || gas_units == 0 || native_price == 0,
        ;
        return Some(0);
    }
    match gas_price_wei.checked_mul(gas_units as u128) {
        None => {
            proof {
                let a = gas_price_wei * gas_units;
                assert(a * native_price >= a) by (nonlinear_arith)
                    requires
                        a >= 0,
                        native_price >= 1,
                ;
                lemma_huge_quotient(a * native_price);
            }
            None
        },
        Some(a) => match a.checked_mul(native_price as u128) {
            None => {
                proof {
                    lemma_huge_quotient(a * native_price);
                }
                None
            },
            Some(b) => {
                let c: u128 = b / WEI_PER_NATIVE;
                if c > u64::MAX as u128 {
                    None
                } else {
                    Some(c as u64)
                }
            },
        },
    }
}

/// Best bid and ask of one venue, in price units.
#[derive(Clone, Copy, Debug, PartialEq, Eq, Structural)]
pub struct PriceData {
    pub bid: u64,
    pub ask: u64,
}

/// Which venue a trade buys on; it sells on the other.
#[derive(Clone, Copy, Debug, PartialEq, Eq, Structural)]
pub enum ArbDirection {
    /// Buy on the exchange at its ask, sell on the pool at its bid.
    BuyCex,
    /// Buy on the pool at its ask, sell on the exchange at its bid.
    BuyDex,
}

/// A trade that pays after fees and gas.
#[derive(Clone, Copy, Debug, PartialEq, Eq, Structural)]
pub struct ArbOpportunity {
    pub direction: ArbDirection,
    pub buy_price: u64,
    pub sell_price: u64,
    /// Venue fees of both legs, in price units, rounded down.
    pub fee_cost_usd: u128,
    /// Gas cost of the pool leg, in price units.
    pub gas_cost_usd: u64,
    /// Net profit in hundredths of a basis point, rounded down.
    pub net_profit_bps: u128,
    /// Net profit in price units, rounded down.
    pub net_profit_usd: u128,
}

/// A trade is reported when its gross and its net profit are both positive;
/// a buy price of zero gives no figure in basis points and is never reported.
pub open spec fn is_reported(buy: int, sell: int, total_fee_bps: int, gas_usd: int) -> bool {
    &&& buy > 0
    &&& gross_profit(buy, sell) > 0
    &&& net_profit(buy, sell, total_fee_bps, gas_usd) > 0
}

/// What one direction reports for the given prices, fees and gas cost.
pub open spec fn opportunity_of(
    direction: ArbDirection,
    buy: u64,
    sell: u64,
    total_fee_bps: u32,
    gas_usd: int,
) -> Option<ArbOpportunity> {
    if is_reported(buy as int, sell as int, total_fee_bps as int, gas_usd) {
        let net = net_profit(buy as int, sell as int, total_fee_bps as int, gas_usd);
        Some(
            ArbOpportunity {
                direction,
                buy_price: buy,
                sell_price: sell,
                fee_cost_usd: (fee_cost(buy as int, total_fee_bps as int) / (BPS as int)) as u128,
                gas_cost_usd: gas_usd as u64,
                net_profit_bps: (net * 100 / (buy as int)) as u128,
                net_profit_usd: (net / (BPS as int)) as u128,
            },
        )
    } else {
        None
    }
}

/// The venue price that values the native token for a direction: the price
/// of the asset that is not being spent.
pub open spec fn native_price_of(direction: ArbDirection, buy: u64, sell: u64) -> u64 {
    match direction {
        ArbDirection::BuyCex => sell,
        ArbDirection::BuyDex => buy,
    }
}

/// Evaluates one direction: the opportunity, if the trade pays.
pub fn opportunity(
    direction: ArbDirection,
    buy_price: u64,
    sell_price: u64,
    total_fee_bps: u32,
    gas_cost_usd: u64,
) -> (r: Option<ArbOpportunity>)
    ensures
        r == opportunity_of(direction, buy_price, sell_price, total_fee_bps, gas_cost_usd as int),
{
    if buy_price == 0 || sell_price <= buy_price {
        return None;
    }
    let p = profitability(buy_price, sell_price, total_fee_bps, gas_cost_usd);
    if p.net <= 0 {
        return None;
    }
    let net: u128 = p.net as u128;
    assert(net <= (sell_price - buy_price) * 10_000);
    let fee: u128 = p.fee as u128;
    let bps: u128 = net * 100 / (buy_price as u128);
    Some(
        ArbOpportunity {
            direction,
            buy_price,
            sell_price,
            fee_cost_usd: fee / 10_000,
            gas_cost_usd,
            net_profit_bps: bps,
            net_profit_usd: net / 10_000,
        },
    )
}

/// What both directions report for one pair of venue prices.
#[derive(Clone, Copy, Debug, PartialEq, Eq, Structural)]
pub struct Evaluation {
    pub buy_cex: Option<ArbOpportunity>,
    pub buy_dex: Option<ArbOpportunity>,
}

/// The state of the engine: waiting for a change, or waiting for the gas
/// price that the evaluation of a snapshot of both venues needs.
#[derive(Clone, Copy, Debug, PartialEq, Eq, Structural)]
pub enum EngineState {
    Idle,
    Evaluating { cex: PriceData, dex: PriceData },
}

/// What wakes the engine.
#[derive(Clone, Copy, Debug, PartialEq, Eq, Structural)]
pub enum EngineEvent {
    /// One of the channels changed; both were read afresh.
    Changed { cex: Option<PriceData>, dex: Option<PriceData> },
    /// The gas price that was asked for, in wei per gas unit.
    GasPrice { wei: u128 },
    /// The gas price could not be had.
    GasPriceFailed,
}

/// What the engine asks its host to do next.
#[derive(Clone, Copy, Debug, PartialEq, Eq, Structural)]
pub enum EngineAction {
    /// Wait for the next change of either channel.
    Wait,
    /// Fetch the gas price and hand it back.
    QueryGasPrice,
    /// Report the evaluation, then wait.
    Report(Evaluation),
}

/// Reacts to price changes on two venues and reports profitable trades.
pub struct ArbEngine {
    pub total_fee_bps: u32,
    pub dex_gas_used: u64,
    pub state: EngineState,
}

impl ArbEngine {
    /// What `calculate_arbitrage` reports.
    pub open spec fn arbitrage_of(
        &self,
        buy: u64,
        sell: u64,
        direction: ArbDirection,
        gas_price_wei: u128,
    ) -> Option<ArbOpportunity> {
        opportunity_of(
            direction,
            buy,
            sell,
            self.total_fee_bps,
            gas_cost_usd_of(
                gas_price_wei as int,
                self.dex_gas_used as int,
                native_price_of(direction, buy, sell) as int,
            ),
        )
    }

    /// What `check_for_opportunity` reports.
    pub open spec fn evaluation_of(&self, cex: PriceData, dex: PriceData, gas_price_wei: u128) -> Evaluation {
        Evaluation {
            buy_cex: self.arbitrage_of(cex.ask, dex.bid, ArbDirection::BuyCex, gas_price_wei),
            buy_dex: self.arbitrage_of(dex.ask, cex.bid, ArbDirection::BuyDex, gas_price_wei),
        }
    }

    /// The next state and action for an event.
    pub open spec fn step_of(&self, event: EngineEvent) -> (EngineState, EngineAction) {
        match event {
            EngineEvent::Changed { cex, dex } => match (cex, dex) {
                (Some(c), Some(d)) => (
                    EngineState::Evaluating { cex: c, dex: d },
                    EngineAction::QueryGasPrice,
                ),
                _ => (EngineState::Idle, EngineAction::Wait),
            },
            EngineEvent::GasPrice { wei } => match self.state {
                EngineState::Evaluating { cex, dex } => (
                    EngineState::Idle,
                    EngineAction::Report(self.evaluation_of(cex, dex, wei)),
                ),
                EngineState::Idle => (EngineState::Idle, EngineAction::Wait),
            },
            EngineEvent::GasPriceFailed => (EngineState::Idle, EngineAction::Wait),
        }
    }

    /// An idle engine with the fees of both legs and the gas of the pool leg;
    /// fails where the two fees do not add up within `u32`.
    pub fn new(config: &Settings) -> (r: Result<ArbEngine, ConfigError>)
        ensures
            config.cex_fee_bps + config.dex_fee_bps > u32::MAX <==> r is Err,
            r matches Ok(e) ==> e.total_fee_bps == config.cex_fee_bps + config.dex_fee_bps
                && e.dex_gas_used == config.dex_gas_used && e.state == EngineState::Idle,
    {
        match config.cex_fee_bps.checked_add(config.dex_fee_bps) {
            Some(total) => Ok(
                ArbEngine { total_fee_bps: total, dex_gas_used: config.dex_gas_used, state: EngineState::Idle },
            ),
            None => Err(ConfigError::FeesOutOfRange),
        }
    }

    /// Evaluates one direction at the given gas price.
    pub fn calculate_arbitrage(
        &self,
        buy_price: u64,
        sell_price: u64,
        direction: ArbDirection,
        gas_price_wei: u128,
    ) -> (r: Option<ArbOpportunity>)
        ensures
            r == self.arbitrage_of(buy_price, sell_price, direction, gas_price_wei),
    {
        let native_price = match direction {
            ArbDirection::BuyCex => sell_price,
            ArbDirection::BuyDex => buy_price,
        };
        match gas_cost_usd(gas_price_wei, self.dex_gas_used, native_price) {
            Some(gas) => opportunity(direction, buy_price, sell_price, self.total_fee_bps, gas),
            None => {
                let ghost gas = gas_cost_usd_of(
                    gas_price_wei as int,
                    self.dex_gas_used as int,
                    native_price as int,
                );
                assert(net_profit(buy_price as int, sell_price as int, self.total_fee_bps as int, gas) < 0)
                    by (nonlinear_arith)
                    requires
                        gas > u64::MAX,
                        sell_price <= u64::MAX,
                        buy_price >= 0,
                        self.total_fee_bps >= 0,
                ;
                None
            },
        }
    }

    /// Evaluates both directions for the current prices of both venues, with
    /// one gas price for both.
    pub fn check_for_opportunity(&self, cex: PriceData, dex: PriceData, gas_price_wei: u128) -> (r:
        Evaluation)
        ensures
            r == self.evaluation_of(cex, dex, gas_price_wei),
    {
        let buy_cex = self.calculate_arbitrage(cex.ask, dex.bid, ArbDirection::BuyCex, gas_price_wei);
        let buy_dex = self.calculate_arbitrage(dex.ask, cex.bid, ArbDirection::BuyDex, gas_price_wei);
        Evaluation { buy_cex, buy_dex }
    }

    /// Moves the engine on by one event. A change with both venues present
    /// asks for the gas price; the gas price brings the report of the
    /// snapshot that asked for it; a failed query abandons that evaluation.
    pub fn step(&mut self, event: EngineEvent) -> (r: EngineAction)
        ensures
            (final(self).state, r) == old(self).step_of(event),
            final(self).total_fee_bps == old(self).total_fee_bps,
            final(self).dex_gas_used == old(self).dex_gas_used,
    {
        match event {
            EngineEvent::Changed { cex, dex } => match (cex, dex) {
                (Some(c), Some(d)) => {
                    self.state = EngineState::Evaluating { cex: c, dex: d };
                    EngineAction::QueryGasPrice
                },
                _ => {
                    self.state = EngineState::Idle;
                    EngineAction::Wait
                },
            },
            EngineEvent::GasPrice { wei } => match self.state {
                EngineState::Evaluating { cex, dex } => {
                    let report = self.check_for_opportunity(cex, dex, wei);
                    self.state = EngineState::Idle;
                    EngineAction::Report(report)
                },
                EngineState::Idle => EngineAction::Wait,
            },
            EngineEvent::GasPriceFailed => {
                self.state = EngineState::Idle;
                EngineAction::Wait
            },
        }
    }
}

/// The formula does not depend on the direction: the same buy price, sell
/// price, fee and gas cost give the same figures in both directions.
pub proof fn lemma_direction_symmetry(buy: u64, sell: u64, total_fee_bps: u32, gas_usd: int)
    ensures
        opportunity_of(ArbDirection::BuyCex, buy, sell, total_fee_bps, gas_usd) is Some
            <==> opportunity_of(ArbDirection::BuyDex, buy, sell, total_fee_bps, gas_usd) is Some,
        opportunity_of(ArbDirection::BuyCex, buy, sell, total_fee_bps, gas_usd) matches Some(a)
            ==> opportunity_of(ArbDirection::BuyDex, buy, sell, total_fee_bps, gas_usd) == Some(
            ArbOpportunity { direction: ArbDirection::BuyDex, ..a },
        ),
{
}

/// With prices and gas cost fixed, a higher total fee gives a strictly lower
/// net profit (in basis points times the fixed buy price).
pub proof fn lemma_net_decreases_with_fee(buy: int, sell: int, gas_usd: int, fee1: int, fee2: int)
    requires
        buy > 0,
        fee1 < fee2,
    ensures
        net_profit(buy, sell, fee1, gas_usd) > net_profit(buy, sell, fee2, gas_usd),
{
    assert(fee1 * buy < fee2 * buy) by (nonlinear_arith)
        requires
            buy > 0,
            fee1 < fee2,
    ;
}

/// With prices and fees fixed, a higher gas cost gives a strictly lower net
/// profit.
pub proof fn lemma_net_decreases_with_gas(buy: int, sell: int, total_fee_bps: int, gas1: int, gas2: int)
    requires
        gas1 < gas2,
    ensures
        net_profit(buy, sell, total_fee_bps, gas1) > net_profit(buy, sell, total_fee_bps, gas2),
{
}

/// A sell price that does not exceed the buy price is never reported,
/// whatever the fees and the gas.
pub proof fn lemma_no_report_without_spread(
    direction: ArbDirection,
    buy: u64,
    sell: u64,
    total_fee_bps: u32,
    gas_usd: int,
)
    requires
        sell <= buy,
    ensures
        opportunity_of(direction, buy, sell, total_fee_bps, gas_usd) is None,
{
}

} // verus!
