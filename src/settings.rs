use vstd::prelude::*;

use crate::primitives::Address;

verus! {

/// Settings read once at startup and fixed for the life of the process.
#[derive(Clone, Debug)]
pub struct Settings {
    pub self_addr: Address,
    pub weth_addr: Address,
    pub usdt_addr: Address,
    pub quoter_v2_addr: Address,
    pub pool_addr: Address,
    pub bybit_ticker: String,
    pub gateio_ticker: String,
    /// Fee tier of the pool, as the quoting contract takes it.
    pub dex_fee_tier: u32,
    /// Fee of the exchange leg, in basis points.
    pub cex_fee_bps: u32,
    /// Fee of the pool leg, in basis points.
    pub dex_fee_bps: u32,
    /// Gas units that one swap on the pool uses.
    pub dex_gas_used: u64,
    pub rpc_url: String,
    pub bybit_ws_endpoint: String,
    pub gateio_ws_endpoint: String,
}

/// Settings that cannot be used.
#[derive(Clone, Copy, Debug, PartialEq, Eq, Structural)]
pub enum ConfigError {
    /// The fees of the two legs add up to more than `u32::MAX` basis points.
    FeesOutOfRange,
    /// The pool fee tier does not fit the 24 bits of the quote call.
    FeeTierOutOfRange,
}

} // verus!
