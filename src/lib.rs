//! Detection of price discrepancies between a centralized exchange order book
//! and an on-chain pool, with the state cache and quote logic behind the
//! on-chain side.

pub mod abi;
pub mod arbitrage;
pub mod channel;
pub mod feeds;
pub mod overlay;
pub mod primitives;
pub mod quote;
pub mod settings;
