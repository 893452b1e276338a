//! Shared identifiers and small enumerations of the data contracts.
use vstd::prelude::*;

use crate::decimal::Dec;

verus! {

/// Canonical instrument identifier, e.g. `"AAPL@nasdaq.equity"`.
pub type InstrumentId = String;

pub type VenueId = String;

pub type CurrencyCode = String;

pub type EntityId = String;

pub type ListingId = String;

pub type SkuId = String;

pub type ItemId = String;

pub type Address = String;

/// Nanoseconds since the Unix epoch (UTC).
pub type Timestamp = i64;

#[derive(Clone, Copy, Debug, PartialEq, Eq, Structural, Hash)]
pub enum Side {
    Buy,
    Sell,
    Unknown,
}

#[derive(Clone, Copy, Debug, PartialEq, Eq, Structural)]
pub enum SettlementType {
    Cash,
    Physical,
    OnChain,
    /// No settlement.
    NoSettlement,
}

#[derive(Clone, Copy, Debug, PartialEq, Eq, Structural)]
pub enum OptionType {
    Call,
    Put,
}

#[derive(Clone, Copy, Debug, PartialEq, Eq, Structural)]
pub enum ExerciseStyle {
    American,
    European,
}

#[derive(Clone, Copy, Debug, PartialEq, Eq, Structural)]
pub enum PerpType {
    Linear,
    Inverse,
}

#[derive(Clone, Copy, Debug, PartialEq, Eq, Structural)]
pub enum AmmVariant {
    UniswapV2,
    UniswapV3,
    Curve,
    Raydium,
}

#[derive(Clone, Debug)]
pub enum OracleType {
    Centralized,
    Decentralized,
    ChainlinkAggregator,
    Custom(String),
}

#[derive(Clone, Copy, Debug, PartialEq, Eq, Structural)]
pub enum DayCountConvention {
    ActAct,
    Dc30_360,
    ActDc360,
    ActDc365,
}

/// One tier of a maker/taker fee schedule.
#[derive(Clone, Copy, Debug)]
pub struct FeeTier {
    pub min_volume: Dec,
    pub maker_bps: Dec,
    pub taker_bps: Dec,
}

impl FeeTier {
    pub open spec fn wf(self) -> bool {
        self.min_volume.wf() && self.maker_bps.wf() && self.taker_bps.wf()
    }
}

#[derive(Clone, Debug)]
pub struct TokenInfo {
    pub address: Address,
    pub symbol: String,
    pub decimals: u8,
}

/// The price-formation engines A to H.
#[derive(Clone, Copy, Debug, PartialEq, Eq, Structural)]
pub enum EngineType {
    A,
    B,
    C,
    D,
    E,
    F,
    G,
    H,
}

} // verus!
