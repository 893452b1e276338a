//! Instrument definitions: identity, routing and capabilities.
use vstd::prelude::*;

use crate::capability::CapabilityFlags;
use crate::decimal::Dec;
use crate::types::{CurrencyCode, FeeTier, InstrumentId, SettlementType, VenueId};

verus! {

/// The single routing field that selects the engine for an instrument.
#[derive(Clone, Copy, Debug, PartialEq, Eq, Structural, Hash)]
pub enum PriceFormation {
    /// Engine A: order book (stocks, ETFs, CEX crypto, futures, perps, FX).
    Clob,
    /// Engine B: AMM pools.
    Amm,
    /// Engine C: NAV.
    Nav,
    /// Engine D: cash flow / dealer.
    Dealer,
    /// Engine E: derivatives chains.
    Chain,
    /// Engine F: synthetic / OTC.
    Otc,
    /// Engine G: marketplace.
    Marketplace,
    /// Engine H: event resolution.
    Oracle,
}

/// Informational classification; engines never branch on it.
#[derive(Clone, Debug)]
pub enum AssetClass {
    Equity,
    Etf,
    CryptoSpot,
    DexPool,
    Future,
    Perpetual,
    Option,
    Bond,
    Fx,
    ListingAsset,
    Nft,
    PredictionMarket,
    Synthetic,
    Other(String),
}

/// The part of an instrument definition that the simulator reads: identity,
/// routing, capabilities, quote parameters and the maker/taker fee schedule.
#[derive(Clone, Debug)]
pub struct Instrument {
    pub id: InstrumentId,
    pub symbol: String,
    pub exchange: VenueId,
    pub currency: CurrencyCode,
    pub asset_class: AssetClass,
    pub price_formation: PriceFormation,
    pub capabilities: CapabilityFlags,
    pub tick_size: Dec,
    pub lot_size: Dec,
    pub contract_multiplier: Dec,
    pub settlement: SettlementType,
    pub fee_schedule: Option<Vec<FeeTier>>,
}

impl Instrument {
    /// Every fee tier of the schedule holds well-formed decimals.
    pub open spec fn wf(&self) -> bool {
        self.fee_schedule matches Some(s) ==> (forall|i: int| 0 <= i < s.len() ==> (#[trigger] s[i]).wf())
    }
}

} // verus!
