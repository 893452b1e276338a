//! Market events: the required envelope and the payload variants the
//! simulator acts on.
use vstd::prelude::*;

use crate::decimal::Dec;
use crate::types::{EntityId, InstrumentId, Side, Timestamp, VenueId};

verus! {

/// The envelope of every market data event. `ts_event` is the authoritative
/// time for ordering and look-ahead enforcement.
#[derive(Clone, Debug)]
pub struct MarketEvent {
    pub instrument_id: InstrumentId,
    pub entity_id: Option<EntityId>,
    pub venue_id: VenueId,
    /// When the thing happened (nanoseconds UTC).
    pub ts_event: Timestamp,
    /// When a strategy could first know it; defaults to `ts_event`.
    pub ts_available: Option<Timestamp>,
    /// Wall-clock receive time.
    pub ts_recv: Timestamp,
    /// Per-instrument increasing sequence number.
    pub seq: u64,
    pub source_id: Option<String>,
    pub source_version: Option<String>,
    pub payload: MarketPayload,
}

/// Action of an order book delta.
#[derive(Clone, Copy, Debug, PartialEq, Eq, Structural)]
pub enum BookAction {
    Add,
    Modify,
    Delete,
    Clear,
}

#[derive(Clone, Debug)]
pub enum AuctionType {
    Opening,
    Closing,
    Halt,
    Ipo,
    Other(String),
}

#[derive(Clone, Debug)]
pub enum CorporateActionType {
    Dividend { amount: Dec, ex_date: i64 },
    Split { ratio: Dec, ex_date: i64 },
    SpinOff { new_instrument_id: String, ratio: Dec },
    Merger { acquirer_id: String, price: Option<Dec> },
    Delisting { effective_ts: i64 },
    Other(String),
}

#[derive(Clone, Debug)]
pub enum TokenEventType {
    Fork { new_token_symbol: String, ratio: Dec },
    Airdrop { amount: Dec },
    Burn { amount: Dec },
    Mint { amount: Dec },
    Other(String),
}

#[derive(Clone, Debug)]
pub enum TradingSessionType {
    PreMarket,
    Regular,
    AfterHours,
    Overnight,
    Other(String),
}

#[derive(Clone, Debug)]
pub enum TradingStatusKind {
    Open,
    Halted,
    Suspended,
    Closed,
    PreOpen,
    Auction,
    Other(String),
}

#[derive(Clone, Copy, Debug)]
pub struct IVSurfacePoint {
    pub strike: Dec,
    pub expiry_ts: Timestamp,
    pub iv: Dec,
}

#[derive(Clone, Copy, Debug)]
pub struct PoolReserveData {
    pub reserve_0: Dec,
    pub reserve_1: Dec,
    pub sqrt_price_x96: Option<Dec>,
    pub current_tick: Option<i32>,
    pub liquidity: Option<Dec>,
}

/// The payload variants that order-book simulation reads. A variant that is
/// informational for it is carried as `Other`, with the variant's name.
#[derive(Clone, Debug)]
pub enum MarketPayload {
    /// A single reference price mark.
    Mark { price: Dec },
    /// An OHLCV bar.
    Bar {
        open: Dec,
        high: Dec,
        low: Dec,
        close: Dec,
        volume: Dec,
        interval_secs: u64,
        adjusted: bool,
    },
    /// Best bid and offer (L1).
    Quote { bid: Dec, bid_size: Dec, ask: Dec, ask_size: Dec },
    /// Last trade print.
    Trade { price: Dec, size: Dec, aggressor_side: Side, trade_id: Option<String> },
    /// Incremental L2 book update.
    BookDelta { side: Side, price: Dec, new_size: Dec, action: BookAction },
    /// Full L2 book snapshot, levels as (price, size).
    BookSnapshot { bids: Vec<(Dec, Dec)>, asks: Vec<(Dec, Dec)>, depth: u8 },
    /// Per-order (L3) event.
    OrderBookOrderEvent {
        order_id: String,
        action: BookAction,
        side: Side,
        price: Dec,
        size: Dec,
        displayed_size: Dec,
        priority_ts: Timestamp,
        sequence: u64,
    },
    /// Funding rate (perpetuals).
    Funding { rate: Dec, mark_price: Dec, index_price: Dec, next_funding_ts: Timestamp },
    /// Mark price update.
    MarkUpdate { mark_price: Dec, index_price: Dec },
    /// Trading session.
    TradingSession {
        session_type: TradingSessionType,
        open_ts: Timestamp,
        close_ts: Timestamp,
        liquidity_multiplier: Dec,
    },
    /// Trading status change.
    TradingStatus { status: TradingStatusKind, reason: Option<String> },
    /// Auction imbalance.
    AuctionImbalance {
        auction_type: AuctionType,
        paired_qty: Dec,
        imbalance_qty: Dec,
        imbalance_side: Side,
        indicative_price: Dec,
        reference_price: Dec,
    },
    /// Auction result.
    AuctionResult { auction_type: AuctionType, official_price: Dec, matched_volume: Dec },
    /// Corporate action.
    CorporateAction { action_type: CorporateActionType },
    /// Token event.
    TokenEvent { event_type: TokenEventType },
    /// Borrow rate stream.
    BorrowRate { borrow_rate_annualized: Dec, short_availability: Dec, hard_to_borrow: bool },
    /// Dynamic fee schedule update; tiers as (min_volume, maker_bps, taker_bps).
    FeeScheduleUpdate {
        venue_id: String,
        instrument_id: String,
        maker_bps: Dec,
        taker_bps: Dec,
        flat_fee: Option<Dec>,
        tier_rules: Vec<(Dec, Dec, Dec)>,
        effective_ts: Timestamp,
    },
    /// A bar resampled from higher-frequency data.
    DerivedBar {
        open: Dec,
        high: Dec,
        low: Dec,
        close: Dec,
        volume: Dec,
        interval_secs: u64,
        adjusted: bool,
        source_class: String,
        tick_count: u64,
    },
    /// Any other payload class, by name; informational for order-book simulation.
    Other { variant: String },
}

/// Every level of a book side holds well-formed decimals.
pub open spec fn levels_wf(levels: Seq<(Dec, Dec)>) -> bool {
    forall|i: int| 0 <= i < levels.len() ==> (#[trigger] levels[i]).0.wf() && levels[i].1.wf()
}

impl MarketPayload {
    /// Every decimal that simulation reads is well formed.
    pub open spec fn wf(&self) -> bool {
        match self {
            MarketPayload::Mark { price } => price.wf(),
            MarketPayload::Bar { open, high, low, close, volume, .. } => open.wf() && high.wf()
                && low.wf() && close.wf() && volume.wf(),
            MarketPayload::Quote { bid, bid_size, ask, ask_size } => bid.wf() && bid_size.wf()
                && ask.wf() && ask_size.wf(),
            MarketPayload::Trade { price, size, .. } => price.wf() && size.wf(),
            MarketPayload::BookDelta { price, new_size, .. } => price.wf() && new_size.wf(),
            MarketPayload::BookSnapshot { bids, asks, .. } => levels_wf(bids@) && levels_wf(asks@),
            MarketPayload::Funding { rate, mark_price, index_price, .. } => rate.wf()
                && mark_price.wf() && index_price.wf(),
            MarketPayload::MarkUpdate { mark_price, index_price } => mark_price.wf()
                && index_price.wf(),
            MarketPayload::TradingSession { liquidity_multiplier, .. } => liquidity_multiplier.wf(),
            MarketPayload::CorporateAction { action_type } => match action_type {
                CorporateActionType::Dividend { amount, .. } => amount.wf(),
                CorporateActionType::Split { ratio, .. } => ratio.wf(),
                _ => true,
            },
            MarketPayload::BorrowRate { borrow_rate_annualized, .. } => borrow_rate_annualized.wf(),
            MarketPayload::FeeScheduleUpdate { maker_bps, taker_bps, .. } => maker_bps.wf()
                && taker_bps.wf(),
            MarketPayload::DerivedBar { open, high, low, close, volume, .. } => open.wf()
                && high.wf() && low.wf() && close.wf() && volume.wf(),
            _ => true,
        }
    }
}

} // verus!
