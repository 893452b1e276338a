//! What a strategy sees of the market: the latest observed data per
//! instrument, never anything from the future.
use vstd::prelude::*;

use crate::assoc::{assoc_get, assoc_insert, assoc_set, assoc_set_keeps_others, assoc_set_then_get, assoc_view};
use crate::decimal::Dec;
use crate::market_event::MarketPayload;
use crate::types::{InstrumentId, Timestamp};

verus! {

/// A bar snapshot.
#[derive(Clone, Copy, Debug)]
pub struct BarData {
    pub open: Dec,
    pub high: Dec,
    pub low: Dec,
    pub close: Dec,
    pub volume: Dec,
    pub interval_secs: u64,
    pub adjusted: bool,
    pub ts: Timestamp,
}

/// A best bid/offer snapshot.
#[derive(Clone, Copy, Debug)]
pub struct QuoteData {
    pub bid: Dec,
    pub bid_size: Dec,
    pub ask: Dec,
    pub ask_size: Dec,
    pub ts: Timestamp,
}

/// A trade snapshot.
#[derive(Clone, Copy, Debug)]
pub struct TradeData {
    pub price: Dec,
    pub size: Dec,
    pub ts: Timestamp,
}

/// The latest data per instrument, as of `ts`. Each kind of data is an
/// association list keyed by instrument id (see the `assoc` module) where a
/// `HashMap` would be.
#[derive(Clone, Debug)]
pub struct MarketView {
    pub ts: Timestamp,
    pub bars: Vec<(InstrumentId, BarData)>,
    pub quotes: Vec<(InstrumentId, QuoteData)>,
    pub marks: Vec<(InstrumentId, Dec)>,
    pub last_trades: Vec<(InstrumentId, TradeData)>,
}

/// The view as values.
pub struct ViewModel {
    pub ts: Timestamp,
    pub bars: Seq<(Seq<char>, BarData)>,
    pub quotes: Seq<(Seq<char>, QuoteData)>,
    pub marks: Seq<(Seq<char>, Dec)>,
    pub last_trades: Seq<(Seq<char>, TradeData)>,
}

/// Observing a payload at `ts`: the view's time becomes `ts`; a bar is kept
/// as the instrument's latest bar and its close as its mark; a quote as its
/// latest quote; a trade as its latest trade and its price as its mark; a mark
/// or mark update sets its mark. Other payloads change nothing else.
pub open spec fn view_after(v: ViewModel, id: Seq<char>, ts: Timestamp, p: MarketPayload) -> ViewModel {
    let v1 = ViewModel { ts, ..v };
    match p {
        MarketPayload::Bar { open, high, low, close, volume, interval_secs, adjusted } => ViewModel {
            bars: assoc_set(v1.bars, id, BarData { open, high, low, close, volume, interval_secs, adjusted, ts }),
            marks: assoc_set(v1.marks, id, close),
            ..v1
        },
        MarketPayload::Quote { bid, bid_size, ask, ask_size } => ViewModel {
            quotes: assoc_set(v1.quotes, id, QuoteData { bid, bid_size, ask, ask_size, ts }),
            ..v1
        },
        MarketPayload::Trade { price, size, .. } => ViewModel {
            last_trades: assoc_set(v1.last_trades, id, TradeData { price, size, ts }),
            marks: assoc_set(v1.marks, id, price),
            ..v1
        },
        MarketPayload::Mark { price } => ViewModel { marks: assoc_set(v1.marks, id, price), ..v1 },
        MarketPayload::MarkUpdate { mark_price, .. } => ViewModel { marks: assoc_set(v1.marks, id, mark_price), ..v1 },
        _ => v1,
    }
}

impl MarketView {
    pub open spec fn model(&self) -> ViewModel {
        ViewModel {
            ts: self.ts,
            bars: assoc_view(self.bars@),
            quotes: assoc_view(self.quotes@),
            marks: assoc_view(self.marks@),
            last_trades: assoc_view(self.last_trades@),
        }
    }

    /// An empty view as of `ts`.
    pub fn new(ts: Timestamp) -> (r: MarketView)
        ensures
            r.model() == (ViewModel {
                ts,
                bars: Seq::empty(),
                quotes: Seq::empty(),
                marks: Seq::empty(),
                last_trades: Seq::empty(),
            }),
    {
        let r = MarketView { ts, bars: Vec::new(), quotes: Vec::new(), marks: Vec::new(), last_trades: Vec::new() };
        proof {
            assert(assoc_view(r.bars@) =~= Seq::<(Seq<char>, BarData)>::empty());
            assert(assoc_view(r.quotes@) =~= Seq::<(Seq<char>, QuoteData)>::empty());
            assert(assoc_view(r.marks@) =~= Seq::<(Seq<char>, Dec)>::empty());
            assert(assoc_view(r.last_trades@) =~= Seq::<(Seq<char>, TradeData)>::empty());
        }
        r
    }

    /// Observes a payload of `instrument_id` at `ts`; see [`view_after`].
    pub fn update(&mut self, instrument_id: &InstrumentId, ts: Timestamp, payload: &MarketPayload)
        ensures
            final(self).model() == view_after(old(self).model(), instrument_id@, ts, *payload),
    {
        self.ts = ts;
        match payload {
            MarketPayload::Bar { open, high, low, close, volume, interval_secs, adjusted } => {
                assoc_insert(
                    &mut self.bars,
                    instrument_id,
                    BarData {
                        open: *open,
                        high: *high,
                        low: *low,
                        close: *close,
                        volume: *volume,
                        interval_secs: *interval_secs,
                        adjusted: *adjusted,
                        ts,
                    },
                );
                assoc_insert(&mut self.marks, instrument_id, *close);
            },
            MarketPayload::Quote { bid, bid_size, ask, ask_size } => {
                assoc_insert(
                    &mut self.quotes,
                    instrument_id,
                    QuoteData { bid: *bid, bid_size: *bid_size, ask: *ask, ask_size: *ask_size, ts },
                );
            },
            MarketPayload::Trade { price, size, .. } => {
                assoc_insert(&mut self.last_trades, instrument_id, TradeData { price: *price, size: *size, ts });
                assoc_insert(&mut self.marks, instrument_id, *price);
            },
            MarketPayload::Mark { price } => {
                assoc_insert(&mut self.marks, instrument_id, *price);
            },
            MarketPayload::MarkUpdate { mark_price, .. } => {
                assoc_insert(&mut self.marks, instrument_id, *mark_price);
            },
            _ => {},
        }
    }
}

/// After a bar, the strategy sees it as the instrument's latest bar, its
/// close as the instrument's mark, and the bar's time as the view's time;
/// every other instrument's latest bar and mark are unchanged.
pub proof fn view_shows_latest_bar(
    v: ViewModel,
    id: Seq<char>,
    other: Seq<char>,
    ts: Timestamp,
    open: Dec,
    high: Dec,
    low: Dec,
    close: Dec,
    volume: Dec,
    interval_secs: u64,
    adjusted: bool,
)
    requires
        other != id,
    ensures
        ({
            let w = view_after(v, id, ts, MarketPayload::Bar { open, high, low, close, volume, interval_secs, adjusted });
            &&& w.ts == ts
            &&& assoc_get(w.bars, id) == Some(BarData { open, high, low, close, volume, interval_secs, adjusted, ts })
            &&& assoc_get(w.marks, id) == Some(close)
            &&& assoc_get(w.bars, other) == assoc_get(v.bars, other)
            &&& assoc_get(w.marks, other) == assoc_get(v.marks, other)
        }),
{
    let b = BarData { open, high, low, close, volume, interval_secs, adjusted, ts };
    assoc_set_then_get(v.bars, id, b);
    assoc_set_then_get(v.marks, id, close);
    assoc_set_keeps_others(v.bars, id, other, b);
    assoc_set_keeps_others(v.marks, id, other, close);
}

} // verus!
