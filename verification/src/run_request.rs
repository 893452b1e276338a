//! A complete specification of one simulation run.
use vstd::prelude::*;

use crate::decimal::Dec;
use crate::engine::opt_dec_wf;
use crate::instrument::Instrument;
use crate::market_event::MarketEvent;
use crate::types::Timestamp;

verus! {

/// One run: instruments, events, the strategy `S` and optionally an account
/// `A` (a reference account is used otherwise), the time window, the seed, the
/// order latency and an optional taker fee override.
pub struct RunRequest<S, A> {
    /// Identifier of the run, for logging and reproducibility.
    pub request_id: String,
    /// Every instrument that may appear in the events.
    pub instruments: Vec<Instrument>,
    /// The events; sorted by (ts_event, instrument_id, seq) before the run.
    pub events: Vec<MarketEvent>,
    pub strategy: S,
    pub account: Option<A>,
    /// Start of simulation (nanoseconds UTC); earlier events warm up.
    pub time_start: Timestamp,
    /// End of simulation.
    pub time_end: Timestamp,
    /// Start of warmup; `time_start` when absent.
    pub warmup_start: Option<Timestamp>,
    pub seed: u64,
    /// Order submission latency in nanoseconds.
    pub latency_ns: i64,
    /// Taker fee override in basis points.
    pub taker_fee_bps: Option<Dec>,
}

impl<S, A> RunRequest<S, A> {
    /// Every decimal of the instruments, the events and the fee override is
    /// in the representable range.
    pub open spec fn wf(&self) -> bool {
        &&& forall|i: int| 0 <= i < self.instruments@.len() ==> (#[trigger] self.instruments@[i]).wf()
        &&& forall|i: int| 0 <= i < self.events@.len() ==> (#[trigger] self.events@[i]).payload.wf()
        &&& opt_dec_wf(self.taker_fee_bps)
    }
}

} // verus!
