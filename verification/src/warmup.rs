//! The warmup gate: strategies act only once simulated time reaches the start.
use vstd::prelude::*;

verus! {

/// One update of a gate that opens at `end`: it is open exactly when the
/// time is at or after `end`, whatever it was before.
pub open spec fn gate_step(end: i64, open: bool, t: i64) -> bool {
    t >= end
}

/// Whether a gate that opens at `end` is open after updates at the times
/// `ts`, in order, from the state `open`.
pub open spec fn open_after(end: i64, open: bool, ts: Seq<i64>) -> bool
    decreases ts.len(),
{
    if ts.len() == 0 {
        open
    } else {
        gate_step(end, open_after(end, open, ts.drop_last()), ts.last())
    }
}

/// A gate that has seen no time is shut; after any sequence of times it is
/// open exactly when the final one is at or after its end.
pub proof fn gate_follows_latest_time(end: i64, ts: Seq<i64>)
    ensures
        open_after(end, false, ts) == (ts.len() > 0 && ts.last() >= end),
{
}

/// Opens once the simulation clock reaches `warmup_end_ts`.
#[derive(Clone, Copy, Debug)]
pub struct WarmupGate {
    warmup_end_ts: i64,
    open: bool,
}

impl WarmupGate {
    pub closed spec fn end_ts(self) -> i64 {
        self.warmup_end_ts
    }

    pub closed spec fn spec_open(self) -> bool {
        self.open
    }

    /// A closed gate that opens at `warmup_end_ts`.
    pub fn new(warmup_end_ts: i64) -> (r: WarmupGate)
        ensures
            r.end_ts() == warmup_end_ts,
            !r.spec_open(),
    {
        WarmupGate { warmup_end_ts, open: false }
    }

    /// Follows the current time: trading is allowed exactly when `current_ts >= warmup_end_ts`.
    pub fn update(&mut self, current_ts: i64)
        ensures
            final(self).end_ts() == old(self).end_ts(),
            final(self).spec_open() == (current_ts >= old(self).end_ts()),
            final(self).spec_open() == gate_step(old(self).end_ts(), old(self).spec_open(), current_ts),
    {
        self.open = current_ts >= self.warmup_end_ts;
    }

    /// Warmup is over and strategies may trade.
    pub fn is_open(&self) -> (r: bool)
        ensures
            r == self.spec_open(),
    {
        self.open
    }

    /// The time from which trading is allowed.
    pub fn warmup_end_ts(&self) -> (r: i64)
        ensures
            r == self.end_ts(),
    {
        self.warmup_end_ts
    }
}

} // verus!
