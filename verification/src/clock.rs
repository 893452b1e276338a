//! The simulation clock: monotonic nanosecond time.
use vstd::prelude::*;

use crate::manifest::{i64_text, i64_to_string, SimError};

verus! {

/// The error text for a clock moved backwards: `clock went backwards: {new} < {current}`.
pub open spec fn backwards_message(new_ts: i64, current_ts: i64) -> Seq<char> {
    "clock went backwards: "@ + i64_text(new_ts) + " < "@ + i64_text(current_ts)
}

fn format_backwards(new_ts: i64, current_ts: i64) -> (r: String)
    ensures
        r@ == backwards_message(new_ts, current_ts),
{
    let mut s = String::from_str("clock went backwards: ");
    let a = i64_to_string(new_ts);
    s.append(a.as_str());
    s.append(" < ");
    let b = i64_to_string(current_ts);
    s.append(b.as_str());
    s
}

/// The clock's time after advances to the times `ts`, in order, from
/// `start`: an advance to a time not before the clock's moves it there, an
/// earlier one leaves it (see [`SimulationClock::advance`]).
pub open spec fn time_after(start: i64, ts: Seq<i64>) -> i64
    decreases ts.len(),
{
    if ts.len() == 0 {
        start
    } else {
        let now = time_after(start, ts.drop_last());
        if ts.last() < now {
            now
        } else {
            ts.last()
        }
    }
}

/// Time only moves forward: over any sequence of advances, no advance moves
/// the clock back, and the clock ends at the latest of the start and the
/// times asked for.
pub proof fn clock_keeps_the_latest_time(start: i64, ts: Seq<i64>)
    ensures
        forall|i: int| 0 <= i < ts.len() ==> time_after(start, #[trigger] ts.take(i + 1)) >= time_after(start, ts.take(i)),
        time_after(start, ts) >= start,
        forall|i: int| 0 <= i < ts.len() ==> time_after(start, ts) >= #[trigger] ts[i],
        time_after(start, ts) == start || exists|i: int| 0 <= i < ts.len() && time_after(start, ts) == #[trigger] ts[i],
    decreases ts.len(),
{
    assert forall|i: int| 0 <= i < ts.len() implies time_after(start, #[trigger] ts.take(i + 1)) >= time_after(start, ts.take(i)) by {
        assert(ts.take(i + 1).drop_last() =~= ts.take(i));
    }
    if ts.len() > 0 {
        let init = ts.drop_last();
        clock_keeps_the_latest_time(start, init);
        assert forall|i: int| 0 <= i < ts.len() implies time_after(start, ts) >= #[trigger] ts[i] by {
            if i < init.len() {
                assert(ts[i] == init[i]);
            }
        }
        if time_after(start, init) != start && ts.last() < time_after(start, init) {
            let w = choose|i: int| 0 <= i < init.len() && time_after(start, init) == #[trigger] init[i];
            assert(ts[w] == init[w]);
        }
    }
}

/// Monotonic simulation clock: time only moves forward.
#[derive(Clone, Copy, Debug)]
pub struct SimulationClock {
    current_ts: i64,
}

impl SimulationClock {
    /// The current time.
    pub closed spec fn now(self) -> i64 {
        self.current_ts
    }

    /// A clock at `start_ts` (nanoseconds UTC).
    pub fn new(start_ts: i64) -> (r: SimulationClock)
        ensures
            r.now() == start_ts,
    {
        SimulationClock { current_ts: start_ts }
    }

    /// The current simulation time.
    pub fn current_ts(&self) -> (r: i64)
        ensures
            r == self.now(),
    {
        self.current_ts
    }

    /// Moves the clock to `new_ts`; a time before the current one is refused
    /// with a validation error and leaves the clock unchanged.
    pub fn advance(&mut self, new_ts: i64) -> (r: Result<(), SimError>)
        ensures
            new_ts < old(self).now() ==> {
                &&& final(self).now() == old(self).now()
                &&& r matches Err(SimError::ValidationError(m))
                &&& m@ == backwards_message(new_ts, old(self).now())
            },
            new_ts >= old(self).now() ==> r is Ok && final(self).now() == new_ts,
    {
        if new_ts < self.current_ts {
            return Err(SimError::ValidationError(format_backwards(new_ts, self.current_ts)));
        }
        self.current_ts = new_ts;
        Ok(())
    }

    /// An event at `ts_event` may be observed: it is not in the future.
    pub fn is_look_ahead_safe(&self, ts_event: i64) -> (r: bool)
        ensures
            r == (ts_event <= self.now()),
    {
        ts_event <= self.current_ts
    }
}

} // verus!
