//! The event loop of a run, and what a completed run returns given the
//! answers of the strategy and the account.
use vstd::prelude::*;

use crate::decimal::{Dec, Overflow};
use crate::engine::{opt_dec_wf, AccountOp};
use crate::event_stream::{at_or_before, lemma_sorted_early, lemma_sorted_members, stably_sorted, stream_in_time_order, EventStream};
use crate::extensions::SessionState;
use crate::instrument::Instrument;
use crate::market_event::MarketEvent;
use crate::metrics::{compute_metrics, spec_metrics, MetricsSummary};
use crate::ports::{lemma_shift_compose, lemma_shift_none, shifted, Account};
use crate::rng::ScopedRng;
use crate::market_event::MarketPayload;
use crate::market_view::BarData;
use crate::single_run::{
    apply_ops, clock_after, initial_model, observe_step, observed_session, record_views, reversed, route_step,
    session_ok, settle_step, RunModel, RunResult, RunState,
};
use crate::steps::{fold_steps, lemma_fold_next, lemma_fold_start};
use crate::strategy::Strategy;
use crate::trade::{Order, Position, TradeRecord};
use crate::types::{InstrumentId, Timestamp};

verus! {

/// The scalar parameters of a run.
pub struct RunWindow {
    pub time_start: Timestamp,
    pub time_end: Timestamp,
    pub warmup_start: Option<Timestamp>,
    pub seed: u64,
    pub latency_ns: i64,
    pub taker_fee_bps: Option<Dec>,
}

/// What the strategy is shown for an event: a bar of an instrument with a
/// venue, once trading is allowed, as bar data stamped with the event time;
/// nothing otherwise (derived bars and other payloads included).
pub open spec fn spec_strategy_bar(handled: bool, trading: bool, ev: MarketEvent) -> Option<BarData> {
    if handled && trading {
        match ev.payload {
            MarketPayload::Bar { open, high, low, close, volume, interval_secs, adjusted } => Some(
                BarData { open, high, low, close, volume, interval_secs, adjusted, ts: ev.ts_event },
            ),
            _ => None,
        }
    } else {
        None
    }
}

/// The bar the strategy is shown for an event; see [`spec_strategy_bar`].
pub fn bar_for_strategy(handled: bool, trading: bool, ev: &MarketEvent) -> (r: Option<BarData>)
    ensures
        r == spec_strategy_bar(handled, trading, *ev),
{
    if !(handled && trading) {
        return None;
    }
    match &ev.payload {
        MarketPayload::Bar { open, high, low, close, volume, interval_secs, adjusted } => Some(
            BarData {
                open: *open,
                high: *high,
                low: *low,
                close: *close,
                volume: *volume,
                interval_secs: *interval_secs,
                adjusted: *adjusted,
                ts: ev.ts_event,
            },
        ),
        _ => None,
    }
}

/// One event of a run with what the outside world answered for it: the
/// session state its venue's engine took, and the orders the strategy
/// returned (none when the strategy was not asked).
pub struct Round {
    pub ev: MarketEvent,
    pub session: SessionState,
    pub orders: Seq<Order>,
}

/// Routing one order, as a step.
pub open spec fn route_fn() -> spec_fn(RunModel, Order) -> Result<RunModel, Overflow> {
    |s: RunModel, o: Order|
        match route_step(s, o) {
            Ok((s2, _)) => Ok(s2),
            Err(e) => Err(e),
        }
}

/// A round: the event is observed, then the strategy's orders are routed in turn.
pub open spec fn round_step(s: RunModel, r: Round) -> Result<RunModel, Overflow> {
    match observe_step(s, r.ev, r.session) {
        Ok((s1, _, _)) => fold_steps(r.orders, s1, route_fn()),
        Err(e) => Err(e),
    }
}

/// A round, as a step.
pub open spec fn round_fn() -> spec_fn(RunModel, Round) -> Result<RunModel, Overflow> {
    |s: RunModel, r: Round| round_step(s, r)
}

/// What the outside world answered in a round is possible: the session is
/// one the venue's engine may take, and the strategy answered only when it was
/// shown a bar (see [`spec_strategy_bar`]).
pub open spec fn round_ok(s: RunModel, r: Round) -> bool {
    &&& session_ok(s, r.ev, r.session)
    &&& match observe_step(s, r.ev, r.session) {
        Ok((s1, handled, _)) => spec_strategy_bar(handled, s1.trading, r.ev) is None ==> r.orders.len() == 0,
        Err(_) => true,
    }
}

/// Every round of a run is possible in the state it starts from.
pub open spec fn rounds_ok(s0: RunModel, rs: Seq<Round>) -> bool {
    forall|k: int|
        0 <= k < rs.len() ==> (fold_steps(rs.take(k), s0, round_fn()) matches Ok(sk) ==> round_ok(sk, #[trigger] rs[k]))
}

/// Settling the first `ps.len()` venues in table order, venue `i` against
/// the positions `ps[i]` the account reported.
pub open spec fn settle_all(s: RunModel, ps: Seq<Seq<(InstrumentId, Position)>>) -> Result<RunModel, Overflow>
    decreases ps.len(),
{
    if ps.len() == 0 {
        Ok(s)
    } else {
        match settle_all(s, ps.drop_last()) {
            Ok(s1) => match settle_step(s1, ps.len() - 1, ps.last()) {
                Ok((s2, _)) => Ok(s2),
                Err(e) => Err(e),
            },
            Err(e) => Err(e),
        }
    }
}

/// A whole run: the rounds in order, then the clock moves to the end time
/// and every venue is settled in table order.
pub open spec fn run_model(s0: RunModel, rs: Seq<Round>, time_end: Timestamp, ps: Seq<Seq<(InstrumentId, Position)>>) -> Result<
    RunModel,
    Overflow,
> {
    match fold_steps(rs, s0, round_fn()) {
        Ok(s1) => settle_all(RunModel { now: clock_after(s1.now, time_end), ..s1 }, ps),
        Err(e) => Err(e),
    }
}

/// The rounds are the sorted events up to the end time, in order: each is
/// at or before the end, and the first event left out, if any, is after it.
pub open spec fn rounds_cover(rs: Seq<Round>, sorted: Seq<MarketEvent>, time_end: Timestamp) -> bool {
    &&& rs.len() <= sorted.len()
    &&& forall|j: int| 0 <= j < rs.len() ==> (#[trigger] rs[j]).ev == sorted[j] && sorted[j].ts_event <= time_end
    &&& rs.len() < sorted.len() ==> sorted[rs.len() as int].ts_event > time_end
}

/// What a completed run returns, given the answers of the strategy and the
/// account: the events are stably sorted; the rounds cover them up to the end
/// time with possible answers; settlement used one positions report per venue;
/// the fills and records are those of the run model; the metrics are those of
/// the records and fills with the account's final equity.
#[verifier::opaque]
pub open spec fn run_result_ok(
    res: RunResult,
    events: Seq<MarketEvent>,
    s0: RunModel,
    time_end: Timestamp,
    sorted: Seq<MarketEvent>,
    rs: Seq<Round>,
    ps: Seq<Seq<(InstrumentId, Position)>>,
) -> bool {
    &&& stably_sorted(sorted, events)
    &&& rounds_cover(rs, sorted, time_end)
    &&& rounds_ok(s0, rs)
    &&& ps.len() == s0.insts.len()
    &&& run_model(s0, rs, time_end, ps) matches Ok(fin) && res.fills@ == fin.fills && record_views(res.trade_records@)
        == fin.records
    &&& spec_metrics(res.trade_records@, res.fills@.len(), res.metrics.final_equity) == Ok::<MetricsSummary, Overflow>(
        res.metrics,
    )
    &&& res.metrics.final_equity is Some
}

/// Some fill report among `calls` is refused by the account `a0`, after
/// the calls that come before it.
pub open spec fn refused_fill_in<B: Account>(a0: B, calls: Seq<AccountOp>) -> bool {
    exists|j: int|
        0 <= j < calls.len() && #[trigger] calls[j] is ReportFill && a0.fill_refused_after(calls.take(j), calls[j]->ReportFill_0)
}

/// In the state `s`, some possible round of the event `ev` asks for a call
/// that the account `a0` refuses.
#[verifier::opaque]
pub open spec fn round_refused<B: Account>(a0: B, s: RunModel, ev: MarketEvent) -> bool {
    exists|g: Round|
        g.ev == ev && #[trigger] round_ok(s, g) && (round_step(s, g) matches Ok(s2) && refused_fill_in(a0, s2.calls))
}

/// Settling the first venues of the state `s`, against some positions
/// reported, asks for a fill report the account `a0` refuses, or leaves the
/// account unable to report its positions for the next venue.
#[verifier::opaque]
pub open spec fn settlement_refused<B: Account>(a0: B, s: RunModel) -> bool {
    exists|ps: Seq<Seq<(InstrumentId, Position)>>|
        ps.len() <= s.insts.len() && (#[trigger] settle_all(s, ps) matches Ok(s2) && (refused_fill_in(a0, s2.calls) || (ps.len()
            < s.insts.len() && a0.positions_fail_after(s2.calls))))
}

/// The account `a0` refuses a call of a run, given the answers of the
/// strategy and the account: the events are stably sorted; the rounds played
/// are the sorted events up to the end time, in order, with possible answers,
/// none overflowing; and a fill report of the rounds is refused, or, once
/// every event up to the end time is played and the first `ps.len()` venues
/// are settled without overflow, a fill report is refused, the positions
/// for the next venue cannot be reported, or, every venue settled, the
/// equity cannot be reported.
#[verifier::opaque]
pub open spec fn account_refuses_with<B: Account>(
    a0: B,
    events: Seq<MarketEvent>,
    s0: RunModel,
    time_end: Timestamp,
    sorted: Seq<MarketEvent>,
    rs: Seq<Round>,
    ps: Seq<Seq<(InstrumentId, Position)>>,
) -> bool {
    &&& stably_sorted(sorted, events)
    &&& rs.len() <= sorted.len()
    &&& forall|j: int| 0 <= j < rs.len() ==> (#[trigger] rs[j]).ev == sorted[j] && sorted[j].ts_event <= time_end
    &&& rounds_ok(s0, rs)
    &&& match fold_steps(rs, s0, round_fn()) {
        Err(_) => false,
        Ok(s1) => refused_fill_in(a0, s1.calls) || {
            &&& rounds_cover(rs, sorted, time_end)
            &&& ps.len() <= s0.insts.len()
            &&& match settle_all(RunModel { now: clock_after(s1.now, time_end), ..s1 }, ps) {
                Err(_) => false,
                Ok(s2) => {
                    ||| refused_fill_in(a0, s2.calls)
                    ||| ps.len() < s0.insts.len() && a0.positions_fail_after(s2.calls)
                    ||| ps.len() == s0.insts.len() && a0.equity_after(s2.calls) is Err
                },
            }
        },
    }
}

/// A refused fill report among calls made after `cb` is a refused fill
/// report of the whole.
proof fn lemma_refused_extend<B: Account>(a_mid: B, a0: B, cb: Seq<AccountOp>, ops: Seq<AccountOp>, j: int)
    requires
        account_after(a_mid, a0, cb),
        0 <= j < ops.len(),
        ops[j] is ReportFill,
        a_mid.fill_refused_after(ops.take(j), ops[j]->ReportFill_0),
    ensures
        refused_fill_in(a0, cb + ops),
{
    reveal(account_after);
    let all = cb + ops;
    let k = cb.len() + j;
    assert(all[k] == ops[j]);
    assert(cb + ops.take(j) =~= all.take(k));
    assert(a_mid.fill_refused_after(ops.take(j), ops[j]->ReportFill_0) == a0.fill_refused_after(
        cb + ops.take(j),
        ops[j]->ReportFill_0,
    ));
}

/// A round of the event `ev` that overflows, for some possible answers of the
/// strategy and the account, in the state `s`.
#[verifier::opaque]
pub open spec fn round_overflows(s: RunModel, ev: MarketEvent) -> bool {
    exists|g: Round| g.ev == ev && #[trigger] round_ok(s, g) && round_step(s, g) is Err
}

/// Settling the first venues of the state `s`, against some positions the
/// account reported, overflows.
#[verifier::opaque]
pub open spec fn settlement_overflows(s: RunModel) -> bool {
    exists|ps: Seq<Seq<(InstrumentId, Position)>>| ps.len() <= s.insts.len() && #[trigger] settle_all(s, ps) is Err
}

/// A run that ends in an overflow of the run model, given the answers of the
/// strategy and the account: the events are stably sorted; the rounds played
/// are the sorted events up to the end time, in order, with possible answers,
/// the last one cut short where it overflowed. If no round overflowed, the
/// rounds cover every event up to the end time, and either settling the first
/// `ps.len()` venues, venue `i` against the positions `ps[i]` the account
/// reported, overflows, or, every venue settled, the metrics of the records
/// overflow.
#[verifier::opaque]
pub open spec fn run_overflows_with(
    events: Seq<MarketEvent>,
    s0: RunModel,
    time_end: Timestamp,
    sorted: Seq<MarketEvent>,
    rs: Seq<Round>,
    ps: Seq<Seq<(InstrumentId, Position)>>,
) -> bool {
    &&& stably_sorted(sorted, events)
    &&& rs.len() <= sorted.len()
    &&& forall|j: int| 0 <= j < rs.len() ==> (#[trigger] rs[j]).ev == sorted[j] && sorted[j].ts_event <= time_end
    &&& rounds_ok(s0, rs)
    &&& match fold_steps(rs, s0, round_fn()) {
        Err(_) => true,
        Ok(s1) => {
            &&& rounds_cover(rs, sorted, time_end)
            &&& ps.len() <= s0.insts.len()
            &&& match settle_all(RunModel { now: clock_after(s1.now, time_end), ..s1 }, ps) {
                Err(_) => true,
                Ok(fin) => ps.len() == s0.insts.len() && exists|trs: Seq<TradeRecord>|
                    record_views(trs) == fin.records && #[trigger] spec_metrics(trs, fin.fills.len(), None) is Err,
            }
        },
    }
}

/// A round that overflows after rounds that did not ends the run in an overflow.
proof fn lemma_round_overflows(
    events: Seq<MarketEvent>,
    s0: RunModel,
    time_end: Timestamp,
    sorted: Seq<MarketEvent>,
    rs: Seq<Round>,
    sk: RunModel,
) -> (next: Seq<Round>)
    requires
        stably_sorted(sorted, events),
        rs.len() < sorted.len(),
        forall|j: int| 0 <= j < rs.len() ==> (#[trigger] rs[j]).ev == sorted[j] && sorted[j].ts_event <= time_end,
        sorted[rs.len() as int].ts_event <= time_end,
        rounds_ok(s0, rs),
        fold_steps(rs, s0, round_fn()) == Ok::<RunModel, Overflow>(sk),
        round_overflows(sk, sorted[rs.len() as int]),
    ensures
        next.drop_last() == rs,
        run_overflows_with(events, s0, time_end, sorted, next, Seq::empty()),
{
    reveal(round_overflows);
    reveal(run_overflows_with);
    let g = choose|g: Round| g.ev == sorted[rs.len() as int] && #[trigger] round_ok(sk, g) && round_step(sk, g) is Err;
    let next = rs.push(g);
    lemma_fold_next(next, s0, round_fn(), rs.len() as int);
    assert(next.take(rs.len() as int) =~= rs);
    assert(next.take(next.len() as int) =~= next);
    assert forall|k: int| 0 <= k < next.len() implies (fold_steps(next.take(k), s0, round_fn()) matches Ok(sj) ==> round_ok(
        sj,
        #[trigger] next[k],
    )) by {
        if k < rs.len() {
            assert(next.take(k) =~= rs.take(k));
            assert(next[k] == rs[k]);
        } else {
            assert(next.take(k) =~= rs);
        }
    }
    assert(run_overflows_with(events, s0, time_end, sorted, next, Seq::empty()));
    assert(next.drop_last() =~= rs);
    next
}

/// A round with a refused call after rounds that did not overflow is a run
/// in which the account refuses a call.
proof fn lemma_round_refused<B: Account>(
    a0: B,
    events: Seq<MarketEvent>,
    s0: RunModel,
    time_end: Timestamp,
    sorted: Seq<MarketEvent>,
    rs: Seq<Round>,
    sk: RunModel,
) -> (next: Seq<Round>)
    requires
        stably_sorted(sorted, events),
        rs.len() < sorted.len(),
        forall|j: int| 0 <= j < rs.len() ==> (#[trigger] rs[j]).ev == sorted[j] && sorted[j].ts_event <= time_end,
        sorted[rs.len() as int].ts_event <= time_end,
        rounds_ok(s0, rs),
        fold_steps(rs, s0, round_fn()) == Ok::<RunModel, Overflow>(sk),
        round_refused(a0, sk, sorted[rs.len() as int]),
    ensures
        next.drop_last() == rs,
        account_refuses_with(a0, events, s0, time_end, sorted, next, Seq::empty()),
{
    reveal(round_refused);
    reveal(account_refuses_with);
    let g = choose|g: Round|
        g.ev == sorted[rs.len() as int] && #[trigger] round_ok(sk, g) && (round_step(sk, g) matches Ok(s2) && refused_fill_in(a0, s2.calls));
    let next = rs.push(g);
    lemma_fold_next(next, s0, round_fn(), rs.len() as int);
    assert(next.take(rs.len() as int) =~= rs);
    assert(next.take(next.len() as int) =~= next);
    assert forall|k: int| 0 <= k < next.len() implies (fold_steps(next.take(k), s0, round_fn()) matches Ok(sj) ==> round_ok(
        sj,
        #[trigger] next[k],
    )) by {
        if k < rs.len() {
            assert(next.take(k) =~= rs.take(k));
            assert(next[k] == rs[k]);
        } else {
            assert(next.take(k) =~= rs);
        }
    }
    assert(account_refuses_with(a0, events, s0, time_end, sorted, next, Seq::empty()));
    assert(next.drop_last() =~= rs);
    next
}

/// A refused call in the settlement after every round is a run in which the
/// account refuses a call.
proof fn lemma_settle_refused<B: Account>(
    a0: B,
    events: Seq<MarketEvent>,
    s0: RunModel,
    time_end: Timestamp,
    sorted: Seq<MarketEvent>,
    rs: Seq<Round>,
    s_end: RunModel,
) -> (ps: Seq<Seq<(InstrumentId, Position)>>)
    requires
        stably_sorted(sorted, events),
        rounds_cover(rs, sorted, time_end),
        rounds_ok(s0, rs),
        fold_steps(rs, s0, round_fn()) == Ok::<RunModel, Overflow>(s_end),
        s_end.insts == s0.insts,
        settlement_refused(a0, RunModel { now: clock_after(s_end.now, time_end), ..s_end }),
    ensures
        account_refuses_with(a0, events, s0, time_end, sorted, rs, ps),
{
    reveal(settlement_refused);
    reveal(account_refuses_with);
    let s_adv = RunModel { now: clock_after(s_end.now, time_end), ..s_end };
    let ps = choose|ps: Seq<Seq<(InstrumentId, Position)>>|
        ps.len() <= s_adv.insts.len() && (#[trigger] settle_all(s_adv, ps) matches Ok(s2) && (refused_fill_in(a0, s2.calls) || (ps.len()
            < s_adv.insts.len() && a0.positions_fail_after(s2.calls))));
    assert(account_refuses_with(a0, events, s0, time_end, sorted, rs, ps));
    ps
}

/// An account that cannot report its equity after a complete settlement
/// refuses a call of the run.
proof fn lemma_equity_refused<B: Account>(
    a0: B,
    events: Seq<MarketEvent>,
    s0: RunModel,
    time_end: Timestamp,
    sorted: Seq<MarketEvent>,
    rs: Seq<Round>,
    s_end: RunModel,
    ps: Seq<Seq<(InstrumentId, Position)>>,
    fin: RunModel,
)
    requires
        stably_sorted(sorted, events),
        rounds_cover(rs, sorted, time_end),
        rounds_ok(s0, rs),
        fold_steps(rs, s0, round_fn()) == Ok::<RunModel, Overflow>(s_end),
        ps.len() == s0.insts.len(),
        settle_all(RunModel { now: clock_after(s_end.now, time_end), ..s_end }, ps) == Ok::<RunModel, Overflow>(fin),
        a0.equity_after(fin.calls) is Err,
    ensures
        account_refuses_with(a0, events, s0, time_end, sorted, rs, ps),
{
    reveal(account_refuses_with);
    assert(account_refuses_with(a0, events, s0, time_end, sorted, rs, ps));
}

/// A settlement that overflows after every round ends the run in an overflow.
proof fn lemma_settle_overflows(
    events: Seq<MarketEvent>,
    s0: RunModel,
    time_end: Timestamp,
    sorted: Seq<MarketEvent>,
    rs: Seq<Round>,
    s_end: RunModel,
) -> (ps: Seq<Seq<(InstrumentId, Position)>>)
    requires
        stably_sorted(sorted, events),
        rounds_cover(rs, sorted, time_end),
        rounds_ok(s0, rs),
        fold_steps(rs, s0, round_fn()) == Ok::<RunModel, Overflow>(s_end),
        s_end.insts == s0.insts,
        settlement_overflows(RunModel { now: clock_after(s_end.now, time_end), ..s_end }),
    ensures
        run_overflows_with(events, s0, time_end, sorted, rs, ps),
{
    reveal(settlement_overflows);
    reveal(run_overflows_with);
    let s_adv = RunModel { now: clock_after(s_end.now, time_end), ..s_end };
    let ps = choose|ps: Seq<Seq<(InstrumentId, Position)>>| ps.len() <= s_adv.insts.len() && #[trigger] settle_all(s_adv, ps) is Err;
    assert(run_overflows_with(events, s0, time_end, sorted, rs, ps));
    ps
}

/// Metrics that overflow after a complete settlement end the run in an overflow.
proof fn lemma_metrics_overflow(
    events: Seq<MarketEvent>,
    s0: RunModel,
    time_end: Timestamp,
    sorted: Seq<MarketEvent>,
    rs: Seq<Round>,
    s_end: RunModel,
    ps: Seq<Seq<(InstrumentId, Position)>>,
    fin: RunModel,
    trs: Seq<TradeRecord>,
)
    requires
        stably_sorted(sorted, events),
        rounds_cover(rs, sorted, time_end),
        rounds_ok(s0, rs),
        fold_steps(rs, s0, round_fn()) == Ok::<RunModel, Overflow>(s_end),
        ps.len() == s0.insts.len(),
        settle_all(RunModel { now: clock_after(s_end.now, time_end), ..s_end }, ps) == Ok::<RunModel, Overflow>(fin),
        record_views(trs) == fin.records,
        spec_metrics(trs, fin.fills.len(), None) is Err,
    ensures
        run_overflows_with(events, s0, time_end, sorted, rs, ps),
{
    reveal(run_overflows_with);
    assert(run_overflows_with(events, s0, time_end, sorted, rs, ps));
}

/// The account `a` is the account `a0` after the calls `calls`: it has
/// received them, in order, and answers as `a0` would after them.
#[verifier::opaque]
pub open spec fn account_after<B: Account>(a: B, a0: B, calls: Seq<AccountOp>) -> bool {
    &&& a.received() == a0.received() + calls
    &&& shifted(a, a0, calls)
}

/// Making the calls `ops` extends the calls the account is after.
proof fn lemma_account_after_ops<B: Account>(a_mid: B, a_new: B, a0: B, cb: Seq<AccountOp>, ops: Seq<AccountOp>)
    requires
        account_after(a_mid, a0, cb),
        a_new.received() == a_mid.received() + ops,
        shifted(a_new, a_mid, ops),
    ensures
        account_after(a_new, a0, cb + ops),
{
    reveal(account_after);
    assert(a0.received() + cb + ops =~= a0.received() + (cb + ops));
    lemma_shift_compose(a_new, a_mid, a0, cb, ops);
}

/// An account is itself after no calls.
proof fn lemma_account_after_start<B: Account>(a: B)
    ensures
        account_after(a, a, Seq::empty()),
{
    reveal(account_after);
    assert(a.received() + Seq::<AccountOp>::empty() =~= a.received());
    lemma_shift_none(a);
}

/// What the account after the calls answers now is what `a0` answers after them.
proof fn lemma_account_after_now<B: Account>(a: B, a0: B, calls: Seq<AccountOp>)
    requires
        account_after(a, a0, calls),
    ensures
        a.equity_after(Seq::empty()) == a0.equity_after(calls),
        a.positions_fail_after(Seq::empty()) == a0.positions_fail_after(calls),
{
    reveal(account_after);
    assert(calls + Seq::<AccountOp>::empty() =~= calls);
    assert(a.equity_after(Seq::empty()) == a0.equity_after(calls + Seq::<AccountOp>::empty()));
    assert(a.positions_fail_after(Seq::empty()) == a0.positions_fail_after(calls + Seq::<AccountOp>::empty()));
}

/// The account calls of a completed run (none for a run that overflows).
pub open spec fn run_calls(s0: RunModel, rs: Seq<Round>, time_end: Timestamp, ps: Seq<Seq<(InstrumentId, Position)>>) -> Seq<
    AccountOp,
> {
    match run_model(s0, rs, time_end, ps) {
        Ok(fin) => fin.calls,
        Err(_) => Seq::empty(),
    }
}

/// What a completed run did with the account `a0`: the account received
/// every call of the run, in order (see [`account_after`]), and the final
/// equity reported is the equity `a0` shows after those calls.
pub open spec fn run_account_ok<B: Account>(res: RunResult, a0: B, calls: Seq<AccountOp>) -> bool {
    &&& exists|a_end: B| #[trigger] account_after(a_end, a0, calls)
    &&& a0.equity_after(calls) matches Ok(e) && res.metrics.final_equity == Some(e)
}

/// Runs are deterministic: two runs with the same events, the same start and
/// the same answers of the strategy and the account give the same fills and
/// the same records.
pub proof fn runs_with_same_answers_agree(
    res1: RunResult,
    res2: RunResult,
    events: Seq<MarketEvent>,
    s0: RunModel,
    time_end: Timestamp,
    sorted: Seq<MarketEvent>,
    rs: Seq<Round>,
    ps: Seq<Seq<(InstrumentId, Position)>>,
)
    requires
        run_result_ok(res1, events, s0, time_end, sorted, rs, ps),
        run_result_ok(res2, events, s0, time_end, sorted, rs, ps),
    ensures
        res1.fills@ == res2.fills@,
        record_views(res1.trade_records@) == record_views(res2.trade_records@),
{
    reveal(run_result_ok);
}

/// A run plays exactly the events up to its end time: every round's event is
/// at or before the end time, and every sorted event left unplayed is after
/// it, so events after the end time change nothing.
pub proof fn later_events_are_not_played(
    res: RunResult,
    events: Seq<MarketEvent>,
    s0: RunModel,
    time_end: Timestamp,
    sorted: Seq<MarketEvent>,
    rs: Seq<Round>,
    ps: Seq<Seq<(InstrumentId, Position)>>,
)
    requires
        run_result_ok(res, events, s0, time_end, sorted, rs, ps),
    ensures
        forall|j: int| 0 <= j < rs.len() ==> (#[trigger] rs[j]).ev.ts_event <= time_end,
        forall|j: int| rs.len() <= j < sorted.len() ==> (#[trigger] sorted[j]).ts_event > time_end,
{
    reveal(run_result_ok);
    assert forall|j: int| rs.len() <= j < sorted.len() implies (#[trigger] sorted[j]).ts_event > time_end by {
        if j > rs.len() {
            stream_in_time_order(sorted, rs.len() as int, j);
        }
    }
}

/// Events after the end time change nothing: with the same answers of the
/// strategy and the account, a run's result is also the result of the same
/// run over only the events at or before its end time.
pub proof fn later_events_change_nothing(
    res: RunResult,
    events: Seq<MarketEvent>,
    s0: RunModel,
    time_end: Timestamp,
    sorted: Seq<MarketEvent>,
    rs: Seq<Round>,
    ps: Seq<Seq<(InstrumentId, Position)>>,
)
    requires
        run_result_ok(res, events, s0, time_end, sorted, rs, ps),
    ensures
        run_result_ok(res, events.filter(at_or_before(time_end)), s0, time_end, sorted.take(rs.len() as int), rs, ps),
{
    later_events_are_not_played(res, events, s0, time_end, sorted, rs, ps);
    reveal(run_result_ok);
    lemma_sorted_early(sorted, events, time_end, rs.len() as int);
    let early = sorted.take(rs.len() as int);
    assert forall|j: int| 0 <= j < rs.len() implies (#[trigger] rs[j]).ev == early[j] && early[j].ts_event <= time_end by {
        assert(early[j] == sorted[j]);
    }
}

/// Plays one round: observes the event, makes the account calls it asks
/// for, and routes the orders of the strategy when it is shown a bar, making
/// their account calls in turn. Returns the round as it was played.
fn play_round<S: Strategy, B: Account>(
    core: &mut RunState,
    ev: &MarketEvent,
    strategy: &mut S,
    account: &mut B,
    Ghost(a0): Ghost<B>,
) -> (r: Result<Ghost<Round>, Overflow>)
    requires
        old(core).wf(),
        ev.payload.wf(),
        account_after(*old(account), a0, old(core).model().calls),
    ensures
        r is Ok ==> account_after(*final(account), a0, final(core).model().calls),
        r matches Ok(g) ==> {
            &&& final(core).wf()
            &&& final(core).model().insts == old(core).model().insts
            &&& g@.ev == *ev
            &&& round_ok(old(core).model(), g@)
            &&& round_step(old(core).model(), g@) == Ok::<RunModel, Overflow>(final(core).model())
        },
        r is Err ==> round_overflows(old(core).model(), *ev) || round_refused(a0, old(core).model(), *ev),
{
    let ghost sb = core.model();
    let (handled, ops) = match core.observe(ev) {
        Ok(x) => x,
        Err(e) => {
            proof {
                let g = Round { ev: *ev, session: observed_session(sb, core.model(), *ev), orders: Seq::empty() };
                assert(round_ok(sb, g));
                assert(round_step(sb, g) is Err);
                reveal(round_overflows);
            }
            return Err(e);
        },
    };
    let ghost sess = observed_session(sb, core.model(), *ev);
    let ghost s1 = core.model();
    let ghost am = *account;
    match apply_ops(account, &ops) {
        Ok(()) => {},
        Err(e) => {
            proof {
                let j = choose|j: int|
                    0 <= j < ops@.len() && #[trigger] ops@[j] is ReportFill && account.received() == am.received() + ops@.take(j + 1)
                        && am.fill_refused_after(ops@.take(j), ops@[j]->ReportFill_0);
                lemma_refused_extend(am, a0, sb.calls, ops@, j);
                let g = Round { ev: *ev, session: sess, orders: Seq::empty() };
                assert(round_ok(sb, g));
                assert(round_step(sb, g) == Ok::<RunModel, Overflow>(s1));
                reveal(round_refused);
            }
            return Err(e);
        },
    }
    proof {
        lemma_account_after_ops(am, *account, a0, sb.calls, ops@);
    }
    let ghost mut routed: Seq<Order> = Seq::empty();
    proof {
        lemma_fold_start(routed, s1, route_fn());
    }
    if let Some(bar) = bar_for_strategy(handled, core.trading, ev) {
        let orders = strategy.on_bar(&ev.instrument_id, &bar, &core.view, &*account);
        let ghost all = orders@;
        let n = orders.len();
        let mut pending = reversed(orders);
        while pending.len() > 0
            invariant
                core.wf(),
                all.len() == n,
                pending@.len() + routed.len() == n,
                forall|q: int| 0 <= q < pending@.len() ==> #[trigger] pending@[q] == all[n - 1 - q],
                routed == all.take(routed.len() as int),
                fold_steps(routed, s1, route_fn()) == Ok::<RunModel, Overflow>(core.model()),
                core.model().insts == s1.insts,
                sb == old(core).model(),
                session_ok(sb, *ev, sess),
                observe_step(sb, *ev, sess) matches Ok((x, h, _)) && x == s1 && h == handled,
                spec_strategy_bar(handled, s1.trading, *ev) is Some,
                account_after(*account, a0, core.model().calls),
            decreases pending.len(),
        {
            let order = pending.pop().unwrap();
            proof {
                assert(order == all[routed.len() as int]);
            }
            let ghost sc = core.model();
            let ops = match core.route(order) {
                Ok(o) => o,
                Err(e) => {
                    proof {
                        let next = routed.push(order);
                        assert(next.drop_last() =~= routed);
                        let g = Round { ev: *ev, session: sess, orders: next };
                        assert(fold_steps(next, s1, route_fn()) is Err);
                        assert(round_step(sb, g) is Err);
                        assert(round_ok(sb, g));
                        reveal(round_overflows);
                    }
                    return Err(e);
                },
            };
            let ghost am = *account;
            match apply_ops(account, &ops) {
                Ok(()) => {},
                Err(e) => {
                    proof {
                        let j = choose|j: int|
                            0 <= j < ops@.len() && #[trigger] ops@[j] is ReportFill && account.received() == am.received()
                                + ops@.take(j + 1) && am.fill_refused_after(ops@.take(j), ops@[j]->ReportFill_0);
                        lemma_refused_extend(am, a0, sc.calls, ops@, j);
                        let next = routed.push(order);
                        assert(next.drop_last() =~= routed);
                        let g = Round { ev: *ev, session: sess, orders: next };
                        assert(fold_steps(next, s1, route_fn()) == Ok::<RunModel, Overflow>(core.model()));
                        assert(round_step(sb, g) == Ok::<RunModel, Overflow>(core.model()));
                        assert(round_ok(sb, g));
                        reveal(round_refused);
                    }
                    return Err(e);
                },
            }
            proof {
                lemma_account_after_ops(am, *account, a0, sc.calls, ops@);
                let next = routed.push(order);
                assert(next =~= all.take(next.len() as int));
                lemma_fold_next(next, s1, route_fn(), routed.len() as int);
                assert(next.take(routed.len() as int) =~= routed);
                assert(next.take(next.len() as int) =~= next);
                routed = next;
            }
        }
        proof {
            assert(routed =~= all.take(n as int));
            assert(all.take(n as int) =~= all);
        }
    }
    Ok(Ghost(Round { ev: *ev, session: sess, orders: routed }))
}

/// Settles every venue in table order, each against the positions the
/// account reports just before, making the account calls it asks for.
/// Returns the positions reports.
fn settle_venues<B: Account>(core: &mut RunState, account: &mut B, Ghost(a0): Ghost<B>) -> (r: Result<
    Ghost<Seq<Seq<(InstrumentId, Position)>>>,
    Overflow,
>)
    requires
        old(core).wf(),
        account_after(*old(account), a0, old(core).model().calls),
    ensures
        r is Ok ==> account_after(*final(account), a0, final(core).model().calls),
        r matches Ok(g) ==> {
            &&& final(core).wf()
            &&& g@.len() == old(core).model().insts.len()
            &&& settle_all(old(core).model(), g@) == Ok::<RunModel, Overflow>(final(core).model())
        },
        r is Err ==> settlement_overflows(old(core).model()) || settlement_refused(a0, old(core).model()),
{
    let ghost s_adv = core.model();
    let ghost mut ps: Seq<Seq<(InstrumentId, Position)>> = Seq::empty();
    let mut i: usize = 0;
    while i < core.venues.len()
        invariant
            core.wf(),
            i == ps.len(),
            i <= core.venues@.len(),
            core.model().insts.len() == s_adv.insts.len(),
            core.venues@.len() == core.model().insts.len(),
            settle_all(s_adv, ps) == Ok::<RunModel, Overflow>(core.model()),
            s_adv == old(core).model(),
            account_after(*account, a0, core.model().calls),
        decreases core.venues.len() - i,
    {
        let positions = match account.positions() {
            Ok(p) => p,
            Err(e) => {
                proof {
                    lemma_account_after_now(*account, a0, core.model().calls);
                    assert(ps.len() < s_adv.insts.len());
                    reveal(settlement_refused);
                    assert(settle_all(s_adv, ps) matches Ok(s2) && (ps.len() < s_adv.insts.len() && a0.positions_fail_after(s2.calls)));
                }
                return Err(e);
            },
        };
        let ghost p = positions@;
        let ghost sc = core.model();
        let ops = match core.settle_at(i, positions) {
            Ok(o) => o,
            Err(e) => {
                proof {
                    let next = ps.push(p);
                    assert(next.drop_last() =~= ps);
                    assert(settle_all(s_adv, next) is Err);
                    reveal(settlement_overflows);
                }
                return Err(e);
            },
        };
        let ghost am = *account;
        match apply_ops(account, &ops) {
            Ok(()) => {},
            Err(e) => {
                proof {
                    let j = choose|j: int|
                        0 <= j < ops@.len() && #[trigger] ops@[j] is ReportFill && account.received() == am.received() + ops@.take(j + 1)
                            && am.fill_refused_after(ops@.take(j), ops@[j]->ReportFill_0);
                    lemma_refused_extend(am, a0, sc.calls, ops@, j);
                    let next = ps.push(p);
                    assert(next.drop_last() =~= ps);
                    assert(settle_all(s_adv, next) == Ok::<RunModel, Overflow>(core.model()));
                    reveal(settlement_refused);
                    assert(settle_all(s_adv, next) matches Ok(s2) && refused_fill_in(a0, s2.calls));
                }
                return Err(e);
            },
        }
        proof {
            lemma_account_after_ops(am, *account, a0, sc.calls, ops@);
            let next = ps.push(p);
            assert(next.drop_last() =~= ps);
            ps = next;
        }
        i = i + 1;
    }
    Ok(Ghost(ps))
}

/// What the strategy and the account answered in a run, as far as it went:
/// the strategy's warmup bar count, the events in the order they were
/// played, the rounds played (the last one cut short where the run failed
/// in it), and the positions the account reported at each settlement.
pub struct RunAnswers {
    pub warmup_bars: nat,
    pub sorted: Seq<MarketEvent>,
    pub rounds: Seq<Round>,
    pub positions: Seq<Seq<(InstrumentId, Position)>>,
}

/// The state a run over `instruments` in `window` starts in, the strategy
/// ready after `warmup_bars` bars; see [`initial_model`].
pub open spec fn window_start(instruments: Seq<Instrument>, window: RunWindow, warmup_bars: nat) -> RunModel {
    initial_model(
        instruments,
        clock_start(window.warmup_start, window.time_start),
        window.time_start,
        window.latency_ns,
        window.taker_fee_bps,
        warmup_bars,
    )
}

/// What a run returned, against the answers it records: a completed run is
/// the run model for those answers, with the account `a0` receiving every
/// call and reporting the final equity (see [`run_result_ok`],
/// [`run_account_ok`]); a failed run overflows under them (see
/// [`run_overflows_with`]) or has `a0` refuse a call under them (see
/// [`account_refuses_with`]).
pub open spec fn run_answered<B: Account>(
    r: Result<RunResult, Overflow>,
    events: Seq<MarketEvent>,
    s0: RunModel,
    time_end: Timestamp,
    a0: B,
    ans: RunAnswers,
) -> bool {
    match r {
        Ok(res) => run_result_ok(res, events, s0, time_end, ans.sorted, ans.rounds, ans.positions) && run_account_ok(
            res,
            a0,
            run_calls(s0, ans.rounds, time_end, ans.positions),
        ),
        Err(_) => run_overflows_with(events, s0, time_end, ans.sorted, ans.rounds, ans.positions) || account_refuses_with(
            a0,
            events,
            s0,
            time_end,
            ans.sorted,
            ans.rounds,
            ans.positions,
        ),
    }
}

proof fn lemma_result_ok(
    res: RunResult,
    events: Seq<MarketEvent>,
    s0: RunModel,
    time_end: Timestamp,
    sorted: Seq<MarketEvent>,
    rs: Seq<Round>,
    ps: Seq<Seq<(InstrumentId, Position)>>,
    s_end: RunModel,
    fin: RunModel,
)
    requires
        stably_sorted(sorted, events),
        rounds_cover(rs, sorted, time_end),
        rounds_ok(s0, rs),
        fold_steps(rs, s0, round_fn()) == Ok::<RunModel, Overflow>(s_end),
        ps.len() == s0.insts.len(),
        settle_all(RunModel { now: clock_after(s_end.now, time_end), ..s_end }, ps) == Ok::<RunModel, Overflow>(fin),
        res.fills@ == fin.fills,
        record_views(res.trade_records@) == fin.records,
        spec_metrics(res.trade_records@, res.fills@.len(), res.metrics.final_equity) == Ok::<MetricsSummary, Overflow>(
            res.metrics,
        ),
        res.metrics.final_equity is Some,
    ensures
        run_result_ok(res, events, s0, time_end, sorted, rs, ps),
{
    reveal(run_result_ok);
}

/// The event loop; see [`run_result_ok`]. The events are sorted; the run
/// state starts at the warmup start (or the start); each event up to the end
/// time is observed and the account calls it asks for are made; a bar shown
/// to the strategy (see [`bar_for_strategy`]) yields orders, routed in order.
/// Then the clock moves to the end time and each venue, in table order, is
/// settled against the positions the account reports at that moment. The
/// metrics are computed from the records, the fills and the account's equity.
/// An error comes from an overflow of the run model (see [`run_overflows`])
/// or from a call the account refuses (see [`account_refuses`]).
#[verifier::rlimit(40)]
pub(crate) fn run_events<S: Strategy, B: Account>(
    request_id: String,
    instruments: Vec<Instrument>,
    events: Vec<MarketEvent>,
    window: RunWindow,
    strategy: S,
    account: B,
) -> (r: (Result<RunResult, Overflow>, Ghost<RunAnswers>))
    requires
        forall|i: int| 0 <= i < instruments@.len() ==> (#[trigger] instruments@[i]).wf(),
        forall|i: int| 0 <= i < events@.len() ==> (#[trigger] events@[i]).payload.wf(),
        opt_dec_wf(window.taker_fee_bps),
    ensures
        r.0 matches Ok(res) ==> res.request_id == request_id,
        run_answered(r.0, events@, window_start(instruments@, window, r.1@.warmup_bars), window.time_end, account, r.1@),
{
    let ghost inp = events@;
    let ghost insts = instruments@;
    let mut stream = match EventStream::new(events) {
        Ok(s) => s,
        Err(_) => {
            return (Err(Overflow), Ghost(RunAnswers { warmup_bars: 0, sorted: Seq::empty(), rounds: Seq::empty(), positions: Seq::empty() }));
        },
    };
    let ghost sorted = stream.events_view();
    proof {
        lemma_sorted_members(stream.events_view(), inp);
        assert forall|j: int| 0 <= j < stream.events_view().len() implies (#[trigger] stream.events_view()[j]).payload.wf() by {
            let k = choose|k: int| 0 <= k < inp.len() && inp[k] == stream.events_view()[j];
            assert(inp[k].payload.wf());
        }
    }
    let start = match window.warmup_start {
        Some(w) => w,
        None => window.time_start,
    };
    let _rng = ScopedRng::new(window.seed);
    let warmup_bars = strategy.warmup_bars_required();
    let mut core = RunState::new(instruments, start, window.time_start, window.latency_ns, window.taker_fee_bps, warmup_bars);
    let ghost s0 = core.model();
    let ghost mut rs: Seq<Round> = Seq::empty();
    let mut acct = account;
    let mut strategy = strategy;
    proof {
        lemma_fold_start(rs, s0, round_fn());
        lemma_account_after_start(acct);
        assert(core.model().calls =~= Seq::<AccountOp>::empty());
    }
    loop
        invariant
            core.wf(),
            stream.wf(),
            stream.events_view() == sorted,
            forall|j: int| 0 <= j < sorted.len() ==> (#[trigger] sorted[j]).payload.wf(),
            stream.position() == rs.len(),
            rs.len() <= sorted.len(),
            forall|j: int| 0 <= j < rs.len() ==> (#[trigger] rs[j]).ev == sorted[j] && sorted[j].ts_event <= window.time_end,
            fold_steps(rs, s0, round_fn()) == Ok::<RunModel, Overflow>(core.model()),
            rounds_ok(s0, rs),
            core.model().insts == s0.insts,
            account_after(acct, account, core.model().calls),
            s0 == initial_model(insts, clock_start(window.warmup_start, window.time_start), window.time_start, window.latency_ns, window.taker_fee_bps, warmup_bars as nat),
            inp == events@,
            insts == instruments@,
            stably_sorted(sorted, inp),
        ensures
            rs.len() < sorted.len() ==> sorted[rs.len() as int].ts_event > window.time_end,
        decreases sorted.len() - rs.len(),
    {
        match stream.peek() {
            None => {
                break;
            },
            Some(e) => {
                if e.ts_event > window.time_end {
                    break;
                }
            },
        }
        let ev = stream.next().unwrap();
        assert(*ev == sorted[rs.len() as int]);
        let ghost sk = core.model();
        let g = match play_round(&mut core, ev, &mut strategy, &mut acct, Ghost(account)) {
            Ok(g) => g,
            Err(e) => {
                let ghost next = if round_overflows(sk, *ev) {
                    lemma_round_overflows(inp, s0, window.time_end, sorted, rs, sk)
                } else {
                    lemma_round_refused(account, inp, s0, window.time_end, sorted, rs, sk)
                };
                let ghost ans = RunAnswers { warmup_bars: warmup_bars as nat, sorted, rounds: next, positions: Seq::empty() };
                proof {
                    assert(window_start(insts, window, warmup_bars as nat) == s0);
                }
                return (Err(e), Ghost(ans));
            },
        };
        proof {
            let r = g@;
            let next = rs.push(r);
            lemma_fold_next(next, s0, round_fn(), rs.len() as int);
            assert(next.take(rs.len() as int) =~= rs);
            assert(next.take(next.len() as int) =~= next);
            assert forall|k: int| 0 <= k < next.len() implies (fold_steps(next.take(k), s0, round_fn()) matches Ok(sk)
                ==> round_ok(sk, #[trigger] next[k])) by {
                if k < rs.len() {
                    assert(next.take(k) =~= rs.take(k));
                    assert(next[k] == rs[k]);
                }
            }
            rs = next;
        }
    }
    let ghost s_end = core.model();
    let _ = core.clock.advance(window.time_end);
    let ghost s_adv = core.model();
    proof {
        assert(s_adv == RunModel { now: clock_after(s_end.now, window.time_end), ..s_end });
    }
    let g = match settle_venues(&mut core, &mut acct, Ghost(account)) {
        Ok(g) => g,
        Err(e) => {
            let ghost ps = if settlement_overflows(s_adv) {
                lemma_settle_overflows(inp, s0, window.time_end, sorted, rs, s_end)
            } else {
                lemma_settle_refused(account, inp, s0, window.time_end, sorted, rs, s_end)
            };
            let ghost ans = RunAnswers { warmup_bars: warmup_bars as nat, sorted, rounds: rs, positions: ps };
            proof {
                assert(window_start(insts, window, warmup_bars as nat) == s0);
            }
            return (Err(e), Ghost(ans));
        },
    };
    let ghost ps = g@;
    let ghost core_fin = core.model();
    let metrics = match compute_metrics(&core.trade_records, &core.fills, Some(&acct)) {
        Ok(m) => m,
        Err(e) => {
            proof {
                lemma_account_after_now(acct, account, core_fin.calls);
                if spec_metrics(core.trade_records@, core.fills@.len(), None) is Err {
                    lemma_metrics_overflow(inp, s0, window.time_end, sorted, rs, s_end, ps, core_fin, core.trade_records@);
                } else {
                    lemma_equity_refused(account, inp, s0, window.time_end, sorted, rs, s_end, ps, core_fin);
                }
                assert(window_start(insts, window, warmup_bars as nat) == s0);
            }
            let ghost ans = RunAnswers { warmup_bars: warmup_bars as nat, sorted, rounds: rs, positions: ps };
            return (Err(e), Ghost(ans));
        },
    };
    let res = RunResult { request_id, trade_records: core.trade_records, fills: core.fills, metrics };
    proof {
        lemma_result_ok(res, inp, s0, window.time_end, sorted, rs, ps, s_end, core_fin);
        assert(run_result_ok(res, inp, initial_model(insts, clock_start(window.warmup_start, window.time_start), window.time_start, window.latency_ns, window.taker_fee_bps, warmup_bars as nat), window.time_end, sorted, rs, ps));
        assert(run_model(s0, rs, window.time_end, ps) == Ok::<RunModel, Overflow>(core_fin));
        lemma_account_after_now(acct, account, core_fin.calls);
        assert(account_after(acct, account, run_calls(s0, rs, window.time_end, ps)));
        assert(run_account_ok(res, account, run_calls(s0, rs, window.time_end, ps)));
        assert(window_start(insts, window, warmup_bars as nat) == s0);
    }
    let ghost ans = RunAnswers { warmup_bars: warmup_bars as nat, sorted, rounds: rs, positions: ps };
    (Ok(res), Ghost(ans))
}

/// Where the run's clock starts: the warmup start, else the start.
pub open spec fn clock_start(warmup_start: Option<Timestamp>, time_start: Timestamp) -> Timestamp {
    match warmup_start {
        Some(w) => w,
        None => time_start,
    }
}

} // verus!
