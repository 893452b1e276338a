//! One simulation run: validation, the venue table, the event loop over the
//! sorted stream, order routing, settlement and metrics.
use vstd::prelude::*;

use crate::account::{opening_model, replay, spec_equity, SimpleAccount};
use crate::clock::SimulationClock;
use crate::decimal::{Dec, Overflow};
use crate::engine::{
    emitted_ok, fits_latency, op_ok, opt_dec_wf, record_ok, spec_on_event, spec_settle, spec_submit,
    AccountOp, Emitted, EngineContext, EngineModel, OrderBookEngine,
};
use crate::event_loop::{account_refuses_with, run_account_ok, run_answered, run_calls, run_overflows_with, window_start, RunAnswers, clock_start, run_events, run_result_ok, Round, RunWindow};
use crate::extensions::{session_rel, SessionState};
use crate::instrument::{Instrument, PriceFormation};
use crate::manifest::{SimError, SimErrorView};
use crate::market_event::{MarketEvent, MarketPayload};
use crate::market_view::{view_after, MarketView, ViewModel};
use crate::metrics::{records_wf, MetricsSummary};
use crate::ports::{lemma_shift_compose, lemma_shift_none, shifted, Account};
use crate::run_request::RunRequest;
use crate::strategy::Strategy;
use crate::trade::{Fill, Order, OrderResult, Position, RecordView, TradeRecord};
use crate::types::{InstrumentId, Timestamp};
use crate::validator::{spec_validate, ContractValidator};
use crate::warmup::WarmupGate;

verus! {

/// An instrument of the run with the engine that prices it.
pub struct Venue {
    pub instrument: Instrument,
    pub engine: OrderBookEngine,
}

impl Venue {
    pub open spec fn wf(&self) -> bool {
        self.instrument.wf() && self.engine.wf()
    }
}

/// The instruments of a table, in order.
pub open spec fn venue_insts(v: Seq<Venue>) -> Seq<Instrument> {
    v.map_values(|x: Venue| x.instrument)
}

/// The table without the entries with id `id`.
pub open spec fn drop_id(s: Seq<Venue>, id: Seq<char>) -> Seq<Venue>
    decreases s.len(),
{
    if s.len() == 0 {
        s
    } else {
        let r = drop_id(s.drop_last(), id);
        if s.last().instrument.id@ == id {
            r
        } else {
            r.push(s.last())
        }
    }
}

/// The instruments without those with id `id`.
pub open spec fn without_id(s: Seq<Instrument>, id: Seq<char>) -> Seq<Instrument>
    decreases s.len(),
{
    if s.len() == 0 {
        s
    } else {
        let r = without_id(s.drop_last(), id);
        if s.last().id@ == id {
            r
        } else {
            r.push(s.last())
        }
    }
}

/// The instruments that get an engine: an instrument replaces any earlier one
/// with its id and takes its place at the end; only order-book instruments
/// are kept.
pub open spec fn venue_table(s: Seq<Instrument>) -> Seq<Instrument>
    decreases s.len(),
{
    if s.len() == 0 {
        s
    } else {
        let r = without_id(venue_table(s.drop_last()), s.last().id@);
        if s.last().price_formation == PriceFormation::Clob {
            r.push(s.last())
        } else {
            r
        }
    }
}

/// No two instruments share an id.
pub open spec fn distinct_ids(s: Seq<Instrument>) -> bool {
    forall|i: int, j: int| 0 <= i < j < s.len() ==> (#[trigger] s[i]).id@ != (#[trigger] s[j]).id@
}

/// The index of the instrument with id `id`, or -1.
pub open spec fn index_of_id(s: Seq<Instrument>, id: Seq<char>) -> int
    decreases s.len(),
{
    if s.len() == 0 {
        -1
    } else if s.last().id@ == id {
        s.len() - 1
    } else {
        index_of_id(s.drop_last(), id)
    }
}

proof fn lemma_index_of_id(s: Seq<Instrument>, id: Seq<char>)
    ensures
        -1 <= index_of_id(s, id) < s.len(),
        index_of_id(s, id) >= 0 ==> s[index_of_id(s, id)].id@ == id,
        index_of_id(s, id) == -1 ==> forall|j: int| 0 <= j < s.len() ==> (#[trigger] s[j]).id@ != id,
    decreases s.len(),
{
    if s.len() > 0 && s.last().id@ != id {
        lemma_index_of_id(s.drop_last(), id);
        assert forall|j: int| 0 <= j < s.len() && index_of_id(s, id) == -1 implies (#[trigger] s[j]).id@ != id by {
            if j < s.len() - 1 {
                assert(s[j] == s.drop_last()[j]);
            }
        }
    }
}

proof fn lemma_drop_id(s: Seq<Venue>, id: Seq<char>)
    ensures
        venue_insts(drop_id(s, id)) == without_id(venue_insts(s), id),
        forall|j: int| 0 <= j < drop_id(s, id).len() ==> s.contains(#[trigger] drop_id(s, id)[j]),
    decreases s.len(),
{
    if s.len() > 0 {
        lemma_drop_id(s.drop_last(), id);
        assert(venue_insts(s).drop_last() =~= venue_insts(s.drop_last()));
        let r = drop_id(s.drop_last(), id);
        assert forall|j: int| 0 <= j < drop_id(s, id).len() implies s.contains(#[trigger] drop_id(s, id)[j]) by {
            if j < r.len() {
                assert(drop_id(s, id)[j] == r[j]);
                assert(s.drop_last().contains(r[j]));
                let k = choose|k: int| 0 <= k < s.drop_last().len() && s.drop_last()[k] == r[j];
                assert(s[k] == r[j]);
            } else {
                assert(drop_id(s, id)[j] == s[s.len() - 1]);
            }
        }
        if s.last().instrument.id@ != id {
            assert(venue_insts(r.push(s.last())) =~= venue_insts(r).push(s.last().instrument));
        }
    }
}

proof fn lemma_without_id_distinct(s: Seq<Instrument>, id: Seq<char>)
    requires
        distinct_ids(s),
    ensures
        distinct_ids(without_id(s, id)),
        forall|j: int| 0 <= j < without_id(s, id).len() ==> (#[trigger] without_id(s, id)[j]).id@ != id,
        forall|j: int| 0 <= j < without_id(s, id).len() ==> s.contains(#[trigger] without_id(s, id)[j]),
    decreases s.len(),
{
    if s.len() > 0 {
        let r = without_id(s.drop_last(), id);
        lemma_without_id_distinct(s.drop_last(), id);
        assert forall|j: int| 0 <= j < without_id(s, id).len() implies s.contains(#[trigger] without_id(s, id)[j]) by {
            if j < r.len() {
                assert(without_id(s, id)[j] == r[j]);
                assert(s.drop_last().contains(r[j]));
                let k = choose|k: int| 0 <= k < s.drop_last().len() && s.drop_last()[k] == r[j];
                assert(s[k] == r[j]);
            } else {
                assert(without_id(s, id)[j] == s[s.len() - 1]);
            }
        }
        if s.last().id@ != id {
            assert forall|i: int, j: int| 0 <= i < j < without_id(s, id).len() implies (#[trigger] without_id(s, id)[i]).id@
                != (#[trigger] without_id(s, id)[j]).id@ by {
                let w = without_id(s, id);
                if j == r.len() {
                    assert(w[j] == s.last());
                    assert(w[i] == r[i]);
                    assert(s.drop_last().contains(r[i]));
                    let k = choose|k: int| 0 <= k < s.drop_last().len() && s.drop_last()[k] == r[i];
                    assert(s[k] == r[i]);
                    assert(s[k].id@ != s[s.len() - 1].id@);
                } else {
                    assert(w[i] == r[i] && w[j] == r[j]);
                }
            }
        }
    }
}

proof fn lemma_venue_table_distinct(s: Seq<Instrument>)
    ensures
        distinct_ids(venue_table(s)),
    decreases s.len(),
{
    if s.len() > 0 {
        lemma_venue_table_distinct(s.drop_last());
        let r = without_id(venue_table(s.drop_last()), s.last().id@);
        lemma_without_id_distinct(venue_table(s.drop_last()), s.last().id@);
        if s.last().price_formation == PriceFormation::Clob {
            assert forall|i: int, j: int| 0 <= i < j < r.push(s.last()).len() implies (#[trigger] r.push(s.last())[i]).id@
                != (#[trigger] r.push(s.last())[j]).id@ by {
                if j == r.len() {
                    assert(r.push(s.last())[i] == r[i]);
                } else {
                    assert(r.push(s.last())[i] == r[i] && r.push(s.last())[j] == r[j]);
                }
            }
        }
    }
}

/// The items of `v` in reverse order.
pub(crate) fn reversed<T>(v: Vec<T>) -> (r: Vec<T>)
    ensures
        r@.len() == v@.len(),
        forall|j: int| 0 <= j < r@.len() ==> #[trigger] r@[j] == v@[v@.len() - 1 - j],
{
    let mut src = v;
    let ghost inp = src@;
    let mut out: Vec<T> = Vec::new();
    while src.len() > 0
        invariant
            out@.len() + src@.len() == inp.len(),
            src@ == inp.take(src@.len() as int),
            forall|j: int| 0 <= j < out@.len() ==> #[trigger] out@[j] == inp[inp.len() - 1 - j],
        decreases src.len(),
    {
        let e = src.pop().unwrap();
        proof {
            assert(src@ =~= inp.take(src@.len() as int));
        }
        out.push(e);
    }
    out
}

/// The table without the entries with id `id`.
fn remove_id(venues: Vec<Venue>, id: &String) -> (r: Vec<Venue>)
    ensures
        r@ == drop_id(venues@, id@),
{
    let ghost inp = venues@;
    let n = venues.len();
    let mut rev = reversed(venues);
    let mut out: Vec<Venue> = Vec::new();
    let mut i: usize = 0;
    proof {
        assert(inp.take(0) =~= Seq::<Venue>::empty());
    }
    while rev.len() > 0
        invariant
            0 <= i <= inp.len(),
            inp.len() == n,
            rev@.len() == inp.len() - i,
            forall|j: int| 0 <= j < rev@.len() ==> #[trigger] rev@[j] == inp[inp.len() - 1 - j],
            out@ == drop_id(inp.take(i as int), id@),
        decreases rev.len(),
    {
        let v = rev.pop().unwrap();
        proof {
            assert(v == inp[i as int]);
            assert(inp.take(i + 1).drop_last() =~= inp.take(i as int));
            assert(inp.take(i + 1).last() == v);
        }
        if v.instrument.id != *id {
            out.push(v);
        }
        i = i + 1;
    }
    proof {
        assert(inp.take(inp.len() as int) =~= inp);
    }
    out
}

/// The venue table of the instruments, each with a fresh engine; see [`venue_table`].
fn build_venues(instruments: Vec<Instrument>, latency_ns: i64, taker_fee_bps: Option<Dec>) -> (r: Vec<Venue>)
    requires
        forall|i: int| 0 <= i < instruments@.len() ==> (#[trigger] instruments@[i]).wf(),
        opt_dec_wf(taker_fee_bps),
    ensures
        venue_insts(r@) == venue_table(instruments@),
        forall|i: int| 0 <= i < r@.len() ==> (#[trigger] r@[i]).wf() && r@[i].engine.model() == EngineModel::fresh(
            latency_ns,
            taker_fee_bps,
        ),
{
    let ghost inp = instruments@;
    let n = instruments.len();
    let mut rev = reversed(instruments);
    let mut out: Vec<Venue> = Vec::new();
    let mut i: usize = 0;
    proof {
        assert(inp.take(0) =~= Seq::<Instrument>::empty());
        assert(venue_insts(out@) =~= Seq::<Instrument>::empty());
    }
    while rev.len() > 0
        invariant
            0 <= i <= inp.len(),
            inp.len() == n,
            rev@.len() == inp.len() - i,
            forall|j: int| 0 <= j < rev@.len() ==> #[trigger] rev@[j] == inp[inp.len() - 1 - j],
            forall|j: int| 0 <= j < inp.len() ==> (#[trigger] inp[j]).wf(),
            opt_dec_wf(taker_fee_bps),
            venue_insts(out@) == venue_table(inp.take(i as int)),
            forall|j: int| 0 <= j < out@.len() ==> (#[trigger] out@[j]).wf() && out@[j].engine.model()
                == EngineModel::fresh(latency_ns, taker_fee_bps),
        decreases rev.len(),
    {
        let x = rev.pop().unwrap();
        proof {
            assert(x == inp[i as int]);
            assert(inp.take(i + 1).drop_last() =~= inp.take(i as int));
            assert(inp.take(i + 1).last() == x);
            lemma_drop_id(out@, x.id@);
        }
        let ghost before = out@;
        out = remove_id(out, &x.id);
        proof {
            assert forall|j: int| 0 <= j < out@.len() implies (#[trigger] out@[j]).wf() && out@[j].engine.model()
                == EngineModel::fresh(latency_ns, taker_fee_bps) by {
                assert(before.contains(out@[j]));
            }
        }
        if x.price_formation == PriceFormation::Clob {
            let engine = OrderBookEngine::new(latency_ns, taker_fee_bps);
            let ghost mid = out@;
            out.push(Venue { instrument: x, engine });
            proof {
                assert(venue_insts(out@) =~= venue_insts(mid).push(x));
            }
        }
        i = i + 1;
    }
    proof {
        assert(inp.take(inp.len() as int) =~= inp);
    }
    out
}

/// The index of the venue for instrument `id`; see [`index_of_id`].
fn find_venue(venues: &Vec<Venue>, id: &String) -> (r: Option<usize>)
    ensures
        match r {
            Some(i) => i == index_of_id(venue_insts(venues@), id@) && i < venues@.len(),
            None => index_of_id(venue_insts(venues@), id@) == -1,
        },
{
    let ghost s = venue_insts(venues@);
    let mut i: usize = venues.len();
    proof {
        assert(s.take(s.len() as int) =~= s);
    }
    while i > 0
        invariant
            0 <= i <= venues@.len(),
            s == venue_insts(venues@),
            index_of_id(s, id@) == index_of_id(s.take(i as int), id@),
        decreases i,
    {
        proof {
            assert(s.take(i as int).drop_last() =~= s.take(i - 1));
            assert(s.take(i as int).last() == s[i - 1]);
        }
        if venues[i - 1].instrument.id == *id {
            return Some(i - 1);
        }
        i = i - 1;
    }
    proof {
        assert(s.take(0).len() == 0);
    }
    None
}

/// What one engine call emitted.
pub struct Batch {
    pub fills: Vec<Fill>,
    pub trade_records: Vec<TradeRecord>,
    pub ops: Vec<AccountOp>,
}

impl Batch {
    pub open spec fn emitted(&self) -> Emitted {
        Emitted {
            fills: self.fills@,
            records: self.trade_records@.map_values(|r: TradeRecord| r.view()),
            ops: self.ops@,
        }
    }
}

/// Nothing emitted yet.
pub open spec fn nothing() -> Emitted {
    Emitted { fills: Seq::empty(), records: Seq::empty(), ops: Seq::empty() }
}

fn empty_context<'a>(clock: &'a SimulationClock, instrument: &'a Instrument, positions: Vec<(InstrumentId, Position)>) -> (r:
    EngineContext<'a>)
    ensures
        r.clock == clock,
        r.instrument == instrument,
        r.positions == positions,
        r.emitted() == nothing(),
{
    let r = EngineContext {
        clock,
        instrument,
        positions,
        fills: Vec::new(),
        trade_records: Vec::new(),
        account_ops: Vec::new(),
    };
    proof {
        assert(r.emitted().records =~= Seq::empty());
    }
    r
}

/// Hands a market event to the venue's engine; see [`spec_on_event`].
fn venue_event(venue: &mut Venue, clock: &SimulationClock, ev: &MarketEvent) -> (r: Result<Batch, Overflow>)
    requires
        old(venue).wf(),
        ev.payload.wf(),
    ensures
        r matches Ok(b) ==> emitted_ok(b.emitted()),
        final(venue).instrument == old(venue).instrument,
        session_rel(old(venue).engine.model().session, final(venue).engine.model().session, &old(venue).instrument, ev.payload),
        match spec_on_event(old(venue).engine.model(), &old(venue).instrument, ev, nothing(), final(venue).engine.model().session) {
            Ok((m, em)) => r matches Ok(b) && final(venue).engine.model() == m && final(venue).wf() && b.emitted() == em,
            Err(_) => r is Err,
        },
{
    let mut ctx = empty_context(clock, &venue.instrument, Vec::new());
    let res = venue.engine.on_event(ev, &mut ctx);
    match res {
        Ok(()) => Ok(Batch { fills: ctx.fills, trade_records: ctx.trade_records, ops: ctx.account_ops }),
        Err(e) => Err(e),
    }
}

/// Submits an order to the venue's engine at the clock's time; see [`spec_submit`].
fn venue_submit(venue: &mut Venue, clock: &SimulationClock, order: Order) -> (r: Result<(OrderResult, Batch), Overflow>)
    requires
        old(venue).wf(),
        order.wf(),
        fits_latency(clock.now(), old(venue).engine.model().latency_ns),
    ensures
        r matches Ok((_, b)) ==> emitted_ok(b.emitted()),
        final(venue).instrument == old(venue).instrument,
        match spec_submit(old(venue).engine.model(), &old(venue).instrument, order, clock.now(), nothing()) {
            Ok((m, em, rv)) => r matches Ok((v, b)) && v.view() == rv && final(venue).engine.model() == m && final(venue).wf()
                && b.emitted() == em,
            Err(_) => r is Err,
        },
{
    let mut ctx = empty_context(clock, &venue.instrument, Vec::new());
    let res = venue.engine.submit_order(order, &mut ctx);
    match res {
        Ok(out) => Ok((out, Batch { fills: ctx.fills, trade_records: ctx.trade_records, ops: ctx.account_ops })),
        Err(e) => Err(e),
    }
}

/// Settles the venue's engine at the clock's time against the account's
/// positions; see [`spec_settle`].
fn venue_settle(venue: &mut Venue, clock: &SimulationClock, positions: Vec<(InstrumentId, Position)>) -> (r: Result<
    Batch,
    Overflow,
>)
    requires
        old(venue).wf(),
    ensures
        r matches Ok(b) ==> emitted_ok(b.emitted()),
        final(venue).instrument == old(venue).instrument,
        match spec_settle(old(venue).engine.model(), &old(venue).instrument, positions@, clock.now(), nothing()) {
            Ok((m, em)) => r matches Ok(b) && final(venue).engine.model() == m && final(venue).wf() && b.emitted() == em,
            Err(_) => r is Err,
        },
{
    let mut ctx = empty_context(clock, &venue.instrument, positions);
    let res = venue.engine.settle(&mut ctx);
    match res {
        Ok(()) => Ok(Batch { fills: ctx.fills, trade_records: ctx.trade_records, ops: ctx.account_ops }),
        Err(e) => Err(e),
    }
}

/// Every account call carries well-formed decimals.
pub open spec fn ops_ok(ops: Seq<AccountOp>) -> bool {
    forall|i: int| 0 <= i < ops.len() ==> op_ok(#[trigger] ops[i])
}

/// Makes the account calls an engine asked for, in order: the account
/// receives each of them, and a fill it refuses ends the calls there. The
/// outcome of a forced close is not checked, so only a fill report can fail.
pub(crate) fn apply_ops<A: Account>(account: &mut A, ops: &Vec<AccountOp>) -> (r: Result<(), Overflow>)
    requires
        ops_ok(ops@),
    ensures
        r is Ok ==> final(account).received() == old(account).received() + ops@,
        r is Ok ==> shifted(*final(account), *old(account), ops@),
        r is Err ==> exists|i: int|
            0 <= i < ops@.len() && #[trigger] ops@[i] is ReportFill && final(account).received() == old(account).received()
                + ops@.take(i + 1) && old(account).fill_refused_after(ops@.take(i), ops@[i]->ReportFill_0),
{
    let mut i: usize = 0;
    proof {
        lemma_shift_none(*account);
        assert(ops@.take(0) =~= Seq::<AccountOp>::empty());
    }
    while i < ops.len()
        invariant
            0 <= i <= ops.len(),
            ops_ok(ops@),
            account.received() == old(account).received() + ops@.take(i as int),
            shifted(*account, *old(account), ops@.take(i as int)),
        decreases ops.len() - i,
    {
        let ghost op = ops@[i as int];
        let ghost prev = *account;
        proof {
            assert(ops@.take(i + 1) == ops@.take(i as int).push(ops@[i as int]));
            assert(ops@.take(i as int) + seq![op] =~= ops@.take(i + 1));
        }
        match &ops[i] {
            AccountOp::ReportFill(f) => {
                match account.report_fill(f) {
                    Ok(()) => {},
                    Err(e) => {
                        proof {
                            assert(ops@[i as int] is ReportFill);
                            assert(prev.fill_refused_after(Seq::empty(), *f));
                            assert(ops@.take(i as int) + Seq::<AccountOp>::empty() =~= ops@.take(i as int));
                        }
                        return Err(e);
                    },
                }
            },
            AccountOp::UpdateMarkPrice(id, p) => {
                account.update_mark_price(id, *p);
            },
            AccountOp::ForceClose(id, p) => {
                let _ = account.force_close(id, *p, "run_end");
            },
        }
        proof {
            lemma_shift_compose(*account, prev, *old(account), ops@.take(i as int), seq![op]);
        }
        i = i + 1;
    }
    proof {
        assert(ops@.take(ops@.len() as int) =~= ops@);
    }
    Ok(())
}

/// The state of a run between events: the clock, the warmup gate, the
/// strategy's market view, the venues, and the fills and trade records so far.
pub struct RunState {
    pub clock: SimulationClock,
    pub gate: WarmupGate,
    /// Bars still to be observed before the strategy is ready to trade.
    pub bars_left: usize,
    /// Whether the strategy may trade on the last event observed.
    pub trading: bool,
    pub view: MarketView,
    pub venues: Vec<Venue>,
    pub fills: Vec<Fill>,
    pub trade_records: Vec<TradeRecord>,
    /// The account calls the venues asked for, in order.
    pub calls: Ghost<Seq<AccountOp>>,
}

/// The records as views.
pub open spec fn record_views(v: Seq<TradeRecord>) -> Seq<RecordView> {
    v.map_values(|r: TradeRecord| r.view())
}

/// The clock after observing time `ts`: it moves forward only.
pub open spec fn clock_after(now: Timestamp, ts: Timestamp) -> Timestamp {
    if ts >= now {
        ts
    } else {
        now
    }
}

/// A run's state as values: the clock's time, the start of trading, the
/// bars still to be observed before the strategy is ready, whether the
/// strategy may trade on the last event, the market view, the venue table with each engine's
/// state, and the fills and records so far.
pub struct RunModel {
    pub now: Timestamp,
    pub trade_from: Timestamp,
    pub bars_left: nat,
    pub trading: bool,
    pub view: ViewModel,
    pub insts: Seq<Instrument>,
    pub engines: Seq<EngineModel>,
    pub fills: Seq<Fill>,
    pub records: Seq<RecordView>,
    /// The account calls the venues asked for, in order.
    pub calls: Seq<AccountOp>,
}

/// The engines of a table, as values.
pub open spec fn engines_of(v: Seq<Venue>) -> Seq<EngineModel> {
    v.map_values(|x: Venue| x.engine.model())
}

/// The state at the start of a run over `instruments`: the clock and the view
/// at `clock_start`, trading from `time_start` once `warmup_bars` bars have
/// been observed, the venue table with fresh engines, nothing emitted.
pub open spec fn initial_model(
    instruments: Seq<Instrument>,
    clock_start: Timestamp,
    time_start: Timestamp,
    latency_ns: i64,
    taker_fee_bps: Option<Dec>,
    warmup_bars: nat,
) -> RunModel {
    RunModel {
        now: clock_start,
        trade_from: time_start,
        bars_left: warmup_bars,
        trading: false,
        view: ViewModel { ts: clock_start, bars: Seq::empty(), quotes: Seq::empty(), marks: Seq::empty(), last_trades: Seq::empty() },
        insts: venue_table(instruments),
        engines: Seq::new(venue_table(instruments).len(), |i: int| EngineModel::fresh(latency_ns, taker_fee_bps)),
        fills: Seq::empty(),
        records: Seq::empty(),
        calls: Seq::empty(),
    }
}

/// The venue's engine may take `session` as its session state when it
/// handles the event (see [`session_rel`]); any session without a venue.
pub open spec fn session_ok(s: RunModel, ev: MarketEvent, session: SessionState) -> bool {
    let i = index_of_id(s.insts, ev.instrument_id@);
    i >= 0 ==> session_rel(s.engines[i].session, session, &s.insts[i], ev.payload)
}

/// Observing an event: the clock moves forward to its time; the strategy may
/// trade on it when the event is at or after the start and the warmup bars
/// were all observed before it; a bar counts towards the warmup bars; the
/// market view records the
/// event, and the venue of its instrument, if any, handles it (see
/// [`spec_on_event`]), its engine taking `session` as session state; what it
/// emits is appended. The result says whether a venue handled the event, and
/// the account calls it asked for.
pub open spec fn observe_step(s: RunModel, ev: MarketEvent, session: SessionState) -> Result<
    (RunModel, bool, Seq<AccountOp>),
    Overflow,
> {
    let now = clock_after(s.now, ev.ts_event);
    let s1 = RunModel {
        now,
        trading: ev.ts_event >= s.trade_from && s.bars_left == 0,
        bars_left: if ev.payload is Bar && s.bars_left > 0 { (s.bars_left - 1) as nat } else { s.bars_left },
        view: view_after(s.view, ev.instrument_id@, ev.ts_event, ev.payload),
        ..s
    };
    let i = index_of_id(s.insts, ev.instrument_id@);
    if i < 0 {
        Ok((s1, false, Seq::empty()))
    } else {
        match spec_on_event(s.engines[i], &s.insts[i], &ev, nothing(), session) {
            Ok((m, em)) => Ok(
                (
                    RunModel { engines: s.engines.update(i, m), fills: s.fills + em.fills, records: s.records + em.records, calls: s.calls + em.ops, ..s1 },
                    true,
                    em.ops,
                ),
            ),
            Err(e) => Err(e),
        }
    }
}

/// Routing an order: an order for an instrument without a venue is dropped;
/// one with a decimal out of range, or whose fill time (now plus the venue's
/// latency) does not fit in an `i64`, is an overflow; otherwise it is
/// submitted to the venue at the clock's time (see [`spec_submit`]) and what
/// it emits is appended.
pub open spec fn route_step(s: RunModel, order: Order) -> Result<(RunModel, Seq<AccountOp>), Overflow> {
    let i = index_of_id(s.insts, order.instrument_id@);
    if i < 0 {
        Ok((s, Seq::empty()))
    } else if !order.wf() || !fits_latency(s.now, s.engines[i].latency_ns) {
        Err(Overflow)
    } else {
        match spec_submit(s.engines[i], &s.insts[i], order, s.now, nothing()) {
            Ok((m, em, _)) => Ok(
                (RunModel { engines: s.engines.update(i, m), fills: s.fills + em.fills, records: s.records + em.records, calls: s.calls + em.ops, ..s }, em.ops),
            ),
            Err(e) => Err(e),
        }
    }
}

/// Settling venue `i` at the clock's time against the account's positions
/// (see [`spec_settle`]); what it emits is appended.
pub open spec fn settle_step(s: RunModel, i: int, positions: Seq<(InstrumentId, Position)>) -> Result<
    (RunModel, Seq<AccountOp>),
    Overflow,
> {
    match spec_settle(s.engines[i], &s.insts[i], positions, s.now, nothing()) {
        Ok((m, em)) => Ok(
            (RunModel { engines: s.engines.update(i, m), fills: s.fills + em.fills, records: s.records + em.records, calls: s.calls + em.ops, ..s }, em.ops),
        ),
        Err(e) => Err(e),
    }
}

impl RunState {
    /// Every venue is well formed, no two venues share an instrument id, and
    /// the fills and records hold well-formed decimals.
    pub open spec fn wf(&self) -> bool {
        &&& forall|i: int| 0 <= i < self.venues@.len() ==> (#[trigger] self.venues@[i]).wf()
        &&& distinct_ids(venue_insts(self.venues@))
        &&& forall|i: int| 0 <= i < self.fills@.len() ==> (#[trigger] self.fills@[i]).wf()
        &&& records_wf(self.trade_records@)
    }

    /// The state as values.
    pub open spec fn model(&self) -> RunModel {
        RunModel {
            now: self.clock.now(),
            trade_from: self.gate.end_ts(),
            bars_left: self.bars_left as nat,
            trading: self.trading,
            view: self.view.model(),
            insts: venue_insts(self.venues@),
            engines: engines_of(self.venues@),
            fills: self.fills@,
            records: record_views(self.trade_records@),
            calls: self.calls@,
        }
    }

    /// The state at the start of a run: the clock and the market view at
    /// `clock_start`, trading from `time_start` once `warmup_bars` bars have
    /// been observed, the venue table of the instruments (see
    /// [`venue_table`]) with fresh engines, nothing emitted.
    pub fn new(
        instruments: Vec<Instrument>,
        clock_start: Timestamp,
        time_start: Timestamp,
        latency_ns: i64,
        taker_fee_bps: Option<Dec>,
        warmup_bars: usize,
    ) -> (r: RunState)
        requires
            forall|i: int| 0 <= i < instruments@.len() ==> (#[trigger] instruments@[i]).wf(),
            opt_dec_wf(taker_fee_bps),
        ensures
            r.wf(),
            r.model() == initial_model(instruments@, clock_start, time_start, latency_ns, taker_fee_bps, warmup_bars as nat),
    {
        proof {
            lemma_venue_table_distinct(instruments@);
        }
        let ghost insts = instruments@;
        let r = RunState {
            clock: SimulationClock::new(clock_start),
            gate: WarmupGate::new(time_start),
            bars_left: warmup_bars,
            trading: false,
            view: MarketView::new(clock_start),
            venues: build_venues(instruments, latency_ns, taker_fee_bps),
            fills: Vec::new(),
            trade_records: Vec::new(),
            calls: Ghost(Seq::empty()),
        };
        proof {
            let m0 = initial_model(insts, clock_start, time_start, latency_ns, taker_fee_bps, warmup_bars as nat);
            assert(engines_of(r.venues@) =~= m0.engines);
            assert(record_views(r.trade_records@) =~= Seq::<RecordView>::empty());
            assert(r.fills@ =~= Seq::<Fill>::empty());
        }
        r
    }

    /// Replaces venue `i` after an engine call and appends what it emitted.
    fn put_back(&mut self, i: usize, venue: Venue, batch: Batch) -> (ops: Vec<AccountOp>)
        requires
            i <= old(self).venues@.len(),
            forall|j: int| 0 <= j < old(self).fills@.len() ==> (#[trigger] old(self).fills@[j]).wf(),
            records_wf(old(self).trade_records@),
            emitted_ok(batch.emitted()),
        ensures
            forall|j: int| 0 <= j < final(self).fills@.len() ==> (#[trigger] final(self).fills@[j]).wf(),
            records_wf(final(self).trade_records@),
            ops_ok(ops@),
            final(self).venues@ == old(self).venues@.insert(i as int, venue),
            final(self).fills@ == old(self).fills@ + batch.fills@,
            record_views(final(self).trade_records@) == record_views(old(self).trade_records@) + batch.emitted().records,
            ops@ == batch.ops@,
            final(self).calls@ == old(self).calls@ + batch.ops@,
            final(self).clock == old(self).clock,
            final(self).gate == old(self).gate,
            final(self).view == old(self).view,
            final(self).bars_left == old(self).bars_left,
            final(self).trading == old(self).trading,
    {
        self.venues.insert(i, venue);
        let Batch { fills, trade_records, ops } = batch;
        let mut fills = fills;
        let mut trade_records = trade_records;
        let ghost r0 = self.trade_records@;
        let ghost f0 = self.fills@;
        self.fills.append(&mut fills);
        self.trade_records.append(&mut trade_records);
        self.calls = Ghost(self.calls@ + batch.ops@);
        proof {
            assert(record_views(self.trade_records@) =~= record_views(r0) + batch.emitted().records);
            let em = batch.emitted();
            assert forall|j: int| 0 <= j < self.fills@.len() implies (#[trigger] self.fills@[j]).wf() by {
                if j >= f0.len() {
                    assert(self.fills@[j] == em.fills[j - f0.len()]);
                }
            }
            assert forall|j: int| 0 <= j < ops@.len() implies op_ok(#[trigger] ops@[j]) by {
                assert(ops@[j] == em.ops[j]);
            }
            assert forall|j: int| 0 <= j < self.trade_records@.len() implies (#[trigger] self.trade_records@[j]).fill_price.wf()
                && self.trade_records@[j].fill_qty.wf() && self.trade_records@[j].fees.wf()
                && self.trade_records@[j].slippage_bps.wf() by {
                if j >= r0.len() {
                    assert(record_views(self.trade_records@)[j] == self.trade_records@[j].view());
                    assert(record_ok(em.records[j - r0.len()]));
                }
            }
        }
        ops
    }

    /// Observes an event; see [`observe_step`]. The engine of the event's
    /// venue takes the session state [`observed_session`] names.
    pub fn observe(&mut self, ev: &MarketEvent) -> (r: Result<(bool, Vec<AccountOp>), Overflow>)
        requires
            old(self).wf(),
            ev.payload.wf(),
        ensures
            r matches Ok((_, ops)) ==> ops_ok(ops@) && final(self).wf(),
            session_ok(old(self).model(), *ev, observed_session(old(self).model(), final(self).model(), *ev)),
            match observe_step(old(self).model(), *ev, observed_session(old(self).model(), final(self).model(), *ev)) {
                Ok((s2, handled, ops)) => r matches Ok((h, o)) && h == handled && o@ == ops && final(self).model() == s2,
                Err(_) => r is Err,
            },
    {
        let ghost s0 = self.model();
        let _ = self.clock.advance(ev.ts_event);
        self.gate.update(ev.ts_event);
        self.trading = self.gate.is_open() && self.bars_left == 0;
        if self.bars_left > 0 && matches!(ev.payload, MarketPayload::Bar { .. }) {
            self.bars_left = self.bars_left - 1;
        }
        self.view.update(&ev.instrument_id, ev.ts_event, &ev.payload);
        match find_venue(&self.venues, &ev.instrument_id) {
            None => {
                proof {
                    assert(self.model() == observe_step(s0, *ev, SessionState::spec_new())->Ok_0.0);
                }
                Ok((false, Vec::new()))
            },
            Some(i) => {
                let ghost old_venues = self.venues@;
                let mut venue = self.venues.remove(i);
                match venue_event(&mut venue, &self.clock, ev) {
                    Ok(batch) => {
                        let ghost m = venue.engine.model();
                        let ops = self.put_back(i, venue, batch);
                        proof {
                            assert(self.venues@ =~= old_venues.update(i as int, self.venues@[i as int]));
                            assert(venue_insts(self.venues@) =~= venue_insts(old_venues));
                            assert(engines_of(self.venues@) =~= engines_of(old_venues).update(i as int, m));
                            assert(s0.engines[i as int] == old_venues[i as int].engine.model());
                            assert(s0.insts[i as int] == old_venues[i as int].instrument);
                        }
                        Ok((true, ops))
                    },
                    Err(e) => {
                        self.venues.insert(i, venue);
                        proof {
                            assert(self.venues@ =~= old_venues.update(i as int, self.venues@[i as int]));
                            assert(venue_insts(self.venues@) =~= venue_insts(old_venues));
                            assert(s0.engines[i as int] == old_venues[i as int].engine.model());
                            assert(s0.insts[i as int] == old_venues[i as int].instrument);
                        }
                        Err(e)
                    },
                }
            },
        }
    }

    /// Routes an order; see [`route_step`].
    pub fn route(&mut self, order: Order) -> (r: Result<Vec<AccountOp>, Overflow>)
        requires
            old(self).wf(),
        ensures
            r matches Ok(ops) ==> ops_ok(ops@) && final(self).wf(),
            match route_step(old(self).model(), order) {
                Ok((s2, ops)) => r matches Ok(o) && o@ == ops && final(self).model() == s2,
                Err(_) => r is Err,
            },
    {
        let ghost s0 = self.model();
        match find_venue(&self.venues, &order.instrument_id) {
            None => Ok(Vec::new()),
            Some(i) => {
                proof {
                    assert(s0.engines[i as int] == self.venues@[i as int].engine.model());
                    assert(s0.insts[i as int] == self.venues@[i as int].instrument);
                }
                if !order.is_valid() {
                    return Err(Overflow);
                }
                let now = self.clock.current_ts();
                if now.checked_add(self.venues[i].engine.latency()).is_none() {
                    return Err(Overflow);
                }
                let ghost old_venues = self.venues@;
                let mut venue = self.venues.remove(i);
                let (_, batch) = venue_submit(&mut venue, &self.clock, order)?;
                let ghost m = venue.engine.model();
                let ops = self.put_back(i, venue, batch);
                proof {
                    assert(self.venues@ =~= old_venues.update(i as int, self.venues@[i as int]));
                    assert(venue_insts(self.venues@) =~= venue_insts(old_venues));
                    assert(engines_of(self.venues@) =~= engines_of(old_venues).update(i as int, m));
                }
                Ok(ops)
            },
        }
    }

    /// Settles venue `i` against the account's positions; see [`settle_step`].
    pub fn settle_at(&mut self, i: usize, positions: Vec<(InstrumentId, Position)>) -> (r: Result<Vec<AccountOp>, Overflow>)
        requires
            old(self).wf(),
            i < old(self).venues@.len(),
        ensures
            r matches Ok(ops) ==> ops_ok(ops@) && final(self).wf(),
            match settle_step(old(self).model(), i as int, positions@) {
                Ok((s2, ops)) => r matches Ok(o) && o@ == ops && final(self).model() == s2,
                Err(_) => r is Err,
            },
    {
        let ghost s0 = self.model();
        let ghost old_venues = self.venues@;
        proof {
            assert(s0.engines[i as int] == old_venues[i as int].engine.model());
            assert(s0.insts[i as int] == old_venues[i as int].instrument);
        }
        let mut venue = self.venues.remove(i);
        let batch = venue_settle(&mut venue, &self.clock, positions)?;
        let ghost m = venue.engine.model();
        let ops = self.put_back(i, venue, batch);
        proof {
            assert(self.venues@ =~= old_venues.update(i as int, self.venues@[i as int]));
            assert(venue_insts(self.venues@) =~= venue_insts(old_venues));
            assert(engines_of(self.venues@) =~= engines_of(old_venues).update(i as int, m));
        }
        Ok(ops)
    }
}

/// The session state the engine of an event's venue took, read from the
/// states before and after the event.
pub open spec fn observed_session(before: RunModel, after: RunModel, ev: MarketEvent) -> SessionState {
    let i = index_of_id(before.insts, ev.instrument_id@);
    if i >= 0 {
        after.engines[i].session
    } else {
        SessionState::spec_new()
    }
}

/// The cash the default account opens with: 100,000.
pub open spec fn default_balance() -> Dec {
    Dec { mantissa: 100000, scale: 0 }
}

/// What a completed run did with the default account: the final equity
/// reported is that of an account opening with [`default_balance`] in cash
/// after the run's calls (see [`replay`]).
pub open spec fn default_account_ok(res: RunResult, calls: Seq<AccountOp>) -> bool {
    spec_equity(replay(opening_model(default_balance()), calls)) matches Ok(e) && res.metrics.final_equity == Some(e)
}

/// What a run with the default account returned, against the answers it
/// records: a completed run is the run model for those answers with the
/// final equity of [`default_account_ok`]; a failed one overflows under them,
/// or an account opening with [`default_balance`] refuses a call under them.
pub open spec fn default_run_answered(
    r: Result<RunResult, Overflow>,
    events: Seq<MarketEvent>,
    s0: RunModel,
    time_end: Timestamp,
    ans: RunAnswers,
) -> bool {
    match r {
        Ok(res) => run_result_ok(res, events, s0, time_end, ans.sorted, ans.rounds, ans.positions) && default_account_ok(
            res,
            run_calls(s0, ans.rounds, time_end, ans.positions),
        ),
        Err(_) => run_overflows_with(events, s0, time_end, ans.sorted, ans.rounds, ans.positions) || exists|d: SimpleAccount|
            d.model() == opening_model(default_balance()) && #[trigger] account_refuses_with(
                d,
                events,
                s0,
                time_end,
                ans.sorted,
                ans.rounds,
                ans.positions,
            ),
    }
}

/// The result of a completed run.
pub struct RunResult {
    pub request_id: String,
    pub trade_records: Vec<TradeRecord>,
    pub fills: Vec<Fill>,
    pub metrics: MetricsSummary,
}

/// Runs a validated request. The strategy `S` and the account `A` are the
/// caller's; without an account, a [`SimpleAccount`] with 100,000 in cash is used.
pub struct SingleRun<S, A> {
    request: RunRequest<S, A>,
}

impl<S: Strategy, A: Account> SingleRun<S, A> {
    /// The request to run.
    pub closed spec fn request(&self) -> RunRequest<S, A> {
        self.request
    }

    /// The state the run starts in: see [`initial_model`], with the clock at
    /// the warmup start (or the start), and the strategy ready after
    /// `warmup_bars` bars (what its `warmup_bars_required` answers).
    pub open spec fn start_model(&self, warmup_bars: nat) -> RunModel {
        initial_model(
            self.request().instruments@,
            clock_start(self.request().warmup_start, self.request().time_start),
            self.request().time_start,
            self.request().latency_ns,
            self.request().taker_fee_bps,
            warmup_bars,
        )
    }

    /// Validates the request (see [`spec_validate`]): a run exists exactly
    /// when validation passes, and the error is the first violation otherwise.
    pub fn new(request: RunRequest<S, A>) -> (r: Result<SingleRun<S, A>, SimError>)
        ensures
            match r {
                Ok(run) => run.request() == request && spec_validate(
                    request.instruments@,
                    request.events@,
                    request.time_start,
                    request.time_end,
                    request.warmup_start,
                    request.latency_ns,
                ) is Ok,
                Err(e) => spec_validate(
                    request.instruments@,
                    request.events@,
                    request.time_start,
                    request.time_end,
                    request.warmup_start,
                    request.latency_ns,
                ) == Err::<(), SimErrorView>(e.view()),
            },
    {
        match ContractValidator::validate(&request) {
            Ok(()) => Ok(SingleRun { request }),
            Err(e) => Err(e),
        }
    }

    /// Runs the request: the event loop over the sorted events up to the end
    /// time, settlement of every venue, and the metrics. A completed run is
    /// the run model of [`run_result_ok`] for what the strategy and the
    /// account answered along the way. An overflow, here or in the account,
    /// ends the run with `Err`: for some answers of the strategy and the
    /// account, the run model overflows (see [`run_overflows`]) or the
    /// account in use refuses a call (see [`account_refuses`]); the default
    /// account is a [`SimpleAccount`] opening with [`default_balance`].
    /// A completed run's account received every call of the run, in order,
    /// and the final equity is the account's after them.
    pub fn execute(self) -> (r: (Result<RunResult, Overflow>, Ghost<RunAnswers>))
        requires
            self.request().wf(),
        ensures
            r.0 matches Ok(res) ==> res.request_id@ == self.request().request_id@,
            match self.request().account {
                Some(a) => run_answered(r.0, self.request().events@, self.start_model(r.1@.warmup_bars), self.request().time_end, a, r.1@),
                None => default_run_answered(r.0, self.request().events@, self.start_model(r.1@.warmup_bars), self.request().time_end, r.1@),
            },
    {
        let request = self.request;
        let ghost req = request;
        let RunRequest {
            request_id,
            instruments,
            events,
            strategy,
            account,
            time_start,
            time_end,
            warmup_start,
            seed,
            latency_ns,
            taker_fee_bps,
        } = request;
        let window = RunWindow { time_start, time_end, warmup_start, seed, latency_ns, taker_fee_bps };
        let ghost w = window;
        let ghost mut default_account: SimpleAccount = arbitrary();
        let (r, ans) = match account {
            Some(a) => run_events(request_id, instruments, events, window, strategy, a),
            None => {
                let a = SimpleAccount::new(Dec::from_u64(100000));
                proof {
                    default_account = a;
                    assert(a.model() == opening_model(default_balance()));
                }
                run_events(request_id, instruments, events, window, strategy, a)
            },
        };
        proof {
            assert(window_start(req.instruments@, w, ans@.warmup_bars) == self.start_model(ans@.warmup_bars));
            if req.account is None {
                let a = default_account;
                if r is Ok {
                    assert(default_account_ok(r->Ok_0, run_calls(self.start_model(ans@.warmup_bars), ans@.rounds, req.time_end, ans@.positions)));
                }
            }
        }
        (r, ans)
    }
}

} // verus!
