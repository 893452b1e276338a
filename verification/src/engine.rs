//! Engine A: the order-book (CLOB) execution engine.
//!
//! Fill model:
//! - bar data: market orders fill at the next bar's open (buffered until it arrives);
//! - L1 data: fill at the best bid/offer up to its size;
//! - L2 data: walk the book levels;
//! - resting limit and stop orders are checked on every bar and trade.
//!
//! The engine never touches an account itself: every call it would make on the
//! account port (reporting a fill, marking a price, force-closing a position) is
//! appended, in order, to the context's `account_ops`, which the caller applies.
use vstd::prelude::*;

use crate::book::{levels_apply, levels_from_snapshot, levels_ok, quote_asks, quote_bids, BookView};
use crate::clock::SimulationClock;
use crate::decimal::{dec_sub, ssub, Dec, Overflow};
use crate::steps::{fold_steps, lemma_fold_err, lemma_fold_next, lemma_fold_start};
use crate::capability::{
    HAS_BORROW_RATE, HAS_FEE_SCHEDULE_UPDATES, HAS_FUNDING, HAS_MARK_PRICE, HAS_SHORT_BORROW,
};
use crate::extensions::{
    borrow_after, dispatch_extensions, fees_after, funding_after, session_rel, BorrowState,
    DynamicFeeState, FundingState, SessionState,
};
use crate::fill::{
    compute_fee, compute_slippage_bps, fee_bps, fill_at_price, fill_l1, fill_l2, schedule_wf,
    spec_fee, spec_fill_at_price, spec_fill_l1, spec_fill_l2, spec_slippage, spec_try_fill_limit,
    try_fill_limit,
};
use crate::instrument::Instrument;
use crate::market_event::{BookAction, MarketEvent, MarketPayload, TradingStatusKind};
use crate::trade::{
    FidelityLevel, Fill, Order, OrderResult, OrderType, Position, RecordView, ResultView,
    TimeInForce, TradeRecord,
};
use crate::types::{FeeTier, InstrumentId, Side, Timestamp};

verus! {

/// A call the engine makes on the account port.
#[derive(Clone, Debug)]
pub enum AccountOp {
    /// `report_fill(fill)`.
    ReportFill(Fill),
    /// `update_mark_price(instrument_id, price)`.
    UpdateMarkPrice(InstrumentId, Dec),
    /// `force_close(instrument_id, price, "run_end")`.
    ForceClose(InstrumentId, Dec),
}

/// What one engine call is given and what it hands back: the clock, the
/// instrument, the account's open positions (read by settlement), and the
/// buffers the engine appends to.
pub struct EngineContext<'a> {
    pub clock: &'a SimulationClock,
    pub instrument: &'a Instrument,
    pub positions: Vec<(InstrumentId, Position)>,
    pub fills: Vec<Fill>,
    pub trade_records: Vec<TradeRecord>,
    pub account_ops: Vec<AccountOp>,
}

/// Everything emitted so far: fills, trade records, account calls.
pub struct Emitted {
    pub fills: Seq<Fill>,
    pub records: Seq<RecordView>,
    pub ops: Seq<AccountOp>,
}

impl<'a> EngineContext<'a> {
    /// The buffers as sequences.
    pub open spec fn emitted(&self) -> Emitted {
        Emitted {
            fills: self.fills@,
            records: self.trade_records@.map_values(|r: TradeRecord| r.view()),
            ops: self.account_ops@,
        }
    }

    /// Only the buffers differ.
    pub open spec fn same_inputs(&self, other: &EngineContext<'a>) -> bool {
        &&& self.clock == other.clock
        &&& self.instrument == other.instrument
        &&& self.positions == other.positions
    }
}

/// The decimal zero of placeholder fields.
pub open spec fn zero() -> Dec {
    Dec::spec_zero()
}

/// The trade record of a fill of `order` decided at `decision_ts`.
pub open spec fn record_of_fill(order: Order, decision_ts: Timestamp, fill: Fill) -> RecordView {
    RecordView {
        ts_decision: decision_ts,
        ts_fill: fill.ts_fill,
        instrument_id: order.instrument_id@,
        side: order.side,
        order_type: order.order_type,
        fill_price: fill.fill_price,
        fill_qty: fill.fill_qty,
        fees: fill.fees,
        slippage_bps: fill.slippage_bps,
        partial: fill.partial,
        fidelity: fill.fidelity,
        rejected: false,
        reject_reason: None,
    }
}

/// The trade record of a rejected or cancelled order: zero price, quantity,
/// fees and slippage, bar fidelity, and the reason.
pub open spec fn record_of_reject(order: Order, decision_ts: Timestamp, ts: Timestamp, reason: Seq<char>) -> RecordView {
    RecordView {
        ts_decision: decision_ts,
        ts_fill: ts,
        instrument_id: order.instrument_id@,
        side: order.side,
        order_type: order.order_type,
        fill_price: zero(),
        fill_qty: zero(),
        fees: zero(),
        slippage_bps: zero(),
        partial: false,
        fidelity: FidelityLevel::Bar,
        rejected: true,
        reject_reason: Some(reason),
    }
}

/// Emitting a fill: the account is told, then the fill and its record are kept.
pub open spec fn em_fill(em: Emitted, order: Order, decision_ts: Timestamp, fill: Fill) -> Emitted {
    Emitted {
        fills: em.fills.push(fill),
        records: em.records.push(record_of_fill(order, decision_ts, fill)),
        ops: em.ops.push(AccountOp::ReportFill(fill)),
    }
}

/// Emitting a rejection record.
pub open spec fn em_reject(em: Emitted, order: Order, decision_ts: Timestamp, ts: Timestamp, reason: Seq<char>) -> Emitted {
    Emitted { records: em.records.push(record_of_reject(order, decision_ts, ts, reason)), ..em }
}

/// Emitting an account call.
pub open spec fn em_op(em: Emitted, op: AccountOp) -> Emitted {
    Emitted { ops: em.ops.push(op), ..em }
}

/// An account call carries well-formed decimals.
pub open spec fn op_ok(op: AccountOp) -> bool {
    match op {
        AccountOp::ReportFill(f) => f.wf(),
        AccountOp::UpdateMarkPrice(_, p) => p.wf(),
        AccountOp::ForceClose(_, p) => p.wf(),
    }
}

/// A trade record carries well-formed decimals.
pub open spec fn record_ok(r: RecordView) -> bool {
    r.fill_price.wf() && r.fill_qty.wf() && r.fees.wf() && r.slippage_bps.wf()
}

/// Everything emitted carries well-formed decimals.
pub open spec fn emitted_ok(em: Emitted) -> bool {
    &&& forall|i: int| 0 <= i < em.fills.len() ==> (#[trigger] em.fills[i]).wf()
    &&& forall|i: int| 0 <= i < em.records.len() ==> record_ok(#[trigger] em.records[i])
    &&& forall|i: int| 0 <= i < em.ops.len() ==> op_ok(#[trigger] em.ops[i])
}

/// A limit or stop order waiting to trigger.
#[derive(Clone, Debug)]
pub struct RestingOrder {
    pub order: Order,
    pub submitted_ts: Timestamp,
    /// The earliest time it can fill (submission plus latency).
    pub active_ts: Timestamp,
}

impl RestingOrder {
    fn copy(&self) -> (r: RestingOrder)
        ensures
            r == *self,
    {
        RestingOrder { order: self.order.copy(), submitted_ts: self.submitted_ts, active_ts: self.active_ts }
    }
}

/// The last completed bar.
#[derive(Clone, Copy, Debug)]
pub struct SavedBar {
    pub open: Dec,
    pub high: Dec,
    pub low: Dec,
    pub close: Dec,
    pub ts: Timestamp,
}

/// Engine A: order book engine for instruments with CLOB price formation.
pub struct OrderBookEngine {
    book: BookView,
    fidelity: FidelityLevel,
    last_bar: Option<SavedBar>,
    /// Market orders buffered with their decision time, filled at the next bar's open.
    pending_market_orders: Vec<(Order, Timestamp)>,
    resting_orders: Vec<RestingOrder>,
    last_trade_price: Option<Dec>,
    mark_price: Option<Dec>,
    is_halted: bool,
    /// Simulated order latency in nanoseconds.
    latency_ns: i64,
    session: SessionState,
    funding: FundingState,
    borrow: BorrowState,
    fee_state: DynamicFeeState,
    /// Run-level taker fee override in bps.
    taker_fee_override: Option<Dec>,
}

/// A decimal option is well formed when present.
pub open spec fn opt_dec_wf(o: Option<Dec>) -> bool {
    o matches Some(d) ==> d.wf()
}

/// `decision_ts + latency` fits in an `i64`.
pub open spec fn fits_latency(decision_ts: Timestamp, latency: i64) -> bool {
    i64::MIN <= decision_ts + latency <= i64::MAX
}

/// The fee schedule of an instrument, borrowed.
pub open spec fn sched_of(inst: &Instrument) -> Option<&Vec<FeeTier>> {
    match &inst.fee_schedule {
        Some(v) => Some(v),
        None => None,
    }
}

fn schedule_of(inst: &Instrument) -> (r: Option<&Vec<FeeTier>>)
    ensures
        r == sched_of(inst),
{
    match &inst.fee_schedule {
        Some(v) => Some(v),
        None => None,
    }
}

/// The engine's state as values.
pub struct EngineModel {
    /// Bid levels, lowest price first.
    pub bids: Seq<(Dec, Dec)>,
    /// Ask levels, lowest price first.
    pub asks: Seq<(Dec, Dec)>,
    pub fidelity: FidelityLevel,
    pub last_bar: Option<SavedBar>,
    pub pending: Seq<(Order, Timestamp)>,
    pub resting: Seq<RestingOrder>,
    pub last_trade_price: Option<Dec>,
    pub mark_price: Option<Dec>,
    pub is_halted: bool,
    pub latency_ns: i64,
    pub session: SessionState,
    pub funding: FundingState,
    pub borrow: BorrowState,
    pub fee_state: DynamicFeeState,
    pub taker_fee_override: Option<Dec>,
}

/// A buffered market order is well formed and its fill time fits in an `i64`.
pub open spec fn pending_ok(p: (Order, Timestamp), latency: i64) -> bool {
    p.0.wf() && fits_latency(p.1, latency)
}

impl EngineModel {
    /// Every decimal held is well formed, the book is well formed, and every
    /// buffered decision time plus the latency fits in an `i64`.
    pub open spec fn wf(self) -> bool {
        &&& levels_ok(self.bids)
        &&& levels_ok(self.asks)
        &&& self.funding.wf()
        &&& self.borrow.wf()
        &&& self.fee_state.wf()
        &&& opt_dec_wf(self.taker_fee_override)
        &&& opt_dec_wf(self.last_trade_price)
        &&& opt_dec_wf(self.mark_price)
        &&& (self.last_bar matches Some(b) ==> b.close.wf())
        &&& forall|i: int| 0 <= i < self.pending.len() ==> pending_ok(#[trigger] self.pending[i], self.latency_ns)
        &&& forall|i: int| 0 <= i < self.resting.len() ==> (#[trigger] self.resting[i]).order.wf()
    }

    /// A fresh engine: empty book, bar fidelity, nothing buffered or resting,
    /// no prices seen, not halted, fresh extension states.
    pub open spec fn fresh(latency_ns: i64, taker_fee_override: Option<Dec>) -> EngineModel {
        EngineModel {
            bids: Seq::empty(),
            asks: Seq::empty(),
            fidelity: FidelityLevel::Bar,
            last_bar: None,
            pending: Seq::empty(),
            resting: Seq::empty(),
            last_trade_price: None,
            mark_price: None,
            is_halted: false,
            latency_ns,
            session: SessionState::spec_new(),
            funding: FundingState::spec_new(),
            borrow: BorrowState::spec_new(),
            fee_state: DynamicFeeState::spec_new(),
            taker_fee_override,
        }
    }

    /// The taker rate in force: a dynamic update, else the run-level override.
    pub open spec fn taker_override(self) -> Option<Dec> {
        match self.fee_state.taker_bps {
            Some(b) => Some(b),
            None => self.taker_fee_override,
        }
    }
}

impl OrderBookEngine {
    /// The state as values.
    pub closed spec fn model(&self) -> EngineModel {
        EngineModel {
            bids: self.book.bids_view(),
            asks: self.book.asks_view(),
            fidelity: self.fidelity,
            last_bar: self.last_bar,
            pending: self.pending_market_orders@,
            resting: self.resting_orders@,
            last_trade_price: self.last_trade_price,
            mark_price: self.mark_price,
            is_halted: self.is_halted,
            latency_ns: self.latency_ns,
            session: self.session,
            funding: self.funding,
            borrow: self.borrow,
            fee_state: self.fee_state,
            taker_fee_override: self.taker_fee_override,
        }
    }

    pub open spec fn wf(&self) -> bool {
        self.model().wf()
    }

    /// A fresh engine: empty book, bar fidelity, nothing buffered or resting,
    /// not halted, fresh extension states.
    pub fn new(latency_ns: i64, taker_fee_override: Option<Dec>) -> (r: OrderBookEngine)
        requires
            opt_dec_wf(taker_fee_override),
        ensures
            r.wf(),
            r.model() == EngineModel::fresh(latency_ns, taker_fee_override),
    {
        OrderBookEngine {
            book: BookView::new(),
            fidelity: FidelityLevel::Bar,
            last_bar: None,
            pending_market_orders: Vec::new(),
            resting_orders: Vec::new(),
            last_trade_price: None,
            mark_price: None,
            is_halted: false,
            latency_ns,
            session: SessionState::new(),
            funding: FundingState::new(),
            borrow: BorrowState::new(),
            fee_state: DynamicFeeState::new(),
            taker_fee_override,
        }
    }

    /// The effective taker rate: a dynamic fee update, else the run-level override.
    fn effective_taker_bps(&self, _instrument: &Instrument) -> (r: Option<Dec>)
        requires
            self.wf(),
        ensures
            r == self.model().taker_override(),
            opt_dec_wf(r),
    {
        if let Some(bps) = self.fee_state.taker_bps {
            return Some(bps);
        }
        if let Some(bps) = self.taker_fee_override {
            return Some(bps);
        }
        None
    }
}


/// The reason a day, IOC or FOK order is cancelled at a bar it did not fill on.
pub open spec fn expired_reason(t: TimeInForce) -> Seq<char> {
    match t {
        TimeInForce::Gtc => "cancelled: Gtc order expired"@,
        TimeInForce::Ioc => "cancelled: Ioc order expired"@,
        TimeInForce::Fok => "cancelled: Fok order expired"@,
        TimeInForce::Day => "cancelled: Day order expired"@,
    }
}

fn expired_reason_text(t: TimeInForce) -> (r: String)
    ensures
        r@ == expired_reason(t),
{
    match t {
        TimeInForce::Gtc => String::from_str("cancelled: Gtc order expired"),
        TimeInForce::Ioc => String::from_str("cancelled: Ioc order expired"),
        TimeInForce::Fok => String::from_str("cancelled: Fok order expired"),
        TimeInForce::Day => String::from_str("cancelled: Day order expired"),
    }
}

/// Whether a bar with this high and low triggers a resting order: a buy limit
/// when `low <= limit`, a sell limit when `high >= limit`, a buy stop when
/// `high >= stop`, a sell stop when `low <= stop`; never an unknown side or a
/// market order. `None` when the limit or stop price is missing.
pub open spec fn bar_trigger(o: Order, high: Dec, low: Dec) -> Option<bool> {
    match o.order_type {
        OrderType::Limit => match o.limit_price {
            None => None,
            Some(l) => Some(
                match o.side {
                    Side::Buy => Dec::le(low, l),
                    Side::Sell => Dec::le(l, high),
                    Side::Unknown => false,
                },
            ),
        },
        OrderType::Stop | OrderType::StopLimit => match o.stop_price {
            None => None,
            Some(st) => Some(
                match o.side {
                    Side::Buy => Dec::le(st, high),
                    Side::Sell => Dec::le(low, st),
                    Side::Unknown => false,
                },
            ),
        },
        OrderType::Market => Some(false),
    }
}

/// The price a triggered order fills at on a bar: the limit price; for stops
/// the worse of stop and open (gap risk); the open otherwise.
pub open spec fn bar_fill_price(o: Order, open: Dec) -> Dec {
    match o.order_type {
        OrderType::Limit => match o.limit_price {
            Some(l) => l,
            None => open,
        },
        OrderType::Stop | OrderType::StopLimit => {
            let st = match o.stop_price {
                Some(x) => x,
                None => open,
            };
            match o.side {
                Side::Buy => st.spec_max(open),
                Side::Sell => st.spec_min(open),
                Side::Unknown => st,
            }
        },
        OrderType::Market => open,
    }
}

/// The full fill of a triggered resting order at `price`: maker fee for
/// limit orders, slippage against `reference`.
pub open spec fn triggered_fill(
    o: Order,
    price: Dec,
    reference: Dec,
    ts: Timestamp,
    sched: Option<&Vec<FeeTier>>,
    ovr: Option<Dec>,
    fidelity: FidelityLevel,
) -> Result<Fill, Overflow> {
    match spec_fee(o.quantity, price, fee_bps(o.order_type == OrderType::Limit, sched, ovr)) {
        Ok(fees) => match spec_slippage(price, reference, o.side) {
            Ok(slippage_bps) => Ok(
                Fill {
                    instrument_id: o.instrument_id,
                    side: o.side,
                    fill_price: price,
                    fill_qty: o.quantity,
                    fees,
                    slippage_bps,
                    ts_fill: ts,
                    partial: false,
                    fidelity,
                },
            ),
            Err(e) => Err(e),
        },
        Err(e) => Err(e),
    }
}

/// A bar fills a buffered market order at its open once the order is active
/// (decision time plus latency not after the bar); otherwise it stays buffered.
pub open spec fn bar_pending_step(
    lat: i64,
    open: Dec,
    ts: Timestamp,
    sched: Option<&Vec<FeeTier>>,
    ovr: Option<Dec>,
) -> spec_fn((Seq<(Order, Timestamp)>, Emitted), (Order, Timestamp)) -> Result<(Seq<(Order, Timestamp)>, Emitted), Overflow> {
    |acc: (Seq<(Order, Timestamp)>, Emitted), it: (Order, Timestamp)|
        if it.1 + lat > ts {
            Ok((acc.0.push(it), acc.1))
        } else {
            match spec_fill_at_price(&it.0, open, ts, sched, ovr, open) {
                Ok(f) => Ok((acc.0, em_fill(acc.1, it.0, it.1, f))),
                Err(e) => Err(e),
            }
        }
}

/// A bar checks an active resting order: triggered, it fills in full at
/// [`bar_fill_price`]; untriggered, a GTC order stays and a day, IOC or FOK
/// order is cancelled; inactive or without its price, it stays.
pub open spec fn bar_resting_step(
    open: Dec,
    high: Dec,
    low: Dec,
    ts: Timestamp,
    sched: Option<&Vec<FeeTier>>,
    ovr: Option<Dec>,
) -> spec_fn((Seq<RestingOrder>, Emitted), RestingOrder) -> Result<(Seq<RestingOrder>, Emitted), Overflow> {
    |acc: (Seq<RestingOrder>, Emitted), r: RestingOrder|
        if r.active_ts > ts {
            Ok((acc.0.push(r), acc.1))
        } else {
            match bar_trigger(r.order, high, low) {
                None => Ok((acc.0.push(r), acc.1)),
                Some(true) => {
                    let p = bar_fill_price(r.order, open);
                    match triggered_fill(r.order, p, p, ts, sched, ovr, FidelityLevel::Bar) {
                        Ok(f) => Ok((acc.0, em_fill(acc.1, r.order, r.submitted_ts, f))),
                        Err(e) => Err(e),
                    }
                },
                Some(false) => match r.order.time_in_force {
                    TimeInForce::Gtc => Ok((acc.0.push(r), acc.1)),
                    _ => Ok(
                        (
                            acc.0,
                            em_reject(acc.1, r.order, r.submitted_ts, ts, expired_reason(r.order.time_in_force)),
                        ),
                    ),
                },
            }
        }
}

/// A bar: fill buffered market orders at the open, check resting orders
/// against high and low, remember the bar and its close as last trade price,
/// raise bar fidelity to L2 when the book has levels, and mark the account at the close.
pub open spec fn spec_handle_bar(
    m: EngineModel,
    inst: &Instrument,
    open: Dec,
    high: Dec,
    low: Dec,
    close: Dec,
    ts: Timestamp,
    em0: Emitted,
) -> Result<(EngineModel, Emitted), Overflow> {
    let sched = sched_of(inst);
    let ovr = m.taker_override();
    match fold_steps(m.pending, (Seq::empty(), em0), bar_pending_step(m.latency_ns, open, ts, sched, ovr)) {
        Err(e) => Err(e),
        Ok((kept_p, em1)) => match fold_steps(m.resting, (Seq::empty(), em1), bar_resting_step(open, high, low, ts, sched, ovr)) {
            Err(e) => Err(e),
            Ok((kept_r, em2)) => Ok(
                (
                    EngineModel {
                        pending: kept_p,
                        resting: kept_r,
                        last_bar: Some(SavedBar { open, high, low, close, ts }),
                        last_trade_price: Some(close),
                        fidelity: if m.fidelity == FidelityLevel::Bar && !(m.bids.len() == 0 && m.asks.len() == 0) {
                            FidelityLevel::L2
                        } else {
                            m.fidelity
                        },
                        ..m
                    },
                    em_op(em2, AccountOp::UpdateMarkPrice(inst.id, close)),
                ),
            ),
        },
    }
}

proof fn lemma_emitted_ok_fill(em: Emitted, order: Order, decision_ts: Timestamp, fill: Fill)
    requires
        fill.wf(),
    ensures
        emitted_ok(em) ==> emitted_ok(em_fill(em, order, decision_ts, fill)),
{
    let e2 = em_fill(em, order, decision_ts, fill);
    if emitted_ok(em) {
        assert forall|i: int| 0 <= i < e2.fills.len() implies (#[trigger] e2.fills[i]).wf() by {
            if i < em.fills.len() {
                assert(e2.fills[i] == em.fills[i]);
            }
        }
        assert forall|i: int| 0 <= i < e2.records.len() implies record_ok(#[trigger] e2.records[i]) by {
            if i < em.records.len() {
                assert(e2.records[i] == em.records[i]);
            }
        }
        assert forall|i: int| 0 <= i < e2.ops.len() implies op_ok(#[trigger] e2.ops[i]) by {
            if i < em.ops.len() {
                assert(e2.ops[i] == em.ops[i]);
            }
        }
    }
}

proof fn lemma_emitted_ok_reject(em: Emitted, order: Order, decision_ts: Timestamp, ts: Timestamp, reason: Seq<char>)
    ensures
        emitted_ok(em) ==> emitted_ok(em_reject(em, order, decision_ts, ts, reason)),
{
    let e2 = em_reject(em, order, decision_ts, ts, reason);
    if emitted_ok(em) {
        assert forall|i: int| 0 <= i < e2.records.len() implies record_ok(#[trigger] e2.records[i]) by {
            if i < em.records.len() {
                assert(e2.records[i] == em.records[i]);
            }
        }
    }
}

proof fn lemma_emitted_ok_op(em: Emitted, op: AccountOp)
    requires
        op_ok(op),
    ensures
        emitted_ok(em) ==> emitted_ok(em_op(em, op)),
{
    let e2 = em_op(em, op);
    if emitted_ok(em) {
        assert forall|i: int| 0 <= i < e2.ops.len() implies op_ok(#[trigger] e2.ops[i]) by {
            if i < em.ops.len() {
                assert(e2.ops[i] == em.ops[i]);
            }
        }
    }
}

/// Emits a fill: tells the account, keeps the fill and its trade record.
fn emit_fill(ctx: &mut EngineContext, order: &Order, decision_ts: Timestamp, fill: Fill)
    requires
        fill.wf(),
    ensures
        emitted_ok(old(ctx).emitted()) ==> emitted_ok(final(ctx).emitted()),
        final(ctx).emitted() == em_fill(old(ctx).emitted(), *order, decision_ts, fill),
        final(ctx).same_inputs(old(ctx)),
{
    let record = TradeRecord {
        ts_decision: decision_ts,
        ts_fill: fill.ts_fill,
        instrument_id: order.instrument_id.clone(),
        side: order.side,
        order_type: order.order_type,
        fill_price: fill.fill_price,
        fill_qty: fill.fill_qty,
        fees: fill.fees,
        slippage_bps: fill.slippage_bps,
        partial: fill.partial,
        fidelity: fill.fidelity,
        rejected: false,
        reject_reason: None,
    };
    let ghost em0 = ctx.emitted();
    ctx.account_ops.push(AccountOp::ReportFill(fill.copy()));
    ctx.fills.push(fill);
    let ghost before = ctx.trade_records@;
    ctx.trade_records.push(record);
    proof {
        assert(ctx.trade_records@.map_values(|r: TradeRecord| r.view()) =~= before.map_values(
            |r: TradeRecord| r.view(),
        ).push(record.view()));
        lemma_emitted_ok_fill(em0, *order, decision_ts, fill);
    }
}

/// Emits the record of a rejected or cancelled order.
fn emit_reject(ctx: &mut EngineContext, order: &Order, decision_ts: Timestamp, ts: Timestamp, reason: String)
    ensures
        emitted_ok(old(ctx).emitted()) ==> emitted_ok(final(ctx).emitted()),
        final(ctx).emitted() == em_reject(old(ctx).emitted(), *order, decision_ts, ts, reason@),
        final(ctx).same_inputs(old(ctx)),
{
    let record = TradeRecord {
        ts_decision: decision_ts,
        ts_fill: ts,
        instrument_id: order.instrument_id.clone(),
        side: order.side,
        order_type: order.order_type,
        fill_price: Dec::zero(),
        fill_qty: Dec::zero(),
        fees: Dec::zero(),
        slippage_bps: Dec::zero(),
        partial: false,
        fidelity: FidelityLevel::Bar,
        rejected: true,
        reject_reason: Some(reason),
    };
    let ghost em0 = ctx.emitted();
    let ghost before = ctx.trade_records@;
    ctx.trade_records.push(record);
    proof {
        assert(ctx.trade_records@.map_values(|r: TradeRecord| r.view()) =~= before.map_values(
            |r: TradeRecord| r.view(),
        ).push(record.view()));
        lemma_emitted_ok_reject(em0, *order, decision_ts, ts, reason@);
    }
}

/// Emits an account call.
fn emit_op(ctx: &mut EngineContext, op: AccountOp)
    requires
        op_ok(op),
    ensures
        emitted_ok(old(ctx).emitted()) ==> emitted_ok(final(ctx).emitted()),
        final(ctx).emitted() == em_op(old(ctx).emitted(), op),
        final(ctx).same_inputs(old(ctx)),
{
    let ghost em0 = ctx.emitted();
    ctx.account_ops.push(op);
    proof {
        lemma_emitted_ok_op(em0, op);
    }
}

fn exec_bar_trigger(o: &Order, high: Dec, low: Dec) -> (r: Option<bool>)
    requires
        o.wf(),
        high.wf(),
        low.wf(),
    ensures
        r == bar_trigger(*o, high, low),
{
    match o.order_type {
        OrderType::Limit => match o.limit_price {
            None => None,
            Some(l) => Some(
                match o.side {
                    Side::Buy => low.less_eq(&l),
                    Side::Sell => l.less_eq(&high),
                    Side::Unknown => false,
                },
            ),
        },
        OrderType::Stop | OrderType::StopLimit => match o.stop_price {
            None => None,
            Some(st) => Some(
                match o.side {
                    Side::Buy => st.less_eq(&high),
                    Side::Sell => low.less_eq(&st),
                    Side::Unknown => false,
                },
            ),
        },
        OrderType::Market => Some(false),
    }
}

fn exec_bar_fill_price(o: &Order, open: Dec) -> (r: Dec)
    requires
        o.wf(),
        open.wf(),
    ensures
        r == bar_fill_price(*o, open),
        r.wf(),
{
    match o.order_type {
        OrderType::Limit => match o.limit_price {
            Some(l) => l,
            None => open,
        },
        OrderType::Stop | OrderType::StopLimit => {
            let st = match o.stop_price {
                Some(x) => x,
                None => open,
            };
            match o.side {
                Side::Buy => st.max(open),
                Side::Sell => st.min(open),
                Side::Unknown => st,
            }
        },
        OrderType::Market => open,
    }
}

fn exec_triggered_fill(
    o: &Order,
    price: Dec,
    reference: Dec,
    ts: Timestamp,
    sched: Option<&Vec<FeeTier>>,
    ovr: Option<Dec>,
    fidelity: FidelityLevel,
) -> (r: Result<Fill, Overflow>)
    requires
        o.wf(),
        price.wf(),
        reference.wf(),
        schedule_wf(sched),
        opt_dec_wf(ovr),
    ensures
        r == triggered_fill(*o, price, reference, ts, sched, ovr, fidelity),
        r matches Ok(f) ==> f.wf(),
{
    let is_maker = o.order_type == OrderType::Limit;
    let fees = compute_fee(o.quantity, price, is_maker, sched, ovr)?;
    let slippage_bps = compute_slippage_bps(price, reference, &o.side)?;
    Ok(
        Fill {
            instrument_id: o.instrument_id.clone(),
            side: o.side,
            fill_price: price,
            fill_qty: o.quantity,
            fees,
            slippage_bps,
            ts_fill: ts,
            partial: false,
            fidelity,
        },
    )
}

impl OrderBookEngine {
    /// Processes a bar; see [`spec_handle_bar`]. Overflow is reported as `Err`.
    fn handle_bar(
        &mut self,
        open: Dec,
        high: Dec,
        low: Dec,
        close: Dec,
        ts: Timestamp,
        ctx: &mut EngineContext,
    ) -> (r: Result<(), Overflow>)
        requires
            old(self).wf(),
            open.wf(),
            high.wf(),
            low.wf(),
            close.wf(),
            old(ctx).instrument.wf(),
            emitted_ok(old(ctx).emitted()),
        ensures
            final(ctx).same_inputs(old(ctx)),
            emitted_ok(final(ctx).emitted()),
            final(self).model().session == old(self).model().session,
            match spec_handle_bar(old(self).model(), old(ctx).instrument, open, high, low, close, ts, old(ctx).emitted()) {
                Ok((m, em)) => r is Ok && final(self).model() == m && final(self).wf() && final(ctx).emitted() == em,
                Err(_) => r is Err,
            },
    {
        let instrument = ctx.instrument;
        let fee_schedule = schedule_of(instrument);
        let taker_override = self.effective_taker_bps(instrument);
        let lat = self.latency_ns;
        let ghost m0 = self.model();
        let ghost em0 = ctx.emitted();
        let ghost ctx0 = *ctx;
        // market orders buffered for this bar's open
        let ghost pstep = bar_pending_step(lat, open, ts, fee_schedule, taker_override);
        let mut pending: Vec<(Order, Timestamp)> = Vec::new();
        std::mem::swap(&mut pending, &mut self.pending_market_orders);
        let mut kept: Vec<(Order, Timestamp)> = Vec::new();
        proof {
            lemma_fold_start(pending@, (Seq::<(Order, Timestamp)>::empty(), em0), pstep);
        }
        let mut i: usize = 0;
        while i < pending.len()
            invariant
                emitted_ok(ctx.emitted()),
                0 <= i <= pending.len(),
                pending@ == m0.pending,
                m0.wf(),
                lat == m0.latency_ns,
                open.wf(),
                schedule_wf(fee_schedule),
                opt_dec_wf(taker_override),
                pstep == bar_pending_step(lat, open, ts, fee_schedule, taker_override),
                fold_steps(pending@.take(i as int), (Seq::<(Order, Timestamp)>::empty(), em0), pstep) == Ok::<
                    (Seq<(Order, Timestamp)>, Emitted),
                    Overflow,
                >((kept@, ctx.emitted())),
                forall|j: int| 0 <= j < kept@.len() ==> pending_ok(#[trigger] kept@[j], lat),
                ctx.same_inputs(&ctx0),
                self.session == old(self).session,
                ctx0 == *old(ctx),
                m0 == old(self).model(),
                em0 == old(ctx).emitted(),
                fee_schedule == sched_of(old(ctx).instrument),
                taker_override == m0.taker_override(),
            decreases pending.len() - i,
        {
            proof {
                lemma_fold_next(pending@, (Seq::<(Order, Timestamp)>::empty(), em0), pstep, i as int);
                assert(pending_ok(pending@[i as int], lat));
            }
            let dts = pending[i].1;
            let order = &pending[i].0;
            if dts + lat > ts {
                kept.push((order.copy(), dts));
            } else {
                let fill = match fill_at_price(order, open, ts, fee_schedule, taker_override, open) {
                    Ok(f) => f,
                    Err(e) => {
                        proof {
                            lemma_fold_err(pending@, (Seq::<(Order, Timestamp)>::empty(), em0), pstep, i + 1);
                        }
                        return Err(e);
                    },
                };
                emit_fill(ctx, order, dts, fill);
            }
            i = i + 1;
        }
        proof {
            lemma_fold_start(pending@, (Seq::<(Order, Timestamp)>::empty(), em0), pstep);
        }
        let ghost em1 = ctx.emitted();
        // resting limit and stop orders against the bar's range
        let ghost rstep = bar_resting_step(open, high, low, ts, fee_schedule, taker_override);
        let mut resting: Vec<RestingOrder> = Vec::new();
        std::mem::swap(&mut resting, &mut self.resting_orders);
        let mut still: Vec<RestingOrder> = Vec::new();
        proof {
            lemma_fold_start(resting@, (Seq::<RestingOrder>::empty(), em1), rstep);
        }
        let mut k: usize = 0;
        while k < resting.len()
            invariant
                emitted_ok(ctx.emitted()),
                0 <= k <= resting.len(),
                resting@ == m0.resting,
                m0.wf(),
                open.wf(),
                high.wf(),
                low.wf(),
                schedule_wf(fee_schedule),
                opt_dec_wf(taker_override),
                rstep == bar_resting_step(open, high, low, ts, fee_schedule, taker_override),
                fold_steps(resting@.take(k as int), (Seq::<RestingOrder>::empty(), em1), rstep) == Ok::<
                    (Seq<RestingOrder>, Emitted),
                    Overflow,
                >((still@, ctx.emitted())),
                forall|j: int| 0 <= j < still@.len() ==> (#[trigger] still@[j]).order.wf(),
                ctx.same_inputs(&ctx0),
                self.session == old(self).session,
                ctx0 == *old(ctx),
                m0 == old(self).model(),
                em0 == old(ctx).emitted(),
                fee_schedule == sched_of(old(ctx).instrument),
                taker_override == m0.taker_override(),
                fold_steps(m0.pending, (Seq::<(Order, Timestamp)>::empty(), em0), bar_pending_step(lat, open, ts, fee_schedule, taker_override))
                    == Ok::<(Seq<(Order, Timestamp)>, Emitted), Overflow>((kept@, em1)),
                lat == m0.latency_ns,
            decreases resting.len() - k,
        {
            proof {
                lemma_fold_next(resting@, (Seq::<RestingOrder>::empty(), em1), rstep, k as int);
                assert(resting@[k as int].order.wf());
            }
            let ro = &resting[k];
            if ro.active_ts > ts {
                still.push(ro.copy());
            } else {
                match exec_bar_trigger(&ro.order, high, low) {
                    None => {
                        still.push(ro.copy());
                    },
                    Some(true) => {
                        let p = exec_bar_fill_price(&ro.order, open);
                        let fill = match exec_triggered_fill(
                            &ro.order,
                            p,
                            p,
                            ts,
                            fee_schedule,
                            taker_override,
                            FidelityLevel::Bar,
                        ) {
                            Ok(f) => f,
                            Err(e) => {
                                proof {
                                    lemma_fold_err(resting@, (Seq::<RestingOrder>::empty(), em1), rstep, k + 1);
                                }
                                return Err(e);
                            },
                        };
                        emit_fill(ctx, &ro.order, ro.submitted_ts, fill);
                    },
                    Some(false) => {
                        match ro.order.time_in_force {
                            TimeInForce::Gtc => {
                                still.push(ro.copy());
                            },
                            _ => {
                                let reason = expired_reason_text(ro.order.time_in_force);
                                emit_reject(ctx, &ro.order, ro.submitted_ts, ts, reason);
                            },
                        }
                    },
                }
            }
            k = k + 1;
        }
        proof {
            lemma_fold_start(resting@, (Seq::<RestingOrder>::empty(), em1), rstep);
        }
        self.pending_market_orders = kept;
        self.resting_orders = still;
        self.last_bar = Some(SavedBar { open, high, low, close, ts });
        self.last_trade_price = Some(close);
        if self.fidelity == FidelityLevel::Bar && !self.book.is_empty() {
            self.fidelity = FidelityLevel::L2;
        }
        emit_op(ctx, AccountOp::UpdateMarkPrice(instrument.id.clone(), close));
        Ok(())
    }
}


/// A quote fills an active buffered market order at the L1 touch when there is
/// one; otherwise the order stays buffered.
pub open spec fn quote_pending_step(
    lat: i64,
    bids: Seq<(Dec, Dec)>,
    asks: Seq<(Dec, Dec)>,
    ts: Timestamp,
    sched: Option<&Vec<FeeTier>>,
    ovr: Option<Dec>,
) -> spec_fn((Seq<(Order, Timestamp)>, Emitted), (Order, Timestamp)) -> Result<(Seq<(Order, Timestamp)>, Emitted), Overflow> {
    |acc: (Seq<(Order, Timestamp)>, Emitted), it: (Order, Timestamp)|
        if it.1 + lat > ts {
            Ok((acc.0.push(it), acc.1))
        } else {
            match spec_fill_l1(&it.0, bids, asks, ts, sched, ovr) {
                Ok(Some(f)) => Ok((acc.0, em_fill(acc.1, it.0, it.1, f))),
                Ok(None) => Ok((acc.0.push(it), acc.1)),
                Err(e) => Err(e),
            }
        }
}

/// A quote: the current best bid and ask; better levels left from earlier
/// data are stale and dropped, and the quote's levels are set (see
/// [`quote_bids`], [`quote_asks`]), bar fidelity becomes L1, and active buffered
/// market orders try an L1 fill.
pub open spec fn spec_handle_quote(
    m: EngineModel,
    inst: &Instrument,
    bid: Dec,
    bid_size: Dec,
    ask: Dec,
    ask_size: Dec,
    ts: Timestamp,
    em0: Emitted,
) -> Result<(EngineModel, Emitted), Overflow> {
    let bids = quote_bids(m.bids, bid, bid_size);
    let asks = quote_asks(m.asks, ask, ask_size);
    let fidelity = if m.fidelity == FidelityLevel::Bar { FidelityLevel::L1 } else { m.fidelity };
    match fold_steps(m.pending, (Seq::empty(), em0), quote_pending_step(m.latency_ns, bids, asks, ts, sched_of(inst), m.taker_override())) {
        Err(e) => Err(e),
        Ok((kept, em)) => Ok((EngineModel { bids, asks, fidelity, pending: kept, ..m }, em)),
    }
}

/// Whether a trade at `price` triggers a resting order: a buy limit at or
/// below its limit, a sell limit at or above, a buy stop at or above its stop,
/// a sell stop at or below; `None` when the limit or stop price is missing.
pub open spec fn trade_trigger(o: Order, price: Dec) -> Option<bool> {
    match o.order_type {
        OrderType::Limit => match o.limit_price {
            None => None,
            Some(l) => Some(
                match o.side {
                    Side::Buy => Dec::le(price, l),
                    Side::Sell => Dec::le(l, price),
                    Side::Unknown => false,
                },
            ),
        },
        OrderType::Stop | OrderType::StopLimit => match o.stop_price {
            None => None,
            Some(st) => Some(
                match o.side {
                    Side::Buy => Dec::le(st, price),
                    Side::Sell => Dec::le(price, st),
                    Side::Unknown => false,
                },
            ),
        },
        OrderType::Market => Some(false),
    }
}

/// The price a trade-triggered order fills at: its limit price, else its stop
/// price, else the trade price.
pub open spec fn trade_fill_price(o: Order, price: Dec) -> Dec {
    match o.limit_price {
        Some(l) => l,
        None => match o.stop_price {
            Some(st) => st,
            None => price,
        },
    }
}

/// A trade fills an active, triggered resting order in full (L1 fidelity,
/// slippage against the trade price); every other order stays.
pub open spec fn trade_resting_step(
    price: Dec,
    ts: Timestamp,
    sched: Option<&Vec<FeeTier>>,
    ovr: Option<Dec>,
) -> spec_fn((Seq<RestingOrder>, Emitted), RestingOrder) -> Result<(Seq<RestingOrder>, Emitted), Overflow> {
    |acc: (Seq<RestingOrder>, Emitted), r: RestingOrder|
        if r.active_ts > ts {
            Ok((acc.0.push(r), acc.1))
        } else {
            match trade_trigger(r.order, price) {
                Some(true) => match triggered_fill(r.order, trade_fill_price(r.order, price), price, ts, sched, ovr, FidelityLevel::L1) {
                    Ok(f) => Ok((acc.0, em_fill(acc.1, r.order, r.submitted_ts, f))),
                    Err(e) => Err(e),
                },
                _ => Ok((acc.0.push(r), acc.1)),
            }
        }
}

/// Checking the resting orders against a trade at `price`.
pub open spec fn spec_check_resting(m: EngineModel, inst: &Instrument, price: Dec, ts: Timestamp, em0: Emitted) -> Result<(EngineModel, Emitted), Overflow> {
    match fold_steps(m.resting, (Seq::empty(), em0), trade_resting_step(price, ts, sched_of(inst), m.taker_override())) {
        Err(e) => Err(e),
        Ok((kept, em)) => Ok((EngineModel { resting: kept, ..m }, em)),
    }
}

/// A trade: its price becomes the last trade price, the account is marked at
/// it, and resting orders are checked against it.
pub open spec fn spec_handle_trade(m: EngineModel, inst: &Instrument, price: Dec, ts: Timestamp, em0: Emitted) -> Result<(EngineModel, Emitted), Overflow> {
    spec_check_resting(
        EngineModel { last_trade_price: Some(price), ..m },
        inst,
        price,
        ts,
        em_op(em0, AccountOp::UpdateMarkPrice(inst.id, price)),
    )
}

fn exec_trade_trigger(o: &Order, price: Dec) -> (r: Option<bool>)
    requires
        o.wf(),
        price.wf(),
    ensures
        r == trade_trigger(*o, price),
{
    match o.order_type {
        OrderType::Limit => match o.limit_price {
            None => None,
            Some(l) => Some(
                match o.side {
                    Side::Buy => price.less_eq(&l),
                    Side::Sell => l.less_eq(&price),
                    Side::Unknown => false,
                },
            ),
        },
        OrderType::Stop | OrderType::StopLimit => match o.stop_price {
            None => None,
            Some(st) => Some(
                match o.side {
                    Side::Buy => st.less_eq(&price),
                    Side::Sell => price.less_eq(&st),
                    Side::Unknown => false,
                },
            ),
        },
        OrderType::Market => Some(false),
    }
}

impl OrderBookEngine {
    /// Processes a quote; see [`spec_handle_quote`].
    fn handle_quote(
        &mut self,
        bid: Dec,
        bid_size: Dec,
        ask: Dec,
        ask_size: Dec,
        ts: Timestamp,
        ctx: &mut EngineContext,
    ) -> (r: Result<(), Overflow>)
        requires
            old(self).wf(),
            bid.wf(),
            bid_size.wf(),
            ask.wf(),
            ask_size.wf(),
            old(ctx).instrument.wf(),
            emitted_ok(old(ctx).emitted()),
        ensures
            final(ctx).same_inputs(old(ctx)),
            emitted_ok(final(ctx).emitted()),
            final(self).model().session == old(self).model().session,
            match spec_handle_quote(old(self).model(), old(ctx).instrument, bid, bid_size, ask, ask_size, ts, old(ctx).emitted()) {
                Ok((m, em)) => r is Ok && final(self).model() == m && final(self).wf() && final(ctx).emitted() == em,
                Err(_) => r is Err,
            },
    {
        self.book.apply_quote(bid, bid_size, ask, ask_size);
        if self.fidelity == FidelityLevel::Bar {
            self.fidelity = FidelityLevel::L1;
        }
        let instrument = ctx.instrument;
        let fee_schedule = schedule_of(instrument);
        let taker_override = self.effective_taker_bps(instrument);
        let lat = self.latency_ns;
        let ghost m0 = old(self).model();
        let ghost em0 = ctx.emitted();
        let ghost ctx0 = *ctx;
        let ghost bids1 = self.book.bids_view();
        let ghost asks1 = self.book.asks_view();
        let ghost pstep = quote_pending_step(lat, bids1, asks1, ts, fee_schedule, taker_override);
        let mut pending: Vec<(Order, Timestamp)> = Vec::new();
        std::mem::swap(&mut pending, &mut self.pending_market_orders);
        let mut kept: Vec<(Order, Timestamp)> = Vec::new();
        proof {
            lemma_fold_start(pending@, (Seq::<(Order, Timestamp)>::empty(), em0), pstep);
        }
        let mut i: usize = 0;
        while i < pending.len()
            invariant
                emitted_ok(ctx.emitted()),
                0 <= i <= pending.len(),
                pending@ == m0.pending,
                m0.wf(),
                lat == m0.latency_ns,
                self.book.wf(),
                self.book.bids_view() == bids1,
                self.book.asks_view() == asks1,
                schedule_wf(fee_schedule),
                opt_dec_wf(taker_override),
                pstep == quote_pending_step(lat, bids1, asks1, ts, fee_schedule, taker_override),
                fold_steps(pending@.take(i as int), (Seq::<(Order, Timestamp)>::empty(), em0), pstep) == Ok::<
                    (Seq<(Order, Timestamp)>, Emitted),
                    Overflow,
                >((kept@, ctx.emitted())),
                forall|j: int| 0 <= j < kept@.len() ==> pending_ok(#[trigger] kept@[j], lat),
                ctx.same_inputs(&ctx0),
                self.session == old(self).session,
                ctx0 == *old(ctx),
                em0 == old(ctx).emitted(),
                m0 == old(self).model(),
                fee_schedule == sched_of(old(ctx).instrument),
                taker_override == m0.taker_override(),
                bids1 == quote_bids(m0.bids, bid, bid_size),
                asks1 == quote_asks(m0.asks, ask, ask_size),
            decreases pending.len() - i,
        {
            proof {
                lemma_fold_next(pending@, (Seq::<(Order, Timestamp)>::empty(), em0), pstep, i as int);
                assert(pending_ok(pending@[i as int], lat));
            }
            let dts = pending[i].1;
            let order = &pending[i].0;
            if dts + lat > ts {
                kept.push((order.copy(), dts));
            } else {
                match fill_l1(order, &self.book, ts, fee_schedule, taker_override) {
                    Ok(Some(fill)) => {
                        emit_fill(ctx, order, dts, fill);
                    },
                    Ok(None) => {
                        kept.push((order.copy(), dts));
                    },
                    Err(e) => {
                        proof {
                            lemma_fold_err(pending@, (Seq::<(Order, Timestamp)>::empty(), em0), pstep, i + 1);
                        }
                        return Err(e);
                    },
                }
            }
            i = i + 1;
        }
        proof {
            lemma_fold_start(pending@, (Seq::<(Order, Timestamp)>::empty(), em0), pstep);
        }
        self.pending_market_orders = kept;
        Ok(())
    }

    /// Checks the resting orders against a trade; see [`spec_check_resting`].
    fn check_resting_on_trade(&mut self, price: Dec, ts: Timestamp, ctx: &mut EngineContext) -> (r: Result<(), Overflow>)
        requires
            old(self).wf(),
            price.wf(),
            old(ctx).instrument.wf(),
            emitted_ok(old(ctx).emitted()),
        ensures
            final(ctx).same_inputs(old(ctx)),
            emitted_ok(final(ctx).emitted()),
            final(self).model().session == old(self).model().session,
            match spec_check_resting(old(self).model(), old(ctx).instrument, price, ts, old(ctx).emitted()) {
                Ok((m, em)) => r is Ok && final(self).model() == m && final(self).wf() && final(ctx).emitted() == em,
                Err(_) => r is Err,
            },
    {
        let instrument = ctx.instrument;
        let fee_schedule = schedule_of(instrument);
        let taker_override = self.effective_taker_bps(instrument);
        let ghost m0 = self.model();
        let ghost em0 = ctx.emitted();
        let ghost ctx0 = *ctx;
        let ghost rstep = trade_resting_step(price, ts, fee_schedule, taker_override);
        let mut resting: Vec<RestingOrder> = Vec::new();
        std::mem::swap(&mut resting, &mut self.resting_orders);
        let mut still: Vec<RestingOrder> = Vec::new();
        proof {
            lemma_fold_start(resting@, (Seq::<RestingOrder>::empty(), em0), rstep);
        }
        let mut k: usize = 0;
        while k < resting.len()
            invariant
                emitted_ok(ctx.emitted()),
                0 <= k <= resting.len(),
                resting@ == m0.resting,
                m0.wf(),
                price.wf(),
                schedule_wf(fee_schedule),
                opt_dec_wf(taker_override),
                rstep == trade_resting_step(price, ts, fee_schedule, taker_override),
                fold_steps(resting@.take(k as int), (Seq::<RestingOrder>::empty(), em0), rstep) == Ok::<
                    (Seq<RestingOrder>, Emitted),
                    Overflow,
                >((still@, ctx.emitted())),
                forall|j: int| 0 <= j < still@.len() ==> (#[trigger] still@[j]).order.wf(),
                ctx.same_inputs(&ctx0),
                self.session == old(self).session,
                ctx0 == *old(ctx),
                em0 == old(ctx).emitted(),
                m0 == old(self).model(),
                fee_schedule == sched_of(old(ctx).instrument),
                taker_override == m0.taker_override(),
            decreases resting.len() - k,
        {
            proof {
                lemma_fold_next(resting@, (Seq::<RestingOrder>::empty(), em0), rstep, k as int);
                assert(resting@[k as int].order.wf());
            }
            let ro = &resting[k];
            if ro.active_ts > ts {
                still.push(ro.copy());
            } else {
                match exec_trade_trigger(&ro.order, price) {
                    Some(true) => {
                        let fp = match ro.order.limit_price {
                            Some(l) => l,
                            None => match ro.order.stop_price {
                                Some(st) => st,
                                None => price,
                            },
                        };
                        let fill = match exec_triggered_fill(
                            &ro.order,
                            fp,
                            price,
                            ts,
                            fee_schedule,
                            taker_override,
                            FidelityLevel::L1,
                        ) {
                            Ok(f) => f,
                            Err(e) => {
                                proof {
                                    lemma_fold_err(resting@, (Seq::<RestingOrder>::empty(), em0), rstep, k + 1);
                                }
                                return Err(e);
                            },
                        };
                        emit_fill(ctx, &ro.order, ro.submitted_ts, fill);
                    },
                    _ => {
                        still.push(ro.copy());
                    },
                }
            }
            k = k + 1;
        }
        proof {
            lemma_fold_start(resting@, (Seq::<RestingOrder>::empty(), em0), rstep);
        }
        self.resting_orders = still;
        Ok(())
    }

    /// Processes a trade; see [`spec_handle_trade`].
    fn handle_trade(&mut self, price: Dec, _size: Dec, ts: Timestamp, ctx: &mut EngineContext) -> (r: Result<(), Overflow>)
        requires
            old(self).wf(),
            price.wf(),
            old(ctx).instrument.wf(),
            emitted_ok(old(ctx).emitted()),
        ensures
            final(ctx).same_inputs(old(ctx)),
            emitted_ok(final(ctx).emitted()),
            final(self).model().session == old(self).model().session,
            match spec_handle_trade(old(self).model(), old(ctx).instrument, price, ts, old(ctx).emitted()) {
                Ok((m, em)) => r is Ok && final(self).model() == m && final(self).wf() && final(ctx).emitted() == em,
                Err(_) => r is Err,
            },
    {
        self.last_trade_price = Some(price);
        emit_op(ctx, AccountOp::UpdateMarkPrice(ctx.instrument.id.clone(), price));
        self.check_resting_on_trade(price, ts, ctx)
    }
}


/// The bid levels after a payload's book update.
pub open spec fn bids_after(bids: Seq<(Dec, Dec)>, p: MarketPayload) -> Seq<(Dec, Dec)> {
    match p {
        MarketPayload::BookDelta { side, price, new_size, action } => if side == Side::Buy {
            levels_apply(bids, price, new_size, action)
        } else {
            bids
        },
        MarketPayload::BookSnapshot { bids: b, .. } => levels_from_snapshot(b@),
        _ => bids,
    }
}

/// The ask levels after a payload's book update.
pub open spec fn asks_after(asks: Seq<(Dec, Dec)>, p: MarketPayload) -> Seq<(Dec, Dec)> {
    match p {
        MarketPayload::BookDelta { side, price, new_size, action } => if side == Side::Sell {
            levels_apply(asks, price, new_size, action)
        } else {
            asks
        },
        MarketPayload::BookSnapshot { asks: a, .. } => levels_from_snapshot(a@),
        _ => asks,
    }
}

/// Raising bar fidelity to L1.
pub open spec fn at_least_l1(f: FidelityLevel) -> FidelityLevel {
    if f == FidelityLevel::Bar { FidelityLevel::L1 } else { f }
}

/// An event: extension states are updated by capability (the session state
/// becomes `session`, see `session_rel`), the book by book payloads, then the
/// payload is handled: bars (and derived bars), quotes and trades as their
/// handlers say, L2 book data sets L2 fidelity, per-order data L3, mark
/// updates and funding set the mark price (mark updates also mark the account),
/// and a halted or suspended status halts trading.
pub open spec fn spec_on_event(
    m: EngineModel,
    inst: &Instrument,
    ev: &MarketEvent,
    em0: Emitted,
    session: SessionState,
) -> Result<(EngineModel, Emitted), Overflow> {
    let caps = inst.capabilities;
    let p = ev.payload;
    let ts = ev.ts_event;
    let m1 = EngineModel {
        session,
        funding: if caps.has(HAS_FUNDING) || caps.has(HAS_MARK_PRICE) {
            funding_after(m.funding, p)
        } else {
            m.funding
        },
        borrow: if caps.has(HAS_BORROW_RATE) || caps.has(HAS_SHORT_BORROW) {
            borrow_after(m.borrow, p)
        } else {
            m.borrow
        },
        fee_state: if caps.has(HAS_FEE_SCHEDULE_UPDATES) {
            fees_after(m.fee_state, p)
        } else {
            m.fee_state
        },
        bids: bids_after(m.bids, p),
        asks: asks_after(m.asks, p),
        ..m
    };
    match p {
        MarketPayload::Bar { open, high, low, close, .. } => spec_handle_bar(m1, inst, open, high, low, close, ts, em0),
        MarketPayload::DerivedBar { open, high, low, close, .. } => spec_handle_bar(m1, inst, open, high, low, close, ts, em0),
        MarketPayload::Quote { bid, bid_size, ask, ask_size } => match spec_handle_quote(m1, inst, bid, bid_size, ask, ask_size, ts, em0) {
            Ok((m2, em)) => Ok((EngineModel { fidelity: at_least_l1(m2.fidelity), ..m2 }, em)),
            Err(e) => Err(e),
        },
        MarketPayload::Trade { price, .. } => spec_handle_trade(EngineModel { fidelity: at_least_l1(m1.fidelity), ..m1 }, inst, price, ts, em0),
        MarketPayload::BookDelta { .. } | MarketPayload::BookSnapshot { .. } => Ok((EngineModel { fidelity: FidelityLevel::L2, ..m1 }, em0)),
        MarketPayload::OrderBookOrderEvent { .. } => Ok((EngineModel { fidelity: FidelityLevel::L3, ..m1 }, em0)),
        MarketPayload::MarkUpdate { mark_price, .. } => Ok(
            (EngineModel { mark_price: Some(mark_price), ..m1 }, em_op(em0, AccountOp::UpdateMarkPrice(inst.id, mark_price))),
        ),
        MarketPayload::Funding { mark_price, .. } => Ok((EngineModel { mark_price: Some(mark_price), ..m1 }, em0)),
        MarketPayload::TradingStatus { status, .. } => Ok(
            (
                EngineModel {
                    is_halted: match status {
                        TradingStatusKind::Halted | TradingStatusKind::Suspended => true,
                        _ => false,
                    },
                    ..m1
                },
                em0,
            ),
        ),
        _ => Ok((m1, em0)),
    }
}

impl OrderBookEngine {
    /// Processes a market event; see [`spec_on_event`]. Overflow is reported as `Err`.
    pub fn on_event(&mut self, ev: &MarketEvent, ctx: &mut EngineContext) -> (r: Result<(), Overflow>)
        requires
            old(self).wf(),
            ev.payload.wf(),
            old(ctx).instrument.wf(),
            emitted_ok(old(ctx).emitted()),
        ensures
            final(ctx).same_inputs(old(ctx)),
            emitted_ok(final(ctx).emitted()),
            session_rel(old(self).model().session, final(self).model().session, old(ctx).instrument, ev.payload),
            match spec_on_event(old(self).model(), old(ctx).instrument, ev, old(ctx).emitted(), final(self).model().session) {
                Ok((m, em)) => r is Ok && final(self).model() == m && final(self).wf() && final(ctx).emitted() == em,
                Err(_) => r is Err,
            },
    {
        let ts = ev.ts_event;
        dispatch_extensions(
            &ev.payload,
            ctx.instrument,
            &mut self.session,
            &mut self.funding,
            &mut self.borrow,
            &mut self.fee_state,
            &mut ctx.fills,
        );
        self.book.update_from_payload(&ev.payload);
        match &ev.payload {
            MarketPayload::Bar { open, high, low, close, .. } => {
                self.handle_bar(*open, *high, *low, *close, ts, ctx)
            },
            MarketPayload::DerivedBar { open, high, low, close, .. } => {
                self.handle_bar(*open, *high, *low, *close, ts, ctx)
            },
            MarketPayload::Quote { bid, bid_size, ask, ask_size } => {
                self.handle_quote(*bid, *bid_size, *ask, *ask_size, ts, ctx)?;
                if self.fidelity == FidelityLevel::Bar {
                    self.fidelity = FidelityLevel::L1;
                }
                Ok(())
            },
            MarketPayload::Trade { price, size, .. } => {
                if self.fidelity == FidelityLevel::Bar {
                    self.fidelity = FidelityLevel::L1;
                }
                self.handle_trade(*price, *size, ts, ctx)
            },
            MarketPayload::BookDelta { .. } | MarketPayload::BookSnapshot { .. } => {
                self.fidelity = FidelityLevel::L2;
                Ok(())
            },
            MarketPayload::OrderBookOrderEvent { .. } => {
                self.fidelity = FidelityLevel::L3;
                Ok(())
            },
            MarketPayload::MarkUpdate { mark_price, .. } => {
                self.mark_price = Some(*mark_price);
                emit_op(ctx, AccountOp::UpdateMarkPrice(ctx.instrument.id.clone(), *mark_price));
                Ok(())
            },
            MarketPayload::Funding { mark_price, .. } => {
                self.mark_price = Some(*mark_price);
                Ok(())
            },
            MarketPayload::TradingStatus { status, .. } => {
                self.is_halted = match status {
                    TradingStatusKind::Halted | TradingStatusKind::Suspended => true,
                    _ => false,
                };
                Ok(())
            },
            _ => Ok(()),
        }
    }
}


/// The reason an IOC or FOK limit order that cannot fill at once is rejected.
pub open spec fn immediate_reason(t: TimeInForce) -> Seq<char> {
    match t {
        TimeInForce::Gtc => "Gtc order could not be filled immediately"@,
        TimeInForce::Ioc => "Ioc order could not be filled immediately"@,
        TimeInForce::Fok => "Fok order could not be filled immediately"@,
        TimeInForce::Day => "Day order could not be filled immediately"@,
    }
}

fn immediate_reason_text(t: TimeInForce) -> (r: String)
    ensures
        r@ == immediate_reason(t),
{
    match t {
        TimeInForce::Gtc => String::from_str("Gtc order could not be filled immediately"),
        TimeInForce::Ioc => String::from_str("Ioc order could not be filled immediately"),
        TimeInForce::Fok => String::from_str("Fok order could not be filled immediately"),
        TimeInForce::Day => String::from_str("Day order could not be filled immediately"),
    }
}

/// Whether the rest of a partially filled order with this time in force
/// stays working; see [`keeps_rest`].
fn keeps_rest_now(t: TimeInForce) -> (r: bool)
    ensures
        r == keeps_rest(t),
{
    match t {
        TimeInForce::Gtc | TimeInForce::Day => true,
        TimeInForce::Ioc | TimeInForce::Fok => false,
    }
}

/// The rejection reason for an order type the engine does not support.
pub open spec fn unsupported_reason(t: OrderType) -> Seq<char> {
    match t {
        OrderType::Market => "unsupported order type: Market"@,
        OrderType::Limit => "unsupported order type: Limit"@,
        OrderType::Stop => "unsupported order type: Stop"@,
        OrderType::StopLimit => "unsupported order type: StopLimit"@,
    }
}

/// The rejection reason for an order type the engine does not support; see
/// [`unsupported_reason`].
fn unsupported_reason_text(t: OrderType) -> (r: String)
    ensures
        r@ == unsupported_reason(t),
{
    match t {
        OrderType::Market => String::from_str("unsupported order type: Market"),
        OrderType::Limit => String::from_str("unsupported order type: Limit"),
        OrderType::Stop => String::from_str("unsupported order type: Stop"),
        OrderType::StopLimit => String::from_str("unsupported order type: StopLimit"),
    }
}

/// Whether the unfilled rest of a partially filled order stays working: it
/// does for good-till-cancelled and day orders, not for IOC and FOK orders.
pub open spec fn keeps_rest(t: TimeInForce) -> bool {
    t is Gtc || t is Day
}

/// A fill at submission: the account is told, the fill and its record kept;
/// the result is a partial fill when the fill is partial, else a fill. The
/// rest of a partially filled order that keeps its rest (see [`keeps_rest`])
/// stays working for the remaining quantity: a market order's rest is
/// buffered for the next bar, a limit order's rest rests.
pub open spec fn submit_filled(m: EngineModel, em0: Emitted, order: Order, now: Timestamp, active: Timestamp, f: Fill) -> Result<
    (EngineModel, Emitted, ResultView),
    Overflow,
> {
    let em = em_fill(em0, order, now, f);
    let rv = if f.partial { ResultView::PartialFill(f) } else { ResultView::Filled(f) };
    if f.partial && keeps_rest(order.time_in_force) {
        match ssub(order.quantity, f.fill_qty) {
            Err(e) => Err(e),
            Ok(q) => {
                let rest = Order { quantity: q, ..order };
                if order.order_type is Market {
                    Ok((EngineModel { pending: m.pending.push((rest, now)), ..m }, em, rv))
                } else {
                    Ok((EngineModel { resting: m.resting.push(RestingOrder { order: rest, submitted_ts: now, active_ts: active }), ..m }, em, rv))
                }
            },
        }
    } else {
        Ok((m, em, rv))
    }
}

/// Submitting an order at time `now` (the clock's time); it can fill from
/// `now + latency`.
/// - Halted: rejected, reason "trading halted".
/// - Market: with book data, an L2 fill, else an L1 fill; without book data or
///   a fill, buffered for the next bar (result `Resting`).
/// - Limit: with book data and marketable, filled at the touch; else IOC and
///   FOK orders are rejected and others rest.
/// - Stop and stop-limit: rest.
pub open spec fn spec_submit(m: EngineModel, inst: &Instrument, order: Order, now: Timestamp, em0: Emitted) -> Result<
    (EngineModel, Emitted, ResultView),
    Overflow,
> {
    if m.is_halted {
        Ok((m, em_reject(em0, order, now, now, "trading halted"@), ResultView::Rejected("trading halted"@)))
    } else {
        let active = (now + m.latency_ns) as i64;
        let sched = sched_of(inst);
        let ovr = m.taker_override();
        let empty = m.bids.len() == 0 && m.asks.len() == 0;
        match order.order_type {
            OrderType::Market => {
                let attempt = if empty {
                    Ok(None)
                } else {
                    match spec_fill_l2(&order, m.bids, m.asks, active, sched, ovr) {
                        Ok(None) => spec_fill_l1(&order, m.bids, m.asks, active, sched, ovr),
                        other => other,
                    }
                };
                match attempt {
                    Err(e) => Err(e),
                    Ok(Some(f)) => submit_filled(m, em0, order, now, active, f),
                    Ok(None) => Ok((EngineModel { pending: m.pending.push((order, now)), ..m }, em0, ResultView::Resting)),
                }
            },
            OrderType::Limit => {
                let attempt = if empty {
                    Ok(None)
                } else {
                    spec_try_fill_limit(&order, m.bids, m.asks, active, sched, ovr)
                };
                match attempt {
                    Err(e) => Err(e),
                    Ok(Some(f)) => submit_filled(m, em0, order, now, active, f),
                    Ok(None) => match order.time_in_force {
                        TimeInForce::Ioc | TimeInForce::Fok => Ok(
                            (
                                m,
                                em_reject(em0, order, now, now, immediate_reason(order.time_in_force)),
                                ResultView::Rejected(immediate_reason(order.time_in_force)),
                            ),
                        ),
                        _ => Ok(
                            (
                                EngineModel {
                                    resting: m.resting.push(RestingOrder { order, submitted_ts: now, active_ts: active }),
                                    ..m
                                },
                                em0,
                                ResultView::Resting,
                            ),
                        ),
                    },
                }
            },
            OrderType::Stop | OrderType::StopLimit => Ok(
                (
                    EngineModel { resting: m.resting.push(RestingOrder { order, submitted_ts: now, active_ts: active }), ..m },
                    em0,
                    ResultView::Resting,
                ),
            ),
        }
    }
}

/// The settlement price: the mark price, else the last trade price, else the
/// last bar's close, else zero.
pub open spec fn spec_settle_price(m: EngineModel) -> Dec {
    match m.mark_price {
        Some(p) => p,
        None => match m.last_trade_price {
            Some(p) => p,
            None => match m.last_bar {
                Some(b) => b.close,
                None => Dec::spec_zero(),
            },
        },
    }
}

/// Settlement force-closes every open position (non-zero quantity) at the price.
pub open spec fn close_step(price: Dec) -> spec_fn(Emitted, (InstrumentId, Position)) -> Result<Emitted, Overflow> {
    |em: Emitted, p: (InstrumentId, Position)|
        if p.1.qty.spec_is_zero() {
            Ok(em)
        } else {
            Ok(em_op(em, AccountOp::ForceClose(p.0, price)))
        }
}

/// Settlement cancels every resting order, reason "cancelled: run ended".
pub open spec fn cancel_step(now: Timestamp) -> spec_fn(Emitted, RestingOrder) -> Result<Emitted, Overflow> {
    |em: Emitted, r: RestingOrder| Ok(em_reject(em, r.order, r.submitted_ts, now, "cancelled: run ended"@))
}

/// Settlement fills every buffered market order at the settlement price.
pub open spec fn settle_pending_step(price: Dec, now: Timestamp, sched: Option<&Vec<FeeTier>>, ovr: Option<Dec>) -> spec_fn(
    Emitted,
    (Order, Timestamp),
) -> Result<Emitted, Overflow> {
    |em: Emitted, it: (Order, Timestamp)|
        match spec_fill_at_price(&it.0, price, now, sched, ovr, price) {
            Ok(f) => Ok(em_fill(em, it.0, it.1, f)),
            Err(e) => Err(e),
        }
}

/// The account reported an open position (non-zero quantity) in `id`.
pub open spec fn reports_open(positions: Seq<(InstrumentId, Position)>, id: Seq<char>) -> bool {
    exists|i: int| 0 <= i < positions.len() && (#[trigger] positions[i]).0@ == id && !positions[i].1.qty.spec_is_zero()
}

/// Settlement at the end of a run: with a settlement price of zero nothing
/// happens. Otherwise resting orders are cancelled first; then, at that
/// price, buffered market orders are filled; then every open position the
/// account reported is force-closed, and so is the venue's own instrument
/// when a buffered order was filled and the account reported no open
/// position in it, so that the fills leave no position open.
pub open spec fn spec_settle(
    m: EngineModel,
    inst: &Instrument,
    positions: Seq<(InstrumentId, Position)>,
    now: Timestamp,
    em0: Emitted,
) -> Result<(EngineModel, Emitted), Overflow> {
    let price = spec_settle_price(m);
    if price.spec_is_zero() {
        Ok((m, em0))
    } else {
        match fold_steps(m.resting, em0, cancel_step(now)) {
            Err(e) => Err(e),
            Ok(em1) => match fold_steps(m.pending, em1, settle_pending_step(price, now, sched_of(inst), m.taker_override())) {
                Err(e) => Err(e),
                Ok(em2) => match fold_steps(positions, em2, close_step(price)) {
                    Err(e) => Err(e),
                    Ok(em3) => {
                        let em4 = if m.pending.len() > 0 && !reports_open(positions, inst.id@) {
                            em_op(em3, AccountOp::ForceClose(inst.id, price))
                        } else {
                            em3
                        };
                        Ok((EngineModel { resting: Seq::empty(), pending: Seq::empty(), ..m }, em4))
                    },
                },
            },
        }
    }
}

impl OrderBookEngine {
    /// Every order type is supported.
    pub fn supports_order_type(&self, t: &OrderType) -> (r: bool)
        ensures
            r,
    {
        match t {
            OrderType::Market | OrderType::Limit | OrderType::Stop | OrderType::StopLimit => true,
        }
    }

    /// The simulated order latency in nanoseconds.
    pub fn latency(&self) -> (r: i64)
        ensures
            r == self.model().latency_ns,
    {
        self.latency_ns
    }

    /// The data fidelity the engine has seen so far.
    pub fn current_fidelity(&self) -> (r: FidelityLevel)
        ensures
            r == self.model().fidelity,
    {
        self.fidelity
    }

    /// Submits an order at the clock's time; see [`spec_submit`].
    pub fn submit_order(&mut self, order: Order, ctx: &mut EngineContext) -> (r: Result<OrderResult, Overflow>)
        requires
            old(self).wf(),
            order.wf(),
            old(ctx).instrument.wf(),
            emitted_ok(old(ctx).emitted()),
            fits_latency(old(ctx).clock.now(), old(self).model().latency_ns),
        ensures
            final(ctx).same_inputs(old(ctx)),
            emitted_ok(final(ctx).emitted()),
            match spec_submit(old(self).model(), old(ctx).instrument, order, old(ctx).clock.now(), old(ctx).emitted()) {
                Ok((m, em, rv)) => r matches Ok(res) && res.view() == rv && final(self).model() == m && final(self).wf()
                    && final(ctx).emitted() == em,
                Err(_) => r is Err,
            },
    {
        let ts = ctx.clock.current_ts();
        let instrument = ctx.instrument;
        if self.is_halted {
            let reason = String::from_str("trading halted");
            emit_reject(ctx, &order, ts, ts, reason);
            return Ok(OrderResult::Rejected(String::from_str("trading halted")));
        }
        if !self.supports_order_type(&order.order_type) {
            let reason = unsupported_reason_text(order.order_type);
            let reason2 = unsupported_reason_text(order.order_type);
            emit_reject(ctx, &order, ts, ts, reason);
            return Ok(OrderResult::Rejected(reason2));
        }
        let active_ts = ts + self.latency_ns;
        let fee_schedule = schedule_of(instrument);
        let taker_override = self.effective_taker_bps(instrument);
        match order.order_type {
            OrderType::Market => {
                if !self.book.is_empty() {
                    let fill_opt = match fill_l2(&order, &self.book, active_ts, fee_schedule, taker_override)? {
                        Some(f) => Some(f),
                        None => fill_l1(&order, &self.book, active_ts, fee_schedule, taker_override)?,
                    };
                    if let Some(fill) = fill_opt {
                        let result = if fill.partial {
                            OrderResult::PartialFill(fill.copy())
                        } else {
                            OrderResult::Filled(fill.copy())
                        };
                        let rest = if fill.partial && keeps_rest_now(order.time_in_force) {
                            Some(dec_sub(order.quantity, fill.fill_qty)?)
                        } else {
                            None
                        };
                        emit_fill(ctx, &order, ts, fill);
                        if let Some(q) = rest {
                            self.pending_market_orders.push((Order { quantity: q, ..order }, ts));
                        }
                        return Ok(result);
                    }
                }
                self.pending_market_orders.push((order, ts));
                Ok(OrderResult::Resting)
            },
            OrderType::Limit => {
                if !self.book.is_empty() {
                    if let Some(fill) = try_fill_limit(&order, &self.book, active_ts, fee_schedule, taker_override)? {
                        let result = if fill.partial {
                            OrderResult::PartialFill(fill.copy())
                        } else {
                            OrderResult::Filled(fill.copy())
                        };
                        let rest = if fill.partial && keeps_rest_now(order.time_in_force) {
                            Some(dec_sub(order.quantity, fill.fill_qty)?)
                        } else {
                            None
                        };
                        emit_fill(ctx, &order, ts, fill);
                        if let Some(q) = rest {
                            self.resting_orders.push(RestingOrder { order: Order { quantity: q, ..order }, submitted_ts: ts, active_ts });
                        }
                        return Ok(result);
                    }
                }
                match order.time_in_force {
                    TimeInForce::Ioc | TimeInForce::Fok => {
                        let reason = immediate_reason_text(order.time_in_force);
                        let reason2 = immediate_reason_text(order.time_in_force);
                        emit_reject(ctx, &order, ts, ts, reason);
                        return Ok(OrderResult::Rejected(reason2));
                    },
                    _ => {},
                }
                self.resting_orders.push(RestingOrder { order, submitted_ts: ts, active_ts });
                Ok(OrderResult::Resting)
            },
            OrderType::Stop | OrderType::StopLimit => {
                self.resting_orders.push(RestingOrder { order, submitted_ts: ts, active_ts });
                Ok(OrderResult::Resting)
            },
        }
    }

    /// Settles at the end of a run; see [`spec_settle`].
    pub fn settle(&mut self, ctx: &mut EngineContext) -> (r: Result<(), Overflow>)
        requires
            old(self).wf(),
            old(ctx).instrument.wf(),
            emitted_ok(old(ctx).emitted()),
        ensures
            final(ctx).same_inputs(old(ctx)),
            emitted_ok(final(ctx).emitted()),
            match spec_settle(old(self).model(), old(ctx).instrument, old(ctx).positions@, old(ctx).clock.now(), old(ctx).emitted()) {
                Ok((m, em)) => r is Ok && final(self).model() == m && final(self).wf() && final(ctx).emitted() == em,
                Err(_) => r is Err,
            },
    {
        let ts = ctx.clock.current_ts();
        let instrument = ctx.instrument;
        let fee_schedule = schedule_of(instrument);
        let taker_override = self.effective_taker_bps(instrument);
        let settle_price = match self.mark_price {
            Some(p) => p,
            None => match self.last_trade_price {
                Some(p) => p,
                None => match self.last_bar {
                    Some(b) => b.close,
                    None => Dec::zero(),
                },
            },
        };
        if settle_price.is_zero() {
            return Ok(());
        }
        let ghost m0 = self.model();
        let ghost em0 = ctx.emitted();
        let ghost ctx0 = *ctx;
        // cancel resting orders
        let ghost kstep = cancel_step(ts);
        proof {
            lemma_fold_start(self.resting_orders@, em0, kstep);
        }
        let mut k: usize = 0;
        while k < self.resting_orders.len()
            invariant
                emitted_ok(ctx.emitted()),
                0 <= k <= self.resting_orders.len(),
                self.model() == m0,
                kstep == cancel_step(ts),
                fold_steps(self.resting_orders@.take(k as int), em0, kstep) == Ok::<Emitted, Overflow>(ctx.emitted()),
                ctx.same_inputs(&ctx0),
            decreases self.resting_orders.len() - k,
        {
            proof {
                lemma_fold_next(self.resting_orders@, em0, kstep, k as int);
            }
            let reason = String::from_str("cancelled: run ended");
            emit_reject(ctx, &self.resting_orders[k].order, self.resting_orders[k].submitted_ts, ts, reason);
            k = k + 1;
        }
        proof {
            lemma_fold_start(self.resting_orders@, em0, kstep);
        }
        let ghost em1 = ctx.emitted();
        // fill buffered market orders at the settlement price
        let ghost pstep = settle_pending_step(settle_price, ts, fee_schedule, taker_override);
        proof {
            lemma_fold_start(self.pending_market_orders@, em1, pstep);
        }
        let mut j: usize = 0;
        while j < self.pending_market_orders.len()
            invariant
                emitted_ok(ctx.emitted()),
                0 <= j <= self.pending_market_orders.len(),
                self.model() == m0,
                m0.wf(),
                settle_price.wf(),
                schedule_wf(fee_schedule),
                opt_dec_wf(taker_override),
                pstep == settle_pending_step(settle_price, ts, fee_schedule, taker_override),
                fold_steps(self.pending_market_orders@.take(j as int), em1, pstep) == Ok::<Emitted, Overflow>(ctx.emitted()),
                ctx.same_inputs(&ctx0),
                ctx0 == *old(ctx),
                m0 == old(self).model(),
                fold_steps(m0.resting, old(ctx).emitted(), cancel_step(ts)) == Ok::<Emitted, Overflow>(em1),
                fee_schedule == sched_of(old(ctx).instrument),
                taker_override == m0.taker_override(),
                settle_price == spec_settle_price(m0),
                !settle_price.spec_is_zero(),
                ts == old(ctx).clock.now(),
            decreases self.pending_market_orders.len() - j,
        {
            proof {
                lemma_fold_next(self.pending_market_orders@, em1, pstep, j as int);
                assert(pending_ok(self.pending_market_orders@[j as int], m0.latency_ns));
            }
            let dts = self.pending_market_orders[j].1;
            let fill = match fill_at_price(
                &self.pending_market_orders[j].0,
                settle_price,
                ts,
                fee_schedule,
                taker_override,
                settle_price,
            ) {
                Ok(f) => f,
                Err(e) => {
                    proof {
                        lemma_fold_err(self.pending_market_orders@, em1, pstep, j + 1);
                    }
                    return Err(e);
                },
            };
            emit_fill(ctx, &self.pending_market_orders[j].0, dts, fill);
            j = j + 1;
        }
        proof {
            lemma_fold_start(self.pending_market_orders@, em1, pstep);
        }
        let ghost em2 = ctx.emitted();
        // force-close open positions
        let ghost cstep = close_step(settle_price);
        let ghost positions = ctx.positions@;
        proof {
            lemma_fold_start(positions, em2, cstep);
        }
        let n = ctx.positions.len();
        let mut own_open = false;
        let mut i: usize = 0;
        while i < n
            invariant
                emitted_ok(ctx.emitted()),
                0 <= i <= n,
                n == positions.len(),
                ctx.positions@ == positions,
                cstep == close_step(settle_price),
                settle_price.wf(),
                fold_steps(positions.take(i as int), em2, cstep) == Ok::<Emitted, Overflow>(ctx.emitted()),
                ctx.same_inputs(&ctx0),
                own_open == reports_open(positions.take(i as int), ctx0.instrument.id@),
            decreases n - i,
        {
            proof {
                lemma_fold_next(positions, em2, cstep, i as int);
                let a = positions.take(i as int);
                let b = positions.take(i + 1);
                assert(b == a.push(positions[i as int]));
                if reports_open(a, ctx0.instrument.id@) {
                    let w = choose|w: int| 0 <= w < a.len() && (#[trigger] a[w]).0@ == ctx0.instrument.id@ && !a[w].1.qty.spec_is_zero();
                    assert(b[w] == a[w]);
                }
                if reports_open(b, ctx0.instrument.id@) {
                    let w = choose|w: int| 0 <= w < b.len() && (#[trigger] b[w]).0@ == ctx0.instrument.id@ && !b[w].1.qty.spec_is_zero();
                    if w < a.len() {
                        assert(b[w] == a[w]);
                    }
                }
            }
            if !ctx.positions[i].1.qty.is_zero() {
                if ctx.positions[i].0 == ctx.instrument.id {
                    own_open = true;
                }
                let id = ctx.positions[i].0.clone();
                emit_op(ctx, AccountOp::ForceClose(id, settle_price));
            }
            i = i + 1;
        }
        proof {
            lemma_fold_start(positions, em2, cstep);
        }
        if self.pending_market_orders.len() > 0 && !own_open {
            let id = ctx.instrument.id.clone();
            emit_op(ctx, AccountOp::ForceClose(id, settle_price));
        }
        self.resting_orders = Vec::new();
        self.pending_market_orders = Vec::new();
        Ok(())
    }
}

} // verus!
