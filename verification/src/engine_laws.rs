//! What the order-book engine promises across its operations: halted
//! trading, the buffering of market orders, bar fills of buffered orders and
//! the clean-up at settlement.
use vstd::prelude::*;

use crate::decimal::{Dec, Overflow};
use crate::engine::{
    bar_fill_price, bar_pending_step, bar_resting_step, bar_trigger, cancel_step, close_step, em_op, em_reject, record_of_reject, reports_open, sched_of,
    settle_pending_step, spec_settle, spec_settle_price, spec_submit, AccountOp, Emitted, EngineModel, RestingOrder,
};
use crate::instrument::Instrument;
use crate::fill::spec_fill_at_price;
use crate::steps::fold_steps;
use crate::trade::{Order, OrderType, Position, RecordView, ResultView};
use crate::types::{FeeTier, InstrumentId, Side, Timestamp};

verus! {

broadcast use vstd::seq_lib::group_seq_properties;

/// A halted engine rejects every order with "trading halted", records the
/// rejection, and changes nothing else.
pub proof fn halted_engine_rejects(m: EngineModel, inst: &Instrument, order: Order, now: Timestamp, em0: Emitted)
    requires
        m.is_halted,
    ensures
        spec_submit(m, inst, order, now, em0) == Ok::<(EngineModel, Emitted, ResultView), Overflow>(
            (m, em_reject(em0, order, now, now, "trading halted"@), ResultView::Rejected("trading halted"@)),
        ),
{
}

/// With no book data, a market order is not filled at once: it is buffered
/// with its decision time, to fill at the next bar's open, and nothing is emitted.
pub proof fn market_order_waits_for_bar(m: EngineModel, inst: &Instrument, order: Order, now: Timestamp, em0: Emitted)
    requires
        !m.is_halted,
        m.bids.len() == 0,
        m.asks.len() == 0,
        order.order_type == OrderType::Market,
    ensures
        spec_submit(m, inst, order, now, em0) == Ok::<(EngineModel, Emitted, ResultView), Overflow>(
            (EngineModel { pending: m.pending.push((order, now)), ..m }, em0, ResultView::Resting),
        ),
{
}

/// Whether a buffered market order is still waiting at `ts`: its decision
/// time plus the latency is after `ts`.
pub open spec fn waiting(lat: i64, ts: Timestamp) -> spec_fn((Order, Timestamp)) -> bool {
    |it: (Order, Timestamp)| it.1 + lat > ts
}

/// Whether a buffered market order is due at `ts`.
pub open spec fn due(lat: i64, ts: Timestamp) -> spec_fn((Order, Timestamp)) -> bool {
    |it: (Order, Timestamp)| it.1 + lat <= ts
}

/// A bar fills every buffered market order that is due at its time, in
/// order, one fill each, in full, at the bar's open and time; and keeps
/// exactly the waiting ones buffered, in order.
pub proof fn bar_fills_due_orders(
    items: Seq<(Order, Timestamp)>,
    lat: i64,
    open: Dec,
    ts: Timestamp,
    sched: Option<&Vec<FeeTier>>,
    ovr: Option<Dec>,
    em: Emitted,
)
    ensures
        fold_steps(items, (Seq::empty(), em), bar_pending_step(lat, open, ts, sched, ovr)) matches Ok((kept, em1)) ==> {
            &&& kept == items.filter(waiting(lat, ts))
            &&& em1.fills.len() == em.fills.len() + items.filter(due(lat, ts)).len()
            &&& em1.records.len() == em.records.len() + items.filter(due(lat, ts)).len()
            &&& em1.fills.take(em.fills.len() as int) == em.fills
            &&& forall|j: int| em.fills.len() <= j < em1.fills.len() ==> {
                &&& (#[trigger] em1.fills[j]).fill_price == open
                &&& em1.fills[j].ts_fill == ts
                &&& em1.fills[j].fill_qty == items.filter(due(lat, ts))[j - em.fills.len()].0.quantity
                &&& !em1.fills[j].partial
            }
        },
    decreases items.len(),
{
    reveal(Seq::filter);
    if items.len() > 0 {
        bar_fills_due_orders(items.drop_last(), lat, open, ts, sched, ovr, em);
        let prev = fold_steps(items.drop_last(), (Seq::empty(), em), bar_pending_step(lat, open, ts, sched, ovr));
        if prev is Ok {
            let e0 = prev->Ok_0.1;
            let it = items.last();
            if it.1 + lat <= ts {
                if spec_fill_at_price(&it.0, open, ts, sched, ovr, open) is Ok {
                    let f = spec_fill_at_price(&it.0, open, ts, sched, ovr, open)->Ok_0;
                    let e1 = e0.fills.push(f);
                    assert(items.filter(due(lat, ts)) == items.drop_last().filter(due(lat, ts)).push(it));
                    assert(e1.take(em.fills.len() as int) =~= e0.fills.take(em.fills.len() as int));
                    assert forall|j: int| em.fills.len() <= j < e1.len() implies {
                        &&& (#[trigger] e1[j]).fill_price == open
                        &&& e1[j].ts_fill == ts
                        &&& e1[j].fill_qty == items.filter(due(lat, ts))[j - em.fills.len()].0.quantity
                        &&& !e1[j].partial
                    } by {
                        if j < e0.fills.len() {
                            assert(e1[j] == e0.fills[j]);
                        }
                    }
                }
            } else {
                assert(items.filter(due(lat, ts)) == items.drop_last().filter(due(lat, ts)));
            }
        }
    }
}

/// The cancellation records of resting orders at the end of a run.
pub open spec fn run_end_cancellations(rs: Seq<RestingOrder>, now: Timestamp) -> Seq<RecordView> {
    rs.map_values(|r: RestingOrder| record_of_reject(r.order, r.submitted_ts, now, "cancelled: run ended"@))
}

/// Settlement cancels every resting order: one cancellation record each, in
/// order, and nothing else is emitted.
pub proof fn settlement_cancels_each_resting_order(rs: Seq<RestingOrder>, em: Emitted, now: Timestamp)
    ensures
        fold_steps(rs, em, cancel_step(now)) == Ok::<Emitted, Overflow>(
            Emitted { records: em.records + run_end_cancellations(rs, now), ..em },
        ),
    decreases rs.len(),
{
    if rs.len() > 0 {
        settlement_cancels_each_resting_order(rs.drop_last(), em, now);
        let r = rs.last();
        assert(run_end_cancellations(rs, now) =~= run_end_cancellations(rs.drop_last(), now).push(
            record_of_reject(r.order, r.submitted_ts, now, "cancelled: run ended"@),
        ));
        assert((em.records + run_end_cancellations(rs.drop_last(), now)).push(
            record_of_reject(r.order, r.submitted_ts, now, "cancelled: run ended"@),
        ) =~= em.records + run_end_cancellations(rs, now));
    } else {
        assert(em.records + run_end_cancellations(rs, now) =~= em.records);
    }
}

/// After a settlement at a non-zero price, no order rests and no market
/// order is buffered; the book, prices and extension states are kept.
pub proof fn settlement_leaves_no_orders(
    m: EngineModel,
    inst: &Instrument,
    positions: Seq<(InstrumentId, Position)>,
    now: Timestamp,
    em0: Emitted,
)
    requires
        !spec_settle_price(m).spec_is_zero(),
    ensures
        spec_settle(m, inst, positions, now, em0) matches Ok((m2, _)) ==> m2 == (EngineModel {
            resting: Seq::empty(),
            pending: Seq::empty(),
            ..m
        }),
{
}

/// A position that is open: its quantity is not zero.
pub open spec fn is_open_position() -> spec_fn((InstrumentId, Position)) -> bool {
    |p: (InstrumentId, Position)| !p.1.qty.spec_is_zero()
}

/// The forced closes of the open positions at `price`, in order.
pub open spec fn forced_closes(ps: Seq<(InstrumentId, Position)>, price: Dec) -> Seq<AccountOp> {
    ps.filter(is_open_position()).map_values(|p: (InstrumentId, Position)| AccountOp::ForceClose(p.0, price))
}

/// Settlement force-closes every open position at the settlement price, one
/// account call each, in order, skipping flat positions; nothing else is emitted.
pub proof fn settlement_closes_each_open_position(ps: Seq<(InstrumentId, Position)>, em: Emitted, price: Dec)
    ensures
        fold_steps(ps, em, close_step(price)) == Ok::<Emitted, Overflow>(
            Emitted { ops: em.ops + forced_closes(ps, price), ..em },
        ),
    decreases ps.len(),
{
    if ps.len() > 0 {
        settlement_closes_each_open_position(ps.drop_last(), em, price);
        let p = ps.last();
        assert(ps.drop_last().push(p) =~= ps);
        ps.drop_last().lemma_filter_push(p, is_open_position());
        if !p.1.qty.spec_is_zero() {
            assert(forced_closes(ps, price) =~= forced_closes(ps.drop_last(), price).push(AccountOp::ForceClose(p.0, price)));
            assert((em.ops + forced_closes(ps.drop_last(), price)).push(AccountOp::ForceClose(p.0, price)) =~= em.ops
                + forced_closes(ps, price));
        } else {
            assert(forced_closes(ps, price) =~= forced_closes(ps.drop_last(), price));
        }
    } else {
        reveal(Seq::filter);
        assert(em.ops + forced_closes(ps, price) =~= em.ops);
    }
}

/// Settlement cancels, then fills, then closes: it first records the
/// cancellation of every resting order (and makes no account call for them),
/// then books the fill reports of the buffered orders, then force-closes
/// every open position the account reported and, when a buffered order was
/// filled and the account reported no open position in the venue's
/// instrument, that instrument too, so that the fills leave no position open.
pub proof fn settlement_cancels_fills_then_closes(
    m: EngineModel,
    inst: &Instrument,
    positions: Seq<(InstrumentId, Position)>,
    now: Timestamp,
    em0: Emitted,
)
    requires
        !spec_settle_price(m).spec_is_zero(),
    ensures
        spec_settle(m, inst, positions, now, em0) matches Ok((_, em)) ==> exists|em1: Emitted|
            fold_steps(
                m.pending,
                Emitted { records: em0.records + run_end_cancellations(m.resting, now), ..em0 },
                settle_pending_step(spec_settle_price(m), now, sched_of(inst), m.taker_override()),
            ) == Ok::<Emitted, Overflow>(em1) && em.ops == em1.ops + forced_closes(positions, spec_settle_price(m)) + (if m.pending.len() > 0
                && !reports_open(positions, inst.id@) {
                seq![AccountOp::ForceClose(inst.id, spec_settle_price(m))]
            } else {
                Seq::empty()
            }) && em.records == em1.records,
{
    let price = spec_settle_price(m);
    settlement_cancels_each_resting_order(m.resting, em0, now);
    let emc = Emitted { records: em0.records + run_end_cancellations(m.resting, now), ..em0 };
    let f = fold_steps(m.pending, emc, settle_pending_step(price, now, sched_of(inst), m.taker_override()));
    if f is Ok {
        let em1 = f->Ok_0;
        settlement_closes_each_open_position(positions, em1, price);
        if m.pending.len() > 0 && !reports_open(positions, inst.id@) {
            assert((em1.ops + forced_closes(positions, price)).push(AccountOp::ForceClose(inst.id, price)) =~= em1.ops
                + forced_closes(positions, price) + seq![AccountOp::ForceClose(inst.id, price)]);
        } else {
            assert(em1.ops + forced_closes(positions, price) =~= em1.ops + forced_closes(positions, price) + Seq::<AccountOp>::empty());
        }
    }
}

/// A triggered stop fills on a bar at the worse of its stop price and the
/// bar's open (gap risk): a sell stop at neither more than the open nor more
/// than the stop, a buy stop at neither less than the open nor less than the
/// stop; in either case at one of the two. A triggered limit order fills at
/// its limit price.
pub proof fn bar_stop_fill_takes_the_gap(o: Order, open: Dec)
    ensures
        (o.order_type == OrderType::Stop || o.order_type == OrderType::StopLimit) ==> (o.stop_price matches Some(st) ==> {
            &&& o.side == Side::Sell ==> Dec::le(bar_fill_price(o, open), open) && Dec::le(bar_fill_price(o, open), st)
            &&& o.side == Side::Buy ==> Dec::le(open, bar_fill_price(o, open)) && Dec::le(st, bar_fill_price(o, open))
            &&& bar_fill_price(o, open) == open || bar_fill_price(o, open) == st
        }),
        o.order_type == OrderType::Limit ==> (o.limit_price matches Some(l) ==> bar_fill_price(o, open) == l),
{
}

/// A bar that triggers an active resting stop order fills it once, in full,
/// at a price within the gap: a sell stop at no more than the open and the
/// stop, a buy stop at no less than either; the order no longer rests.
pub proof fn bar_triggered_stop_fills_within_the_gap(
    acc: (Seq<RestingOrder>, Emitted),
    r: RestingOrder,
    open: Dec,
    high: Dec,
    low: Dec,
    ts: Timestamp,
    sched: Option<&Vec<FeeTier>>,
    ovr: Option<Dec>,
    st: Dec,
)
    requires
        r.active_ts <= ts,
        r.order.order_type == OrderType::Stop || r.order.order_type == OrderType::StopLimit,
        r.order.stop_price == Some(st),
        r.order.side == Side::Sell ==> Dec::le(low, st),
        r.order.side == Side::Buy ==> Dec::le(st, high),
        r.order.side != Side::Unknown,
    ensures
        (bar_resting_step(open, high, low, ts, sched, ovr))(acc, r) matches Ok((kept, em)) ==> {
            &&& kept == acc.0
            &&& em.fills.len() == acc.1.fills.len() + 1
            &&& em.fills.drop_last() == acc.1.fills
            &&& em.fills.last().fill_qty == r.order.quantity
            &&& em.fills.last().side == r.order.side
            &&& r.order.side == Side::Sell ==> Dec::le(em.fills.last().fill_price, open) && Dec::le(
                em.fills.last().fill_price,
                st,
            )
            &&& r.order.side == Side::Buy ==> Dec::le(open, em.fills.last().fill_price) && Dec::le(
                st,
                em.fills.last().fill_price,
            )
        },
{
    assert(bar_trigger(r.order, high, low) == Some(true));
    bar_stop_fill_takes_the_gap(r.order, open);
    if (bar_resting_step(open, high, low, ts, sched, ovr))(acc, r) is Ok {
        let em = (bar_resting_step(open, high, low, ts, sched, ovr))(acc, r)->Ok_0.1;
        assert(em.fills.drop_last() =~= acc.1.fills);
    }
}

/// Whether `price` is within a limit order's limit: at or below it for a
/// buy, at or above it for a sell; never for an unknown side.
pub open spec fn within_limit(side: Side, limit: Dec, price: Dec) -> bool {
    match side {
        Side::Buy => Dec::le(price, limit),
        Side::Sell => Dec::le(limit, price),
        Side::Unknown => false,
    }
}

/// A limit order never fills at submission at a price worse than its limit:
/// whatever it is filled at (in full or in part) is within the limit, and at
/// most one fill is emitted.
pub proof fn limit_order_fills_within_its_limit(m: EngineModel, inst: &Instrument, order: Order, now: Timestamp, em0: Emitted, l: Dec)
    requires
        order.order_type == OrderType::Limit,
        order.limit_price == Some(l),
    ensures
        spec_submit(m, inst, order, now, em0) matches Ok((_, em, rv)) ==> {
            &&& em.fills.len() <= em0.fills.len() + 1
            &&& em.fills.take(em0.fills.len() as int) == em0.fills
            &&& forall|j: int| em0.fills.len() <= j < em.fills.len() ==> within_limit(order.side, l, #[trigger] em.fills[j].fill_price)
            &&& rv matches ResultView::Filled(f) ==> within_limit(order.side, l, f.fill_price)
            &&& rv matches ResultView::PartialFill(f) ==> within_limit(order.side, l, f.fill_price)
        },
{
    if spec_submit(m, inst, order, now, em0) is Ok {
        let em = spec_submit(m, inst, order, now, em0)->Ok_0.1;
        if em.fills.len() > em0.fills.len() {
            assert(em.fills.take(em0.fills.len() as int) =~= em0.fills);
        } else {
            assert(em.fills.take(em0.fills.len() as int) =~= em0.fills);
        }
    }
}

/// A limit order the book cannot fill within its limit (every ask above a
/// buy's limit, every bid below a sell's limit) is not filled at submission:
/// nothing is emitted but a rejection record, and it rests (good till
/// cancelled, day) or is rejected (IOC, FOK).
pub proof fn unmarketable_limit_order_is_not_filled(m: EngineModel, inst: &Instrument, order: Order, now: Timestamp, em0: Emitted, l: Dec)
    requires
        order.order_type == OrderType::Limit,
        order.limit_price == Some(l),
        order.side == Side::Buy ==> forall|i: int| 0 <= i < m.asks.len() ==> Dec::lt(l, (#[trigger] m.asks[i]).0),
        order.side == Side::Sell ==> forall|i: int| 0 <= i < m.bids.len() ==> Dec::lt((#[trigger] m.bids[i]).0, l),
    ensures
        spec_submit(m, inst, order, now, em0) matches Ok((m2, em, rv)) ==> {
            &&& em.fills == em0.fills
            &&& em.ops == em0.ops
            &&& rv is Resting || rv is Rejected
            &&& rv is Resting ==> m2.resting.last().order == order && m2.resting.len() == m.resting.len() + 1
        },
{
    if order.side == Side::Buy && m.asks.len() > 0 {
        assert(Dec::lt(l, m.asks[0].0));
    }
    if order.side == Side::Sell && m.bids.len() > 0 {
        assert(Dec::lt(m.bids[m.bids.len() - 1].0, l));
    }
}

/// Whether a bar's range reaches a resting order's price: a buy limit's
/// limit at or above the low, a sell limit's at or below the high, a buy
/// stop's stop at or below the high, a sell stop's at or above the low.
pub open spec fn bar_reaches(o: Order, high: Dec, low: Dec) -> bool {
    ||| o.order_type == OrderType::Limit && o.side == Side::Buy && Dec::le(low, o.limit_price->0)
    ||| o.order_type == OrderType::Limit && o.side == Side::Sell && Dec::le(o.limit_price->0, high)
    ||| (o.order_type == OrderType::Stop || o.order_type == OrderType::StopLimit) && o.side == Side::Buy && Dec::le(
        o.stop_price->0,
        high,
    )
    ||| (o.order_type == OrderType::Stop || o.order_type == OrderType::StopLimit) && o.side == Side::Sell && Dec::le(
        low,
        o.stop_price->0,
    )
}

/// What a bar does to an active resting limit or stop order with its price:
/// when the bar's range reaches the price, the order is filled once, in
/// full, on its side, and no longer rests; a limit order at its limit. When
/// the range does not reach it, nothing is filled: a good-till-cancelled
/// order keeps resting, any other is cancelled with one record.
pub proof fn bar_fills_reached_orders(
    acc: (Seq<RestingOrder>, Emitted),
    r: RestingOrder,
    open: Dec,
    high: Dec,
    low: Dec,
    ts: Timestamp,
    sched: Option<&Vec<FeeTier>>,
    ovr: Option<Dec>,
)
    requires
        r.active_ts <= ts,
        r.order.side != Side::Unknown,
        r.order.order_type == OrderType::Limit ==> r.order.limit_price is Some,
        r.order.order_type == OrderType::Stop || r.order.order_type == OrderType::StopLimit ==> r.order.stop_price is Some,
        r.order.order_type != OrderType::Market,
    ensures
        (bar_resting_step(open, high, low, ts, sched, ovr))(acc, r) matches Ok((kept, em)) ==> {
            &&& bar_reaches(r.order, high, low) ==> {
                &&& kept == acc.0
                &&& em.fills.drop_last() == acc.1.fills
                &&& em.fills.len() == acc.1.fills.len() + 1
                &&& em.fills.last().fill_qty == r.order.quantity
                &&& em.fills.last().side == r.order.side
                &&& !em.fills.last().partial
                &&& r.order.order_type == OrderType::Limit ==> em.fills.last().fill_price == r.order.limit_price->0
            }
            &&& !bar_reaches(r.order, high, low) ==> {
                &&& em.fills == acc.1.fills
                &&& r.order.time_in_force is Gtc ==> kept == acc.0.push(r) && em == acc.1
                &&& !(r.order.time_in_force is Gtc) ==> kept == acc.0 && em.records.len() == acc.1.records.len() + 1
            }
        },
{
    if (bar_resting_step(open, high, low, ts, sched, ovr))(acc, r) is Ok {
        let em = (bar_resting_step(open, high, low, ts, sched, ovr))(acc, r)->Ok_0.1;
        if bar_reaches(r.order, high, low) {
            assert(em.fills.drop_last() =~= acc.1.fills);
        }
    }
}

} // verus!
