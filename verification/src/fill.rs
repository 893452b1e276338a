//! Fill models of the order-book engine: bar fills at a given price, L1 fills
//! at the touch, L2 fills that walk the book, and marketable limit orders;
//! fees in basis points and slippage against a reference price.
use vstd::prelude::*;

use crate::book::{best_levels_are_extreme, levels_ok, walk, walk_desc, BookView};
use crate::decimal::{dec_add, dec_div, dec_mul, dec_sub, sadd, sdiv, smul, ssub, Dec, Overflow};
use crate::trade::{FidelityLevel, Fill, Order, OrderType};
use crate::types::{FeeTier, Side, Timestamp};

verus! {

/// Default taker fee: 5 bps.
pub open spec fn spec_default_taker_bps() -> Dec {
    Dec { mantissa: 5, scale: 0 }
}

/// Default maker fee: 0 bps.
pub open spec fn spec_default_maker_bps() -> Dec {
    Dec { mantissa: 0, scale: 0 }
}

/// Basis points per unit: 10000.
pub open spec fn spec_bps_divisor() -> Dec {
    Dec { mantissa: 10000, scale: 0 }
}

/// Default taker fee in basis points (5).
pub fn default_taker_bps() -> (r: Dec)
    ensures
        r == spec_default_taker_bps(),
{
    Dec { mantissa: 5, scale: 0 }
}

/// Default maker fee in basis points (0).
pub fn default_maker_bps() -> (r: Dec)
    ensures
        r == spec_default_maker_bps(),
{
    Dec { mantissa: 0, scale: 0 }
}

/// The basis-points divisor (10000).
pub fn bps_divisor() -> (r: Dec)
    ensures
        r == spec_bps_divisor(),
{
    Dec { mantissa: 10000, scale: 0 }
}

/// Every tier of a schedule is well formed.
pub open spec fn schedule_wf(s: Option<&Vec<FeeTier>>) -> bool {
    s matches Some(v) ==> forall|i: int| 0 <= i < v@.len() ==> (#[trigger] v@[i]).wf()
}

/// The fee rate that applies, in the documented priority: for a taker the
/// override (a dynamic fee update, else the run-level taker fee) when there is
/// one; otherwise the first tier of a schedule (defaults for an empty
/// schedule); otherwise the defaults.
pub open spec fn fee_bps(is_maker: bool, fee_schedule: Option<&Vec<FeeTier>>, taker_fee_override: Option<Dec>) -> Dec {
    if !is_maker && taker_fee_override is Some {
        taker_fee_override->Some_0
    } else {
        match fee_schedule {
            Some(s) => if s@.len() > 0 {
                if is_maker { s@[0].maker_bps } else { s@[0].taker_bps }
            } else {
                if is_maker { spec_default_maker_bps() } else { spec_default_taker_bps() }
            },
            None => if is_maker { spec_default_maker_bps() } else { spec_default_taker_bps() },
        }
    }
}

/// `qty * price * bps / 10000`, evaluated left to right.
pub open spec fn spec_fee(fill_qty: Dec, fill_price: Dec, bps: Dec) -> Result<Dec, Overflow> {
    match smul(fill_qty, fill_price) {
        Ok(n) => match smul(n, bps) {
            Ok(m) => sdiv(m, spec_bps_divisor()),
            Err(e) => Err(e),
        },
        Err(e) => Err(e),
    }
}

/// Computes the fee of a fill: `qty * price * bps / 10000` at the rate of [`fee_bps`].
pub fn compute_fee(
    fill_qty: Dec,
    fill_price: Dec,
    is_maker: bool,
    fee_schedule: Option<&Vec<FeeTier>>,
    taker_fee_override: Option<Dec>,
) -> (r: Result<Dec, Overflow>)
    requires
        fill_qty.wf(),
        fill_price.wf(),
        schedule_wf(fee_schedule),
        taker_fee_override matches Some(o) ==> o.wf(),
    ensures
        r == spec_fee(fill_qty, fill_price, fee_bps(is_maker, fee_schedule, taker_fee_override)),
        r matches Ok(x) ==> x.wf(),
{
    let bps = match (is_maker, taker_fee_override) {
        (false, Some(o)) => o,
        _ => match fee_schedule {
            Some(schedule) => {
                if schedule.len() > 0 {
                    if is_maker {
                        schedule[0].maker_bps
                    } else {
                        schedule[0].taker_bps
                    }
                } else {
                    if is_maker {
                        default_maker_bps()
                    } else {
                        default_taker_bps()
                    }
                }
            },
            None => if is_maker {
                default_maker_bps()
            } else {
                default_taker_bps()
            },
        },
    };
    let n = dec_mul(fill_qty, fill_price)?;
    let m = dec_mul(n, bps)?;
    dec_div(m, bps_divisor())
}

/// Signed slippage in bps: adverse moves are positive (`fill - ref` for a buy,
/// `ref - fill` for a sell, `|fill - ref|` for an unknown side), over `ref`,
/// times 10000; zero when the reference price is zero.
pub open spec fn spec_slippage(fill_price: Dec, reference_price: Dec, side: Side) -> Result<Dec, Overflow> {
    if reference_price.spec_is_zero() {
        Ok(Dec::spec_zero())
    } else {
        let diff = match side {
            Side::Buy => ssub(fill_price, reference_price),
            Side::Sell => ssub(reference_price, fill_price),
            Side::Unknown => match ssub(fill_price, reference_price) {
                Ok(d) => Ok(d.spec_abs()),
                Err(e) => Err(e),
            },
        };
        match diff {
            Ok(d) => match sdiv(d, reference_price) {
                Ok(q) => smul(q, spec_bps_divisor()),
                Err(e) => Err(e),
            },
            Err(e) => Err(e),
        }
    }
}

/// Computes slippage in basis points relative to a reference price.
pub fn compute_slippage_bps(fill_price: Dec, reference_price: Dec, side: &Side) -> (r: Result<Dec, Overflow>)
    requires
        fill_price.wf(),
        reference_price.wf(),
    ensures
        r == spec_slippage(fill_price, reference_price, *side),
        r matches Ok(x) ==> x.wf(),
{
    if reference_price.is_zero() {
        return Ok(Dec::zero());
    }
    let diff = match side {
        Side::Buy => dec_sub(fill_price, reference_price)?,
        Side::Sell => dec_sub(reference_price, fill_price)?,
        Side::Unknown => dec_sub(fill_price, reference_price)?.abs(),
    };
    let q = dec_div(diff, reference_price)?;
    dec_mul(q, bps_divisor())
}

/// The bar fill of an order at `fill_price`: full quantity, maker fee for
/// limit orders and taker fee otherwise, slippage against `reference_price`.
pub open spec fn spec_fill_at_price(
    order: &Order,
    fill_price: Dec,
    ts_fill: Timestamp,
    fee_schedule: Option<&Vec<FeeTier>>,
    taker_fee_override: Option<Dec>,
    reference_price: Dec,
) -> Result<Fill, Overflow> {
    let is_maker = order.order_type == OrderType::Limit;
    match spec_fee(order.quantity, fill_price, fee_bps(is_maker, fee_schedule, taker_fee_override)) {
        Ok(fees) => match spec_slippage(fill_price, reference_price, order.side) {
            Ok(slippage_bps) => Ok(
                Fill {
                    instrument_id: order.instrument_id,
                    side: order.side,
                    fill_price,
                    fill_qty: order.quantity,
                    fees,
                    slippage_bps,
                    ts_fill,
                    partial: false,
                    fidelity: FidelityLevel::Bar,
                },
            ),
            Err(e) => Err(e),
        },
        Err(e) => Err(e),
    }
}

/// Bar-level fill at the given price (typically the next bar's open).
pub fn fill_at_price(
    order: &Order,
    fill_price: Dec,
    ts_fill: Timestamp,
    fee_schedule: Option<&Vec<FeeTier>>,
    taker_fee_override: Option<Dec>,
    reference_price: Dec,
) -> (r: Result<Fill, Overflow>)
    requires
        order.wf(),
        fill_price.wf(),
        reference_price.wf(),
        schedule_wf(fee_schedule),
        taker_fee_override matches Some(o) ==> o.wf(),
    ensures
        r == spec_fill_at_price(order, fill_price, ts_fill, fee_schedule, taker_fee_override, reference_price),
        r matches Ok(f) ==> f.wf(),
{
    let is_maker = order.order_type == OrderType::Limit;
    let fees = compute_fee(order.quantity, fill_price, is_maker, fee_schedule, taker_fee_override)?;
    let slippage_bps = compute_slippage_bps(fill_price, reference_price, &order.side)?;
    Ok(
        Fill {
            instrument_id: order.instrument_id.clone(),
            side: order.side,
            fill_price,
            fill_qty: order.quantity,
            fees,
            slippage_bps,
            ts_fill,
            partial: false,
            fidelity: FidelityLevel::Bar,
        },
    )
}

/// The touch an order trades against: the best ask for a buy, the best bid
/// for a sell, none for an unknown side.
pub open spec fn spec_touch(bids: Seq<(Dec, Dec)>, asks: Seq<(Dec, Dec)>, side: Side) -> Option<(Dec, Dec)> {
    match side {
        Side::Buy => if asks.len() == 0 { None } else { Some(asks[0]) },
        Side::Sell => if bids.len() == 0 { None } else { Some(bids.last()) },
        Side::Unknown => None,
    }
}

/// The L1 fill: the whole quantity at the touch price, taker fee, zero
/// slippage; `None` when there is no touch or the touch shows less than the
/// quantity.
pub open spec fn spec_fill_l1(
    order: &Order,
    bids: Seq<(Dec, Dec)>,
    asks: Seq<(Dec, Dec)>,
    ts_fill: Timestamp,
    fee_schedule: Option<&Vec<FeeTier>>,
    taker_fee_override: Option<Dec>,
) -> Result<Option<Fill>, Overflow> {
    match spec_touch(bids, asks, order.side) {
        None => Ok(None),
        Some((touch_price, available)) => if Dec::lt(available, order.quantity) {
            Ok(None)
        } else {
            let fill_qty = order.quantity;
            match spec_fee(fill_qty, touch_price, fee_bps(false, fee_schedule, taker_fee_override)) {
                Ok(fees) => match spec_slippage(touch_price, touch_price, order.side) {
                    Ok(slippage_bps) => Ok(
                        Some(
                            Fill {
                                instrument_id: order.instrument_id,
                                side: order.side,
                                fill_price: touch_price,
                                fill_qty,
                                fees,
                                slippage_bps,
                                ts_fill,
                                partial: false,
                                fidelity: FidelityLevel::L1,
                            },
                        ),
                    ),
                    Err(e) => Err(e),
                },
                Err(e) => Err(e),
            }
        },
    }
}

/// L1 fill: the whole order at the touch; `None` when the book does not show
/// the size.
pub fn fill_l1(
    order: &Order,
    book: &BookView,
    ts_fill: Timestamp,
    fee_schedule: Option<&Vec<FeeTier>>,
    taker_fee_override: Option<Dec>,
) -> (r: Result<Option<Fill>, Overflow>)
    requires
        order.wf(),
        book.wf(),
        schedule_wf(fee_schedule),
        taker_fee_override matches Some(o) ==> o.wf(),
    ensures
        r == spec_fill_l1(order, book.bids_view(), book.asks_view(), ts_fill, fee_schedule, taker_fee_override),
        r matches Ok(Some(f)) ==> f.wf(),
{
    let touch = match order.side {
        Side::Buy => book.best_ask(),
        Side::Sell => book.best_bid(),
        Side::Unknown => None,
    };
    let (touch_price, available_size) = match touch {
        Some(t) => t,
        None => return Ok(None),
    };
    if available_size.less(&order.quantity) {
        return Ok(None);
    }
    let fill_qty = order.quantity;
    let partial = false;
    let fees = compute_fee(fill_qty, touch_price, false, fee_schedule, taker_fee_override)?;
    let slippage_bps = compute_slippage_bps(touch_price, touch_price, &order.side)?;
    Ok(
        Some(
            Fill {
                instrument_id: order.instrument_id.clone(),
                side: order.side,
                fill_price: touch_price,
                fill_qty,
                fees,
                slippage_bps,
                ts_fill,
                partial,
                fidelity: FidelityLevel::L1,
            },
        ),
    )
}

/// The sum of the quantities taken, from zero, left to right.
pub open spec fn sum_qty(s: Seq<(Dec, Dec)>) -> Result<Dec, Overflow>
    decreases s.len(),
{
    if s.len() == 0 {
        Ok(Dec::spec_zero())
    } else {
        match sum_qty(s.drop_last()) {
            Ok(a) => sadd(a, s.last().1),
            Err(e) => Err(e),
        }
    }
}

/// The sum of price times quantity, from zero, left to right.
pub open spec fn sum_notional(s: Seq<(Dec, Dec)>) -> Result<Dec, Overflow>
    decreases s.len(),
{
    if s.len() == 0 {
        Ok(Dec::spec_zero())
    } else {
        match sum_notional(s.drop_last()) {
            Ok(a) => match smul(s.last().0, s.last().1) {
                Ok(m) => sadd(a, m),
                Err(e) => Err(e),
            },
            Err(e) => Err(e),
        }
    }
}

/// The levels an order walks: asks upward for a buy, bids downward for a sell.
pub open spec fn spec_walk(order: &Order, bids: Seq<(Dec, Dec)>, asks: Seq<(Dec, Dec)>) -> Option<Result<Seq<(Dec, Dec)>, Overflow>> {
    match order.side {
        Side::Buy => Some(walk(asks, order.quantity)),
        Side::Sell => Some(walk_desc(bids, order.quantity)),
        Side::Unknown => None,
    }
}

/// The L2 fill of walked levels: their total quantity at the volume-weighted
/// price, taker fee, slippage against the first level's price.
pub open spec fn spec_l2_from_levels(
    order: &Order,
    levels: Seq<(Dec, Dec)>,
    ts_fill: Timestamp,
    fee_schedule: Option<&Vec<FeeTier>>,
    taker_fee_override: Option<Dec>,
) -> Result<Option<Fill>, Overflow> {
    if levels.len() == 0 {
        Ok(None)
    } else {
        match sum_qty(levels) {
            Ok(total_qty) => match sum_notional(levels) {
                Ok(notional) => match sdiv(notional, total_qty) {
                    Ok(vwap) => match spec_fee(total_qty, vwap, fee_bps(false, fee_schedule, taker_fee_override)) {
                        Ok(fees) => match spec_slippage(vwap, levels[0].0, order.side) {
                            Ok(slippage_bps) => Ok(
                                Some(
                                    Fill {
                                        instrument_id: order.instrument_id,
                                        side: order.side,
                                        fill_price: vwap,
                                        fill_qty: total_qty,
                                        fees,
                                        slippage_bps,
                                        ts_fill,
                                        partial: Dec::lt(total_qty, order.quantity),
                                        fidelity: FidelityLevel::L2,
                                    },
                                ),
                            ),
                            Err(e) => Err(e),
                        },
                        Err(e) => Err(e),
                    },
                    Err(e) => Err(e),
                },
                Err(e) => Err(e),
            },
            Err(e) => Err(e),
        }
    }
}

/// The L2 fill of an order; `None` for an unknown side or when nothing is walked.
pub open spec fn spec_fill_l2(
    order: &Order,
    bids: Seq<(Dec, Dec)>,
    asks: Seq<(Dec, Dec)>,
    ts_fill: Timestamp,
    fee_schedule: Option<&Vec<FeeTier>>,
    taker_fee_override: Option<Dec>,
) -> Result<Option<Fill>, Overflow> {
    match spec_walk(order, bids, asks) {
        None => Ok(None),
        Some(Err(e)) => Err(e),
        Some(Ok(levels)) => spec_l2_from_levels(order, levels, ts_fill, fee_schedule, taker_fee_override),
    }
}

/// An overflow in a prefix of a sum is an overflow of the whole sum.
proof fn lemma_sum_err(s: Seq<(Dec, Dec)>, k: int)
    requires
        0 <= k <= s.len(),
    ensures
        sum_qty(s.take(k)) is Err ==> sum_qty(s) is Err,
        sum_notional(s.take(k)) is Err ==> sum_notional(s) is Err,
    decreases s.len() - k,
{
    if k < s.len() {
        assert(s.take(k + 1).drop_last() =~= s.take(k));
        lemma_sum_err(s, k + 1);
    } else {
        assert(s.take(k) =~= s);
    }
}

/// Sums the quantities of walked levels.
fn total_quantity(levels: &Vec<(Dec, Dec)>) -> (r: Result<Dec, Overflow>)
    requires
        crate::market_event::levels_wf(levels@),
    ensures
        r == sum_qty(levels@),
        r matches Ok(x) ==> x.wf(),
{
    let mut acc = Dec::zero();
    let mut i: usize = 0;
    while i < levels.len()
        invariant
            0 <= i <= levels.len(),
            crate::market_event::levels_wf(levels@),
            acc.wf(),
            sum_qty(levels@.take(i as int)) == Ok::<Dec, Overflow>(acc),
        decreases levels.len() - i,
    {
        assert(levels@.take(i + 1).drop_last() =~= levels@.take(i as int));
        assert(levels@.take(i + 1).last() == levels@[i as int]);
        acc = match dec_add(acc, levels[i].1) {
            Ok(a) => a,
            Err(e) => {
                proof {
                    lemma_sum_err(levels@, i + 1);
                }
                return Err(e);
            },
        };
        i = i + 1;
    }
    assert(levels@.take(levels.len() as int) =~= levels@);
    Ok(acc)
}

/// Sums price times quantity of walked levels.
fn total_notional(levels: &Vec<(Dec, Dec)>) -> (r: Result<Dec, Overflow>)
    requires
        crate::market_event::levels_wf(levels@),
    ensures
        r == sum_notional(levels@),
        r matches Ok(x) ==> x.wf(),
{
    let mut acc = Dec::zero();
    let mut i: usize = 0;
    while i < levels.len()
        invariant
            0 <= i <= levels.len(),
            crate::market_event::levels_wf(levels@),
            acc.wf(),
            sum_notional(levels@.take(i as int)) == Ok::<Dec, Overflow>(acc),
        decreases levels.len() - i,
    {
        assert(levels@.take(i + 1).drop_last() =~= levels@.take(i as int));
        assert(levels@.take(i + 1).last() == levels@[i as int]);
        let m = match dec_mul(levels[i].0, levels[i].1) {
            Ok(m) => m,
            Err(e) => {
                proof {
                    lemma_sum_err(levels@, i + 1);
                }
                return Err(e);
            },
        };
        acc = match dec_add(acc, m) {
            Ok(a) => a,
            Err(e) => {
                proof {
                    lemma_sum_err(levels@, i + 1);
                }
                return Err(e);
            },
        };
        i = i + 1;
    }
    assert(levels@.take(levels.len() as int) =~= levels@);
    Ok(acc)
}

/// L2 fill: walks the book levels for the order's quantity; fills the walked
/// total at the volume-weighted average price.
pub fn fill_l2(
    order: &Order,
    book: &BookView,
    ts_fill: Timestamp,
    fee_schedule: Option<&Vec<FeeTier>>,
    taker_fee_override: Option<Dec>,
) -> (r: Result<Option<Fill>, Overflow>)
    requires
        order.wf(),
        book.wf(),
        schedule_wf(fee_schedule),
        taker_fee_override matches Some(o) ==> o.wf(),
    ensures
        r == spec_fill_l2(order, book.bids_view(), book.asks_view(), ts_fill, fee_schedule, taker_fee_override),
        r matches Ok(Some(f)) ==> f.wf(),
{
    let fills = match order.side {
        Side::Buy => book.walk_asks(order.quantity)?,
        Side::Sell => book.walk_bids(order.quantity)?,
        Side::Unknown => return Ok(None),
    };
    if fills.len() == 0 {
        return Ok(None);
    }
    let total_qty = total_quantity(&fills)?;
    let notional = total_notional(&fills)?;
    let vwap = dec_div(notional, total_qty)?;
    let ref_price = fills[0].0;
    let partial = total_qty.less(&order.quantity);
    let fees = compute_fee(total_qty, vwap, false, fee_schedule, taker_fee_override)?;
    let slippage_bps = compute_slippage_bps(vwap, ref_price, &order.side)?;
    Ok(
        Some(
            Fill {
                instrument_id: order.instrument_id.clone(),
                side: order.side,
                fill_price: vwap,
                fill_qty: total_qty,
                fees,
                slippage_bps,
                ts_fill,
                partial,
                fidelity: FidelityLevel::L2,
            },
        ),
    )
}

/// A marketable limit order fills in full at the touch (taker), slippage
/// against the limit price; fidelity L1 for an empty book, else L2. `None`
/// without a limit price, a touch, or marketability.
pub open spec fn spec_try_fill_limit(
    order: &Order,
    bids: Seq<(Dec, Dec)>,
    asks: Seq<(Dec, Dec)>,
    ts_fill: Timestamp,
    fee_schedule: Option<&Vec<FeeTier>>,
    taker_fee_override: Option<Dec>,
) -> Result<Option<Fill>, Overflow> {
    match order.limit_price {
        None => Ok(None),
        Some(limit_price) => match spec_touch(bids, asks, order.side) {
            None => Ok(None),
            Some((touch_price, _)) => {
                let marketable = match order.side {
                    Side::Buy => Dec::le(touch_price, limit_price),
                    Side::Sell => Dec::le(limit_price, touch_price),
                    Side::Unknown => false,
                };
                if !marketable {
                    Ok(None)
                } else {
                    match spec_fee(order.quantity, touch_price, fee_bps(false, fee_schedule, taker_fee_override)) {
                        Ok(fees) => match spec_slippage(touch_price, limit_price, order.side) {
                            Ok(slippage_bps) => Ok(
                                Some(
                                    Fill {
                                        instrument_id: order.instrument_id,
                                        side: order.side,
                                        fill_price: touch_price,
                                        fill_qty: order.quantity,
                                        fees,
                                        slippage_bps,
                                        ts_fill,
                                        partial: false,
                                        fidelity: if bids.len() == 0 && asks.len() == 0 {
                                            FidelityLevel::L1
                                        } else {
                                            FidelityLevel::L2
                                        },
                                    },
                                ),
                            ),
                            Err(e) => Err(e),
                        },
                        Err(e) => Err(e),
                    }
                }
            },
        },
    }
}

/// Tries to fill a limit order against the book at once.
pub fn try_fill_limit(
    order: &Order,
    book: &BookView,
    ts_fill: Timestamp,
    fee_schedule: Option<&Vec<FeeTier>>,
    taker_fee_override: Option<Dec>,
) -> (r: Result<Option<Fill>, Overflow>)
    requires
        order.wf(),
        book.wf(),
        schedule_wf(fee_schedule),
        taker_fee_override matches Some(o) ==> o.wf(),
    ensures
        r == spec_try_fill_limit(order, book.bids_view(), book.asks_view(), ts_fill, fee_schedule, taker_fee_override),
        r matches Ok(Some(f)) ==> f.wf(),
{
    let limit_price = match order.limit_price {
        Some(p) => p,
        None => return Ok(None),
    };
    let touch = match order.side {
        Side::Buy => book.best_ask(),
        Side::Sell => book.best_bid(),
        Side::Unknown => None,
    };
    let (touch_price, _) = match touch {
        Some(t) => t,
        None => return Ok(None),
    };
    let marketable = match order.side {
        Side::Buy => touch_price.less_eq(&limit_price),
        Side::Sell => limit_price.less_eq(&touch_price),
        Side::Unknown => false,
    };
    if !marketable {
        return Ok(None);
    }
    let fill_qty = order.quantity;
    let fees = compute_fee(fill_qty, touch_price, false, fee_schedule, taker_fee_override)?;
    let slippage_bps = compute_slippage_bps(touch_price, limit_price, &order.side)?;
    Ok(
        Some(
            Fill {
                instrument_id: order.instrument_id.clone(),
                side: order.side,
                fill_price: touch_price,
                fill_qty,
                fees,
                slippage_bps,
                ts_fill,
                partial: false,
                fidelity: if book.is_empty() {
                    FidelityLevel::L1
                } else {
                    FidelityLevel::L2
                },
            },
        ),
    )
}

/// A limit order is filled at submission only within its limit: a buy at
/// or below it, a sell at or above it, in full, at the touch; an order whose
/// limit the touch does not reach (every ask above a buy's limit, every bid
/// below a sell's limit) is not filled.
pub proof fn limit_fill_never_worse_than_limit(
    order: Order,
    bids: Seq<(Dec, Dec)>,
    asks: Seq<(Dec, Dec)>,
    ts_fill: Timestamp,
    fee_schedule: Option<&Vec<FeeTier>>,
    taker_fee_override: Option<Dec>,
)
    ensures
        spec_try_fill_limit(&order, bids, asks, ts_fill, fee_schedule, taker_fee_override) matches Ok(Some(f)) ==> {
            &&& order.limit_price is Some
            &&& order.side == Side::Buy ==> Dec::le(f.fill_price, order.limit_price->0)
            &&& order.side == Side::Sell ==> Dec::le(order.limit_price->0, f.fill_price)
            &&& order.side != Side::Unknown
            &&& f.side == order.side
            &&& f.fill_qty == order.quantity
            &&& !f.partial
        },
        order.limit_price matches Some(l) ==> (
            (order.side == Side::Buy && forall|i: int| 0 <= i < asks.len() ==> Dec::lt(l, (#[trigger] asks[i]).0))
            || (order.side == Side::Sell && forall|i: int| 0 <= i < bids.len() ==> Dec::lt((#[trigger] bids[i]).0, l))
        ) ==> spec_try_fill_limit(&order, bids, asks, ts_fill, fee_schedule, taker_fee_override) == Ok::<Option<Fill>, Overflow>(None),
{
    if order.side == Side::Buy && asks.len() > 0 {
        assert(asks[0] == asks[0]);
    }
    if order.side == Side::Sell && bids.len() > 0 {
        assert(bids[bids.len() - 1] == bids.last());
    }
}

/// A limit order filled at submission takes the best price the book shows
/// on the other side: a buy the lowest ask, a sell the highest bid; and a
/// limit order the book can fill within its limit (some ask at or below a
/// buy's limit, some bid at or above a sell's limit) is filled, unless the
/// arithmetic overflows.
pub proof fn limit_fill_takes_the_touch(
    order: Order,
    bids: Seq<(Dec, Dec)>,
    asks: Seq<(Dec, Dec)>,
    ts_fill: Timestamp,
    fee_schedule: Option<&Vec<FeeTier>>,
    taker_fee_override: Option<Dec>,
)
    requires
        levels_ok(bids),
        levels_ok(asks),
    ensures
        spec_try_fill_limit(&order, bids, asks, ts_fill, fee_schedule, taker_fee_override) matches Ok(Some(f)) ==> {
            &&& order.side == Side::Buy ==> (exists|i: int| 0 <= i < asks.len() && f.fill_price == (#[trigger] asks[i]).0)
                && forall|k: int| 0 <= k < asks.len() ==> Dec::le(f.fill_price, (#[trigger] asks[k]).0)
            &&& order.side == Side::Sell ==> (exists|i: int| 0 <= i < bids.len() && f.fill_price == (#[trigger] bids[i]).0)
                && forall|k: int| 0 <= k < bids.len() ==> Dec::le((#[trigger] bids[k]).0, f.fill_price)
        },
        order.limit_price matches Some(l) ==> (
            (order.side == Side::Buy && exists|i: int| 0 <= i < asks.len() && Dec::le((#[trigger] asks[i]).0, l))
            || (order.side == Side::Sell && exists|i: int| 0 <= i < bids.len() && Dec::le(l, (#[trigger] bids[i]).0))
        ) ==> spec_try_fill_limit(&order, bids, asks, ts_fill, fee_schedule, taker_fee_override) != Ok::<Option<Fill>, Overflow>(None),
{
    assert forall|k: int| 0 <= k < asks.len() implies Dec::le(asks[0].0, (#[trigger] asks[k]).0) by {
        best_levels_are_extreme(asks, k);
    }
    assert forall|k: int| 0 <= k < bids.len() implies Dec::le((#[trigger] bids[k]).0, bids.last().0) by {
        best_levels_are_extreme(bids, k);
    }
    if asks.len() > 0 {
        assert(asks[0] == asks[0]);
    }
    if bids.len() > 0 {
        assert(bids[bids.len() - 1] == bids.last());
    }
}

} // verus!
