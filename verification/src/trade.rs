//! Orders, fills, positions and trade records.
use vstd::prelude::*;

use crate::decimal::{dec_mul, dec_sub, smul, ssub, Dec, Overflow};
use crate::types::{InstrumentId, Side, Timestamp};

verus! {

#[derive(Clone, Copy, Debug, PartialEq, Eq, Structural)]
pub enum OrderType {
    Market,
    Limit,
    Stop,
    StopLimit,
}

#[derive(Clone, Copy, Debug, PartialEq, Eq, Structural)]
pub enum TimeInForce {
    /// Good till cancelled.
    Gtc,
    /// Immediate or cancel.
    Ioc,
    /// Fill or kill.
    Fok,
    /// Cancelled at session close.
    Day,
}

/// An order submitted by a strategy.
#[derive(Clone, Debug)]
pub struct Order {
    pub instrument_id: InstrumentId,
    pub side: Side,
    pub order_type: OrderType,
    pub quantity: Dec,
    pub limit_price: Option<Dec>,
    pub stop_price: Option<Dec>,
    pub time_in_force: TimeInForce,
    /// Maximum acceptable slippage in basis points (market orders).
    pub max_slippage_bps: Option<Dec>,
    pub submitted_ts: Timestamp,
}

impl Order {
    /// A copy of the order, field for field.
    pub fn copy(&self) -> (r: Order)
        ensures
            r == *self,
    {
        Order {
            instrument_id: self.instrument_id.clone(),
            side: self.side,
            order_type: self.order_type,
            quantity: self.quantity,
            limit_price: self.limit_price,
            stop_price: self.stop_price,
            time_in_force: self.time_in_force,
            max_slippage_bps: self.max_slippage_bps,
            submitted_ts: self.submitted_ts,
        }
    }

    pub open spec fn wf(&self) -> bool {
        &&& self.quantity.wf()
        &&& self.limit_price matches Some(p) ==> p.wf()
        &&& self.stop_price matches Some(p) ==> p.wf()
    }

    /// Every price and quantity of the order is in the representable range.
    pub fn is_valid(&self) -> (r: bool)
        ensures
            r == self.wf(),
    {
        self.quantity.is_valid() && match self.limit_price {
            Some(p) => p.is_valid(),
            None => true,
        } && match self.stop_price {
            Some(p) => p.is_valid(),
            None => true,
        }
    }
}

/// Data fidelity, from bars up to full per-order books.
#[derive(Clone, Copy, Debug, PartialEq, Eq, Structural)]
pub enum FidelityLevel {
    /// Fill at the next bar's open.
    Bar,
    /// Fill at the best bid/offer, limited size.
    L1,
    /// Walk the book levels.
    L2,
    /// Full per-order data.
    L3,
}

/// An executed fill.
#[derive(Clone, Debug)]
pub struct Fill {
    pub instrument_id: InstrumentId,
    pub side: Side,
    pub fill_price: Dec,
    pub fill_qty: Dec,
    pub fees: Dec,
    pub slippage_bps: Dec,
    pub ts_fill: Timestamp,
    pub partial: bool,
    pub fidelity: FidelityLevel,
}

impl Fill {
    /// A copy of the fill, field for field.
    pub fn copy(&self) -> (r: Fill)
        ensures
            r == *self,
    {
        Fill {
            instrument_id: self.instrument_id.clone(),
            side: self.side,
            fill_price: self.fill_price,
            fill_qty: self.fill_qty,
            fees: self.fees,
            slippage_bps: self.slippage_bps,
            ts_fill: self.ts_fill,
            partial: self.partial,
            fidelity: self.fidelity,
        }
    }

    pub open spec fn wf(&self) -> bool {
        self.fill_price.wf() && self.fill_qty.wf() && self.fees.wf() && self.slippage_bps.wf()
    }
}

/// A position in one instrument.
#[derive(Clone, Copy, Debug)]
pub struct Position {
    pub qty: Dec,
    pub cost_basis_per_unit: Dec,
    pub mark_price: Dec,
    pub unrealized_pnl: Dec,
}

impl Position {
    /// A position marked at its cost basis, with no unrealized P&L.
    pub fn new(qty: Dec, cost_basis_per_unit: Dec) -> (r: Position)
        ensures
            r == (Position {
                qty,
                cost_basis_per_unit,
                mark_price: cost_basis_per_unit,
                unrealized_pnl: Dec::spec_zero(),
            }),
    {
        Position { qty, cost_basis_per_unit, mark_price: cost_basis_per_unit, unrealized_pnl: Dec::zero() }
    }

    /// `(mark - cost_basis) * qty`.
    pub open spec fn spec_pnl(self, mark_price: Dec) -> Result<Dec, Overflow> {
        match ssub(mark_price, self.cost_basis_per_unit) {
            Ok(d) => smul(d, self.qty),
            Err(e) => Err(e),
        }
    }

    /// Marks the position at `mark_price` and recomputes the unrealized P&L as
    /// `(mark - cost_basis) * qty`. On overflow the position is left unchanged.
    pub fn update_mark(&mut self, mark_price: Dec) -> (r: Result<(), Overflow>)
        requires
            mark_price.wf(),
            old(self).cost_basis_per_unit.wf(),
            old(self).qty.wf(),
        ensures
            match old(self).spec_pnl(mark_price) {
                Ok(p) => r is Ok && *final(self) == (Position {
                    mark_price,
                    unrealized_pnl: p,
                    ..*old(self)
                }),
                Err(_) => r is Err && *final(self) == *old(self),
            },
    {
        let d = match dec_sub(mark_price, self.cost_basis_per_unit) {
            Ok(d) => d,
            Err(e) => return Err(e),
        };
        let p = match dec_mul(d, self.qty) {
            Ok(p) => p,
            Err(e) => return Err(e),
        };
        self.mark_price = mark_price;
        self.unrealized_pnl = p;
        Ok(())
    }
}

/// A trade decision and its outcome (fill or rejection).
#[derive(Clone, Debug)]
pub struct TradeRecord {
    pub ts_decision: Timestamp,
    pub ts_fill: Timestamp,
    pub instrument_id: InstrumentId,
    pub side: Side,
    pub order_type: OrderType,
    pub fill_price: Dec,
    pub fill_qty: Dec,
    pub fees: Dec,
    pub slippage_bps: Dec,
    pub partial: bool,
    pub fidelity: FidelityLevel,
    pub rejected: bool,
    pub reject_reason: Option<String>,
}

/// A trade record with its strings as character sequences.
pub struct RecordView {
    pub ts_decision: Timestamp,
    pub ts_fill: Timestamp,
    pub instrument_id: Seq<char>,
    pub side: Side,
    pub order_type: OrderType,
    pub fill_price: Dec,
    pub fill_qty: Dec,
    pub fees: Dec,
    pub slippage_bps: Dec,
    pub partial: bool,
    pub fidelity: FidelityLevel,
    pub rejected: bool,
    pub reject_reason: Option<Seq<char>>,
}

impl TradeRecord {
    pub open spec fn view(&self) -> RecordView {
        RecordView {
            ts_decision: self.ts_decision,
            ts_fill: self.ts_fill,
            instrument_id: self.instrument_id@,
            side: self.side,
            order_type: self.order_type,
            fill_price: self.fill_price,
            fill_qty: self.fill_qty,
            fees: self.fees,
            slippage_bps: self.slippage_bps,
            partial: self.partial,
            fidelity: self.fidelity,
            rejected: self.rejected,
            reject_reason: match self.reject_reason {
                Some(s) => Some(s@),
                None => None,
            },
        }
    }
}

/// The outcome of submitting an order to an engine.
#[derive(Clone, Debug)]
pub enum OrderResult {
    /// Fully filled at once.
    Filled(Fill),
    /// Partially filled.
    PartialFill(Fill),
    /// Rejected, with the reason.
    Rejected(String),
    /// Resting in the book (limit or stop) or buffered for the next bar.
    Resting,
}


/// An order result with the rejection reason as a character sequence.
pub enum ResultView {
    Filled(Fill),
    PartialFill(Fill),
    Rejected(Seq<char>),
    Resting,
}

impl OrderResult {
    pub open spec fn view(&self) -> ResultView {
        match self {
            OrderResult::Filled(f) => ResultView::Filled(*f),
            OrderResult::PartialFill(f) => ResultView::PartialFill(*f),
            OrderResult::Rejected(s) => ResultView::Rejected(s@),
            OrderResult::Resting => ResultView::Resting,
        }
    }
}

} // verus!
