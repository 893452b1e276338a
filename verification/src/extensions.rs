//! Capability-gated extension states of the order-book engine: sessions,
//! funding, corporate actions, short borrow and dynamic fees.
use vstd::prelude::*;

use crate::capability::{
    HAS_BORROW_RATE, HAS_FEE_SCHEDULE_UPDATES, HAS_FUNDING, HAS_MARK_PRICE, HAS_SESSIONS,
    HAS_SHORT_BORROW,
};
use crate::decimal::{dec_add, dec_mul, sadd, smul, Dec, Overflow};
use crate::instrument::Instrument;
use crate::manifest::{debug_quoted, str_debug};
use crate::market_event::{CorporateActionType, MarketPayload, TradingSessionType};
use crate::trade::Fill;
use crate::types::Timestamp;

verus! {

/// The name `Debug` gives a session type: the variant's name, and for
/// `Other(s)` the text `Other(` + the quoted string + `)`.
pub open spec fn session_debug(t: TradingSessionType) -> Seq<char> {
    match t {
        TradingSessionType::PreMarket => "PreMarket"@,
        TradingSessionType::Regular => "Regular"@,
        TradingSessionType::AfterHours => "AfterHours"@,
        TradingSessionType::Overnight => "Overnight"@,
        TradingSessionType::Other(s) => "Other("@ + str_debug(s@) + ")"@,
    }
}

/// The `Debug` text of a session type.
pub fn session_type_name(t: &TradingSessionType) -> (r: String)
    ensures
        r@ == session_debug(*t),
{
    match t {
        TradingSessionType::PreMarket => String::from_str("PreMarket"),
        TradingSessionType::Regular => String::from_str("Regular"),
        TradingSessionType::AfterHours => String::from_str("AfterHours"),
        TradingSessionType::Overnight => String::from_str("Overnight"),
        TradingSessionType::Other(s) => {
            let mut out = String::from_str("Other(");
            let q = debug_quoted(s);
            out.append(q.as_str());
            out.append(")");
            out
        },
    }
}

/// Session state (sessions capability).
#[derive(Clone, Debug)]
pub struct SessionState {
    pub session_type: Option<String>,
    pub session_open_ts: Option<Timestamp>,
    pub session_close_ts: Option<Timestamp>,
    pub liquidity_multiplier: Dec,
    pub is_regular_hours: bool,
}

impl SessionState {
    /// No session yet; liquidity multiplier one.
    pub open spec fn spec_new() -> SessionState {
        SessionState {
            session_type: None,
            session_open_ts: None,
            session_close_ts: None,
            liquidity_multiplier: Dec { mantissa: 1, scale: 0 },
            is_regular_hours: false,
        }
    }

    /// No session yet; liquidity multiplier one.
    pub fn new() -> (r: SessionState)
        ensures
            r == SessionState::spec_new(),
    {
        SessionState {
            session_type: None,
            session_open_ts: None,
            session_close_ts: None,
            liquidity_multiplier: Dec::one(),
            is_regular_hours: false,
        }
    }

    /// A trading-session payload records the session (its type by `Debug` name,
    /// open and close times, liquidity multiplier) and marks regular hours;
    /// any other payload changes nothing.
    pub fn update_from_payload(&mut self, payload: &MarketPayload)
        ensures
            match payload {
                MarketPayload::TradingSession { session_type, open_ts, close_ts, liquidity_multiplier } => {
                    &&& final(self).session_type matches Some(s) && s@ == session_debug(*session_type)
                    &&& final(self).session_open_ts == Some(*open_ts)
                    &&& final(self).session_close_ts == Some(*close_ts)
                    &&& final(self).liquidity_multiplier == *liquidity_multiplier
                    &&& final(self).is_regular_hours
                },
                _ => *final(self) == *old(self),
            },
    {
        if let MarketPayload::TradingSession { session_type, open_ts, close_ts, liquidity_multiplier } = payload {
            self.session_type = Some(session_type_name(session_type));
            self.session_open_ts = Some(*open_ts);
            self.session_close_ts = Some(*close_ts);
            self.liquidity_multiplier = *liquidity_multiplier;
            self.is_regular_hours = true;
        }
    }
}

/// Funding state (perpetuals).
#[derive(Clone, Copy, Debug)]
pub struct FundingState {
    pub current_rate: Option<Dec>,
    pub mark_price: Option<Dec>,
    pub index_price: Option<Dec>,
    pub next_funding_ts: Option<Timestamp>,
    pub accrued_funding: Dec,
}

/// The funding state after a payload: a funding event sets rate, mark, index
/// and next funding time; a mark update sets mark and index.
pub open spec fn funding_after(f: FundingState, payload: MarketPayload) -> FundingState {
    match payload {
        MarketPayload::Funding { rate, mark_price, index_price, next_funding_ts } => FundingState {
            current_rate: Some(rate),
            mark_price: Some(mark_price),
            index_price: Some(index_price),
            next_funding_ts: Some(next_funding_ts),
            ..f
        },
        MarketPayload::MarkUpdate { mark_price, index_price } => FundingState {
            mark_price: Some(mark_price),
            index_price: Some(index_price),
            ..f
        },
        _ => f,
    }
}

impl FundingState {
    pub open spec fn wf(self) -> bool {
        &&& self.current_rate matches Some(r) ==> r.wf()
        &&& self.mark_price matches Some(m) ==> m.wf()
        &&& self.index_price matches Some(m) ==> m.wf()
        &&& self.accrued_funding.wf()
    }

    /// Nothing known yet, nothing accrued.
    pub open spec fn spec_new() -> FundingState {
        FundingState {
            current_rate: None,
            mark_price: None,
            index_price: None,
            next_funding_ts: None,
            accrued_funding: Dec::spec_zero(),
        }
    }

    /// Nothing known yet, nothing accrued.
    pub fn new() -> (r: FundingState)
        ensures
            r == FundingState::spec_new(),
            r.wf(),
    {
        FundingState {
            current_rate: None,
            mark_price: None,
            index_price: None,
            next_funding_ts: None,
            accrued_funding: Dec::zero(),
        }
    }

    /// Records funding and mark-update payloads.
    pub fn update_from_payload(&mut self, payload: &MarketPayload)
        requires
            old(self).wf(),
            payload.wf(),
        ensures
            *final(self) == funding_after(*old(self), *payload),
            final(self).wf(),
    {
        match payload {
            MarketPayload::Funding { rate, mark_price, index_price, next_funding_ts } => {
                self.current_rate = Some(*rate);
                self.mark_price = Some(*mark_price);
                self.index_price = Some(*index_price);
                self.next_funding_ts = Some(*next_funding_ts);
            },
            MarketPayload::MarkUpdate { mark_price, index_price } => {
                self.mark_price = Some(*mark_price);
                self.index_price = Some(*index_price);
            },
            _ => {},
        }
    }

    /// `qty * mark * multiplier * rate`; zero without a known rate or mark.
    pub open spec fn spec_funding(self, position_qty: Dec, contract_multiplier: Dec) -> Result<Dec, Overflow> {
        match (self.current_rate, self.mark_price) {
            (Some(rate), Some(mark)) => match smul(position_qty, mark) {
                Ok(a) => match smul(a, contract_multiplier) {
                    Ok(b) => smul(b, rate),
                    Err(e) => Err(e),
                },
                Err(e) => Err(e),
            },
            _ => Ok(Dec::spec_zero()),
        }
    }

    /// The funding payment of a position (positive is paid, negative received).
    pub fn apply_funding(&self, position_qty: Dec, contract_multiplier: Dec) -> (r: Result<Dec, Overflow>)
        requires
            self.wf(),
            position_qty.wf(),
            contract_multiplier.wf(),
        ensures
            r == self.spec_funding(position_qty, contract_multiplier),
    {
        let rate = match self.current_rate {
            Some(r) => r,
            None => return Ok(Dec::zero()),
        };
        let mark = match self.mark_price {
            Some(m) => m,
            None => return Ok(Dec::zero()),
        };
        let a = dec_mul(position_qty, mark)?;
        let b = dec_mul(a, contract_multiplier)?;
        dec_mul(b, rate)
    }
}

/// Corporate action state.
#[derive(Clone, Copy, Debug)]
pub struct CorporateActionState {
    /// Pending price adjustment factor.
    pub pending_adjustment: Option<Dec>,
}

impl CorporateActionState {
    /// No pending adjustment.
    pub fn new() -> (r: CorporateActionState)
        ensures
            r.pending_adjustment is None,
    {
        CorporateActionState { pending_adjustment: None }
    }

    /// The adjustment a corporate action implies: a split's ratio or a
    /// dividend's amount; `None` for anything else. The state is not changed.
    pub fn apply_corporate_action(&mut self, payload: &MarketPayload, _instrument: &Instrument) -> (r: Option<Dec>)
        ensures
            *final(self) == *old(self),
            r == (match payload {
                MarketPayload::CorporateAction { action_type } => match action_type {
                    CorporateActionType::Split { ratio, .. } => Some(*ratio),
                    CorporateActionType::Dividend { amount, .. } => Some(*amount),
                    _ => None,
                },
                _ => None,
            }),
    {
        if let MarketPayload::CorporateAction { action_type } = payload {
            match action_type {
                CorporateActionType::Split { ratio, .. } => {
                    return Some(*ratio);
                },
                CorporateActionType::Dividend { amount, .. } => {
                    return Some(*amount);
                },
                _ => {},
            }
        }
        None
    }
}

/// Short borrow state.
#[derive(Clone, Copy, Debug)]
pub struct BorrowState {
    pub borrow_rate_annualized: Dec,
    pub hard_to_borrow: bool,
    pub accrued_cost: Dec,
}

/// The borrow state after a borrow-rate payload (rate and hard-to-borrow flag).
pub open spec fn borrow_after(b: BorrowState, payload: MarketPayload) -> BorrowState {
    match payload {
        MarketPayload::BorrowRate { borrow_rate_annualized, hard_to_borrow, .. } => BorrowState {
            borrow_rate_annualized,
            hard_to_borrow,
            ..b
        },
        _ => b,
    }
}

impl BorrowState {
    pub open spec fn wf(self) -> bool {
        self.borrow_rate_annualized.wf() && self.accrued_cost.wf()
    }

    /// Zero rate, not hard to borrow, nothing accrued.
    pub open spec fn spec_new() -> BorrowState {
        BorrowState {
            borrow_rate_annualized: Dec::spec_zero(),
            hard_to_borrow: false,
            accrued_cost: Dec::spec_zero(),
        }
    }

    /// Zero rate, not hard to borrow, nothing accrued.
    pub fn new() -> (r: BorrowState)
        ensures
            r == BorrowState::spec_new(),
            r.wf(),
    {
        BorrowState { borrow_rate_annualized: Dec::zero(), hard_to_borrow: false, accrued_cost: Dec::zero() }
    }

    /// Records borrow-rate payloads.
    pub fn update_from_payload(&mut self, payload: &MarketPayload)
        requires
            old(self).wf(),
            payload.wf(),
        ensures
            *final(self) == borrow_after(*old(self), *payload),
            final(self).wf(),
    {
        if let MarketPayload::BorrowRate { borrow_rate_annualized, hard_to_borrow, .. } = payload {
            self.borrow_rate_annualized = *borrow_rate_annualized;
            self.hard_to_borrow = *hard_to_borrow;
        }
    }

    /// The accrued cost after one accrual: unchanged for a quantity that is not
    /// negative, else increased by `|qty| * mark * rate * days`.
    pub open spec fn spec_accrue(self, short_qty: Dec, mark_price: Dec, days: Dec) -> Result<Dec, Overflow> {
        if !short_qty.spec_is_neg() {
            Ok(self.accrued_cost)
        } else {
            match smul(short_qty.spec_abs(), mark_price) {
                Ok(a) => match smul(a, self.borrow_rate_annualized) {
                    Ok(b) => match smul(b, days) {
                        Ok(c) => sadd(self.accrued_cost, c),
                        Err(e) => Err(e),
                    },
                    Err(e) => Err(e),
                },
                Err(e) => Err(e),
            }
        }
    }

    /// Accrues the borrow cost of a short position for `days` (e.g. 1/252).
    /// On overflow nothing changes.
    pub fn accrue_borrow(&mut self, short_qty: Dec, mark_price: Dec, days: Dec) -> (r: Result<(), Overflow>)
        requires
            old(self).wf(),
            short_qty.wf(),
            mark_price.wf(),
            days.wf(),
        ensures
            match old(self).spec_accrue(short_qty, mark_price, days) {
                Ok(c) => r is Ok && *final(self) == (BorrowState { accrued_cost: c, ..*old(self) }),
                Err(_) => r is Err && *final(self) == *old(self),
            },
            final(self).wf(),
    {
        if short_qty.is_sign_positive() {
            return Ok(());
        }
        let a = dec_mul(short_qty.abs(), mark_price)?;
        let b = dec_mul(a, self.borrow_rate_annualized)?;
        let c = dec_mul(b, days)?;
        self.accrued_cost = dec_add(self.accrued_cost, c)?;
        Ok(())
    }
}

/// Dynamic fee schedule state.
#[derive(Clone, Copy, Debug)]
pub struct DynamicFeeState {
    pub maker_bps: Option<Dec>,
    pub taker_bps: Option<Dec>,
}

/// The fee state after a fee-schedule update (maker and taker rates).
pub open spec fn fees_after(f: DynamicFeeState, payload: MarketPayload) -> DynamicFeeState {
    match payload {
        MarketPayload::FeeScheduleUpdate { maker_bps, taker_bps, .. } => DynamicFeeState {
            maker_bps: Some(maker_bps),
            taker_bps: Some(taker_bps),
        },
        _ => f,
    }
}

impl DynamicFeeState {
    pub open spec fn wf(self) -> bool {
        &&& self.maker_bps matches Some(m) ==> m.wf()
        &&& self.taker_bps matches Some(t) ==> t.wf()
    }

    /// No dynamic rates.
    pub open spec fn spec_new() -> DynamicFeeState {
        DynamicFeeState { maker_bps: None, taker_bps: None }
    }

    /// No dynamic rates.
    pub fn new() -> (r: DynamicFeeState)
        ensures
            r == DynamicFeeState::spec_new(),
            r.wf(),
    {
        DynamicFeeState { maker_bps: None, taker_bps: None }
    }

    /// Records fee-schedule updates.
    pub fn update_from_payload(&mut self, payload: &MarketPayload)
        requires
            old(self).wf(),
            payload.wf(),
        ensures
            *final(self) == fees_after(*old(self), *payload),
            final(self).wf(),
    {
        if let MarketPayload::FeeScheduleUpdate { maker_bps, taker_bps, .. } = payload {
            self.maker_bps = Some(*maker_bps);
            self.taker_bps = Some(*taker_bps);
        }
    }
}

/// The session state after a payload: with the sessions flag, a trading-session
/// payload is recorded as by [`SessionState::update_from_payload`]; otherwise nothing changes.
pub open spec fn session_rel(before: SessionState, after: SessionState, inst: &Instrument, payload: MarketPayload) -> bool {
    if inst.capabilities.has(HAS_SESSIONS) {
        match payload {
            MarketPayload::TradingSession { session_type, open_ts, close_ts, liquidity_multiplier } => {
                &&& after.session_type matches Some(s) && s@ == session_debug(session_type)
                &&& after.session_open_ts == Some(open_ts)
                &&& after.session_close_ts == Some(close_ts)
                &&& after.liquidity_multiplier == liquidity_multiplier
                &&& after.is_regular_hours
            },
            _ => after == before,
        }
    } else {
        after == before
    }
}

/// Applies the capability-gated extensions of a payload: sessions with the
/// sessions flag, funding with funding or mark-price, borrow with borrow-rate or
/// short-borrow, fees with fee-schedule updates.
pub fn dispatch_extensions(
    payload: &MarketPayload,
    instrument: &Instrument,
    session: &mut SessionState,
    funding: &mut FundingState,
    borrow: &mut BorrowState,
    fee_state: &mut DynamicFeeState,
    _fills: &mut Vec<Fill>,
)
    requires
        payload.wf(),
        old(funding).wf(),
        old(borrow).wf(),
        old(fee_state).wf(),
    ensures
        final(funding).wf(),
        final(borrow).wf(),
        final(fee_state).wf(),
        *final(_fills) == *old(_fills),
        session_rel(*old(session), *final(session), instrument, *payload),
        *final(funding) == (if instrument.capabilities.has(HAS_FUNDING) || instrument.capabilities.has(HAS_MARK_PRICE) {
            funding_after(*old(funding), *payload)
        } else {
            *old(funding)
        }),
        *final(borrow) == (if instrument.capabilities.has(HAS_BORROW_RATE) || instrument.capabilities.has(HAS_SHORT_BORROW) {
            borrow_after(*old(borrow), *payload)
        } else {
            *old(borrow)
        }),
        *final(fee_state) == (if instrument.capabilities.has(HAS_FEE_SCHEDULE_UPDATES) {
            fees_after(*old(fee_state), *payload)
        } else {
            *old(fee_state)
        }),
{
    let caps = instrument.capabilities;
    if caps.contains(HAS_SESSIONS) {
        session.update_from_payload(payload);
    }
    if caps.contains(HAS_FUNDING) || caps.contains(HAS_MARK_PRICE) {
        funding.update_from_payload(payload);
    }
    if caps.contains(HAS_BORROW_RATE) || caps.contains(HAS_SHORT_BORROW) {
        borrow.update_from_payload(payload);
    }
    if caps.contains(HAS_FEE_SCHEDULE_UPDATES) {
        fee_state.update_from_payload(payload);
    }
}

} // verus!
