//! Ports the caller injects: the account, and the plain data of model and
//! training integration.
use vstd::prelude::*;

use crate::decimal::{Dec, Overflow};
use crate::engine::AccountOp;
use crate::trade::{Fill, Position};
use crate::types::{InstrumentId, Timestamp};

verus! {

/// The account port. The simulator keeps no account state of its own: it
/// reports fills and marks to the account and reads positions from it.
pub trait Account: Sized {
    /// The booking calls the account has received, in order: fill reports,
    /// marks and forced closes, refused or not.
    spec fn received(&self) -> Seq<AccountOp>;

    /// The equity the account shows after receiving `calls` from its current
    /// state: the account is a function of the calls it receives.
    spec fn equity_after(&self, calls: Seq<AccountOp>) -> Result<Dec, Overflow>;

    /// After receiving `calls` from its current state, the account cannot
    /// report its positions.
    spec fn positions_fail_after(&self, calls: Seq<AccountOp>) -> bool;

    /// After receiving `calls` from its current state, the account refuses
    /// to book `fill`.
    spec fn fill_refused_after(&self, calls: Seq<AccountOp>, fill: Fill) -> bool;

    /// Current cash balance.
    fn cash(&self) -> Dec;

    /// Cash plus the market value of the open positions.
    fn equity(&self) -> (r: Result<Dec, Overflow>)
        ensures
            r == self.equity_after(Seq::empty()),
    ;

    /// The open positions, by instrument.
    fn positions(&self) -> (r: Result<Vec<(InstrumentId, Position)>, Overflow>)
        ensures
            r is Err ==> self.positions_fail_after(Seq::empty()),
    ;

    /// Available buying power.
    fn buying_power(&self) -> Dec;

    /// Collateral balance (leveraged instruments).
    fn collateral_balance(&self) -> Dec;

    /// Books an executed fill.
    fn report_fill(&mut self, fill: &Fill) -> (r: Result<(), Overflow>)
        requires
            fill.wf(),
        ensures
            final(self).received() == old(self).received().push(AccountOp::ReportFill(*fill)),
            forall|c: Seq<AccountOp>| #[trigger] final(self).equity_after(c) == old(self).equity_after(seq![AccountOp::ReportFill(*fill)] + c),
            forall|c: Seq<AccountOp>| #[trigger] final(self).positions_fail_after(c) == old(self).positions_fail_after(seq![AccountOp::ReportFill(*fill)] + c),
            forall|c: Seq<AccountOp>, f: Fill|
                #[trigger] final(self).fill_refused_after(c, f) == old(self).fill_refused_after(seq![AccountOp::ReportFill(*fill)] + c, f),
            r is Err ==> old(self).fill_refused_after(Seq::empty(), *fill),
    ;

    /// Marks an instrument at a price, for unrealized P&L.
    fn update_mark_price(&mut self, instrument_id: &InstrumentId, price: Dec)
        requires
            price.wf(),
        ensures
            final(self).received() == old(self).received().push(AccountOp::UpdateMarkPrice(*instrument_id, price)),
            forall|c: Seq<AccountOp>| #[trigger] final(self).equity_after(c) == old(self).equity_after(seq![AccountOp::UpdateMarkPrice(*instrument_id, price)] + c),
            forall|c: Seq<AccountOp>| #[trigger] final(self).positions_fail_after(c) == old(self).positions_fail_after(seq![AccountOp::UpdateMarkPrice(*instrument_id, price)] + c),
            forall|c: Seq<AccountOp>, f: Fill|
                #[trigger] final(self).fill_refused_after(c, f) == old(self).fill_refused_after(seq![AccountOp::UpdateMarkPrice(*instrument_id, price)] + c, f),
    ;

    /// Closes a position at the given price (margin call, liquidation, run end).
    fn force_close(&mut self, instrument_id: &InstrumentId, price: Dec, reason: &str) -> (r: Result<(), String>)
        requires
            price.wf(),
        ensures
            final(self).received() == old(self).received().push(AccountOp::ForceClose(*instrument_id, price)),
            forall|c: Seq<AccountOp>| #[trigger] final(self).equity_after(c) == old(self).equity_after(seq![AccountOp::ForceClose(*instrument_id, price)] + c),
            forall|c: Seq<AccountOp>| #[trigger] final(self).positions_fail_after(c) == old(self).positions_fail_after(seq![AccountOp::ForceClose(*instrument_id, price)] + c),
            forall|c: Seq<AccountOp>, f: Fill|
                #[trigger] final(self).fill_refused_after(c, f) == old(self).fill_refused_after(seq![AccountOp::ForceClose(*instrument_id, price)] + c, f),
    ;
}

/// The account `a` answers as `b` does after receiving `calls`: the same
/// equity, positions failures and fill refusals after any further calls.
pub open spec fn shifted<B: Account>(a: B, b: B, calls: Seq<AccountOp>) -> bool {
    &&& forall|c: Seq<AccountOp>| #[trigger] a.equity_after(c) == b.equity_after(calls + c)
    &&& forall|c: Seq<AccountOp>| #[trigger] a.positions_fail_after(c) == b.positions_fail_after(calls + c)
    &&& forall|c: Seq<AccountOp>, f: Fill| #[trigger] a.fill_refused_after(c, f) == b.fill_refused_after(calls + c, f)
}

/// Shifts compose: `a` after `x` is `b`, and `b` after `y` is `c0`, so `a`
/// answers as `c0` does after `y + x`.
pub proof fn lemma_shift_compose<B: Account>(a: B, b: B, c0: B, y: Seq<AccountOp>, x: Seq<AccountOp>)
    requires
        shifted(a, b, x),
        shifted(b, c0, y),
    ensures
        shifted(a, c0, y + x),
{
    assert forall|c: Seq<AccountOp>| #[trigger] a.equity_after(c) == c0.equity_after((y + x) + c) by {
        assert(y + (x + c) =~= (y + x) + c);
    }
    assert forall|c: Seq<AccountOp>| #[trigger] a.positions_fail_after(c) == c0.positions_fail_after((y + x) + c) by {
        assert(y + (x + c) =~= (y + x) + c);
    }
    assert forall|c: Seq<AccountOp>, f: Fill| #[trigger] a.fill_refused_after(c, f) == c0.fill_refused_after((y + x) + c, f) by {
        assert(y + (x + c) =~= (y + x) + c);
        assert(b.fill_refused_after(x + c, f) == c0.fill_refused_after(y + (x + c), f));
    }
}

/// Every account answers as itself after no calls.
pub proof fn lemma_shift_none<B: Account>(a: B)
    ensures
        shifted(a, a, Seq::empty()),
{
    assert forall|c: Seq<AccountOp>| #[trigger] a.equity_after(c) == a.equity_after(Seq::<AccountOp>::empty() + c) by {
        assert(Seq::<AccountOp>::empty() + c =~= c);
    }
    assert forall|c: Seq<AccountOp>| #[trigger] a.positions_fail_after(c) == a.positions_fail_after(Seq::<AccountOp>::empty() + c) by {
        assert(Seq::<AccountOp>::empty() + c =~= c);
    }
    assert forall|c: Seq<AccountOp>, f: Fill| #[trigger] a.fill_refused_after(c, f) == a.fill_refused_after(Seq::<AccountOp>::empty() + c, f) by {
        assert(Seq::<AccountOp>::empty() + c =~= c);
    }
}

/// Features handed to a model for inference.
#[derive(Clone, Debug)]
pub struct ContextBundle {
    pub ts: Timestamp,
    pub features: Vec<(String, Dec)>,
}

/// A model's direction signal.
#[derive(Clone, Copy, Debug, PartialEq, Eq, Structural)]
pub enum ModelDirection {
    Long,
    Short,
    Flat,
}

/// The window of data a trainer uses.
#[derive(Clone, Copy, Debug)]
pub struct TrainingDataWindow {
    pub start_ts: Timestamp,
    pub end_ts: Timestamp,
}

/// A trained model artifact.
#[derive(Clone, Debug)]
pub struct ModelArtifact {
    pub id: String,
    pub version: u32,
}

} // verus!
