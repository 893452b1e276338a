//! A reference account: cash, positions with average cost basis, and mark
//! prices. No leverage or margin.
use vstd::prelude::*;

use crate::assoc::{
    assoc_get, assoc_insert, assoc_set_keeps_others, assoc_set_then_get, assoc_lookup, assoc_set, assoc_view, find_key, key_index,
    lemma_key_index,
};
use crate::engine::AccountOp;
use crate::decimal::{dec_add, dec_div, dec_mul, dec_sub, sadd, sdiv, smul, ssub, weighted_cost, lemma_key_sign, Dec, Overflow};
use crate::ports::Account;
use crate::steps::{fold_steps, lemma_fold_err, lemma_fold_next, lemma_fold_start};
use crate::trade::{Fill, Position};
use crate::types::{InstrumentId, Side};

verus! {

/// The account as values: cash, (quantity, cost basis per unit) by
/// instrument, and mark prices by instrument.
pub struct AccountModel {
    pub cash: Dec,
    pub positions: Seq<(Seq<char>, (Dec, Dec))>,
    pub marks: Seq<(Seq<char>, Dec)>,
}

impl AccountModel {
    pub open spec fn wf(self) -> bool {
        &&& self.cash.wf()
        &&& forall|i: int| 0 <= i < self.positions.len() ==> (#[trigger] self.positions[i]).1.0.wf()
            && self.positions[i].1.1.wf()
        &&& forall|i: int| 0 <= i < self.marks.len() ==> (#[trigger] self.marks[i]).1.wf()
    }
}

/// The decimal zero.
pub open spec fn zero() -> Dec {
    Dec::spec_zero()
}

/// The new cost basis after buying `fill_qty` at `price` onto `qty` held at
/// `cost`: zero when flat afterwards; the price when opening from flat or
/// short; otherwise the quantity-weighted average.
pub open spec fn buy_cost_basis(qty: Dec, cost: Dec, new_qty: Dec, price: Dec, fill_qty: Dec) -> Result<Dec, Overflow> {
    if new_qty.spec_is_zero() {
        Ok(zero())
    } else if Dec::le(qty, zero()) {
        Ok(price)
    } else {
        match smul(cost, qty.spec_max(zero())) {
            Ok(old_cost) => match smul(price, fill_qty) {
                Ok(added) => match sadd(old_cost, added) {
                    Ok(total) => sdiv(total, new_qty),
                    Err(e) => Err(e),
                },
                Err(e) => Err(e),
            },
            Err(e) => Err(e),
        }
    }
}

/// Booking a fill. A buy adds to the quantity, updates the cost basis (see
/// [`buy_cost_basis`]) and pays notional plus fees; a sell takes from the
/// quantity (the cost basis becomes the price when the position turns short,
/// zero when it closes, and is otherwise kept) and receives notional minus
/// fees; an unknown side only pays the fees. The instrument gets a position
/// entry in any case, and is marked at the fill price.
pub open spec fn spec_report_fill(a: AccountModel, f: Fill) -> Result<AccountModel, Overflow> {
    let id = f.instrument_id@;
    let (qty, cost) = match assoc_get(a.positions, id) {
        Some(p) => p,
        None => (zero(), zero()),
    };
    let marks = assoc_set(a.marks, id, f.fill_price);
    match smul(f.fill_price, f.fill_qty) {
        Err(e) => Err(e),
        Ok(notional) => match f.side {
            Side::Buy => match sadd(qty, f.fill_qty) {
                Err(e) => Err(e),
                Ok(new_qty) => match buy_cost_basis(qty, cost, new_qty, f.fill_price, f.fill_qty) {
                    Err(e) => Err(e),
                    Ok(new_cost) => match sadd(notional, f.fees) {
                        Err(e) => Err(e),
                        Ok(paid) => match ssub(a.cash, paid) {
                            Err(e) => Err(e),
                            Ok(cash) => Ok(
                                AccountModel { cash, positions: assoc_set(a.positions, id, (new_qty, new_cost)), marks },
                            ),
                        },
                    },
                },
            },
            Side::Sell => match ssub(qty, f.fill_qty) {
                Err(e) => Err(e),
                Ok(new_qty) => {
                    let new_cost = if new_qty.spec_is_zero() || new_qty.spec_is_neg() {
                        if new_qty.spec_is_neg() { f.fill_price } else { zero() }
                    } else {
                        cost
                    };
                    match ssub(notional, f.fees) {
                        Err(e) => Err(e),
                        Ok(received) => match sadd(a.cash, received) {
                            Err(e) => Err(e),
                            Ok(cash) => Ok(
                                AccountModel { cash, positions: assoc_set(a.positions, id, (new_qty, new_cost)), marks },
                            ),
                        },
                    }
                },
            },
            Side::Unknown => match ssub(a.cash, f.fees) {
                Err(e) => Err(e),
                Ok(cash) => Ok(AccountModel { cash, positions: assoc_set(a.positions, id, (qty, cost)), marks }),
            },
        },
    }
}

/// The mark of an instrument: its mark price, else the given cost basis.
pub open spec fn mark_or(marks: Seq<(Seq<char>, Dec)>, id: Seq<char>, cost: Dec) -> Dec {
    match assoc_get(marks, id) {
        Some(m) => m,
        None => cost,
    }
}

/// Adding one position's market value (quantity times mark) to the total;
/// flat positions add nothing.
pub open spec fn value_step(marks: Seq<(Seq<char>, Dec)>) -> spec_fn(Dec, (Seq<char>, (Dec, Dec))) -> Result<Dec, Overflow> {
    |acc: Dec, e: (Seq<char>, (Dec, Dec))|
        if e.1.0.spec_is_zero() {
            Ok(acc)
        } else {
            match smul(e.1.0, mark_or(marks, e.0, e.1.1)) {
                Ok(v) => sadd(acc, v),
                Err(err) => Err(err),
            }
        }
}

/// Equity: cash plus the summed market value of the open positions.
pub open spec fn spec_equity(a: AccountModel) -> Result<Dec, Overflow> {
    match fold_steps(a.positions, zero(), value_step(a.marks)) {
        Ok(v) => sadd(a.cash, v),
        Err(e) => Err(e),
    }
}

/// Listing one open position with its mark and unrealized P&L,
/// `qty * (mark - cost)`; flat positions are skipped.
pub open spec fn position_step(marks: Seq<(Seq<char>, Dec)>) -> spec_fn(Seq<(Seq<char>, Position)>, (Seq<char>, (Dec, Dec))) -> Result<
    Seq<(Seq<char>, Position)>,
    Overflow,
> {
    |acc: Seq<(Seq<char>, Position)>, e: (Seq<char>, (Dec, Dec))|
        if e.1.0.spec_is_zero() {
            Ok(acc)
        } else {
            let mark = mark_or(marks, e.0, e.1.1);
            match ssub(mark, e.1.1) {
                Ok(d) => match smul(e.1.0, d) {
                    Ok(pnl) => Ok(
                        acc.push(
                            (
                                e.0,
                                Position {
                                    qty: e.1.0,
                                    cost_basis_per_unit: e.1.1,
                                    mark_price: mark,
                                    unrealized_pnl: pnl,
                                },
                            ),
                        ),
                    ),
                    Err(err) => Err(err),
                },
                Err(err) => Err(err),
            }
        }
}

/// The open positions, in entry order.
pub open spec fn spec_positions(a: AccountModel) -> Result<Seq<(Seq<char>, Position)>, Overflow> {
    fold_steps(a.positions, Seq::empty(), position_step(a.marks))
}

/// An entry holds an open position: its quantity is not zero.
pub open spec fn is_open_entry() -> spec_fn((Seq<char>, (Dec, Dec))) -> bool {
    |e: (Seq<char>, (Dec, Dec))| !e.1.0.spec_is_zero()
}

/// The position listed for an entry: its quantity and cost basis, its mark
/// (the mark price, else the cost basis) and its unrealized P&L
/// `qty * (mark - cost)`.
pub open spec fn listed(marks: Seq<(Seq<char>, Dec)>, e: (Seq<char>, (Dec, Dec))) -> (Seq<char>, Position) {
    let mark = mark_or(marks, e.0, e.1.1);
    let pnl = match ssub(mark, e.1.1) {
        Ok(d) => match smul(e.1.0, d) {
            Ok(p) => p,
            Err(_) => zero(),
        },
        Err(_) => zero(),
    };
    (e.0, Position { qty: e.1.0, cost_basis_per_unit: e.1.1, mark_price: mark, unrealized_pnl: pnl })
}

/// Adding a listed position's quantity times its mark to a total.
pub open spec fn listed_value_step() -> spec_fn(Dec, (Seq<char>, Position)) -> Result<Dec, Overflow> {
    |acc: Dec, p: (Seq<char>, Position)|
        match smul(p.1.qty, p.1.mark_price) {
            Ok(v) => sadd(acc, v),
            Err(err) => Err(err),
        }
}

proof fn lemma_positions_agree(marks: Seq<(Seq<char>, Dec)>, ps: Seq<(Seq<char>, (Dec, Dec))>)
    ensures
        fold_steps(ps, Seq::empty(), position_step(marks)) matches Ok(s) ==> {
            &&& s == ps.filter(is_open_entry()).map_values(|e: (Seq<char>, (Dec, Dec))| listed(marks, e))
            &&& fold_steps(ps, zero(), value_step(marks)) == fold_steps(s, zero(), listed_value_step())
        },
    decreases ps.len(),
{
    reveal(Seq::filter);
    if ps.len() > 0 {
        let init = ps.drop_last();
        let e = ps.last();
        lemma_positions_agree(marks, init);
        assert(init.push(e) =~= ps);
        init.lemma_filter_push(e, is_open_entry());
        let f = fold_steps(ps, Seq::empty(), position_step(marks));
        if f is Ok {
            let s0 = fold_steps(init, Seq::empty(), position_step(marks))->Ok_0;
            let s = f->Ok_0;
            if e.1.0.spec_is_zero() {
                assert(s == s0);
            } else {
                assert(s == s0.push(listed(marks, e)));
                assert(s.drop_last() =~= s0);
                assert(init.filter(is_open_entry()).push(e).map_values(|e: (Seq<char>, (Dec, Dec))| listed(marks, e))
                    =~= init.filter(is_open_entry()).map_values(|e: (Seq<char>, (Dec, Dec))| listed(marks, e)).push(listed(marks, e)));
            }
        }
    } else {
        assert(ps.filter(is_open_entry()).map_values(|e: (Seq<char>, (Dec, Dec))| listed(marks, e)) =~= Seq::<(Seq<char>, Position)>::empty());
    }
}

/// The account's positions and equity agree: the positions it lists are
/// exactly its open entries, in order, each with its quantity, cost basis,
/// mark (the last mark or fill price, else the cost basis) and unrealized
/// P&L `qty * (mark - cost)`; and its equity is its cash plus the sum of
/// quantity times mark over that list.
pub proof fn positions_and_equity_agree(a: AccountModel)
    ensures
        spec_positions(a) matches Ok(s) ==> {
            &&& s == a.positions.filter(is_open_entry()).map_values(|e: (Seq<char>, (Dec, Dec))| listed(a.marks, e))
            &&& spec_equity(a) == match fold_steps(s, zero(), listed_value_step()) {
                Ok(v) => sadd(a.cash, v),
                Err(err) => Err(err),
            }
        },
{
    lemma_positions_agree(a.marks, a.positions);
}

/// Force-closing: a held position is closed at `price`; cash receives
/// `price * |qty|` for a long and pays it for a short; the quantity becomes
/// zero and the cost basis is kept. No position, or a flat one, changes nothing.
pub open spec fn spec_force_close(a: AccountModel, id: Seq<char>, price: Dec) -> Result<AccountModel, Overflow> {
    let i = key_index(a.positions, id);
    if i < 0 {
        Ok(a)
    } else {
        let (qty, cost) = a.positions[i].1;
        if qty.spec_is_zero() {
            Ok(a)
        } else {
            match smul(price, qty.spec_abs()) {
                Err(e) => Err(e),
                Ok(n) => match (if Dec::lt(zero(), qty) { sadd(a.cash, n) } else { ssub(a.cash, n) }) {
                    Err(e) => Err(e),
                    Ok(cash) => Ok(AccountModel { cash, positions: a.positions.update(i, (id, (zero(), cost))), ..a }),
                },
            }
        }
    }
}

/// An account at its opening: `cash` and nothing else.
pub open spec fn opening_model(cash: Dec) -> AccountModel {
    AccountModel { cash, positions: Seq::empty(), marks: Seq::empty() }
}

/// The account after one call: a fill report books the fill (see
/// [`spec_report_fill`]), a mark records the price, a forced close closes
/// the position (see [`spec_force_close`]); a call the account refuses
/// leaves it as it was.
pub open spec fn spec_call(a: AccountModel, op: AccountOp) -> AccountModel {
    match op {
        AccountOp::ReportFill(f) => match spec_report_fill(a, f) {
            Ok(m) => m,
            Err(_) => a,
        },
        AccountOp::UpdateMarkPrice(id, p) => AccountModel { marks: assoc_set(a.marks, id@, p), ..a },
        AccountOp::ForceClose(id, p) => match spec_force_close(a, id@, p) {
            Ok(m) => m,
            Err(_) => a,
        },
    }
}

/// The account after the calls, in order.
pub open spec fn replay(a: AccountModel, calls: Seq<AccountOp>) -> AccountModel
    decreases calls.len(),
{
    if calls.len() == 0 {
        a
    } else {
        spec_call(replay(a, calls.drop_last()), calls.last())
    }
}

/// Replaying after one call is replaying that call first.
pub proof fn lemma_replay_after_call(a: AccountModel, op: AccountOp, c: Seq<AccountOp>)
    ensures
        replay(spec_call(a, op), c) == replay(a, seq![op] + c),
    decreases c.len(),
{
    let s = seq![op] + c;
    if c.len() == 0 {
        assert(s =~= seq![op]);
        assert(s.drop_last() =~= Seq::<AccountOp>::empty());
        assert(s.last() == op);
        assert(replay(a, s.drop_last()) == a);
    } else {
        lemma_replay_after_call(a, op, c.drop_last());
        assert(s.drop_last() =~= seq![op] + c.drop_last());
        assert(s.last() == c.last());
    }
}

/// An account whose state is the state after one call answers as the
/// account before it does after that call.
proof fn lemma_shift_after_call(m: AccountModel, op: AccountOp, a: SimpleAccount, b: SimpleAccount)
    requires
        a.model() == spec_call(m, op),
        b.model() == m,
    ensures
        forall|c: Seq<AccountOp>| #[trigger] a.equity_after(c) == b.equity_after(seq![op] + c),
        forall|c: Seq<AccountOp>| #[trigger] a.positions_fail_after(c) == b.positions_fail_after(seq![op] + c),
        forall|c: Seq<AccountOp>, f: Fill| #[trigger] a.fill_refused_after(c, f) == b.fill_refused_after(seq![op] + c, f),
{
    assert forall|c: Seq<AccountOp>| #[trigger] a.equity_after(c) == b.equity_after(seq![op] + c) by {
        lemma_replay_after_call(m, op, c);
    }
    assert forall|c: Seq<AccountOp>| #[trigger] a.positions_fail_after(c) == b.positions_fail_after(seq![op] + c) by {
        lemma_replay_after_call(m, op, c);
    }
    assert forall|c: Seq<AccountOp>, f: Fill| #[trigger] a.fill_refused_after(c, f) == b.fill_refused_after(seq![op] + c, f) by {
        lemma_replay_after_call(m, op, c);
    }
}

/// The reference account. Its positions and marks are association lists
/// keyed by instrument id, not `HashMap`s: a hash map's walk order is
/// unspecified and Verus proves little of one with `String` keys, while a
/// list gives every lookup and update an exact specification. The state is
/// always the opening cash replayed with the calls received.
pub struct SimpleAccount {
    cash: Dec,
    positions: Vec<(InstrumentId, (Dec, Dec))>,
    mark_prices: Vec<(InstrumentId, Dec)>,
    opening: Ghost<Dec>,
    received: Ghost<Seq<AccountOp>>,
}

impl SimpleAccount {
    pub closed spec fn model(&self) -> AccountModel {
        AccountModel { cash: self.cash, positions: assoc_view(self.positions@), marks: assoc_view(self.mark_prices@) }
    }

    /// The cash the account opened with.
    pub closed spec fn opening(&self) -> Dec {
        self.opening@
    }

    #[verifier::type_invariant]
    closed spec fn inv(&self) -> bool {
        &&& self.model().wf()
        &&& self.model() == replay(opening_model(self.opening@), self.received@)
    }

    /// An account holding `starting_balance` in cash and nothing else.
    pub fn new(starting_balance: Dec) -> (r: SimpleAccount)
        requires
            starting_balance.wf(),
        ensures
            r.model() == opening_model(starting_balance),
            r.opening() == starting_balance,
            r.received() == Seq::<AccountOp>::empty(),
    {
        let positions: Vec<(InstrumentId, (Dec, Dec))> = Vec::new();
        let mark_prices: Vec<(InstrumentId, Dec)> = Vec::new();
        proof {
            assert(assoc_view(positions@) =~= Seq::<(Seq<char>, (Dec, Dec))>::empty());
            assert(assoc_view(mark_prices@) =~= Seq::<(Seq<char>, Dec)>::empty());
        }
        SimpleAccount {
            cash: starting_balance,
            positions,
            mark_prices,
            opening: Ghost(starting_balance),
            received: Ghost(Seq::empty()),
        }
    }

    /// An account with nothing: no cash, nothing held, no calls received.
    fn blank() -> (r: SimpleAccount) {
        let positions: Vec<(InstrumentId, (Dec, Dec))> = Vec::new();
        let mark_prices: Vec<(InstrumentId, Dec)> = Vec::new();
        proof {
            assert(assoc_view(positions@) =~= Seq::<(Seq<char>, (Dec, Dec))>::empty());
            assert(assoc_view(mark_prices@) =~= Seq::<(Seq<char>, Dec)>::empty());
        }
        SimpleAccount {
            cash: Dec::zero(),
            positions,
            mark_prices,
            opening: Ghost(Dec::spec_zero()),
            received: Ghost(Seq::empty()),
        }
    }

    /// The cash and the instrument's (quantity, cost basis) after booking
    /// `fill`; see [`spec_report_fill`].
    fn fill_outcome(&self, fill: &Fill) -> (r: Result<(Dec, (Dec, Dec)), Overflow>)
        requires
            fill.wf(),
        ensures
            match spec_report_fill(self.model(), *fill) {
                Ok(m2) => r matches Ok((c, p)) && c.wf() && p.0.wf() && p.1.wf() && m2 == (AccountModel {
                    cash: c,
                    positions: assoc_set(self.model().positions, fill.instrument_id@, p),
                    marks: assoc_set(self.model().marks, fill.instrument_id@, fill.fill_price),
                }),
                Err(_) => r is Err,
            },
    {
        proof {
            use_type_invariant(self);
        }
        let ghost m = self.model();
        let notional = dec_mul(fill.fill_price, fill.fill_qty)?;
        let (qty, cost) = match assoc_lookup(&self.positions, &fill.instrument_id) {
            Some(p) => p,
            None => (Dec::zero(), Dec::zero()),
        };
        proof {
            if assoc_get(m.positions, fill.instrument_id@) is Some {
                lemma_key_index(m.positions, fill.instrument_id@);
            }
        }
        let (new_qty, new_cost, cash) = match fill.side {
            Side::Buy => {
                let new_qty = dec_add(qty, fill.fill_qty)?;
                let new_cost = if new_qty.is_zero() {
                    Dec::zero()
                } else if qty.less_eq(&Dec::zero()) {
                    fill.fill_price
                } else {
                    let old_cost = dec_mul(cost, qty.max(Dec::zero()))?;
                    let added = dec_mul(fill.fill_price, fill.fill_qty)?;
                    let total = dec_add(old_cost, added)?;
                    dec_div(total, new_qty)?
                };
                let paid = dec_add(notional, fill.fees)?;
                (new_qty, new_cost, dec_sub(self.cash, paid)?)
            },
            Side::Sell => {
                let new_qty = dec_sub(qty, fill.fill_qty)?;
                let new_cost = if new_qty.is_zero() || new_qty.is_sign_negative() {
                    if new_qty.is_sign_negative() {
                        fill.fill_price
                    } else {
                        Dec::zero()
                    }
                } else {
                    cost
                };
                let received = dec_sub(notional, fill.fees)?;
                (new_qty, new_cost, dec_add(self.cash, received)?)
            },
            Side::Unknown => (qty, cost, dec_sub(self.cash, fill.fees)?),
        };
        Ok((cash, (new_qty, new_cost)))
    }

    /// The current cash (the starting balance is not kept apart).
    pub fn starting_balance(&self) -> (r: Dec)
        ensures
            r == self.model().cash,
    {
        self.cash
    }
}

impl Account for SimpleAccount {
    closed spec fn received(&self) -> Seq<AccountOp> {
        self.received@
    }

    /// The equity of the account replayed with the calls.
    open spec fn equity_after(&self, calls: Seq<AccountOp>) -> Result<Dec, Overflow> {
        spec_equity(replay(self.model(), calls))
    }

    /// The positions of the account replayed with the calls overflow.
    open spec fn positions_fail_after(&self, calls: Seq<AccountOp>) -> bool {
        spec_positions(replay(self.model(), calls)) is Err
    }

    /// Booking the fill in the account replayed with the calls overflows.
    open spec fn fill_refused_after(&self, calls: Seq<AccountOp>, fill: Fill) -> bool {
        spec_report_fill(replay(self.model(), calls), fill) is Err
    }

    fn cash(&self) -> (r: Dec)
        ensures
            r == self.model().cash,
    {
        self.cash
    }

    fn equity(&self) -> (r: Result<Dec, Overflow>)
        ensures
            r == spec_equity(self.model()),
    {
        proof {
            use_type_invariant(self);
        }
        let ghost m = self.model();
        let ghost step = value_step(m.marks);
        proof {
            lemma_fold_start(m.positions, zero(), step);
        }
        let mut acc = Dec::zero();
        let mut i: usize = 0;
        while i < self.positions.len()
            invariant
                0 <= i <= self.positions.len(),
                m == self.model(),
                m == replay(opening_model(self.opening@), self.received@),
                m.wf(),
                acc.wf(),
                step == value_step(m.marks),
                fold_steps(m.positions.take(i as int), zero(), step) == Ok::<Dec, Overflow>(acc),
            decreases self.positions.len() - i,
        {
            proof {
                lemma_fold_next(m.positions, zero(), step, i as int);
                assert(m.positions[i as int] == (self.positions@[i as int].0@, self.positions@[i as int].1));
            }
            let (qty, cost) = self.positions[i].1;
            if !qty.is_zero() {
                let mark = match assoc_lookup(&self.mark_prices, &self.positions[i].0) {
                    Some(mk) => mk,
                    None => cost,
                };
                proof {
                    if assoc_get(m.marks, m.positions[i as int].0) is Some {
                        lemma_key_index(m.marks, m.positions[i as int].0);
                    }
                }
                let v = match dec_mul(qty, mark) {
                    Ok(v) => v,
                    Err(e) => {
                        proof {
                            lemma_fold_err(m.positions, zero(), step, i + 1);
                        }
                        return Err(e);
                    },
                };
                acc = match dec_add(acc, v) {
                    Ok(a) => a,
                    Err(e) => {
                        proof {
                            lemma_fold_err(m.positions, zero(), step, i + 1);
                        }
                        return Err(e);
                    },
                };
            }
            i = i + 1;
        }
        proof {
            lemma_fold_start(m.positions, zero(), step);
        }
        dec_add(self.cash, acc)
    }

    fn positions(&self) -> (r: Result<Vec<(InstrumentId, Position)>, Overflow>)
        ensures
            match spec_positions(self.model()) {
                Ok(s) => r matches Ok(v) && assoc_view(v@) == s,
                Err(_) => r is Err,
            },
    {
        proof {
            use_type_invariant(self);
        }
        let ghost m = self.model();
        let ghost step = position_step(m.marks);
        proof {
            lemma_fold_start(m.positions, Seq::empty(), step);
        }
        let mut out: Vec<(InstrumentId, Position)> = Vec::new();
        proof {
            assert(assoc_view(out@) =~= Seq::<(Seq<char>, Position)>::empty());
        }
        let mut i: usize = 0;
        while i < self.positions.len()
            invariant
                0 <= i <= self.positions.len(),
                m == self.model(),
                m.wf(),
                step == position_step(m.marks),
                fold_steps(m.positions.take(i as int), Seq::empty(), step) == Ok::<Seq<(Seq<char>, Position)>, Overflow>(
                    assoc_view(out@),
                ),
            decreases self.positions.len() - i,
        {
            proof {
                lemma_fold_next(m.positions, Seq::empty(), step, i as int);
                assert(m.positions[i as int] == (self.positions@[i as int].0@, self.positions@[i as int].1));
            }
            let (qty, cost) = self.positions[i].1;
            if !qty.is_zero() {
                let mark = match assoc_lookup(&self.mark_prices, &self.positions[i].0) {
                    Some(mk) => mk,
                    None => cost,
                };
                proof {
                    if assoc_get(m.marks, m.positions[i as int].0) is Some {
                        lemma_key_index(m.marks, m.positions[i as int].0);
                    }
                }
                let d = match dec_sub(mark, cost) {
                    Ok(d) => d,
                    Err(e) => {
                        proof {
                            lemma_fold_err(m.positions, Seq::empty(), step, i + 1);
                        }
                        return Err(e);
                    },
                };
                let pnl = match dec_mul(qty, d) {
                    Ok(p) => p,
                    Err(e) => {
                        proof {
                            lemma_fold_err(m.positions, Seq::empty(), step, i + 1);
                        }
                        return Err(e);
                    },
                };
                let ghost before = out@;
                out.push(
                    (
                        self.positions[i].0.clone(),
                        Position { qty, cost_basis_per_unit: cost, mark_price: mark, unrealized_pnl: pnl },
                    ),
                );
                proof {
                    assert(assoc_view(out@) =~= assoc_view(before).push(
                        (
                            m.positions[i as int].0,
                            Position { qty, cost_basis_per_unit: cost, mark_price: mark, unrealized_pnl: pnl },
                        ),
                    ));
                }
            }
            i = i + 1;
        }
        proof {
            lemma_fold_start(m.positions, Seq::empty(), step);
        }
        Ok(out)
    }

    fn buying_power(&self) -> (r: Dec)
        ensures
            r == self.model().cash.spec_max(zero()),
    {
        proof {
            use_type_invariant(self);
        }
        self.cash.max(Dec::zero())
    }

    fn collateral_balance(&self) -> (r: Dec)
        ensures
            r == self.model().cash.spec_max(zero()),
    {
        proof {
            use_type_invariant(self);
        }
        self.cash.max(Dec::zero())
    }

    fn report_fill(&mut self, fill: &Fill) -> (r: Result<(), Overflow>)
        ensures
            match spec_report_fill(old(self).model(), *fill) {
                Ok(m) => r is Ok && final(self).model() == m,
                Err(_) => r is Err && final(self).model() == old(self).model(),
            },
    {
        let ghost m = self.model();
        let ghost old_self = *self;
        let r = self.book_fill(fill);
        proof {
            let op = AccountOp::ReportFill(*fill);
            assert(self.model() == spec_call(m, op));
            lemma_shift_after_call(m, op, *self, old_self);
        }
        r
    }

    fn update_mark_price(&mut self, instrument_id: &InstrumentId, price: Dec)
        ensures
            final(self).model() == (AccountModel {
                marks: assoc_set(old(self).model().marks, instrument_id@, price),
                ..old(self).model()
            }),
    {
        let ghost m = self.model();
        let ghost old_self = *self;
        self.set_mark(instrument_id, price);
        proof {
            let op = AccountOp::UpdateMarkPrice(*instrument_id, price);
            assert(self.model() == spec_call(m, op));
            lemma_shift_after_call(m, op, *self, old_self);
        }
    }

    fn force_close(&mut self, instrument_id: &InstrumentId, price: Dec, _reason: &str) -> (r: Result<(), String>)
        ensures
            match spec_force_close(old(self).model(), instrument_id@, price) {
                Ok(m) => r is Ok && final(self).model() == m,
                Err(_) => r is Err && final(self).model() == old(self).model(),
            },
    {
        let ghost m = self.model();
        let ghost old_self = *self;
        let r = self.close_position(instrument_id, price);
        proof {
            let op = AccountOp::ForceClose(*instrument_id, price);
            assert(self.model() == spec_call(m, op));
            lemma_shift_after_call(m, op, *self, old_self);
        }
        r
    }
}

impl SimpleAccount {
    fn book_fill(&mut self, fill: &Fill) -> (r: Result<(), Overflow>)
        requires
            fill.wf(),
        ensures
            final(self).received@ == old(self).received@.push(AccountOp::ReportFill(*fill)),
            match spec_report_fill(old(self).model(), *fill) {
                Ok(m) => r is Ok && final(self).model() == m,
                Err(_) => r is Err && final(self).model() == old(self).model(),
            },
            final(self).opening() == old(self).opening(),
    {
        proof {
            use_type_invariant(&*self);
        }
        let ghost m = self.model();
        let ghost r0 = self.received@;
        let ghost calls = self.received@.push(AccountOp::ReportFill(*fill));
        match self.fill_outcome(fill) {
            Err(e) => {
                proof {
                    assert(calls.drop_last() =~= r0);
                }
                self.received = Ghost(calls);
                Err(e)
            },
            Ok((cash, pos)) => {
                let mut acct = SimpleAccount::blank();
                std::mem::swap(self, &mut acct);
                proof {
                    use_type_invariant(&acct);
                }
                let SimpleAccount { cash: _, positions, mark_prices, opening, received: _ } = acct;
                let mut positions = positions;
                let mut marks = mark_prices;
                assoc_insert(&mut positions, &fill.instrument_id, pos);
                assoc_insert(&mut marks, &fill.instrument_id, fill.fill_price);
                proof {
                    lemma_set_wf(m.positions, fill.instrument_id@, pos);
                    lemma_set_wf_marks(m.marks, fill.instrument_id@, fill.fill_price);
                    assert(calls.drop_last() =~= r0);
                }
                *self = SimpleAccount { cash, positions, mark_prices: marks, opening, received: Ghost(calls) };
                Ok(())
            },
        }
    }

    fn set_mark(&mut self, instrument_id: &InstrumentId, price: Dec)
        requires
            price.wf(),
        ensures
            final(self).received@ == old(self).received@.push(AccountOp::UpdateMarkPrice(*instrument_id, price)),
            final(self).model() == (AccountModel {
                marks: assoc_set(old(self).model().marks, instrument_id@, price),
                ..old(self).model()
            }),
            final(self).opening() == old(self).opening(),
    {
        proof {
            use_type_invariant(&*self);
        }
        let ghost m = self.model();
        let ghost r0 = self.received@;
        let ghost calls = self.received@.push(AccountOp::UpdateMarkPrice(*instrument_id, price));
        let mut acct = SimpleAccount::blank();
        std::mem::swap(self, &mut acct);
        proof {
            use_type_invariant(&acct);
        }
        let SimpleAccount { cash, positions, mark_prices, opening, received: _ } = acct;
        let mut marks = mark_prices;
        assoc_insert(&mut marks, instrument_id, price);
        proof {
            lemma_set_wf_marks(m.marks, instrument_id@, price);
            assert(calls.drop_last() =~= r0);
        }
        *self = SimpleAccount { cash, positions, mark_prices: marks, opening, received: Ghost(calls) };
    }

    fn close_position(&mut self, instrument_id: &InstrumentId, price: Dec) -> (r: Result<(), String>)
        requires
            price.wf(),
        ensures
            final(self).received@ == old(self).received@.push(AccountOp::ForceClose(*instrument_id, price)),
            match spec_force_close(old(self).model(), instrument_id@, price) {
                Ok(m) => r is Ok && final(self).model() == m,
                Err(_) => r is Err && final(self).model() == old(self).model(),
            },
            final(self).opening() == old(self).opening(),
    {
        proof {
            use_type_invariant(&*self);
        }
        let ghost m = self.model();
        let ghost r0 = self.received@;
        let ghost calls = self.received@.push(AccountOp::ForceClose(*instrument_id, price));
        proof {
            assert(calls.drop_last() =~= r0);
        }
        let i = match find_key(&self.positions, instrument_id) {
            Some(i) => i,
            None => {
                self.received = Ghost(calls);
                return Ok(());
            },
        };
        proof {
            lemma_key_index(m.positions, instrument_id@);
        }
        let (qty, cost) = self.positions[i].1;
        if qty.is_zero() {
            self.received = Ghost(calls);
            return Ok(());
        }
        let notional = match dec_mul(price, qty.abs()) {
            Ok(n) => n,
            Err(_) => {
                self.received = Ghost(calls);
                return Err(String::from_str("arithmetic overflow"));
            },
        };
        let cash = if Dec::zero().less(&qty) {
            dec_add(self.cash, notional)
        } else {
            dec_sub(self.cash, notional)
        };
        let cash = match cash {
            Ok(c) => c,
            Err(_) => {
                self.received = Ghost(calls);
                return Err(String::from_str("arithmetic overflow"));
            },
        };
        let id = self.positions[i].0.clone();
        let mut acct = SimpleAccount::blank();
        std::mem::swap(self, &mut acct);
        proof {
            use_type_invariant(&acct);
        }
        let SimpleAccount { cash: _, positions, mark_prices, opening, received: _ } = acct;
        let mut positions = positions;
        positions.set(i, (id, (Dec::zero(), cost)));
        proof {
            assert(assoc_view(positions@) =~= m.positions.update(i as int, (instrument_id@, (zero(), cost))));
        }
        *self = SimpleAccount { cash, positions, mark_prices, opening, received: Ghost(calls) };
        Ok(())
    }
}

proof fn lemma_set_wf(s: Seq<(Seq<char>, (Dec, Dec))>, k: Seq<char>, v: (Dec, Dec))
    requires
        forall|i: int| 0 <= i < s.len() ==> (#[trigger] s[i]).1.0.wf() && s[i].1.1.wf(),
        v.0.wf(),
        v.1.wf(),
    ensures
        forall|i: int| 0 <= i < assoc_set(s, k, v).len() ==> (#[trigger] assoc_set(s, k, v)[i]).1.0.wf()
            && assoc_set(s, k, v)[i].1.1.wf(),
{
    lemma_key_index(s, k);
}

proof fn lemma_set_wf_marks(s: Seq<(Seq<char>, Dec)>, k: Seq<char>, v: Dec)
    requires
        forall|i: int| 0 <= i < s.len() ==> (#[trigger] s[i]).1.wf(),
        v.wf(),
    ensures
        forall|i: int| 0 <= i < assoc_set(s, k, v).len() ==> (#[trigger] assoc_set(s, k, v)[i]).1.wf(),
{
    lemma_key_index(s, k);
}

/// Booking a fill moves the instrument's position as a book of account
/// does. A sell lowers the quantity by the quantity sold; while the position
/// stays long its cost basis per unit is unchanged, sold flat it is zero,
/// turned short it is the sale price. A buy raises the quantity by the
/// quantity bought; added to a long position, the cost basis becomes the
/// quantity-weighted average of the held and the bought units; opened from
/// flat or short, it is the purchase price; left flat, zero. An unknown side
/// leaves the position as it was. Cash pays notional plus fees for a buy,
/// receives notional minus fees for a sell and pays the fees for an unknown
/// side; the instrument is marked at the fill price; no other instrument
/// changes.
pub proof fn fill_moves_position_and_cost(a: AccountModel, f: Fill, q: Dec, c: Dec)
    requires
        assoc_get(a.positions, f.instrument_id@) == Some((q, c)) || (assoc_get(a.positions, f.instrument_id@) is None
            && q == zero() && c == zero()),
    ensures
        spec_report_fill(a, f) matches Ok(a2) ==> assoc_get(a2.positions, f.instrument_id@) matches Some((nq, nc)) && {
            &&& f.side == Side::Sell ==> {
                &&& ssub(q, f.fill_qty) == Ok::<Dec, Overflow>(nq)
                &&& Dec::lt(zero(), nq) ==> nc == c
                &&& nq.spec_is_zero() ==> nc == zero()
                &&& nq.spec_is_neg() ==> nc == f.fill_price
            }
            &&& f.side == Side::Buy ==> {
                &&& sadd(q, f.fill_qty) == Ok::<Dec, Overflow>(nq)
                &&& Dec::lt(zero(), q) && !nq.spec_is_zero() ==> weighted_cost(c, q, f.fill_price, f.fill_qty, nq) == Ok::<
                    Dec,
                    Overflow,
                >(nc)
                &&& Dec::le(q, zero()) && !nq.spec_is_zero() ==> nc == f.fill_price
                &&& nq.spec_is_zero() ==> nc == zero()
            }
            &&& f.side == Side::Unknown ==> nq == q && nc == c
        },
        spec_report_fill(a, f) matches Ok(a2) ==> {
            &&& f.side == Side::Buy ==> (smul(f.fill_price, f.fill_qty) matches Ok(n) && (sadd(n, f.fees) matches Ok(paid)
                && ssub(a.cash, paid) == Ok::<Dec, Overflow>(a2.cash)))
            &&& f.side == Side::Sell ==> (smul(f.fill_price, f.fill_qty) matches Ok(n) && (ssub(n, f.fees) matches Ok(received)
                && sadd(a.cash, received) == Ok::<Dec, Overflow>(a2.cash)))
            &&& f.side == Side::Unknown ==> ssub(a.cash, f.fees) == Ok::<Dec, Overflow>(a2.cash)
            &&& assoc_get(a2.marks, f.instrument_id@) == Some(f.fill_price)
            &&& forall|k: Seq<char>| k != f.instrument_id@ ==> assoc_get(#[trigger] a2.positions, k) == assoc_get(a.positions, k)
                && assoc_get(a2.marks, k) == assoc_get(a.marks, k)
        },
{
    let id = f.instrument_id@;
    assert forall|v: Dec| #[trigger] assoc_get(assoc_set(a.marks, id, v), id) == Some(v) by {
        assoc_set_then_get(a.marks, id, v);
    }
    assert forall|v: (Dec, Dec), k: Seq<char>| k != id implies #[trigger] assoc_get(assoc_set(a.positions, id, v), k) == assoc_get(a.positions, k) by {
        assoc_set_keeps_others(a.positions, id, k, v);
    }
    assert forall|v: Dec, k: Seq<char>| k != id implies #[trigger] assoc_get(assoc_set(a.marks, id, v), k) == assoc_get(a.marks, k) by {
        assoc_set_keeps_others(a.marks, id, k, v);
    }
    assert forall|v: (Dec, Dec)| #[trigger] assoc_get(assoc_set(a.positions, id, v), id) == Some(v) by {
        assoc_set_then_get(a.positions, id, v);
    }
    lemma_key_sign(q);
    if spec_report_fill(a, f) is Ok {
        let (nq, nc) = assoc_get(spec_report_fill(a, f)->Ok_0.positions, id)->Some_0;
        lemma_key_sign(nq);
        if Dec::lt(zero(), q) {
            assert(q.spec_max(zero()) == q);
        }
    }
}

} // verus!
