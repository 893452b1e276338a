//! Run metrics from trade records, fills and the final account equity.
use vstd::prelude::*;

use crate::assoc::{
    assoc_get, assoc_insert, assoc_lookup, assoc_set, assoc_set_keeps_others, assoc_set_then_get, assoc_view, lemma_key_index,
};
use crate::decimal::{dec_add, dec_div, dec_mul, dec_sub, sadd, sdiv, smul, ssub, weighted_cost, Dec, Overflow};
use crate::ports::Account;
use crate::steps::{fold_steps, lemma_fold_err, lemma_fold_next, lemma_fold_start};
use crate::trade::{Fill, TradeRecord};
use crate::types::Side;

verus! {

/// Summary statistics of a run. The win rate is `winning_trips / round_trips`
/// (zero without round trips).
#[derive(Clone, Copy, Debug)]
pub struct MetricsSummary {
    /// Records that are not rejected and have a positive quantity.
    pub total_trades: usize,
    /// Fill events (partial fills count separately).
    pub total_fills: usize,
    /// Sell notional minus buy notional minus fees.
    pub total_pnl: Dec,
    pub total_fees: Dec,
    /// Round trips that closed a long at a profit.
    pub winning_trips: usize,
    /// Round trips: sells that close (part of) a long.
    pub round_trips: usize,
    /// Notional over quantity of the records that are not rejected.
    pub avg_fill_price: Dec,
    pub final_equity: Option<Dec>,
    pub avg_slippage_bps: Dec,
}

/// The decimal zero.
pub open spec fn zero() -> Dec {
    Dec::spec_zero()
}

impl MetricsSummary {
    /// Nothing traded.
    pub open spec fn spec_default() -> MetricsSummary {
        MetricsSummary {
            total_trades: 0,
            total_fills: 0,
            total_pnl: zero(),
            total_fees: zero(),
            winning_trips: 0,
            round_trips: 0,
            avg_fill_price: zero(),
            final_equity: None,
            avg_slippage_bps: zero(),
        }
    }

    /// Nothing traded.
    pub fn default() -> (r: MetricsSummary)
        ensures
            r == MetricsSummary::spec_default(),
    {
        MetricsSummary {
            total_trades: 0,
            total_fills: 0,
            total_pnl: Dec::zero(),
            total_fees: Dec::zero(),
            winning_trips: 0,
            round_trips: 0,
            avg_fill_price: Dec::zero(),
            final_equity: None,
            avg_slippage_bps: Dec::zero(),
        }
    }
}

/// A record counts as a trade: not rejected, positive quantity.
pub open spec fn is_trade(t: TradeRecord) -> bool {
    !t.rejected && Dec::lt(zero(), t.fill_qty)
}

/// Every decimal of the records is well formed.
pub open spec fn records_wf(s: Seq<TradeRecord>) -> bool {
    forall|i: int| 0 <= i < s.len() ==> (#[trigger] s[i]).fill_price.wf() && s[i].fill_qty.wf() && s[i].fees.wf()
        && s[i].slippage_bps.wf()
}

/// The number of records satisfying `p`.
pub open spec fn count_where(s: Seq<TradeRecord>, p: spec_fn(TradeRecord) -> bool) -> nat
    decreases s.len(),
{
    if s.len() == 0 {
        0
    } else {
        count_where(s.drop_last(), p) + if p(s.last()) { 1nat } else { 0nat }
    }
}

/// Adds a record's value, where `p` holds, to a running decimal sum.
pub open spec fn sum_step(p: spec_fn(TradeRecord) -> bool, val: spec_fn(TradeRecord) -> Result<Dec, Overflow>) -> spec_fn(
    Dec,
    TradeRecord,
) -> Result<Dec, Overflow> {
    |acc: Dec, t: TradeRecord|
        if p(t) {
            match val(t) {
                Ok(v) => sadd(acc, v),
                Err(e) => Err(e),
            }
        } else {
            Ok(acc)
        }
}

/// The sum, from zero in record order, of `val` over the records where `p` holds.
pub open spec fn sum_where(s: Seq<TradeRecord>, p: spec_fn(TradeRecord) -> bool, val: spec_fn(TradeRecord) -> Result<Dec, Overflow>) -> Result<
    Dec,
    Overflow,
> {
    fold_steps(s, zero(), sum_step(p, val))
}

pub open spec fn all_records() -> spec_fn(TradeRecord) -> bool {
    |t: TradeRecord| true
}

pub open spec fn not_rejected() -> spec_fn(TradeRecord) -> bool {
    |t: TradeRecord| !t.rejected
}

pub open spec fn trades_only() -> spec_fn(TradeRecord) -> bool {
    |t: TradeRecord| is_trade(t)
}

pub open spec fn side_filled(side: Side) -> spec_fn(TradeRecord) -> bool {
    |t: TradeRecord| !t.rejected && t.side == side
}

pub open spec fn fees_of() -> spec_fn(TradeRecord) -> Result<Dec, Overflow> {
    |t: TradeRecord| Ok(t.fees)
}

pub open spec fn qty_of() -> spec_fn(TradeRecord) -> Result<Dec, Overflow> {
    |t: TradeRecord| Ok(t.fill_qty)
}

pub open spec fn notional_of() -> spec_fn(TradeRecord) -> Result<Dec, Overflow> {
    |t: TradeRecord| smul(t.fill_price, t.fill_qty)
}

pub open spec fn slippage_of() -> spec_fn(TradeRecord) -> Result<Dec, Overflow> {
    |t: TradeRecord| Ok(t.slippage_bps)
}

/// Win-rate state: per instrument (position, average cost), round trips, wins.
pub type WinState = (Seq<(Seq<char>, (Dec, Dec))>, nat, nat);

/// One trade in the round-trip count. A buy adds to the instrument's position
/// and, when the position is positive afterwards, averages the cost. A sell
/// that closes (part of) a long position (positive position, quantity within
/// it) is a round trip, won when `(price - cost) * qty > 0`; every sell
/// reduces the position. Records that are not trades are skipped.
pub open spec fn win_step() -> spec_fn(WinState, TradeRecord) -> Result<WinState, Overflow> {
    |acc: WinState, t: TradeRecord|
        if !is_trade(t) {
            Ok(acc)
        } else {
            let id = t.instrument_id@;
            let (pos, cost) = match assoc_get(acc.0, id) {
                Some(p) => p,
                None => (zero(), zero()),
            };
            match t.side {
                Side::Buy => match sadd(pos, t.fill_qty) {
                    Err(e) => Err(e),
                    Ok(nq) => if Dec::lt(zero(), nq) {
                        let old_cost = if Dec::lt(zero(), pos) { smul(cost, pos) } else { Ok(zero()) };
                        match old_cost {
                            Err(e) => Err(e),
                            Ok(oc) => match smul(t.fill_price, t.fill_qty) {
                                Err(e) => Err(e),
                                Ok(add) => match sadd(oc, add) {
                                    Err(e) => Err(e),
                                    Ok(total) => match sdiv(total, nq) {
                                        Err(e) => Err(e),
                                        Ok(nc) => Ok((assoc_set(acc.0, id, (nq, nc)), acc.1, acc.2)),
                                    },
                                },
                            },
                        }
                    } else {
                        Ok((assoc_set(acc.0, id, (nq, cost)), acc.1, acc.2))
                    },
                },
                Side::Sell => {
                    let closing = Dec::lt(zero(), pos) && Dec::le(t.fill_qty, pos);
                    let counted: Result<(nat, nat), Overflow> = if closing {
                        match ssub(t.fill_price, cost) {
                            Err(e) => Err(e),
                            Ok(d) => match smul(d, t.fill_qty) {
                                Err(e) => Err(e),
                                Ok(pnl) => Ok((acc.1 + 1, acc.2 + if Dec::lt(zero(), pnl) { 1nat } else { 0nat })),
                            },
                        }
                    } else {
                        Ok((acc.1, acc.2))
                    };
                    match counted {
                        Err(e) => Err(e),
                        Ok((trips, wins)) => match ssub(pos, t.fill_qty) {
                            Err(e) => Err(e),
                            Ok(np) => Ok((assoc_set(acc.0, id, (np, cost)), trips, wins)),
                        },
                    }
                },
                Side::Unknown => Ok(acc),
            }
        }
}

/// Round trips and wins over the records, each instrument on its own.
pub open spec fn spec_win_counts(s: Seq<TradeRecord>) -> Result<WinState, Overflow> {
    fold_steps(s, (Seq::empty(), 0nat, 0nat), win_step())
}

/// The metrics of a run. Without trades, the default summary with the number
/// of fill events and the final equity. Otherwise fees are summed over all records; P&L is sell notional
/// minus buy notional minus fees (records that are not rejected); the average
/// fill price is their notional over their quantity (zero for zero quantity);
/// the average slippage is their slippage sum over their count.
pub open spec fn spec_metrics(trades: Seq<TradeRecord>, n_fills: nat, final_equity: Option<Dec>) -> Result<MetricsSummary, Overflow> {
    let total_trades = count_where(trades, trades_only());
    if total_trades == 0 {
        Ok(MetricsSummary { total_fills: n_fills as usize, final_equity, ..MetricsSummary::spec_default() })
    } else {
        match (
            sum_where(trades, all_records(), fees_of()),
            sum_where(trades, side_filled(Side::Buy), notional_of()),
            sum_where(trades, side_filled(Side::Sell), notional_of()),
            sum_where(trades, not_rejected(), qty_of()),
            sum_where(trades, not_rejected(), notional_of()),
            spec_win_counts(trades),
            sum_where(trades, not_rejected(), slippage_of()),
        ) {
            (Ok(fees), Ok(buy), Ok(sell), Ok(qty), Ok(notional), Ok(wins), Ok(slip)) => match ssub(sell, buy) {
                Err(e) => Err(e),
                Ok(gross) => match ssub(gross, fees) {
                    Err(e) => Err(e),
                    Ok(pnl) => {
                        let avg_price = if qty.spec_is_zero() { Ok(zero()) } else { sdiv(notional, qty) };
                        let n = count_where(trades, not_rejected());
                        let avg_slip = if n == 0 { Ok(zero()) } else { sdiv(slip, Dec { mantissa: n as i128, scale: 0 }) };
                        match (avg_price, avg_slip) {
                            (Ok(ap), Ok(asl)) => Ok(
                                MetricsSummary {
                                    total_trades: total_trades as usize,
                                    total_fills: n_fills as usize,
                                    total_pnl: pnl,
                                    total_fees: fees,
                                    winning_trips: wins.2 as usize,
                                    round_trips: wins.1 as usize,
                                    avg_fill_price: ap,
                                    final_equity,
                                    avg_slippage_bps: asl,
                                },
                            ),
                            _ => Err(Overflow),
                        }
                    },
                },
            },
            _ => Err(Overflow),
        }
    }
}

proof fn lemma_count_next(s: Seq<TradeRecord>, p: spec_fn(TradeRecord) -> bool, i: int)
    requires
        0 <= i < s.len(),
    ensures
        count_where(s.take(i + 1), p) == count_where(s.take(i), p) + if p(s[i]) { 1nat } else { 0nat },
        count_where(s.take(i), p) <= i,
    decreases i,
{
    assert(s.take(i + 1).drop_last() =~= s.take(i));
    if i > 0 {
        lemma_count_next(s, p, i - 1);
    } else {
        assert(s.take(0).len() == 0);
    }
}

/// Counts the trades and the records that are not rejected.
fn count_records(trades: &Vec<TradeRecord>) -> (r: (usize, usize))
    requires
        records_wf(trades@),
    ensures
        r.0 == count_where(trades@, trades_only()),
        r.1 == count_where(trades@, not_rejected()),
{
    let mut n_trades: usize = 0;
    let mut n_ok: usize = 0;
    let mut i: usize = 0;
    while i < trades.len()
        invariant
            0 <= i <= trades.len(),
            records_wf(trades@),
            n_trades == count_where(trades@.take(i as int), trades_only()),
            n_ok == count_where(trades@.take(i as int), not_rejected()),
        decreases trades.len() - i,
    {
        proof {
            lemma_count_next(trades@, trades_only(), i as int);
            lemma_count_next(trades@, not_rejected(), i as int);
        }
        let t = &trades[i];
        if !t.rejected && Dec::zero().less(&t.fill_qty) {
            n_trades = n_trades + 1;
        }
        if !t.rejected {
            n_ok = n_ok + 1;
        }
        i = i + 1;
    }
    proof {
        assert(trades@.take(trades.len() as int) =~= trades@);
    }
    (n_trades, n_ok)
}

/// Adds `v` to `acc` when `cond`.
fn add_if(cond: bool, acc: Dec, v: Result<Dec, Overflow>) -> (r: Result<Dec, Overflow>)
    requires
        acc.wf(),
        v matches Ok(x) ==> x.wf(),
    ensures
        r == (if cond {
            match v {
                Ok(x) => sadd(acc, x),
                Err(e) => Err(e),
            }
        } else {
            Ok(acc)
        }),
        r matches Ok(x) ==> x.wf(),
{
    if cond {
        let x = v?;
        dec_add(acc, x)
    } else {
        Ok(acc)
    }
}

/// The round-trip step on one record; see [`win_step`].
fn exec_win_step(
    state: &mut Vec<(String, (Dec, Dec))>,
    trips: usize,
    wins: usize,
    t: &TradeRecord,
) -> (r: Result<(usize, usize), Overflow>)
    requires
        t.fill_price.wf(),
        t.fill_qty.wf(),
        trips < usize::MAX,
        wins <= trips,
        states_wf(assoc_view(old(state)@)),
    ensures
        match (win_step())((assoc_view(old(state)@), trips as nat, wins as nat), *t) {
            Ok(st) => r matches Ok(c) && assoc_view(final(state)@) == st.0 && c.0 == st.1 && c.1 == st.2,
            Err(_) => r is Err,
        },
        r matches Ok(c) ==> c.0 <= trips + 1 && c.1 <= c.0,
        states_wf(assoc_view(final(state)@)),
{
    if t.rejected || !Dec::zero().less(&t.fill_qty) {
        return Ok((trips, wins));
    }
    let ghost s0 = assoc_view(state@);
    let (pos, cost) = match assoc_lookup(state, &t.instrument_id) {
        Some(p) => p,
        None => (Dec::zero(), Dec::zero()),
    };
    proof {
        lemma_key_index(s0, t.instrument_id@);
        if assoc_get(s0, t.instrument_id@) is Some {
            let k = crate::assoc::key_index(s0, t.instrument_id@);
            assert(s0[k] == (state@[k].0@, state@[k].1));
        }
    }
    match t.side {
        Side::Buy => {
            let nq = dec_add(pos, t.fill_qty)?;
            if Dec::zero().less(&nq) {
                let oc = if Dec::zero().less(&pos) {
                    dec_mul(cost, pos)?
                } else {
                    Dec::zero()
                };
                let add = dec_mul(t.fill_price, t.fill_qty)?;
                let total = dec_add(oc, add)?;
                let nc = dec_div(total, nq)?;
                assoc_insert(state, &t.instrument_id, (nq, nc));
                proof {
                    lemma_set_wf(s0, t.instrument_id@, (nq, nc));
                }
            } else {
                assoc_insert(state, &t.instrument_id, (nq, cost));
                proof {
                    lemma_set_wf(s0, t.instrument_id@, (nq, cost));
                }
            }
            Ok((trips, wins))
        },
        Side::Sell => {
            let closing = Dec::zero().less(&pos) && t.fill_qty.less_eq(&pos);
            let (nt, nw) = if closing {
                let d = dec_sub(t.fill_price, cost)?;
                let pnl = dec_mul(d, t.fill_qty)?;
                (trips + 1, if Dec::zero().less(&pnl) { wins + 1 } else { wins })
            } else {
                (trips, wins)
            };
            let np = dec_sub(pos, t.fill_qty)?;
            assoc_insert(state, &t.instrument_id, (np, cost));
            proof {
                lemma_set_wf(s0, t.instrument_id@, (np, cost));
            }
            Ok((nt, nw))
        },
        Side::Unknown => Ok((trips, wins)),
    }
}

/// Every (position, cost) held is well formed.
pub open spec fn states_wf(s: Seq<(Seq<char>, (Dec, Dec))>) -> bool {
    forall|i: int| 0 <= i < s.len() ==> (#[trigger] s[i]).1.0.wf() && s[i].1.1.wf()
}

proof fn lemma_set_wf(s: Seq<(Seq<char>, (Dec, Dec))>, k: Seq<char>, v: (Dec, Dec))
    requires
        states_wf(s),
        v.0.wf(),
        v.1.wf(),
    ensures
        states_wf(assoc_set(s, k, v)),
{
    lemma_key_index(s, k);
}

/// Computes the metrics of a run from its records, fills and final equity;
/// see [`spec_metrics`]. Overflow is reported as `Err`.
pub fn compute_metrics_from(trades: &Vec<TradeRecord>, fills: &Vec<Fill>, final_equity: Option<Dec>) -> (r: Result<MetricsSummary, Overflow>)
    requires
        records_wf(trades@),
    ensures
        match spec_metrics(trades@, fills@.len(), final_equity) {
            Ok(m) => r == Ok::<MetricsSummary, Overflow>(m),
            Err(_) => r is Err,
        },
{
    let (total_trades, n_ok) = count_records(trades);
    let total_fills = fills.len();
    if total_trades == 0 {
        let mut m = MetricsSummary::default();
        m.total_fills = total_fills;
        m.final_equity = final_equity;
        return Ok(m);
    }
    let ghost s = trades@;
    let ghost f_fees = sum_step(all_records(), fees_of());
    let ghost f_buy = sum_step(side_filled(Side::Buy), notional_of());
    let ghost f_sell = sum_step(side_filled(Side::Sell), notional_of());
    let ghost f_qty = sum_step(not_rejected(), qty_of());
    let ghost f_not = sum_step(not_rejected(), notional_of());
    let ghost f_slip = sum_step(not_rejected(), slippage_of());
    let ghost w0: WinState = (Seq::empty(), 0nat, 0nat);
    proof {
        lemma_fold_start(s, zero(), f_fees);
        lemma_fold_start(s, zero(), f_buy);
        lemma_fold_start(s, zero(), f_sell);
        lemma_fold_start(s, zero(), f_qty);
        lemma_fold_start(s, zero(), f_not);
        lemma_fold_start(s, zero(), f_slip);
        lemma_fold_start(s, w0, win_step());
    }
    let mut fees = Dec::zero();
    let mut buy = Dec::zero();
    let mut sell = Dec::zero();
    let mut qty = Dec::zero();
    let mut notional = Dec::zero();
    let mut slip = Dec::zero();
    let mut state: Vec<(String, (Dec, Dec))> = Vec::new();
    let mut trips: usize = 0;
    let mut wins: usize = 0;
    proof {
        assert(assoc_view(state@) =~= Seq::<(Seq<char>, (Dec, Dec))>::empty());
    }
    let mut i: usize = 0;
    while i < trades.len()
        invariant
            0 <= i <= trades.len(),
            s == trades@,
            records_wf(s),
            total_trades > 0,
            total_trades == count_where(s, trades_only()),
            f_fees == sum_step(all_records(), fees_of()),
            f_buy == sum_step(side_filled(Side::Buy), notional_of()),
            f_sell == sum_step(side_filled(Side::Sell), notional_of()),
            f_qty == sum_step(not_rejected(), qty_of()),
            f_not == sum_step(not_rejected(), notional_of()),
            f_slip == sum_step(not_rejected(), slippage_of()),
            w0 == (Seq::<(Seq<char>, (Dec, Dec))>::empty(), 0nat, 0nat),
            fold_steps(s.take(i as int), zero(), f_fees) == Ok::<Dec, Overflow>(fees),
            fold_steps(s.take(i as int), zero(), f_buy) == Ok::<Dec, Overflow>(buy),
            fold_steps(s.take(i as int), zero(), f_sell) == Ok::<Dec, Overflow>(sell),
            fold_steps(s.take(i as int), zero(), f_qty) == Ok::<Dec, Overflow>(qty),
            fold_steps(s.take(i as int), zero(), f_not) == Ok::<Dec, Overflow>(notional),
            fold_steps(s.take(i as int), zero(), f_slip) == Ok::<Dec, Overflow>(slip),
            fold_steps(s.take(i as int), w0, win_step()) == Ok::<WinState, Overflow>(
                (assoc_view(state@), trips as nat, wins as nat),
            ),
            fees.wf(),
            buy.wf(),
            sell.wf(),
            qty.wf(),
            notional.wf(),
            slip.wf(),
            trips <= i,
            wins <= trips,
            states_wf(assoc_view(state@)),
        decreases trades.len() - i,
    {
        proof {
            lemma_fold_next(s, zero(), f_fees, i as int);
            lemma_fold_next(s, zero(), f_buy, i as int);
            lemma_fold_next(s, zero(), f_sell, i as int);
            lemma_fold_next(s, zero(), f_qty, i as int);
            lemma_fold_next(s, zero(), f_not, i as int);
            lemma_fold_next(s, zero(), f_slip, i as int);
            lemma_fold_next(s, w0, win_step(), i as int);
        }
        let t = &trades[i];
        let ok = !t.rejected;
        let n = if ok { dec_mul(t.fill_price, t.fill_qty) } else { Ok(Dec::zero()) };
        let n2 = if ok { dec_mul(t.fill_price, t.fill_qty) } else { Ok(Dec::zero()) };
        let n3 = if ok { dec_mul(t.fill_price, t.fill_qty) } else { Ok(Dec::zero()) };
        let step = (
            add_if(true, fees, Ok(t.fees)),
            add_if(ok && t.side == Side::Buy, buy, n),
            add_if(ok && t.side == Side::Sell, sell, n2),
            add_if(ok, qty, Ok(t.fill_qty)),
            add_if(ok, notional, n3),
            add_if(ok, slip, Ok(t.slippage_bps)),
        );
        match step {
            (Ok(a), Ok(b), Ok(c), Ok(d), Ok(e), Ok(f)) => {
                fees = a;
                buy = b;
                sell = c;
                qty = d;
                notional = e;
                slip = f;
            },
            _ => {
                proof {
                    if fold_steps(s.take(i + 1), zero(), f_fees) is Err {
                        lemma_fold_err(s, zero(), f_fees, i + 1);
                    }
                    if fold_steps(s.take(i + 1), zero(), f_buy) is Err {
                        lemma_fold_err(s, zero(), f_buy, i + 1);
                    }
                    if fold_steps(s.take(i + 1), zero(), f_sell) is Err {
                        lemma_fold_err(s, zero(), f_sell, i + 1);
                    }
                    if fold_steps(s.take(i + 1), zero(), f_qty) is Err {
                        lemma_fold_err(s, zero(), f_qty, i + 1);
                    }
                    if fold_steps(s.take(i + 1), zero(), f_not) is Err {
                        lemma_fold_err(s, zero(), f_not, i + 1);
                    }
                    if fold_steps(s.take(i + 1), zero(), f_slip) is Err {
                        lemma_fold_err(s, zero(), f_slip, i + 1);
                    }
                }
                return Err(Overflow);
            },
        }
        match exec_win_step(&mut state, trips, wins, t) {
            Ok((a, b)) => {
                trips = a;
                wins = b;
            },
            Err(e) => {
                proof {
                    lemma_fold_err(s, w0, win_step(), i + 1);
                }
                return Err(e);
            },
        }
        i = i + 1;
    }
    proof {
        lemma_fold_start(s, zero(), f_fees);
    }
    let gross = dec_sub(sell, buy)?;
    let total_pnl = dec_sub(gross, fees)?;
    let avg_fill_price = if qty.is_zero() {
        Dec::zero()
    } else {
        dec_div(notional, qty)?
    };
    let avg_slippage_bps = if n_ok == 0 {
        Dec::zero()
    } else {
        dec_div(slip, Dec { mantissa: n_ok as i128, scale: 0 })?
    };
    Ok(
        MetricsSummary {
            total_trades,
            total_fills,
            total_pnl,
            total_fees: fees,
            winning_trips: wins,
            round_trips: trips,
            avg_fill_price,
            final_equity,
            avg_slippage_bps,
        },
    )
}

/// Computes the metrics of a run; the final equity is the account's, when
/// there is one. An overflow, here or in the account's equity, is `Err`.
pub fn compute_metrics<A: Account>(trades: &Vec<TradeRecord>, fills: &Vec<Fill>, account: Option<&A>) -> (r: Result<
    MetricsSummary,
    Overflow,
>)
    requires
        records_wf(trades@),
    ensures
        account is None ==> match spec_metrics(trades@, fills@.len(), None) {
            Ok(m) => r == Ok::<MetricsSummary, Overflow>(m),
            Err(_) => r is Err,
        },
        r matches Ok(m) ==> spec_metrics(trades@, fills@.len(), m.final_equity) == Ok::<MetricsSummary, Overflow>(m)
            && (m.final_equity is Some <==> account is Some),
        r is Err ==> (account matches Some(a) && a.equity_after(Seq::empty()) is Err) || spec_metrics(trades@, fills@.len(), None) is Err,
        r matches Ok(m) ==> (account matches Some(a) ==> a.equity_after(Seq::empty()) == Ok::<Dec, Overflow>(m.final_equity->Some_0)),
{
    let final_equity = match account {
        Some(a) => Some(a.equity()?),
        None => None,
    };
    proof {
        lemma_metrics_err_any_equity(trades@, fills@.len(), final_equity);
    }
    compute_metrics_from(trades, fills, final_equity)
}

/// Whether the metrics overflow does not depend on the final equity.
proof fn lemma_metrics_err_any_equity(trades: Seq<TradeRecord>, n_fills: nat, final_equity: Option<Dec>)
    ensures
        spec_metrics(trades, n_fills, final_equity) is Err == spec_metrics(trades, n_fills, None) is Err,
{
}

proof fn lemma_win_counts_bounded(s: Seq<TradeRecord>)
    ensures
        spec_win_counts(s) matches Ok(w) ==> w.2 <= w.1 <= s.len(),
    decreases s.len(),
{
    if s.len() > 0 {
        lemma_win_counts_bounded(s.drop_last());
    }
}

/// The counts of a run are consistent: every fill event is counted once, with
/// or without trades, and winning
/// round trips never outnumber round trips (the win rate is a proportion).
pub proof fn metrics_counts_consistent(trades: Seq<TradeRecord>, n_fills: nat, final_equity: Option<Dec>)
    requires
        trades.len() <= usize::MAX,
        n_fills <= usize::MAX,
    ensures
        spec_metrics(trades, n_fills, final_equity) matches Ok(m) ==> {
            &&& m.total_fills == n_fills
            &&& m.winning_trips <= m.round_trips
            &&& m.final_equity == final_equity
        },
{
    lemma_win_counts_bounded(trades);
}

/// The round-trip count follows each instrument's long position at its
/// quantity-weighted average cost. Given the (position, average cost) `(q,
/// c)` of an instrument after the records `s` (zero and zero when it has
/// none), one more trade of that instrument:
/// - a buy adds its quantity to the position; when the position was long,
///   the cost becomes the quantity-weighted average of the held units at `c`
///   and the bought units at their price; from flat or short, the cost of the
///   bought units over the new position; and while the position is not long
///   afterwards, the cost is kept. Round trips and wins are unchanged;
/// - a sell takes its quantity from the position and keeps the cost; when it
///   closes (part of) a long position it is one more round trip, and one more
///   win exactly when `(price - c) * qty` is positive; otherwise the counts
///   are unchanged;
/// - any other record changes nothing; no other instrument changes.
pub proof fn win_count_follows_average_cost(s: Seq<TradeRecord>, t: TradeRecord, q: Dec, c: Dec)
    requires
        spec_win_counts(s) is Ok,
        assoc_get(spec_win_counts(s)->Ok_0.0, t.instrument_id@) == Some((q, c)) || (assoc_get(
            spec_win_counts(s)->Ok_0.0,
            t.instrument_id@,
        ) is None && q == zero() && c == zero()),
    ensures
        ({
            let w = spec_win_counts(s)->Ok_0;
            let id = t.instrument_id@;
            spec_win_counts(s.push(t)) matches Ok(w2) ==> {
                &&& forall|k: Seq<char>| k != id ==> assoc_get(#[trigger] w2.0, k) == assoc_get(w.0, k)
                &&& !is_trade(t) || t.side == Side::Unknown ==> w2 == w
                &&& is_trade(t) && t.side == Side::Buy ==> (assoc_get(w2.0, id) matches Some((nq, nc)) && {
                    &&& sadd(q, t.fill_qty) == Ok::<Dec, Overflow>(nq)
                    &&& w2.1 == w.1 && w2.2 == w.2
                    &&& Dec::lt(zero(), q) && Dec::lt(zero(), nq) ==> weighted_cost(c, q, t.fill_price, t.fill_qty, nq) == Ok::<
                        Dec,
                        Overflow,
                    >(nc)
                    &&& !Dec::lt(zero(), q) && Dec::lt(zero(), nq) ==> (smul(t.fill_price, t.fill_qty) matches Ok(added) && (sadd(
                        zero(),
                        added,
                    ) matches Ok(total) && sdiv(total, nq) == Ok::<Dec, Overflow>(nc)))
                    &&& !Dec::lt(zero(), nq) ==> nc == c
                })
                &&& is_trade(t) && t.side == Side::Sell ==> (assoc_get(w2.0, id) matches Some((nq, nc)) && {
                    &&& ssub(q, t.fill_qty) == Ok::<Dec, Overflow>(nq)
                    &&& nc == c
                    &&& Dec::lt(zero(), q) && Dec::le(t.fill_qty, q) ==> (ssub(t.fill_price, c) matches Ok(d) && (smul(d, t.fill_qty) matches Ok(
                        pnl,
                    ) && w2.1 == w.1 + 1 && w2.2 == w.2 + if Dec::lt(zero(), pnl) {
                        1nat
                    } else {
                        0nat
                    }))
                    &&& !(Dec::lt(zero(), q) && Dec::le(t.fill_qty, q)) ==> w2.1 == w.1 && w2.2 == w.2
                })
            }
        }),
{
    let id = t.instrument_id@;
    let w = spec_win_counts(s)->Ok_0;
    assert(s.push(t).drop_last() =~= s);
    assert forall|v: (Dec, Dec)| #[trigger] assoc_get(assoc_set(w.0, id, v), id) == Some(v) by {
        assoc_set_then_get(w.0, id, v);
    }
    assert forall|v: (Dec, Dec), k: Seq<char>| k != id implies #[trigger] assoc_get(assoc_set(w.0, id, v), k) == assoc_get(w.0, k) by {
        assoc_set_keeps_others(w.0, id, k, v);
    }
}

} // verus!
