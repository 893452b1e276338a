//! The L2 order book view kept by the order-book engine.
//!
//! Each side is a list of (price, size) levels in strictly increasing price
//! order, prices compared by value; every size is positive. The best bid is the
//! last bid level, the best ask the first ask level.
use vstd::prelude::*;

use crate::decimal::{checked_div, dec_add, dec_div, dec_sub, opt_res, sadd, ssub, Dec, Overflow};
use crate::market_event::{levels_wf, BookAction, MarketPayload};
use crate::types::Side;

verus! {

/// The levels are in strictly increasing price order.
pub open spec fn sorted_levels(s: Seq<(Dec, Dec)>) -> bool {
    forall|i: int, j: int| 0 <= i < j < s.len() ==> Dec::lt(#[trigger] s[i].0, #[trigger] s[j].0)
}

/// Every level holds well-formed decimals and a positive size.
pub open spec fn levels_ok(s: Seq<(Dec, Dec)>) -> bool {
    &&& levels_wf(s)
    &&& forall|i: int| 0 <= i < s.len() ==> (#[trigger] s[i]).1.spec_is_pos()
    &&& sorted_levels(s)
}

/// `i` is where `p` belongs: every level before it is below `p`, none after it is.
pub open spec fn is_slot(s: Seq<(Dec, Dec)>, p: Dec, i: int) -> bool {
    &&& 0 <= i <= s.len()
    &&& forall|j: int| 0 <= j < i ==> Dec::lt(#[trigger] s[j].0, p)
    &&& forall|j: int| i <= j < s.len() ==> Dec::le(p, #[trigger] s[j].0)
}

/// The position of price `p` among sorted levels.
pub open spec fn slot(s: Seq<(Dec, Dec)>, p: Dec) -> int {
    choose|i: int| is_slot(s, p, i)
}

/// The levels hold a level at price `p` (by value).
pub open spec fn has_level(s: Seq<(Dec, Dec)>, p: Dec) -> bool {
    let i = slot(s, p);
    i < s.len() && Dec::same(s[i].0, p)
}

/// Sets the size at price `p`: an existing level keeps its price and takes the
/// new size (as a `BTreeMap` keeps its key); otherwise a level is inserted in order.
pub open spec fn levels_insert(s: Seq<(Dec, Dec)>, p: Dec, size: Dec) -> Seq<(Dec, Dec)> {
    let i = slot(s, p);
    if has_level(s, p) {
        s.update(i, (s[i].0, size))
    } else {
        s.insert(i, (p, size))
    }
}

/// Removes the level at price `p`, if there is one.
pub open spec fn levels_remove(s: Seq<(Dec, Dec)>, p: Dec) -> Seq<(Dec, Dec)> {
    if has_level(s, p) {
        s.remove(slot(s, p))
    } else {
        s
    }
}

/// Sets or removes the level at price `p`: a size that is zero or negative removes it.
pub open spec fn levels_set(s: Seq<(Dec, Dec)>, p: Dec, size: Dec) -> Seq<(Dec, Dec)> {
    if size.spec_is_zero() || size.spec_is_neg() {
        levels_remove(s, p)
    } else {
        levels_insert(s, p, size)
    }
}

/// Applying a delta's action to one side.
pub open spec fn levels_apply(s: Seq<(Dec, Dec)>, p: Dec, size: Dec, action: BookAction) -> Seq<(Dec, Dec)> {
    match action {
        BookAction::Add | BookAction::Modify => levels_set(s, p, size),
        BookAction::Delete => levels_remove(s, p),
        BookAction::Clear => Seq::empty(),
    }
}

/// Building a side from snapshot levels, in the given order: each level with a
/// positive size is set; the others are skipped.
pub open spec fn levels_from_snapshot(src: Seq<(Dec, Dec)>) -> Seq<(Dec, Dec)>
    decreases src.len(),
{
    if src.len() == 0 {
        Seq::empty()
    } else {
        let prev = levels_from_snapshot(src.drop_last());
        let (p, sz) = src.last();
        if !sz.spec_is_zero() && !sz.spec_is_neg() {
            levels_insert(prev, p, sz)
        } else {
            prev
        }
    }
}

/// Prepends fills to the outcome of the rest of a walk.
pub open spec fn prepend(
    out: Seq<(Dec, Dec)>,
    rest: Result<Seq<(Dec, Dec)>, Overflow>,
) -> Result<Seq<(Dec, Dec)>, Overflow> {
    match rest {
        Ok(x) => Ok(out + x),
        Err(e) => Err(e),
    }
}

/// Walking levels in the given order for `qty`: at each level take
/// `min(qty, size)` and reduce `qty` by it, until `qty` is zero or negative.
pub open spec fn walk(levels: Seq<(Dec, Dec)>, qty: Dec) -> Result<Seq<(Dec, Dec)>, Overflow>
    decreases levels.len(),
{
    if levels.len() == 0 || qty.spec_is_zero() || qty.spec_is_neg() {
        Ok(Seq::empty())
    } else {
        let f = qty.spec_min(levels[0].1);
        match ssub(qty, f) {
            Ok(q2) => prepend(seq![(levels[0].0, f)], walk(levels.drop_first(), q2)),
            Err(e) => Err(e),
        }
    }
}

/// The same walk, from the last level to the first.
pub open spec fn walk_desc(levels: Seq<(Dec, Dec)>, qty: Dec) -> Result<Seq<(Dec, Dec)>, Overflow>
    decreases levels.len(),
{
    if levels.len() == 0 || qty.spec_is_zero() || qty.spec_is_neg() {
        Ok(Seq::empty())
    } else {
        let f = qty.spec_min(levels.last().1);
        match ssub(qty, f) {
            Ok(q2) => prepend(seq![(levels.last().0, f)], walk_desc(levels.drop_last(), q2)),
            Err(e) => Err(e),
        }
    }
}

proof fn lemma_slot_exists(s: Seq<(Dec, Dec)>, p: Dec) -> (k: int)
    requires
        sorted_levels(s),
    ensures
        is_slot(s, p, k),
    decreases s.len(),
{
    if s.len() == 0 {
        0
    } else {
        let t = s.drop_last();
        let k0 = lemma_slot_exists(t, p);
        let n = s.len() - 1;
        if k0 < n {
            assert forall|j: int| k0 <= j < s.len() implies Dec::le(p, #[trigger] s[j].0) by {
                if j == n {
                    assert(Dec::le(p, t[k0].0));
                    assert(Dec::lt(s[k0].0, s[n].0));
                } else {
                    assert(s[j] == t[j]);
                }
            }
            assert forall|j: int| 0 <= j < k0 implies Dec::lt(#[trigger] s[j].0, p) by {
                assert(s[j] == t[j]);
            }
            k0
        } else if Dec::lt(s[n].0, p) {
            assert forall|j: int| 0 <= j < s.len() implies Dec::lt(#[trigger] s[j].0, p) by {
                if j < n {
                    assert(s[j] == t[j]);
                }
            }
            s.len() as int
        } else {
            assert forall|j: int| 0 <= j < n implies Dec::lt(#[trigger] s[j].0, p) by {
                assert(s[j] == t[j]);
            }
            n
        }
    }
}

/// Sorted levels have exactly one slot for each price.
pub proof fn lemma_slot(s: Seq<(Dec, Dec)>, p: Dec)
    requires
        sorted_levels(s),
    ensures
        is_slot(s, p, slot(s, p)),
        forall|i: int| is_slot(s, p, i) ==> i == slot(s, p),
{
    let k = lemma_slot_exists(s, p);
    assert forall|i: int| is_slot(s, p, i) implies i == k by {
        if i < k {
            assert(Dec::le(p, s[i].0));
        } else if i > k {
            assert(Dec::lt(s[k].0, p));
        }
    }
}

/// The size of the level at price `p` (by value), if there is one.
pub open spec fn level_size(s: Seq<(Dec, Dec)>, p: Dec) -> Option<Dec> {
    if has_level(s, p) {
        Some(s[slot(s, p)].1)
    } else {
        None
    }
}

/// Setting a positive size at a price keeps the levels well formed and sorted.
pub proof fn lemma_levels_insert_ok(s: Seq<(Dec, Dec)>, p: Dec, size: Dec)
    requires
        levels_ok(s),
        p.wf(),
        size.wf(),
        size.spec_is_pos(),
    ensures
        levels_ok(levels_insert(s, p, size)),
{
    lemma_slot(s, p);
    let i = slot(s, p);
    let r = levels_insert(s, p, size);
    if has_level(s, p) {
        assert forall|a: int, b: int| 0 <= a < b < r.len() implies Dec::lt(#[trigger] r[a].0, #[trigger] r[b].0) by {
            assert(Dec::lt(s[a].0, s[b].0));
        }
    } else {
        assert forall|a: int, b: int| 0 <= a < b < r.len() implies Dec::lt(#[trigger] r[a].0, #[trigger] r[b].0) by {
            if b < i {
                assert(Dec::lt(s[a].0, s[b].0));
            } else if b == i {
                assert(Dec::lt(s[a].0, p));
            } else if a == i {
                assert(Dec::le(p, s[b - 1].0));
                if b - 1 > i {
                    assert(Dec::lt(s[i].0, s[b - 1].0));
                }
            } else if a < i {
                assert(Dec::lt(s[a].0, s[b - 1].0));
            } else {
                assert(Dec::lt(s[a - 1].0, s[b - 1].0));
            }
        }
        assert forall|j: int| 0 <= j < r.len() implies (#[trigger] r[j]).0.wf() && r[j].1.wf() && r[j].1.spec_is_pos() by {
            if j > i {
                assert(r[j] == s[j - 1]);
            }
        }
    }
}

/// Removing the level at a price keeps the levels well formed and sorted.
pub proof fn lemma_levels_remove_ok(s: Seq<(Dec, Dec)>, p: Dec)
    requires
        levels_ok(s),
    ensures
        levels_ok(levels_remove(s, p)),
{
    lemma_slot(s, p);
    let i = slot(s, p);
    let r = levels_remove(s, p);
    if has_level(s, p) {
        assert forall|a: int, b: int| 0 <= a < b < r.len() implies Dec::lt(#[trigger] r[a].0, #[trigger] r[b].0) by {
            let a2 = if a < i { a } else { a + 1 };
            let b2 = if b < i { b } else { b + 1 };
            assert(r[a] == s[a2]);
            assert(r[b] == s[b2]);
            assert(Dec::lt(s[a2].0, s[b2].0));
        }
        assert forall|j: int| 0 <= j < r.len() implies (#[trigger] r[j]).0.wf() && r[j].1.wf() && r[j].1.spec_is_pos() by {
            let j2 = if j < i { j } else { j + 1 };
            assert(r[j] == s[j2]);
        }
    }
}

/// A positive size set at a price is what a read of that price gives back.
pub proof fn book_set_then_read(s: Seq<(Dec, Dec)>, p: Dec, size: Dec)
    requires
        levels_ok(s),
        p.wf(),
        size.wf(),
        size.spec_is_pos(),
    ensures
        level_size(levels_set(s, p, size), p) == Some(size),
{
    lemma_slot(s, p);
    lemma_levels_insert_ok(s, p, size);
    let i = slot(s, p);
    let r = levels_insert(s, p, size);
    assert(is_slot(r, p, i)) by {
        if !has_level(s, p) {
            assert forall|j: int| i <= j < r.len() implies Dec::le(p, #[trigger] r[j].0) by {
                if j > i {
                    assert(r[j] == s[j - 1]);
                }
            }
            assert forall|j: int| 0 <= j < i implies Dec::lt(#[trigger] r[j].0, p) by {
                assert(r[j] == s[j]);
            }
        }
    }
    lemma_slot(r, p);
}

/// After a price's level is removed, a read of that price finds no level.
pub proof fn book_remove_then_read(s: Seq<(Dec, Dec)>, p: Dec)
    requires
        levels_ok(s),
    ensures
        level_size(levels_remove(s, p), p) is None,
{
    lemma_slot(s, p);
    if has_level(s, p) {
        lemma_levels_remove_ok(s, p);
        let i = slot(s, p);
        let r = levels_remove(s, p);
        assert(is_slot(r, p, i)) by {
            assert forall|j: int| i <= j < r.len() implies Dec::le(p, #[trigger] r[j].0) by {
                assert(r[j] == s[j + 1]);
                assert(Dec::lt(s[i].0, s[j + 1].0));
            }
            assert forall|j: int| 0 <= j < i implies Dec::lt(#[trigger] r[j].0, p) by {
                assert(r[j] == s[j]);
            }
        }
        lemma_slot(r, p);
        if i < r.len() {
            assert(r[i] == s[i + 1]);
            assert(Dec::lt(s[i].0, s[i + 1].0));
        }
    }
}

/// The best bid is the highest bid and the best ask the lowest ask: in sorted
/// levels the last level's price is at least, and the first level's price at
/// most, every other level's.
pub proof fn best_levels_are_extreme(s: Seq<(Dec, Dec)>, i: int)
    requires
        levels_ok(s),
        0 <= i < s.len(),
    ensures
        Dec::le(s[i].0, s.last().0),
        Dec::le(s[0].0, s[i].0),
{
    if i < s.len() - 1 {
        assert(Dec::lt(s[i].0, s[s.len() - 1].0));
    }
    if i > 0 {
        assert(Dec::lt(s[0].0, s[i].0));
    }
}

/// The bid side after a quote at `bid`: levels priced at or above the quote
/// are stale and dropped, then the quote's level is set (a size that is zero
/// or negative sets none).
pub open spec fn quote_bids(s: Seq<(Dec, Dec)>, bid: Dec, size: Dec) -> Seq<(Dec, Dec)> {
    levels_set(s.take(slot(s, bid)), bid, size)
}

/// The ask side after a quote at `ask`: levels priced below the quote are
/// stale and dropped, then the quote's level is set (a size that is zero or
/// negative removes it).
pub open spec fn quote_asks(s: Seq<(Dec, Dec)>, ask: Dec, size: Dec) -> Seq<(Dec, Dec)> {
    levels_set(s.skip(slot(s, ask)), ask, size)
}

proof fn lemma_sub_levels_ok(s: Seq<(Dec, Dec)>, a: int, b: int)
    requires
        levels_ok(s),
        0 <= a <= b <= s.len(),
    ensures
        levels_ok(s.subrange(a, b)),
{
    let t = s.subrange(a, b);
    assert forall|i: int, j: int| 0 <= i < j < t.len() implies Dec::lt(#[trigger] t[i].0, #[trigger] t[j].0) by {
        assert(t[i] == s[a + i] && t[j] == s[a + j]);
    }
    assert forall|i: int| 0 <= i < t.len() implies (#[trigger] t[i]).1.spec_is_pos() by {
        assert(t[i] == s[a + i]);
    }
    assert(levels_wf(t)) by {
        assert forall|i: int| 0 <= i < t.len() implies #[trigger] t[i] == s[a + i] by {}
    }
}

/// A delta sets what a read of its price gives back: after an add or a
/// modify with a positive size the level holds that size; after an add or
/// modify with a size that is zero or negative, a delete or a clear there is
/// no level at the price.
pub proof fn delta_then_read(s: Seq<(Dec, Dec)>, p: Dec, size: Dec, action: BookAction)
    requires
        levels_ok(s),
        p.wf(),
        size.wf(),
    ensures
        level_size(levels_apply(s, p, size, action), p) == (match action {
            BookAction::Add | BookAction::Modify => if size.spec_is_zero() || size.spec_is_neg() {
                None
            } else {
                Some(size)
            },
            BookAction::Delete | BookAction::Clear => None::<Dec>,
        }),
{
    match action {
        BookAction::Add | BookAction::Modify => {
            if size.spec_is_zero() || size.spec_is_neg() {
                book_remove_then_read(s, p);
            } else {
                assert(size.spec_is_pos());
                book_set_then_read(s, p, size);
            }
        },
        BookAction::Delete => {
            book_remove_then_read(s, p);
        },
        BookAction::Clear => {
            let e = Seq::<(Dec, Dec)>::empty();
            lemma_slot(e, p);
        },
    }
}

/// A quote with positive sizes is the touch: the best bid is the quote's bid
/// with its size, and the best ask is at the quote's ask (by value) with its
/// size, whatever levels the book held before.
pub proof fn quote_sets_the_touch(bids: Seq<(Dec, Dec)>, asks: Seq<(Dec, Dec)>, bid: Dec, bid_size: Dec, ask: Dec, ask_size: Dec)
    requires
        levels_ok(bids),
        levels_ok(asks),
        bid_size.spec_is_pos(),
        ask_size.spec_is_pos(),
    ensures
        quote_bids(bids, bid, bid_size).len() > 0,
        quote_bids(bids, bid, bid_size).last() == (bid, bid_size),
        quote_asks(asks, ask, ask_size).len() > 0,
        Dec::same(quote_asks(asks, ask, ask_size)[0].0, ask),
        quote_asks(asks, ask, ask_size)[0].1 == ask_size,
{
    lemma_slot(bids, bid);
    let t = bids.take(slot(bids, bid));
    lemma_sub_levels_ok(bids, 0, slot(bids, bid));
    assert(t =~= bids.subrange(0, slot(bids, bid)));
    assert(is_slot(t, bid, t.len() as int));
    lemma_slot(t, bid);
    assert(!has_level(t, bid));
    assert(!(bid_size.spec_is_zero() || bid_size.spec_is_neg()));
    lemma_slot(asks, ask);
    let u = asks.skip(slot(asks, ask));
    lemma_sub_levels_ok(asks, slot(asks, ask), asks.len() as int);
    assert(u =~= asks.subrange(slot(asks, ask), asks.len() as int));
    assert(is_slot(u, ask, 0));
    lemma_slot(u, ask);
    assert(!(ask_size.spec_is_zero() || ask_size.spec_is_neg()));
}

/// The order book: sorted bid and ask levels. Each side is a `Vec` kept in
/// strictly increasing price order where a `BTreeMap<Decimal, Decimal>`
/// would be: a decimal key is ordered by value, not by the field order that
/// a key of integers has, so the order the book relies on is stated and
/// proved here (see [`levels_ok`]) instead of resting on an unread `Ord`.
#[derive(Clone, Debug)]
pub struct BookView {
    bids: Vec<(Dec, Dec)>,
    asks: Vec<(Dec, Dec)>,
}

impl BookView {
    /// The bid levels, lowest price first.
    pub closed spec fn bids_view(&self) -> Seq<(Dec, Dec)> {
        self.bids@
    }

    /// The ask levels, lowest price first.
    pub closed spec fn asks_view(&self) -> Seq<(Dec, Dec)> {
        self.asks@
    }

    /// Both sides are well-formed sorted levels with positive sizes.
    pub open spec fn wf(&self) -> bool {
        levels_ok(self.bids_view()) && levels_ok(self.asks_view())
    }

    /// An empty book.
    pub fn new() -> (r: BookView)
        ensures
            r.bids_view() == Seq::<(Dec, Dec)>::empty(),
            r.asks_view() == Seq::<(Dec, Dec)>::empty(),
            r.wf(),
    {
        BookView { bids: Vec::new(), asks: Vec::new() }
    }

    /// The bid levels, lowest price first.
    pub fn bids(&self) -> (r: &Vec<(Dec, Dec)>)
        ensures
            r@ == self.bids_view(),
    {
        &self.bids
    }

    /// The ask levels, lowest price first.
    pub fn asks(&self) -> (r: &Vec<(Dec, Dec)>)
        ensures
            r@ == self.asks_view(),
    {
        &self.asks
    }

    /// Applies a book delta: the side of `side` (none for `Unknown`) is updated
    /// by the action; add/modify with a size that is zero or negative removes the level.
    pub fn apply_delta(&mut self, side: &Side, price: Dec, new_size: Dec, action: &BookAction)
        requires
            old(self).wf(),
            price.wf(),
            new_size.wf(),
        ensures
            final(self).wf(),
            match side {
                Side::Buy => final(self).bids_view() == levels_apply(old(self).bids_view(), price, new_size, *action)
                    && final(self).asks_view() == old(self).asks_view(),
                Side::Sell => final(self).asks_view() == levels_apply(old(self).asks_view(), price, new_size, *action)
                    && final(self).bids_view() == old(self).bids_view(),
                Side::Unknown => *final(self) == *old(self),
            },
    {
        match side {
            Side::Buy => apply_to_levels(&mut self.bids, price, new_size, action),
            Side::Sell => apply_to_levels(&mut self.asks, price, new_size, action),
            Side::Unknown => {},
        }
    }

    /// Applies a quote, the current best bid and offer: bid levels at or
    /// above the bid and ask levels below the ask are stale and dropped, and
    /// the quote's two levels are set. With positive sizes, the best bid and
    /// ask are then exactly the quote's.
    pub fn apply_quote(&mut self, bid: Dec, bid_size: Dec, ask: Dec, ask_size: Dec)
        requires
            old(self).wf(),
            bid.wf(),
            bid_size.wf(),
            ask.wf(),
            ask_size.wf(),
        ensures
            final(self).wf(),
            final(self).bids_view() == quote_bids(old(self).bids_view(), bid, bid_size),
            final(self).asks_view() == quote_asks(old(self).asks_view(), ask, ask_size),
    {
        let k = find_slot(&self.bids, bid);
        proof {
            lemma_sub_levels_ok(self.bids@, 0, k as int);
            assert(self.bids@.subrange(0, k as int) =~= self.bids@.take(k as int));
        }
        self.bids.truncate(k);
        apply_to_levels(&mut self.bids, bid, bid_size, &BookAction::Modify);
        let j = find_slot(&self.asks, ask);
        proof {
            lemma_sub_levels_ok(self.asks@, j as int, self.asks@.len() as int);
            assert(self.asks@.subrange(j as int, self.asks@.len() as int) =~= self.asks@.skip(j as int));
        }
        let rest = self.asks.split_off(j);
        self.asks = rest;
        apply_to_levels(&mut self.asks, ask, ask_size, &BookAction::Modify);
    }

    /// Replaces the book with a snapshot; levels with a size that is zero or
    /// negative are skipped.
    pub fn apply_snapshot(&mut self, bids: &Vec<(Dec, Dec)>, asks: &Vec<(Dec, Dec)>)
        requires
            levels_wf(bids@),
            levels_wf(asks@),
        ensures
            final(self).wf(),
            final(self).bids_view() == levels_from_snapshot(bids@),
            final(self).asks_view() == levels_from_snapshot(asks@),
    {
        self.bids = build_levels(bids);
        self.asks = build_levels(asks);
    }

    /// The best (highest) bid level.
    pub fn best_bid(&self) -> (r: Option<(Dec, Dec)>)
        ensures
            r == (if self.bids_view().len() == 0 { None } else { Some(self.bids_view().last()) }),
    {
        let n = self.bids.len();
        if n == 0 {
            None
        } else {
            Some(self.bids[n - 1])
        }
    }

    /// The best (lowest) ask level.
    pub fn best_ask(&self) -> (r: Option<(Dec, Dec)>)
        ensures
            r == (if self.asks_view().len() == 0 { None } else { Some(self.asks_view()[0]) }),
    {
        if self.asks.len() == 0 {
            None
        } else {
            Some(self.asks[0])
        }
    }

    /// `(best bid + best ask) / 2`, when both sides have levels.
    pub open spec fn spec_mid(&self) -> Option<Result<Dec, Overflow>> {
        if self.bids_view().len() == 0 || self.asks_view().len() == 0 {
            None
        } else {
            Some(
                match sadd(self.bids_view().last().0, self.asks_view()[0].0) {
                    Ok(s) => opt_res(crate::decimal::decimal_div(s, Dec { mantissa: 2, scale: 0 })),
                    Err(e) => Err(e),
                },
            )
        }
    }

    /// The mid price, `None` unless both sides have levels; `Some(Err)` on overflow.
    pub fn mid(&self) -> (r: Option<Result<Dec, Overflow>>)
        requires
            self.wf(),
        ensures
            r == self.spec_mid(),
    {
        let (bid, _) = match self.best_bid() {
            Some(b) => b,
            None => return None,
        };
        let (ask, _) = match self.best_ask() {
            Some(a) => a,
            None => return None,
        };
        let s = match dec_add(bid, ask) {
            Ok(s) => s,
            Err(e) => return Some(Err(e)),
        };
        Some(dec_div(s, Dec::from_u64(2)))
    }

    /// Walks the asks from the lowest price for a buy of `qty`; returns the
    /// (price, quantity) taken at each level.
    pub fn walk_asks(&self, qty: Dec) -> (r: Result<Vec<(Dec, Dec)>, Overflow>)
        requires
            self.wf(),
            qty.wf(),
        ensures
            match walk(self.asks_view(), qty) {
                Ok(s) => r matches Ok(v) && v@ == s,
                Err(_) => r is Err,
            },
            r matches Ok(v) ==> levels_wf(v@),
    {
        let mut fills: Vec<(Dec, Dec)> = Vec::new();
        let mut q = qty;
        let mut i: usize = 0;
        let n = self.asks.len();
        let ghost levels = self.asks@;
        assert(levels.skip(0) =~= levels);
        assert(Seq::<(Dec, Dec)>::empty() + walk(levels, qty)->Ok_0 =~= walk(levels, qty)->Ok_0);
        while i < n && !(q.is_zero() || q.is_sign_negative())
            invariant
                n == levels.len(),
                levels == self.asks@,
                levels_ok(levels),
                0 <= i <= n,
                q.wf(),
                levels_wf(fills@),
                walk(levels, qty) == prepend(fills@, walk(levels.skip(i as int), q)),
            decreases n - i,
        {
            assert(levels.skip(i as int)[0] == levels[i as int]);
            assert(levels.skip(i as int).drop_first() =~= levels.skip(i + 1));
            let (price, size) = self.asks[i];
            let f = q.min(size);
            let q2 = match dec_sub(q, f) {
                Ok(x) => x,
                Err(e) => return Err(e),
            };
            proof {
                let rest = walk(levels.skip(i + 1), q2);
                assert(fills@.push((price, f)) + (match rest { Ok(x) => x, Err(_) => Seq::empty() }) =~= fills@ + (seq![(price, f)] + (match rest { Ok(x) => x, Err(_) => Seq::empty() })));
            }
            fills.push((price, f));
            q = q2;
            i = i + 1;
        }
        proof {
            assert(fills@ + Seq::<(Dec, Dec)>::empty() =~= fills@);
        }
        Ok(fills)
    }

    /// Walks the bids from the highest price for a sell of `qty`; returns the
    /// (price, quantity) taken at each level.
    pub fn walk_bids(&self, qty: Dec) -> (r: Result<Vec<(Dec, Dec)>, Overflow>)
        requires
            self.wf(),
            qty.wf(),
        ensures
            match walk_desc(self.bids_view(), qty) {
                Ok(s) => r matches Ok(v) && v@ == s,
                Err(_) => r is Err,
            },
            r matches Ok(v) ==> levels_wf(v@),
    {
        let mut fills: Vec<(Dec, Dec)> = Vec::new();
        let mut q = qty;
        let mut i: usize = self.bids.len();
        let ghost levels = self.bids@;
        assert(levels.take(levels.len() as int) =~= levels);
        assert(Seq::<(Dec, Dec)>::empty() + walk_desc(levels, qty)->Ok_0 =~= walk_desc(levels, qty)->Ok_0);
        while i > 0 && !(q.is_zero() || q.is_sign_negative())
            invariant
                levels == self.bids@,
                levels_ok(levels),
                0 <= i <= levels.len(),
                q.wf(),
                levels_wf(fills@),
                walk_desc(levels, qty) == prepend(fills@, walk_desc(levels.take(i as int), q)),
            decreases i,
        {
            assert(levels.take(i as int).last() == levels[i - 1]);
            assert(levels.take(i as int).drop_last() =~= levels.take(i - 1));
            let (price, size) = self.bids[i - 1];
            let f = q.min(size);
            let q2 = match dec_sub(q, f) {
                Ok(x) => x,
                Err(e) => return Err(e),
            };
            proof {
                let rest = walk_desc(levels.take(i - 1), q2);
                assert(fills@.push((price, f)) + (match rest { Ok(x) => x, Err(_) => Seq::empty() }) =~= fills@ + (seq![(price, f)] + (match rest { Ok(x) => x, Err(_) => Seq::empty() })));
            }
            fills.push((price, f));
            q = q2;
            i = i - 1;
        }
        proof {
            assert(fills@ + Seq::<(Dec, Dec)>::empty() =~= fills@);
        }
        Ok(fills)
    }

    /// Neither side has a level.
    pub fn is_empty(&self) -> (r: bool)
        ensures
            r == (self.bids_view().len() == 0 && self.asks_view().len() == 0),
    {
        self.bids.len() == 0 && self.asks.len() == 0
    }

    /// Applies a book delta or snapshot payload; any other payload leaves the book as it is.
    pub fn update_from_payload(&mut self, payload: &MarketPayload)
        requires
            old(self).wf(),
            payload.wf(),
        ensures
            final(self).wf(),
            match payload {
                MarketPayload::BookDelta { side, price, new_size, action } => match side {
                    Side::Buy => final(self).bids_view() == levels_apply(old(self).bids_view(), *price, *new_size, *action)
                        && final(self).asks_view() == old(self).asks_view(),
                    Side::Sell => final(self).asks_view() == levels_apply(old(self).asks_view(), *price, *new_size, *action)
                        && final(self).bids_view() == old(self).bids_view(),
                    Side::Unknown => *final(self) == *old(self),
                },
                MarketPayload::BookSnapshot { bids, asks, .. } => final(self).bids_view() == levels_from_snapshot(bids@)
                    && final(self).asks_view() == levels_from_snapshot(asks@),
                _ => *final(self) == *old(self),
            },
    {
        match payload {
            MarketPayload::BookDelta { side, price, new_size, action } => {
                self.apply_delta(side, *price, *new_size, action);
            },
            MarketPayload::BookSnapshot { bids, asks, .. } => {
                self.apply_snapshot(bids, asks);
            },
            _ => {},
        }
    }
}

/// Finds the slot of `p` among sorted levels.
fn find_slot(v: &Vec<(Dec, Dec)>, p: Dec) -> (r: usize)
    requires
        levels_ok(v@),
        p.wf(),
    ensures
        r == slot(v@, p),
        is_slot(v@, p, r as int),
{
    let mut i: usize = 0;
    while i < v.len()
        invariant
            0 <= i <= v.len(),
            levels_ok(v@),
            p.wf(),
            forall|j: int| 0 <= j < i ==> Dec::lt(#[trigger] v@[j].0, p),
        decreases v.len() - i,
    {
        if !v[i].0.less(&p) {
            proof {
                assert forall|j: int| i <= j < v@.len() implies Dec::le(p, #[trigger] v@[j].0) by {
                    if j > i {
                        assert(Dec::lt(v@[i as int].0, v@[j].0));
                    }
                }
                assert(is_slot(v@, p, i as int));
                lemma_slot(v@, p);
            }
            return i;
        }
        i = i + 1;
    }
    proof {
        assert(is_slot(v@, p, i as int));
        lemma_slot(v@, p);
    }
    i
}

/// Sets the size at `p` in sorted levels.
fn insert_level(v: &mut Vec<(Dec, Dec)>, p: Dec, size: Dec)
    requires
        levels_ok(old(v)@),
        p.wf(),
        size.wf(),
        size.spec_is_pos(),
    ensures
        levels_ok(final(v)@),
        final(v)@ == levels_insert(old(v)@, p, size),
{
    let i = find_slot(v, p);
    proof {
        lemma_slot(v@, p);
        lemma_levels_insert_ok(v@, p, size);
    }
    if i < v.len() && v[i].0.same_value(&p) {
        let old_price = v[i].0;
        v.set(i, (old_price, size));
    } else {
        v.insert(i, (p, size));
    }
}

/// Removes the level at `p`, if any.
fn remove_level(v: &mut Vec<(Dec, Dec)>, p: Dec)
    requires
        levels_ok(old(v)@),
        p.wf(),
    ensures
        levels_ok(final(v)@),
        final(v)@ == levels_remove(old(v)@, p),
{
    let i = find_slot(v, p);
    proof {
        lemma_levels_remove_ok(v@, p);
    }
    if i < v.len() && v[i].0.same_value(&p) {
        v.remove(i);
    }
}

/// Applies a delta's action to one side.
fn apply_to_levels(v: &mut Vec<(Dec, Dec)>, price: Dec, new_size: Dec, action: &BookAction)
    requires
        levels_ok(old(v)@),
        price.wf(),
        new_size.wf(),
    ensures
        levels_ok(final(v)@),
        final(v)@ == levels_apply(old(v)@, price, new_size, *action),
{
    match action {
        BookAction::Add | BookAction::Modify => {
            if new_size.is_zero() || new_size.is_sign_negative() {
                remove_level(v, price);
            } else {
                insert_level(v, price, new_size);
            }
        },
        BookAction::Delete => {
            remove_level(v, price);
        },
        BookAction::Clear => {
            v.clear();
        },
    }
}

/// Builds one side from snapshot levels.
fn build_levels(src: &Vec<(Dec, Dec)>) -> (r: Vec<(Dec, Dec)>)
    requires
        levels_wf(src@),
    ensures
        levels_ok(r@),
        r@ == levels_from_snapshot(src@),
{
    let mut out: Vec<(Dec, Dec)> = Vec::new();
    let mut i: usize = 0;
    while i < src.len()
        invariant
            0 <= i <= src.len(),
            levels_wf(src@),
            levels_ok(out@),
            out@ == levels_from_snapshot(src@.take(i as int)),
        decreases src.len() - i,
    {
        let (p, sz) = src[i];
        proof {
            assert(src@.take(i + 1).drop_last() =~= src@.take(i as int));
            assert(src@.take(i + 1).last() == src@[i as int]);
        }
        if !sz.is_zero() && !sz.is_sign_negative() {
            insert_level(&mut out, p, sz);
        }
        i = i + 1;
    }
    proof {
        assert(src@.take(src@.len() as int) =~= src@);
    }
    out
}

} // verus!
