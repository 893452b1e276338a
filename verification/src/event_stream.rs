//! The event stream: events ordered by (ts_event, instrument_id, seq),
//! yielded one at a time, forward only.
use vstd::prelude::*;

use crate::manifest::SimError;
use crate::market_event::MarketEvent;

verus! {

broadcast use vstd::seq_lib::group_seq_properties;

/// Lexicographic order on character sequences, by code point (the order of
/// their UTF-8 bytes).
pub open spec fn str_lt(a: Seq<char>, b: Seq<char>) -> bool
    decreases a.len(),
{
    if a.len() == 0 {
        b.len() > 0
    } else if b.len() == 0 {
        false
    } else if a[0] != b[0] {
        (a[0] as int) < (b[0] as int)
    } else {
        str_lt(a.drop_first(), b.drop_first())
    }
}

/// `a` sorts strictly before `b`: by event time, then instrument id, then sequence number.
pub open spec fn key_lt(a: MarketEvent, b: MarketEvent) -> bool {
    ||| a.ts_event < b.ts_event
    ||| a.ts_event == b.ts_event && str_lt(a.instrument_id@, b.instrument_id@)
    ||| a.ts_event == b.ts_event && a.instrument_id@ == b.instrument_id@ && a.seq < b.seq
}

/// The two events have the same sort key.
pub open spec fn same_key(a: MarketEvent, b: MarketEvent) -> bool {
    a.ts_event == b.ts_event && a.instrument_id@ == b.instrument_id@ && a.seq == b.seq
}

/// No event sorts before an earlier one.
pub open spec fn sorted_by_key(s: Seq<MarketEvent>) -> bool {
    forall|i: int, j: int| 0 <= i < j < s.len() ==> !key_lt(#[trigger] s[j], #[trigger] s[i])
}

/// The events with the same key as `k`, in order.
pub open spec fn key_group(s: Seq<MarketEvent>, k: MarketEvent) -> Seq<MarketEvent> {
    s.filter(|e: MarketEvent| same_key(e, k))
}

/// `out` is `inp` stably sorted: sorted by key, and the events of each key
/// keep their order (so `out` is a permutation of `inp`).
pub open spec fn stably_sorted(out: Seq<MarketEvent>, inp: Seq<MarketEvent>) -> bool {
    &&& sorted_by_key(out)
    &&& forall|k: MarketEvent| #[trigger] key_group(out, k) == key_group(inp, k)
}

proof fn lemma_str_lt_irrefl(a: Seq<char>)
    ensures
        !str_lt(a, a),
    decreases a.len(),
{
    if a.len() > 0 {
        lemma_str_lt_irrefl(a.drop_first());
    }
}

proof fn lemma_str_lt_total(a: Seq<char>, b: Seq<char>)
    ensures
        a != b ==> str_lt(a, b) || str_lt(b, a),
        !(str_lt(a, b) && str_lt(b, a)),
    decreases a.len(),
{
    if a.len() > 0 && b.len() > 0 {
        lemma_str_lt_total(a.drop_first(), b.drop_first());
        if a[0] == b[0] && a != b {
            assert(a.drop_first() != b.drop_first()) by {
                if a.drop_first() == b.drop_first() {
                    assert(a =~= seq![a[0]] + a.drop_first());
                    assert(b =~= seq![b[0]] + b.drop_first());
                }
            }
        }
    } else if a.len() == 0 && b.len() == 0 {
        assert(a =~= b);
    }
}

proof fn lemma_str_lt_trans(a: Seq<char>, b: Seq<char>, c: Seq<char>)
    requires
        str_lt(a, b),
        str_lt(b, c),
    ensures
        str_lt(a, c),
    decreases a.len(),
{
    if a.len() > 0 && b.len() > 0 && c.len() > 0 && a[0] == b[0] && b[0] == c[0] {
        lemma_str_lt_trans(a.drop_first(), b.drop_first(), c.drop_first());
    }
}

/// The sort key order is a strict weak order whose ties are exactly `same_key`.
proof fn lemma_key_order(a: MarketEvent, b: MarketEvent, c: MarketEvent)
    ensures
        !key_lt(a, a),
        key_lt(a, b) ==> !key_lt(b, a),
        key_lt(a, b) ==> key_lt(a, c) || key_lt(c, b),
        !key_lt(a, b) && !key_lt(b, a) <==> same_key(a, b),
{
    lemma_str_lt_irrefl(a.instrument_id@);
    lemma_str_lt_total(a.instrument_id@, b.instrument_id@);
    lemma_str_lt_total(a.instrument_id@, c.instrument_id@);
    lemma_str_lt_total(c.instrument_id@, b.instrument_id@);
    if str_lt(a.instrument_id@, c.instrument_id@) && str_lt(c.instrument_id@, b.instrument_id@) {
        lemma_str_lt_trans(a.instrument_id@, c.instrument_id@, b.instrument_id@);
    }
    if str_lt(a.instrument_id@, b.instrument_id@) && str_lt(b.instrument_id@, c.instrument_id@) {
        lemma_str_lt_trans(a.instrument_id@, b.instrument_id@, c.instrument_id@);
    }
    if str_lt(c.instrument_id@, a.instrument_id@) && str_lt(a.instrument_id@, b.instrument_id@) {
        lemma_str_lt_trans(c.instrument_id@, a.instrument_id@, b.instrument_id@);
    }
}

/// Inserting `x` after every event that does not sort after it keeps the order.
proof fn lemma_insert_keeps_order(out: Seq<MarketEvent>, x: MarketEvent, p: int)
    requires
        sorted_by_key(out),
        0 <= p <= out.len(),
        forall|j: int| p <= j < out.len() ==> key_lt(x, #[trigger] out[j]),
        p > 0 ==> !key_lt(x, out[p - 1]),
    ensures
        sorted_by_key(out.insert(p, x)),
{
    let o2 = out.insert(p, x);
    assert forall|i: int, j: int| 0 <= i < j < o2.len() implies !key_lt(#[trigger] o2[j], #[trigger] o2[i]) by {
        if j < p {
            assert(o2[i] == out[i] && o2[j] == out[j]);
        } else if j == p {
            assert(o2[i] == out[i] && o2[j] == x);
            lemma_key_order(x, out[i], out[p - 1]);
            if i < p - 1 {
                assert(!key_lt(out[p - 1], out[i]));
            }
        } else if i == p {
            assert(o2[i] == x && o2[j] == out[j - 1]);
            assert(key_lt(x, out[j - 1]));
            lemma_key_order(x, out[j - 1], x);
        } else if i < p {
            assert(o2[i] == out[i] && o2[j] == out[j - 1]);
        } else {
            assert(o2[i] == out[i - 1] && o2[j] == out[j - 1]);
        }
    }
}

/// Inserting `x` before the events that sort after it adds `x` last to its key group.
proof fn lemma_insert_groups(out: Seq<MarketEvent>, x: MarketEvent, p: int)
    requires
        0 <= p <= out.len(),
        forall|j: int| p <= j < out.len() ==> key_lt(x, #[trigger] out[j]),
    ensures
        forall|k: MarketEvent| #[trigger] key_group(out.insert(p, x), k) == if same_key(x, k) {
            key_group(out, k).push(x)
        } else {
            key_group(out, k)
        },
{
    let o2 = out.insert(p, x);
    assert forall|k: MarketEvent| #[trigger] key_group(o2, k) == if same_key(x, k) {
        key_group(out, k).push(x)
    } else {
        key_group(out, k)
    } by {
        let pred = |e: MarketEvent| same_key(e, k);
        let a = out.take(p);
        let b = out.skip(p);
        assert(o2 =~= a.push(x) + b);
        assert(out =~= a + b);
        Seq::filter_distributes_over_add(a.push(x), b, pred);
        Seq::filter_distributes_over_add(a, b, pred);
        a.lemma_filter_push(x, pred);
        if same_key(x, k) {
            assert forall|j: int| 0 <= j < b.len() implies !pred(#[trigger] b[j]) by {
                let e = b[j];
                assert(e == out[p + j]);
                lemma_key_order(x, e, k);
                lemma_key_order(e, x, k);
                lemma_key_order(x, k, e);
            }
            b.lemma_all_neg_filter_empty(pred);
            assert(b.filter(pred) =~= Seq::<MarketEvent>::empty());
            assert(key_group(o2, k) =~= key_group(out, k).push(x));
        } else {
            assert(key_group(o2, k) =~= key_group(out, k));
        }
    }
}

/// The events at or before `end`.
pub open spec fn at_or_before(end: i64) -> spec_fn(MarketEvent) -> bool {
    |e: MarketEvent| e.ts_event <= end
}

/// Keeping the events at or before `end`, then those with the key of `k`:
/// all those with the key of `k` when `k` is at or before `end`, none otherwise.
proof fn lemma_filter_early_group(s: Seq<MarketEvent>, end: i64, k: MarketEvent)
    ensures
        key_group(s.filter(at_or_before(end)), k) == (if k.ts_event <= end {
            key_group(s, k)
        } else {
            Seq::<MarketEvent>::empty()
        }),
    decreases s.len(),
{
    reveal(Seq::filter);
    if s.len() > 0 {
        let init = s.drop_last();
        lemma_filter_early_group(init, end, k);
        let x = s.last();
        assert(init.push(x) =~= s);
        init.lemma_filter_push(x, at_or_before(end));
        init.lemma_filter_push(x, |e: MarketEvent| same_key(e, k));
        let f = init.filter(at_or_before(end));
        f.lemma_filter_push(x, |e: MarketEvent| same_key(e, k));
    } else {
        assert(s.filter(at_or_before(end)) =~= s);
    }
}

/// Leaving out the events after `end` keeps a stable sort: the sorted events
/// at or before `end` are the events at or before `end` stably sorted.
pub proof fn lemma_sorted_early(out: Seq<MarketEvent>, inp: Seq<MarketEvent>, end: i64, n: int)
    requires
        stably_sorted(out, inp),
        0 <= n <= out.len(),
        forall|j: int| 0 <= j < n ==> (#[trigger] out[j]).ts_event <= end,
        forall|j: int| n <= j < out.len() ==> (#[trigger] out[j]).ts_event > end,
    ensures
        stably_sorted(out.take(n), inp.filter(at_or_before(end))),
{
    lemma_filter_prefix(out, end, n);
    assert forall|k: MarketEvent| #[trigger] key_group(out.take(n), k) == key_group(inp.filter(at_or_before(end)), k) by {
        lemma_filter_early_group(out, end, k);
        lemma_filter_early_group(inp, end, k);
        assert(key_group(out, k) == key_group(inp, k));
    }
}

/// A sequence whose first `n` events are at or before `end` and whose others
/// are after it keeps exactly its first `n` events.
proof fn lemma_filter_prefix(s: Seq<MarketEvent>, end: i64, n: int)
    requires
        0 <= n <= s.len(),
        forall|j: int| 0 <= j < n ==> (#[trigger] s[j]).ts_event <= end,
        forall|j: int| n <= j < s.len() ==> (#[trigger] s[j]).ts_event > end,
    ensures
        s.filter(at_or_before(end)) == s.take(n),
    decreases s.len(),
{
    reveal(Seq::filter);
    if s.len() > 0 {
        let init = s.drop_last();
        if n == s.len() {
            lemma_filter_prefix(init, end, n - 1);
            assert(init.take(n - 1) =~= init);
            assert(s.take(n) =~= s);
            assert(init.push(s.last()) =~= s);
        } else {
            lemma_filter_prefix(init, end, n);
            assert(init.take(n) =~= s.take(n));
        }
    } else {
        assert(s.take(n) =~= s);
    }
}

/// A stable sort loses and invents no event: every event of the output is an
/// event of the input, and every event of the input is in the output.
pub proof fn lemma_sorted_members(out: Seq<MarketEvent>, inp: Seq<MarketEvent>)
    requires
        stably_sorted(out, inp),
    ensures
        forall|j: int| 0 <= j < out.len() ==> inp.contains(#[trigger] out[j]),
        forall|j: int| 0 <= j < inp.len() ==> out.contains(#[trigger] inp[j]),
{
    assert forall|j: int| 0 <= j < out.len() implies inp.contains(#[trigger] out[j]) by {
        let k = out[j];
        let pred = |e: MarketEvent| same_key(e, k);
        lemma_key_order(k, k, k);
        out.lemma_filter_contains(pred, j);
        assert(key_group(out, k) == key_group(inp, k));
        inp.lemma_filter_contains_rev(pred, k);
    }
    assert forall|j: int| 0 <= j < inp.len() implies out.contains(#[trigger] inp[j]) by {
        let k = inp[j];
        let pred = |e: MarketEvent| same_key(e, k);
        lemma_key_order(k, k, k);
        inp.lemma_filter_contains(pred, j);
        assert(key_group(out, k) == key_group(inp, k));
        out.lemma_filter_contains_rev(pred, k);
    }
}

/// The stream yields events in time order: no event comes after one with a
/// later time.
pub proof fn stream_in_time_order(s: Seq<MarketEvent>, i: int, j: int)
    requires
        sorted_by_key(s),
        0 <= i < j < s.len(),
    ensures
        s[i].ts_event <= s[j].ts_event,
{
}

/// `a` sorts strictly before `b`.
fn key_less(a: &MarketEvent, b: &MarketEvent) -> (r: bool)
    ensures
        r == key_lt(*a, *b),
{
    if a.ts_event != b.ts_event {
        return a.ts_event < b.ts_event;
    }
    let x = a.instrument_id.as_str();
    let y = b.instrument_id.as_str();
    let n = x.unicode_len();
    let m = y.unicode_len();
    let mut i: usize = 0;
    while i < n && i < m
        invariant
            n == x@.len(),
            m == y@.len(),
            a.ts_event == b.ts_event,
            x@ == a.instrument_id@,
            y@ == b.instrument_id@,
            0 <= i <= n,
            i <= m,
            x@.take(i as int) == y@.take(i as int),
            str_lt(x@, y@) == str_lt(x@.skip(i as int), y@.skip(i as int)),
        decreases n - i,
    {
        let c = x.get_char(i);
        let d = y.get_char(i);
        proof {
            assert(x@.skip(i as int)[0] == c);
            assert(y@.skip(i as int)[0] == d);
            assert(x@.skip(i as int).drop_first() =~= x@.skip(i + 1));
            assert(y@.skip(i as int).drop_first() =~= y@.skip(i + 1));
        }
        if c != d {
            proof {
                lemma_str_lt_total(x@, y@);
                assert(x@ != y@) by {
                    assert(x@[i as int] == c && y@[i as int] == d);
                }
            }
            proof {
                assert(str_lt(x@.skip(i as int), y@.skip(i as int)) == ((c as int) < (d as int)));
                assert(a.instrument_id@ != b.instrument_id@);
                assert(((c as u32) < (d as u32)) == ((c as int) < (d as int)));
                assert(str_lt(a.instrument_id@, b.instrument_id@) == ((c as int) < (d as int)));
            }
            return (c as u32) < (d as u32);
        }
        proof {
            assert(x@.take(i + 1) =~= x@.take(i as int).push(c));
            assert(y@.take(i + 1) =~= y@.take(i as int).push(d));
        }
        i = i + 1;
    }
    proof {
        assert(x@.skip(i as int).len() == n - i);
        assert(y@.skip(i as int).len() == m - i);
        if n == m {
            assert(x@ =~= x@.take(i as int));
            assert(y@ =~= y@.take(i as int));
        } else {
            assert(x@ != y@) by {
                assert(x@.len() != y@.len());
            }
        }
    }
    if n != m {
        return n < m;
    }
    a.seq < b.seq
}

/// Sorts events stably by (ts_event, instrument_id, seq).
fn sort_events(events: Vec<MarketEvent>) -> (r: Vec<MarketEvent>)
    ensures
        stably_sorted(r@, events@),
{
    let mut out: Vec<MarketEvent> = Vec::new();
    let mut src = events;
    let ghost inp = src@;
    let total = src.len();
    let mut i: usize = 0;
    proof {
        assert(inp.take(0) =~= Seq::<MarketEvent>::empty());
        assert forall|k: MarketEvent| #[trigger] key_group(out@, k) == key_group(inp.take(0), k) by {
            assert(out@ =~= inp.take(0));
        }
    }
    // Take events from the back, then reverse, so that each is moved once.
    let mut rev: Vec<MarketEvent> = Vec::new();
    while src.len() > 0
        invariant
            inp.len() == total,
            rev@.len() + src@.len() == inp.len(),
            src@ == inp.take(src@.len() as int),
            forall|j: int| 0 <= j < rev@.len() ==> #[trigger] rev@[j] == inp[inp.len() - 1 - j],
        decreases src.len(),
    {
        let e = src.pop().unwrap();
        proof {
            assert(src@ =~= inp.take(src@.len() as int));
        }
        rev.push(e);
    }
    while rev.len() > 0
        invariant
            0 <= i <= inp.len(),
            inp.len() == total,
            rev@.len() == inp.len() - i,
            forall|j: int| 0 <= j < rev@.len() ==> #[trigger] rev@[j] == inp[inp.len() - 1 - j],
            sorted_by_key(out@),
            forall|k: MarketEvent| #[trigger] key_group(out@, k) == key_group(inp.take(i as int), k),
        decreases rev.len(),
    {
        let x = rev.pop().unwrap();
        proof {
            assert(x == inp[i as int]);
        }
        let mut p: usize = out.len();
        while p > 0 && key_less(&x, &out[p - 1])
            invariant
                0 <= p <= out@.len(),
                forall|j: int| p <= j < out@.len() ==> key_lt(x, #[trigger] out@[j]),
            decreases p,
        {
            p = p - 1;
        }
        proof {
            lemma_insert_keeps_order(out@, x, p as int);
            lemma_insert_groups(out@, x, p as int);
            assert(inp.take(i + 1) =~= inp.take(i as int).push(x));
            assert forall|k: MarketEvent| #[trigger] key_group(inp.take(i + 1), k) == if same_key(x, k) {
                key_group(inp.take(i as int), k).push(x)
            } else {
                key_group(inp.take(i as int), k)
            } by {
                inp.take(i as int).lemma_filter_push(x, |e: MarketEvent| same_key(e, k));
            }
        }
        out.insert(p, x);
        i = i + 1;
    }
    proof {
        assert(inp.take(inp.len() as int) =~= inp);
    }
    out
}

/// An ordered stream of events, yielded forward only.
pub struct EventStream {
    events: Vec<MarketEvent>,
    pos: usize,
}

impl EventStream {
    /// The events, in stream order.
    pub closed spec fn events_view(&self) -> Seq<MarketEvent> {
        self.events@
    }

    /// How many events have been yielded.
    pub closed spec fn position(&self) -> int {
        self.pos as int
    }

    pub open spec fn wf(&self) -> bool {
        0 <= self.position() <= self.events_view().len()
    }

    /// A stream of the events stably sorted by (ts_event, instrument_id, seq).
    pub fn new(events: Vec<MarketEvent>) -> (r: Result<EventStream, SimError>)
        ensures
            r matches Ok(s) && s.wf() && s.position() == 0 && stably_sorted(s.events_view(), events@),
    {
        Ok(EventStream { events: sort_events(events), pos: 0 })
    }

    /// The next event, advancing; `None` once the stream is exhausted.
    pub fn next(&mut self) -> (r: Option<&MarketEvent>)
        requires
            old(self).wf(),
        ensures
            final(self).wf(),
            final(self).events_view() == old(self).events_view(),
            old(self).position() < old(self).events_view().len() ==> r == Some(&old(self).events_view()[old(self).position()])
                && final(self).position() == old(self).position() + 1,
            old(self).position() >= old(self).events_view().len() ==> r is None && final(self).position() == old(self).position(),
    {
        if self.pos < self.events.len() {
            let i = self.pos;
            self.pos = self.pos + 1;
            Some(&self.events[i])
        } else {
            None
        }
    }

    /// The next event without advancing.
    pub fn peek(&self) -> (r: Option<&MarketEvent>)
        requires
            self.wf(),
        ensures
            self.position() < self.events_view().len() ==> r == Some(&self.events_view()[self.position()]),
            self.position() >= self.events_view().len() ==> r is None,
    {
        if self.pos < self.events.len() {
            Some(&self.events[self.pos])
        } else {
            None
        }
    }

    /// No event is left.
    pub fn is_empty(&self) -> (r: bool)
        ensures
            r == (self.position() >= self.events_view().len()),
    {
        self.pos >= self.events.len()
    }

    /// The number of events in the stream.
    pub fn len(&self) -> (r: usize)
        ensures
            r == self.events_view().len(),
    {
        self.events.len()
    }

    /// The number of events not yet yielded.
    pub fn remaining(&self) -> (r: usize)
        ensures
            r == (if self.events_view().len() >= self.position() { self.events_view().len() - self.position() } else { 0 }),
    {
        if self.events.len() >= self.pos {
            self.events.len() - self.pos
        } else {
            0
        }
    }
}

} // verus!
