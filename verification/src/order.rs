//! The order of the merged stream: ascending ticks, ties in stream order.
//!
//! The sorting itself is done by `rayon`. What is proved here is that the
//! two properties a stable sort has — ascending keys, and every group of
//! equal keys kept as it was — leave exactly one possible result, so that
//! the merged timeline is a function of its inputs.

use rayon::slice::ParallelSliceMut;
use vstd::prelude::*;
use crate::event::RawEvent;

verus! {

/// The predicate "lies at tick `t`".
pub open spec fn has_tick(t: u32) -> spec_fn(RawEvent) -> bool {
    |e: RawEvent| e.tick == t
}

/// No event lies before an earlier one's tick.
pub open spec fn ticks_ascend(s: Seq<RawEvent>) -> bool {
    forall|i: int, j: int| 0 <= i <= j < s.len() ==> s[i].tick <= s[j].tick
}

/// At every tick, `a` and `b` hold the same events in the same order.
pub open spec fn same_groups(a: Seq<RawEvent>, b: Seq<RawEvent>) -> bool {
    forall|t: u32| #[trigger] a.filter(has_tick(t)) == b.filter(has_tick(t))
}

/// `r` is `s` sorted by tick, with events of one tick in the order of `s`.
pub open spec fn is_tick_order(r: Seq<RawEvent>, s: Seq<RawEvent>) -> bool {
    ticks_ascend(r) && same_groups(r, s)
}

/// The stream `s` sorted by tick, events of one tick in the order of `s`.
pub open spec fn tick_order(s: Seq<RawEvent>) -> Seq<RawEvent> {
    choose|r: Seq<RawEvent>| is_tick_order(r, s)
}

proof fn lemma_group_unfold(s: Seq<RawEvent>, t: u32)
    requires
        s.len() > 0,
    ensures
        s.filter(has_tick(t)) == if s.last().tick == t {
            s.drop_last().filter(has_tick(t)).push(s.last())
        } else {
            s.drop_last().filter(has_tick(t))
        },
{
    reveal(Seq::filter);
}

proof fn lemma_group_empty(t: u32)
    ensures
        Seq::<RawEvent>::empty().filter(has_tick(t)) == Seq::<RawEvent>::empty(),
{
    reveal(Seq::filter);
}

/// Every tick of a group's events is a tick of the stream.
proof fn lemma_group_member(s: Seq<RawEvent>, t: u32)
    requires
        s.filter(has_tick(t)).len() > 0,
    ensures
        exists|i: int| 0 <= i < s.len() && s[i].tick == t,
    decreases s.len(),
{
    if s.len() == 0 {
        lemma_group_empty(t);
        assert(s =~= Seq::<RawEvent>::empty());
    } else {
        lemma_group_unfold(s, t);
        if s.last().tick == t {
            assert(s[s.len() - 1].tick == t);
        } else {
            lemma_group_member(s.drop_last(), t);
            let i = choose|i: int| 0 <= i < s.drop_last().len() && s.drop_last()[i].tick == t;
            assert(s[i].tick == t);
        }
    }
}

/// Two streams in ascending order that agree on every tick's group are one
/// stream.
pub proof fn lemma_tick_order_unique(a: Seq<RawEvent>, b: Seq<RawEvent>)
    requires
        ticks_ascend(a),
        ticks_ascend(b),
        same_groups(a, b),
    ensures
        a == b,
    decreases a.len(),
{
    if a.len() == 0 {
        if b.len() > 0 {
            let t = b.last().tick;
            lemma_group_unfold(b, t);
            assert(a =~= Seq::<RawEvent>::empty());
            lemma_group_empty(t);
            assert(a.filter(has_tick(t)) == b.filter(has_tick(t)));
            assert(false);
        }
        assert(a =~= b);
    } else {
        let ta = a.last().tick;
        lemma_group_unfold(a, ta);
        assert(a.filter(has_tick(ta)) == b.filter(has_tick(ta)));
        lemma_group_member(b, ta);
        let tb = b.last().tick;
        lemma_group_unfold(b, tb);
        assert(a.filter(has_tick(tb)) == b.filter(has_tick(tb)));
        lemma_group_member(a, tb);
        assert(ta == tb);
        assert(a.last() == a.filter(has_tick(ta)).last());
        assert(b.last() == b.filter(has_tick(ta)).last());
        let a0 = a.drop_last();
        let b0 = b.drop_last();
        assert forall|t: u32| #[trigger] a0.filter(has_tick(t)) == b0.filter(has_tick(t)) by {
            lemma_group_unfold(a, t);
            lemma_group_unfold(b, t);
            assert(a.filter(has_tick(t)) == b.filter(has_tick(t)));
            if t == ta {
                assert(a0.filter(has_tick(t)) =~= a.filter(has_tick(t)).drop_last());
                assert(b0.filter(has_tick(t)) =~= b.filter(has_tick(t)).drop_last());
            }
        }
        assert(ticks_ascend(a0)) by {
            assert forall|i: int, j: int| 0 <= i <= j < a0.len() implies a0[i].tick
                <= a0[j].tick by {
                assert(a[i].tick <= a[j].tick);
            }
        }
        assert(ticks_ascend(b0)) by {
            assert forall|i: int, j: int| 0 <= i <= j < b0.len() implies b0[i].tick
                <= b0[j].tick by {
                assert(b[i].tick <= b[j].tick);
            }
        }
        lemma_tick_order_unique(a0, b0);
        assert(a =~= a0.push(a.last()));
        assert(b =~= b0.push(b.last()));
    }
}

/// `sorted` with `e` put behind its last event that is not later than `e`.
pub open spec fn placed(sorted: Seq<RawEvent>, e: RawEvent) -> Seq<RawEvent>
    decreases sorted.len(),
{
    if sorted.len() == 0 {
        seq![e]
    } else if sorted.last().tick <= e.tick {
        sorted.push(e)
    } else {
        placed(sorted.drop_last(), e).push(sorted.last())
    }
}

/// The events of `s` placed one by one, in the order of `s`.
pub open spec fn placed_all(s: Seq<RawEvent>) -> Seq<RawEvent>
    decreases s.len(),
{
    if s.len() == 0 {
        Seq::empty()
    } else {
        placed(placed_all(s.drop_last()), s.last())
    }
}

proof fn lemma_placed_holds(sorted: Seq<RawEvent>, e: RawEvent)
    ensures
        placed(sorted, e).len() == sorted.len() + 1,
        forall|i: int|
            0 <= i < placed(sorted, e).len() ==> #[trigger] placed(sorted, e)[i] == e
                || sorted.contains(placed(sorted, e)[i]),
    decreases sorted.len(),
{
    if sorted.len() > 0 {
        if sorted.last().tick <= e.tick {
            assert forall|i: int| 0 <= i < sorted.push(e).len() implies #[trigger] sorted.push(
                e,
            )[i] == e || sorted.contains(sorted.push(e)[i]) by {
                if i < sorted.len() {
                    assert(sorted[i] == sorted.push(e)[i]);
                }
            }
        } else {
            let before = sorted.drop_last();
            lemma_placed_holds(before, e);
            let r = placed(sorted, e);
            assert forall|i: int| 0 <= i < r.len() implies #[trigger] r[i] == e || sorted.contains(
                r[i],
            ) by {
                if i < r.len() - 1 {
                    assert(r[i] == placed(before, e)[i]);
                    if r[i] != e {
                        let j = choose|j: int| 0 <= j < before.len() && before[j] == r[i];
                        assert(sorted[j] == r[i]);
                    }
                } else {
                    assert(sorted[sorted.len() - 1] == r[i]);
                }
            }
        }
    }
}

proof fn lemma_placed_ascends(sorted: Seq<RawEvent>, e: RawEvent)
    requires
        ticks_ascend(sorted),
    ensures
        ticks_ascend(placed(sorted, e)),
    decreases sorted.len(),
{
    if sorted.len() > 0 && sorted.last().tick > e.tick {
        let before = sorted.drop_last();
        assert(ticks_ascend(before)) by {
            assert forall|i: int, j: int| 0 <= i <= j < before.len() implies before[i].tick
                <= before[j].tick by {
                assert(sorted[i].tick <= sorted[j].tick);
            }
        }
        lemma_placed_ascends(before, e);
        lemma_placed_holds(before, e);
        let inner = placed(before, e);
        let r = placed(sorted, e);
        assert forall|i: int, j: int| 0 <= i <= j < r.len() implies r[i].tick <= r[j].tick by {
            if j < r.len() - 1 {
                assert(inner[i].tick <= inner[j].tick);
            } else if i < r.len() - 1 {
                assert(r[i] == inner[i]);
                if inner[i] != e {
                    let k = choose|k: int| 0 <= k < before.len() && before[k] == inner[i];
                    assert(sorted[k].tick <= sorted[sorted.len() - 1].tick);
                }
            }
        }
    }
}

proof fn lemma_placed_groups(sorted: Seq<RawEvent>, e: RawEvent, t: u32)
    ensures
        placed(sorted, e).filter(has_tick(t)) == if e.tick == t {
            sorted.filter(has_tick(t)).push(e)
        } else {
            sorted.filter(has_tick(t))
        },
    decreases sorted.len(),
{
    if sorted.len() == 0 {
        lemma_group_unfold(seq![e], t);
        assert(seq![e].drop_last() =~= sorted);
        lemma_group_empty(t);
        assert(sorted =~= Seq::<RawEvent>::empty());
    } else if sorted.last().tick <= e.tick {
        lemma_group_unfold(sorted.push(e), t);
        assert(sorted.push(e).drop_last() =~= sorted);
    } else {
        let before = sorted.drop_last();
        let r = placed(before, e).push(sorted.last());
        lemma_placed_groups(before, e, t);
        lemma_group_unfold(r, t);
        assert(r.drop_last() =~= placed(before, e));
        lemma_group_unfold(sorted, t);
    }
}

/// Placing the events of a stream one by one sorts it: the ticks ascend,
/// and each tick keeps its events in their order.
pub proof fn lemma_placed_all_sorts(s: Seq<RawEvent>)
    ensures
        is_tick_order(placed_all(s), s),
    decreases s.len(),
{
    if s.len() == 0 {
        assert forall|t: u32| #[trigger]
            placed_all(s).filter(has_tick(t)) == s.filter(has_tick(t)) by {
            assert(placed_all(s) =~= s);
        }
    } else {
        let before = s.drop_last();
        lemma_placed_all_sorts(before);
        lemma_placed_ascends(placed_all(before), s.last());
        assert forall|t: u32| #[trigger]
            placed_all(s).filter(has_tick(t)) == s.filter(has_tick(t)) by {
            lemma_placed_groups(placed_all(before), s.last(), t);
            lemma_group_unfold(s, t);
            assert(placed_all(before).filter(has_tick(t)) == before.filter(has_tick(t)));
        }
    }
}

/// Every stream has its sorted stream, and placing its events one by one
/// gives it.
pub proof fn lemma_tick_order_exists(s: Seq<RawEvent>)
    ensures
        is_tick_order(tick_order(s), s),
        tick_order(s) == placed_all(s),
{
    lemma_placed_all_sorts(s);
    lemma_tick_order_is(placed_all(s), s);
}

/// Whatever has the two properties of the sorted stream is the sorted stream.
pub proof fn lemma_tick_order_is(r: Seq<RawEvent>, s: Seq<RawEvent>)
    requires
        is_tick_order(r, s),
    ensures
        r == tick_order(s),
{
    let c = tick_order(s);
    assert(is_tick_order(c, s));
    assert forall|t: u32| #[trigger] r.filter(has_tick(t)) == c.filter(has_tick(t)) by {
        assert(r.filter(has_tick(t)) == s.filter(has_tick(t)));
        assert(c.filter(has_tick(t)) == s.filter(has_tick(t)));
    }
    lemma_tick_order_unique(r, c);
}

/// Sorts `events` by tick with `rayon`'s `par_sort_by_key`, a stable sort:
/// afterwards the ticks ascend, and the events of any one tick are those
/// that were there before, in the order they had.
#[verifier::external_body]
pub(crate) fn sort_by_tick(events: &mut Vec<RawEvent>)
    ensures
        is_tick_order(final(events)@, old(events)@),
{
    events.par_sort_by_key(|e| e.tick);
}

/// Sorts `events` into `tick_order`.
pub fn sort_events(events: &mut Vec<RawEvent>)
    ensures
        final(events)@ == tick_order(old(events)@),
{
    sort_by_tick(events);
    proof {
        lemma_tick_order_is(events@, old(events)@);
    }
}

} // verus!
