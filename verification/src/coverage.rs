//! How much of a timeline an instrument can play under a transposition.

use vstd::prelude::*;
use crate::event::{transpose, transposed, Event};

verus! {

/// A share of a timeline: `hits` of its `total` presses. The share of an
/// empty timeline is zero.
#[derive(Debug, Clone, Copy, PartialEq, Eq, Structural)]
pub struct HitRate {
    pub hits: usize,
    pub total: usize,
}

/// Whether the press of pitch `press`, moved by `offset`, is playable.
pub open spec fn plays(press: i32, offset: i32, playable: Seq<i32>) -> bool {
    playable.contains(transposed(press, offset))
}

/// The number of presses of `events` that are playable when moved by
/// `offset`.
pub open spec fn hit_count(events: Seq<Event>, offset: i32, playable: Seq<i32>) -> nat
    decreases events.len(),
{
    if events.len() == 0 {
        0
    } else {
        hit_count(events.drop_last(), offset, playable) + if plays(
            events.last().press,
            offset,
            playable,
        ) {
            1nat
        } else {
            0nat
        }
    }
}

/// The share in hundredths of a percent, rounded down and held within
/// `u64`: 0 for a share of nothing.
pub open spec fn basis_points_of(rate: HitRate) -> u64 {
    if rate.total == 0 {
        0
    } else if rate.hits * 10000 / (rate.total as int) > u64::MAX {
        u64::MAX
    } else {
        (rate.hits * 10000 / (rate.total as int)) as u64
    }
}

/// No more presses are hit than there are.
pub proof fn lemma_hit_count_bound(events: Seq<Event>, offset: i32, playable: Seq<i32>)
    ensures
        hit_count(events, offset, playable) <= events.len(),
    decreases events.len(),
{
    if events.len() > 0 {
        lemma_hit_count_bound(events.drop_last(), offset, playable);
    }
}

/// Nothing of an empty timeline is hit, whatever the offset and the
/// instrument.
pub proof fn lemma_hit_count_empty(offset: i32, playable: Seq<i32>)
    ensures
        hit_count(Seq::<Event>::empty(), offset, playable) == 0,
{
}

/// Whether `pitch` is among `playable`.
pub fn is_playable(playable: &[i32], pitch: i32) -> (r: bool)
    ensures
        r == playable@.contains(pitch),
{
    let mut i: usize = 0;
    while i < playable.len()
        invariant
            i <= playable.len(),
            forall|j: int| 0 <= j < i ==> playable@[j] != pitch,
        decreases playable.len() - i,
    {
        if playable[i] == pitch {
            return true;
        }
        i += 1;
    }
    false
}

/// The share of `events` whose pitch, moved by `offset`, is among
/// `playable`.
pub fn detect(events: &[Event], offset: i32, playable: &[i32]) -> (rate: HitRate)
    ensures
        rate.total == events@.len(),
        rate.hits == hit_count(events@, offset, playable@),
        rate.hits <= rate.total,
        events@.len() == 0 ==> rate == (HitRate { hits: 0, total: 0 }),
{
    let mut hits: usize = 0;
    let mut i: usize = 0;
    while i < events.len()
        invariant
            i <= events.len(),
            hits == hit_count(events@.take(i as int), offset, playable@),
            hits <= i,
        decreases events.len() - i,
    {
        proof {
            assert(events@.take(i + 1).drop_last() =~= events@.take(i as int));
        }
        if is_playable(playable, transpose(events[i].press, offset)) {
            hits += 1;
        }
        i += 1;
    }
    proof {
        assert(events@.take(i as int) =~= events@);
    }
    HitRate { hits, total: events.len() }
}

impl HitRate {
    /// The share of nothing.
    pub fn zero() -> (r: HitRate)
        ensures
            r == (HitRate { hits: 0, total: 0 }),
    {
        HitRate { hits: 0, total: 0 }
    }

    /// The share in hundredths of a percent, rounded down. The share of an
    /// empty timeline is 0.
    pub fn basis_points(&self) -> (r: u64)
        ensures
            r == basis_points_of(*self),
            self.hits <= self.total ==> r <= 10000,
            self.total == 0 ==> r == 0,
    {
        if self.total == 0 {
            0
        } else {
            let scaled: u128 = (self.hits as u128) * 10000;
            let q: u128 = scaled / (self.total as u128);
            proof {
                if self.hits <= self.total {
                    assert(q <= 10000) by (nonlinear_arith)
                        requires
                            q == (self.hits * 10000) / (self.total as int),
                            0 <= self.hits <= self.total,
                            self.total > 0,
                    ;
                }
            }
            if q > u64::MAX as u128 {
                u64::MAX
            } else {
                q as u64
            }
        }
    }
}

} // verus!
