//! The search for the transposition that an instrument plays best.
//!
//! The offsets 0, 1, ..., 21 and 0, -1, ..., -21 are scored, each branch by
//! itself and both at once. Within a branch the first best score stands, so
//! that of equal offsets the one nearer to zero is kept; between the two
//! branches the upward one is taken only where it scores more.

use vstd::prelude::*;
use crate::coverage::{detect, hit_count};
use crate::event::Event;

verus! {

/// How far from zero the search goes, in semitones.
pub const HORIZON: i32 = 21;

/// The offset `step` semitones from zero, upward or downward.
pub open spec fn offset_at(up: bool, step: int) -> i32 {
    if up {
        step as i32
    } else {
        (-step) as i32
    }
}

/// The presses hit at `step` semitones from zero.
pub open spec fn score_at(events: Seq<Event>, playable: Seq<i32>, up: bool, step: int) -> nat {
    hit_count(events, offset_at(up, step), playable)
}

/// The first of the steps `0..=limit` of one branch that no step of them
/// outscores.
pub open spec fn best_step(events: Seq<Event>, playable: Seq<i32>, up: bool, limit: nat) -> nat
    decreases limit,
{
    if limit == 0 {
        0
    } else {
        let before = best_step(events, playable, up, (limit - 1) as nat);
        if score_at(events, playable, up, limit as int) > score_at(
            events,
            playable,
            up,
            before as int,
        ) {
            limit
        } else {
            before
        }
    }
}

/// The offset that the search settles on.
pub open spec fn tuned(events: Seq<Event>, playable: Seq<i32>) -> i32 {
    let up = best_step(events, playable, true, HORIZON as nat);
    let down = best_step(events, playable, false, HORIZON as nat);
    if score_at(events, playable, true, up as int) > score_at(
        events,
        playable,
        false,
        down as int,
    ) {
        up as i32
    } else {
        (-down) as i32
    }
}

/// The best step of a branch lies within it, no step of the branch scores
/// more, and every step before it scores less.
pub proof fn lemma_best_step(events: Seq<Event>, playable: Seq<i32>, up: bool, limit: nat)
    ensures
        best_step(events, playable, up, limit) <= limit,
        forall|k: int|
            0 <= k <= limit ==> #[trigger] score_at(events, playable, up, k) <= score_at(
                events,
                playable,
                up,
                best_step(events, playable, up, limit) as int,
            ),
        forall|k: int|
            0 <= k < best_step(events, playable, up, limit) ==> #[trigger] score_at(
                events,
                playable,
                up,
                k,
            ) < score_at(events, playable, up, best_step(events, playable, up, limit) as int),
    decreases limit,
{
    if limit > 0 {
        lemma_best_step(events, playable, up, (limit - 1) as nat);
    }
}

/// Where one offset within the horizon scores more than every other, the
/// search settles on it.
pub proof fn lemma_tuned_finds_the_best(events: Seq<Event>, playable: Seq<i32>, best: i32)
    requires
        -HORIZON <= best <= HORIZON,
        forall|k: i32|
            -HORIZON <= k <= HORIZON && k != best ==> #[trigger] hit_count(events, k, playable)
                < hit_count(events, best, playable),
    ensures
        tuned(events, playable) == best,
{
    let up = best_step(events, playable, true, HORIZON as nat);
    let down = best_step(events, playable, false, HORIZON as nat);
    lemma_best_step(events, playable, true, HORIZON as nat);
    lemma_best_step(events, playable, false, HORIZON as nat);
    let u: i32 = up as i32;
    let d: i32 = (-down) as i32;
    assert(score_at(events, playable, true, up as int) == hit_count(events, u, playable));
    assert(score_at(events, playable, false, down as int) == hit_count(events, d, playable));
    if best >= 0 {
        assert(score_at(events, playable, true, best as int) == hit_count(events, best, playable));
    }
    if best <= 0 {
        assert(score_at(events, playable, false, -best as int) == hit_count(
            events,
            best,
            playable,
        ));
    }
}

/// Scores one branch of the search: its best step, and the presses hit
/// there.
pub fn scan(events: &[Event], playable: &[i32], up: bool) -> (r: (i32, usize))
    ensures
        r.0 == best_step(events@, playable@, up, HORIZON as nat),
        r.1 == score_at(events@, playable@, up, r.0 as int),
{
    let first = detect(events, 0, playable);
    let mut best: i32 = 0;
    let mut best_hits: usize = first.hits;
    let mut step: i32 = 1;
    while step <= HORIZON
        invariant
            1 <= step <= HORIZON + 1,
            best == best_step(events@, playable@, up, (step - 1) as nat),
            best_hits == score_at(events@, playable@, up, best as int),
        decreases HORIZON + 1 - step,
    {
        let offset: i32 = if up {
            step
        } else {
            -step
        };
        let rate = detect(events, offset, playable);
        if rate.hits > best_hits {
            best = step;
            best_hits = rate.hits;
        }
        step += 1;
    }
    (best, best_hits)
}

/// Scores the two branches of the search at once, with `rayon::join`, which
/// runs its two closures, in parallel where it can, and returns what they
/// return as a pair. The closures are the upward and the downward `scan`.
#[verifier::external_body]
fn scan_both(events: &[Event], playable: &[i32]) -> (r: ((i32, usize), (i32, usize)))
    ensures
        r.0.0 == best_step(events@, playable@, true, HORIZON as nat),
        r.0.1 == score_at(events@, playable@, true, r.0.0 as int),
        r.1.0 == best_step(events@, playable@, false, HORIZON as nat),
        r.1.1 == score_at(events@, playable@, false, r.1.0 as int),
{
    rayon::join(|| scan(events, playable, true), || scan(events, playable, false))
}

/// What the two branches and their scores settle on: the upward step where
/// it scores more, else the downward step, negated.
fn settle(up: (i32, usize), down: (i32, usize)) -> (offset: i32)
    requires
        0 <= down.0 <= HORIZON,
    ensures
        offset == if up.1 > down.1 {
            up.0
        } else {
            (-down.0) as i32
        },
{
    if up.1 > down.1 {
        up.0
    } else {
        -down.0
    }
}

/// The transposition between -21 and 21 semitones under which `playable`
/// holds the most presses of `events`; of two that hold as many, the one
/// nearer to zero, and of an upward and a downward one, the downward.
pub fn tune(events: &[Event], playable: &[i32]) -> (offset: i32)
    ensures
        offset == tuned(events@, playable@),
        -HORIZON <= offset <= HORIZON,
{
    let (up, down) = scan_both(events, playable);
    proof {
        lemma_best_step(events@, playable@, true, HORIZON as nat);
        lemma_best_step(events@, playable@, false, HORIZON as nat);
    }
    settle(up, down)
}

} // verus!
