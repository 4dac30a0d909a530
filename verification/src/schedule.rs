//! Playing a timeline against the clock.
//!
//! The player keeps a baseline, the reading of the clock at its last point
//! of synchronisation, and the time that the timeline has asked for since
//! then. Before each press it measures what has really gone by and waits
//! only for the rest, so that the error of one wait is not carried into the
//! next. Nothing here reads a clock, sleeps or presses a key: the caller
//! does, between the steps, and hands in what it read.
//!
//! One round of a playback is [`Scheduler::advance`], the wait it asks for,
//! then [`dispatch`] on the state read after the wait; where that says
//! [`Dispatch::Hold`], the caller waits for the pause to end and calls
//! [`Scheduler::resync`].
//!
//! Times are in microseconds and held within `u64`. The speed is in
//! thousandths: 1000 plays the timeline as written.

use vstd::prelude::*;
use crate::control::State;
use crate::event::{transpose, transposed, Event};

verus! {

/// The speed that plays a timeline as written.
pub const UNIT_SPEED: u32 = 1000;

/// Where a playback stands.
#[derive(Debug, Clone, Copy, PartialEq, Eq, Structural)]
pub struct Scheduler {
    /// The place of the press to take up next.
    pub next: usize,
    /// The time asked for since the baseline.
    pub input_time: u64,
    /// The reading of the clock at the last point of synchronisation.
    pub baseline: u64,
}

/// What the player does next.
#[derive(Debug, Clone, Copy, PartialEq, Eq, Structural)]
pub enum Step {
    /// The timeline is through.
    Finished,
    /// Wait `micros`, then dispatch `event`, the press at `index`. Where
    /// `position` is `None` a seek was taken up; else it is the place that
    /// a pause or a progress bar may now show.
    Wait { micros: u64, index: usize, event: Event, position: Option<usize> },
}

/// What becomes of a press after its wait.
#[derive(Debug, Clone, Copy, PartialEq, Eq, Structural)]
pub enum Dispatch {
    /// Press the key of this pitch.
    Send(i32),
    /// Paused: press nothing, wait for the pause to end, then resynchronise
    /// and take the same press up again.
    Hold,
    /// Stopped: end the playback.
    Stop,
}

/// `a + b`, held within `u64`.
pub open spec fn add_capped(a: u64, b: u64) -> u64 {
    if a + b > u64::MAX {
        u64::MAX
    } else {
        (a + b) as u64
    }
}

/// `a - b`, or 0 where `b` is the larger.
pub open spec fn sub_floored(a: u64, b: u64) -> u64 {
    if a >= b {
        (a - b) as u64
    } else {
        0
    }
}

/// The time that a delay takes at a speed: `delay * 1000 / speed`, rounded
/// down and held within `u64`. At speed zero a delay does not end.
pub open spec fn scaled(delay: u64, speed: u32) -> u64 {
    if delay == 0 {
        0
    } else if speed == 0 {
        u64::MAX
    } else if delay * 1000 / (speed as int) > u64::MAX {
        u64::MAX
    } else {
        (delay * 1000 / (speed as int)) as u64
    }
}

/// The state of a playback that starts when the clock reads `now`.
pub open spec fn started(now: u64) -> Scheduler {
    Scheduler { next: 0, input_time: 0, baseline: now }
}

/// One step of a playback of `events`, made when the clock reads `now`,
/// with `seek` as the pending request to jump, if there is one, and `speed`
/// as the speed of this moment.
///
/// Past the last press the timeline is through, whether a seek is pending
/// or not. Else a pending seek moves the player to the place asked for,
/// makes this moment the baseline and starts the time asked for at the
/// delay of the press found there; a place past the timeline ends the
/// playback. The press at the player's place is then taken up: its delay,
/// at the speed of this moment, is added to the time asked for, and the
/// wait is what that time exceeds the time gone by since the baseline by.
pub open spec fn advanced(
    s: Scheduler,
    events: Seq<Event>,
    seek: Option<usize>,
    speed: u32,
    now: u64,
) -> (Scheduler, Step) {
    if s.next >= events.len() {
        (s, Step::Finished)
    } else {
        let at = match seek {
            Some(k) => k,
            None => s.next,
        };
        if at >= events.len() {
            (Scheduler { next: at, ..s }, Step::Finished)
        } else {
            let event = events[at as int];
            let asked = match seek {
                Some(_) => event.delay,
                None => s.input_time,
            };
            let baseline = match seek {
                Some(_) => now,
                None => s.baseline,
            };
            let input_time = add_capped(asked, scaled(event.delay, speed));
            (
                Scheduler { next: (at + 1) as usize, input_time, baseline },
                Step::Wait {
                    micros: sub_floored(input_time, sub_floored(now, baseline)),
                    index: at,
                    event,
                    position: match seek {
                        Some(_) => None,
                        None => Some(at),
                    },
                },
            )
        }
    }
}

/// What becomes of the press `event` under `state`, with `offset` as the
/// transposition of the playback.
pub open spec fn dispatched(state: State, event: Event, offset: i32) -> Dispatch {
    match state {
        State::Playing => Dispatch::Send(transposed(event.press, offset)),
        State::Pause => Dispatch::Hold,
        State::Stop => Dispatch::Stop,
    }
}

/// The state of a playback that takes the press `event` at `index` up again
/// when the clock reads `now`, after a pause.
pub open spec fn resynced(index: usize, event: Event, now: u64) -> Scheduler {
    Scheduler { next: index, input_time: event.delay, baseline: now }
}

/// The time that `delay` takes at `speed`.
pub fn scale(delay: u64, speed: u32) -> (r: u64)
    ensures
        r == scaled(delay, speed),
{
    if delay == 0 {
        0
    } else if speed == 0 {
        u64::MAX
    } else {
        let q: u128 = (delay as u128) * 1000 / (speed as u128);
        if q > u64::MAX as u128 {
            u64::MAX
        } else {
            q as u64
        }
    }
}

/// What becomes of the press `event` after its wait, under the state read
/// then: it is sent only while playing, and a stop ends the playback
/// whatever else is pending.
pub fn dispatch(state: State, event: Event, offset: i32) -> (r: Dispatch)
    ensures
        r == dispatched(state, event, offset),
        r is Send <==> state is Playing,
{
    match state {
        State::Playing => Dispatch::Send(transpose(event.press, offset)),
        State::Pause => Dispatch::Hold,
        State::Stop => Dispatch::Stop,
    }
}

impl Scheduler {
    /// A playback that starts when the clock reads `now`.
    pub fn start(now: u64) -> (s: Scheduler)
        ensures
            s == started(now),
    {
        Scheduler { next: 0, input_time: 0, baseline: now }
    }

    /// Makes one step of the playback of `events`. The timeline of an empty
    /// `events` is through at once.
    pub fn advance(&mut self, events: &[Event], seek: Option<usize>, speed: u32, now: u64) -> (step:
        Step)
        ensures
            (*final(self), step) == advanced(*old(self), events@, seek, speed, now),
            events@.len() == 0 ==> step is Finished,
    {
        if self.next >= events.len() {
            return Step::Finished;
        }
        let at: usize = match seek {
            Some(k) => k,
            None => self.next,
        };
        if at >= events.len() {
            self.next = at;
            return Step::Finished;
        }
        let event = events[at];
        if seek.is_some() {
            self.input_time = event.delay;
            self.baseline = now;
        }
        self.next = at + 1;
        self.input_time = self.input_time.saturating_add(scale(event.delay, speed));
        let gone: u64 = now.saturating_sub(self.baseline);
        Step::Wait {
            micros: self.input_time.saturating_sub(gone),
            index: at,
            event,
            position: if seek.is_some() {
                None
            } else {
                Some(at)
            },
        }
    }

    /// Takes the press `event` at `index` up again after a pause that ends
    /// when the clock reads `now`. That moment is the new baseline, so that
    /// nothing of the pause is counted as played.
    pub fn resync(&mut self, index: usize, event: Event, now: u64)
        ensures
            *final(self) == resynced(index, event, now),
    {
        self.next = index;
        self.input_time = event.delay;
        self.baseline = now;
    }
}

/// After a seek to a place of the timeline, it is the press at that place
/// that is sent next, wherever the playback stood.
pub proof fn lemma_seek_sends_the_place(
    s: Scheduler,
    events: Seq<Event>,
    k: usize,
    speed: u32,
    now: u64,
    offset: i32,
)
    requires
        events.len() <= usize::MAX,
        s.next < events.len(),
        k < events.len(),
    ensures
        advanced(s, events, Some(k), speed, now).1 matches Step::Wait { index, event, position, .. }
            && index == k && event == events[k as int] && position is None && dispatched(
            State::Playing,
            event,
            offset,
        ) == Dispatch::Send(transposed(events[k as int].press, offset)),
        advanced(s, events, Some(k), speed, now).0.next == k + 1,
{
}

/// Without a seek the presses are taken up one by one, in the order of the
/// timeline.
pub proof fn lemma_advance_in_order(s: Scheduler, events: Seq<Event>, speed: u32, now: u64)
    requires
        events.len() <= usize::MAX,
        s.next < events.len(),
    ensures
        advanced(s, events, None, speed, now).1 matches Step::Wait { index, event, position, .. }
            && index == s.next && event == events[s.next as int] && position == Some(s.next),
        advanced(s, events, None, speed, now).0.next == s.next + 1,
{
}

/// While paused no press is sent, and what follows a pause does not depend
/// on how long it lasted: the playback goes on from the moment the pause
/// ended as from a baseline, whatever was asked for and gone by before.
pub proof fn lemma_pause_is_not_counted(
    events: Seq<Event>,
    index: usize,
    speed: u32,
    now: u64,
)
    requires
        index < events.len(),
    ensures
        dispatched(State::Pause, events[index as int], 0) == Dispatch::Hold,
        advanced(resynced(index, events[index as int], now), events, None, speed, now).1
            == (Step::Wait {
            micros: add_capped(
                events[index as int].delay,
                scaled(events[index as int].delay, speed),
            ),
            index,
            event: events[index as int],
            position: Some(index),
        }),
{
}

} // verus!
