//! From the events of a file to the events of playback.
//!
//! The delta times of a track add up to ticks. A Note-On with a velocity
//! above zero is a note; a Note-On of velocity zero ends a note, as a
//! Note-Off does, and playback ignores both. Tempo changes are kept, key
//! signatures are set apart with their ticks, and the last track name names
//! the track.

use vstd::prelude::*;
use vstd::string::StringExecFns;
use crate::event::{RawEvent, TrackKey, ValidEvent};
use crate::smf::{SmfEvent, SmfKind, SmfTrack, SmfTrackView};
use crate::track::{Track, TrackView};

verus! {

/// The delta times of `events`, added up.
pub open spec fn delta_sum(events: Seq<SmfEvent>) -> nat
    decreases events.len(),
{
    if events.len() == 0 {
        0
    } else {
        delta_sum(events.drop_last()) + events.last().delta as nat
    }
}

/// `t` held within `u32`.
pub open spec fn capped_tick(t: nat) -> u32 {
    if t > u32::MAX {
        u32::MAX
    } else {
        t as u32
    }
}

/// The tick of event `i` of `events`: the delta times up to it and its own,
/// added up and held within `u32`.
pub open spec fn tick_of(events: Seq<SmfEvent>, i: int) -> u32 {
    capped_tick(delta_sum(events.take(i + 1)))
}

/// What an event of a file means to playback.
pub open spec fn classify(e: SmfEvent) -> ValidEvent {
    match e.kind {
        SmfKind::NoteOn { key, vel } => if vel > 0 {
            ValidEvent::Note(key as i32)
        } else {
            ValidEvent::Other
        },
        SmfKind::Tempo(mpq) => ValidEvent::Tempo(mpq),
        _ => ValidEvent::Other,
    }
}

/// The events of a track as playback reads them, each at its tick.
pub open spec fn raw_events(events: Seq<SmfEvent>) -> Seq<RawEvent> {
    Seq::new(
        events.len(),
        |i: int| RawEvent { event: classify(events[i]), tick: tick_of(events, i) },
    )
}

/// The key signatures of a track in its order, each at its tick, not yet
/// shifted.
pub open spec fn key_signatures(events: Seq<SmfEvent>) -> Seq<TrackKey>
    decreases events.len(),
{
    if events.len() == 0 {
        Seq::empty()
    } else {
        let before = key_signatures(events.drop_last());
        match events.last().kind {
            SmfKind::KeySignature(key) => before.push(
                TrackKey {
                    tick: tick_of(events, events.len() - 1),
                    key: key as i32,
                    backup: key as i32,
                    real: 0,
                },
            ),
            _ => before,
        }
    }
}

/// The name of a track that names itself nowhere.
pub open spec fn untitled() -> Seq<char> {
    "Untitle"@
}

/// A track of a file as playback keeps it: played, and under its last
/// track name.
pub open spec fn track_of(track: SmfTrackView) -> TrackView {
    TrackView {
        events: raw_events(track.events),
        keys: key_signatures(track.events),
        enabled: true,
        name: match track.name {
            Some(text) => text,
            None => untitled(),
        },
    }
}

/// The key signatures of a track stand in the order of their ticks, none
/// beyond the tick that the track ends at.
pub proof fn lemma_key_signatures_ascend(events: Seq<SmfEvent>)
    ensures
        crate::merge::keys_ascend(key_signatures(events)),
        forall|k: int|
            0 <= k < key_signatures(events).len() ==> (#[trigger] key_signatures(events)[k]).tick
                <= capped_tick(delta_sum(events)),
    decreases events.len(),
{
    if events.len() > 0 {
        let before = events.drop_last();
        lemma_key_signatures_ascend(before);
        assert(events.take(events.len() as int) =~= events);
        let keys = key_signatures(events);
        assert forall|k: int| 0 <= k < keys.len() implies (#[trigger] keys[k]).tick <= capped_tick(
            delta_sum(events),
        ) by {
            if k < key_signatures(before).len() {
                assert(keys[k] == key_signatures(before)[k]);
            }
        }
        assert forall|i: int, j: int| 0 <= i <= j < keys.len() implies keys[i].tick
            <= keys[j].tick by {
            if j < key_signatures(before).len() {
                assert(keys[i] == key_signatures(before)[i]);
                assert(keys[j] == key_signatures(before)[j]);
            } else if i < key_signatures(before).len() {
                assert(keys[i] == key_signatures(before)[i]);
            }
        }
    }
}

/// Reads a track of a file for playback.
pub fn read_track(track: &SmfTrack) -> (r: Track)
    ensures
        r@ == track_of(track@),
{
    let ghost all = track.events@;
    let mut events: Vec<RawEvent> = Vec::new();
    let mut keys: Vec<TrackKey> = Vec::new();
    let mut tick: u32 = 0;
    let mut i: usize = 0;
    while i < track.events.len()
        invariant
            i <= track.events.len(),
            all == track.events@,
            tick == capped_tick(delta_sum(all.take(i as int))),
            events@ == raw_events(all).take(i as int),
            keys@ == key_signatures(all.take(i as int)),
        decreases track.events.len() - i,
    {
        proof {
            assert(all.take(i + 1).drop_last() =~= all.take(i as int));
            assert(all.take(i + 1).take(i + 1) =~= all.take(i + 1));
        }
        let e = track.events[i];
        tick = tick.saturating_add(e.delta);
        let event = match e.kind {
            SmfKind::NoteOn { key, vel } => {
                if vel > 0 {
                    ValidEvent::Note(key as i32)
                } else {
                    ValidEvent::Other
                }
            },
            SmfKind::Tempo(mpq) => ValidEvent::Tempo(mpq),
            SmfKind::KeySignature(key) => {
                keys.push(TrackKey { tick, key: key as i32, backup: key as i32, real: 0 });
                ValidEvent::Other
            },
            _ => ValidEvent::Other,
        };
        events.push(RawEvent { event, tick });
        proof {
            assert(events@ =~= raw_events(all).take(i + 1));
        }
        i += 1;
    }
    proof {
        assert(all.take(i as int) =~= all);
        assert(raw_events(all).take(i as int) =~= raw_events(all));
    }
    let name = match &track.name {
        Some(text) => text.clone(),
        None => String::from_str("Untitle"),
    };
    Track { events, keys, enabled: true, name }
}

} // verus!
