//! Merging the tracks of a file into one timeline.
//!
//! Each note is first shifted by the key signature in force at its tick in
//! its own track. The notes of the tracks that are played and the tempo
//! changes of all tracks are then put in the order of their ticks, and one
//! pass turns the distance of each note from the note before it into
//! microseconds, at the tempo in force.

use vstd::prelude::*;
use crate::event::{transpose, transposed, Event, RawEvent, TrackKey, ValidEvent, DEFAULT_TEMPO_MPQ};
use crate::order::{sort_events, tick_order};
use crate::timing::{delay_micros, lemma_no_delay_backwards, TickRate};
use crate::track::{track_views, Track, TrackView};

verus! {

/// The shift in force at `tick`: that of the last key signature at or
/// before `tick`, and none before the first.
pub open spec fn shift_at(keys: Seq<TrackKey>, tick: u32) -> i32
    decreases keys.len(),
{
    if keys.len() == 0 {
        0
    } else if keys.last().tick <= tick {
        keys.last().real
    } else {
        shift_at(keys.drop_last(), tick)
    }
}

/// The key signatures stand in the order of their ticks.
pub open spec fn keys_ascend(keys: Seq<TrackKey>) -> bool {
    forall|i: int, j: int| 0 <= i <= j < keys.len() ==> keys[i].tick <= keys[j].tick
}

/// The event as it enters the merge: a note shifted by the key signature in
/// force, anything else as it is.
pub open spec fn shift_event(e: RawEvent, keys: Seq<TrackKey>) -> RawEvent {
    match e.event {
        ValidEvent::Note(pitch) => RawEvent {
            event: ValidEvent::Note(transposed(pitch, shift_at(keys, e.tick))),
            tick: e.tick,
        },
        _ => e,
    }
}

/// Whether an event enters the merge: a tempo change always, a note where
/// its track is played.
pub open spec fn enters(e: RawEvent, played: bool) -> bool {
    e.event is Tempo || (played && e.event is Note)
}

/// What a track gives to the merge, in the order of the track.
pub open spec fn selected(track: TrackView, played: bool) -> Seq<RawEvent> {
    selected_of(track.events, track.keys, played)
}

/// What the events `events` of a track with key signatures `keys` give to
/// the merge.
pub open spec fn selected_of(events: Seq<RawEvent>, keys: Seq<TrackKey>, played: bool) -> Seq<
    RawEvent,
>
    decreases events.len(),
{
    if events.len() == 0 {
        Seq::empty()
    } else {
        let before = selected_of(events.drop_last(), keys, played);
        if enters(events.last(), played) {
            before.push(shift_event(events.last(), keys))
        } else {
            before
        }
    }
}

/// What the tracks give to the merge, track after track; a track is played
/// where its place in the list is among `indices`.
pub open spec fn gathered(tracks: Seq<TrackView>, indices: Seq<usize>) -> Seq<RawEvent>
    decreases tracks.len(),
{
    if tracks.len() == 0 {
        Seq::empty()
    } else {
        gathered(tracks.drop_last(), indices) + selected(
            tracks.last(),
            indices.contains((tracks.len() - 1) as usize),
        )
    }
}

/// The tempo in force after the events `s`: that of the last tempo change,
/// or 500000 microseconds to the quarter note.
pub open spec fn tempo_after(s: Seq<RawEvent>) -> u32
    decreases s.len(),
{
    if s.len() == 0 {
        DEFAULT_TEMPO_MPQ
    } else {
        match s.last().event {
            ValidEvent::Tempo(mpq) => mpq,
            _ => tempo_after(s.drop_last()),
        }
    }
}

/// The tick of the last note of `s`, or 0.
pub open spec fn cursor_after(s: Seq<RawEvent>) -> u32
    decreases s.len(),
{
    if s.len() == 0 {
        0
    } else {
        match s.last().event {
            ValidEvent::Note(_) => s.last().tick,
            _ => cursor_after(s.drop_last()),
        }
    }
}

/// The timeline of the stream `s`: one press for each of its notes, in
/// their order, each delayed by the ticks since the note before it (since
/// tick 0 for the first), taken at the tempo in force at the note.
pub open spec fn timeline(s: Seq<RawEvent>, rate: TickRate) -> Seq<Event>
    decreases s.len(),
{
    if s.len() == 0 {
        Seq::empty()
    } else {
        let before = s.drop_last();
        match s.last().event {
            ValidEvent::Note(pitch) => timeline(before, rate).push(
                Event {
                    press: pitch,
                    delay: delay_micros(
                        s.last().tick - cursor_after(before),
                        tempo_after(before),
                        rate,
                    ),
                },
            ),
            _ => timeline(before, rate),
        }
    }
}

/// The microseconds from the start of a timeline to the last of `events`.
pub open spec fn total_delay(events: Seq<Event>) -> nat
    decreases events.len(),
{
    if events.len() == 0 {
        0
    } else {
        total_delay(events.drop_last()) + events.last().delay as nat
    }
}

/// `t` held within `u64`.
pub open spec fn capped(t: nat) -> u64 {
    if t > u64::MAX {
        u64::MAX
    } else {
        t as u64
    }
}

/// The time of each press of a timeline, counted in microseconds from its
/// start and held within `u64`.
pub open spec fn progress(events: Seq<Event>) -> Seq<u64> {
    Seq::new(events.len(), |i: int| capped(total_delay(events.take(i + 1))))
}

/// The timeline that the tracks merge into.
pub open spec fn merged(tracks: Seq<TrackView>, indices: Seq<usize>, rate: TickRate) -> Seq<
    Event,
> {
    timeline(tick_order(gathered(tracks, indices)), rate)
}

/// The pitches of the notes of a stream, in its order.
pub open spec fn pitches_of(s: Seq<RawEvent>) -> Seq<i32>
    decreases s.len(),
{
    if s.len() == 0 {
        Seq::empty()
    } else {
        match s.last().event {
            ValidEvent::Note(pitch) => pitches_of(s.drop_last()).push(pitch),
            _ => pitches_of(s.drop_last()),
        }
    }
}

/// A timeline holds one press for each note of its stream, in the order of
/// the stream and at the pitch of the note.
pub proof fn lemma_timeline_presses(s: Seq<RawEvent>, rate: TickRate)
    ensures
        timeline(s, rate).len() == pitches_of(s).len(),
        forall|k: int|
            0 <= k < timeline(s, rate).len() ==> (#[trigger] timeline(s, rate)[k]).press
                == pitches_of(s)[k],
    decreases s.len(),
{
    if s.len() > 0 {
        lemma_timeline_presses(s.drop_last(), rate);
    }
}

/// The times of the presses of a timeline never go back.
pub proof fn lemma_progress_ascends(events: Seq<Event>, i: int, j: int)
    requires
        0 <= i <= j < events.len(),
    ensures
        progress(events)[i] <= progress(events)[j],
    decreases j - i,
{
    if i < j {
        lemma_progress_ascends(events, i, j - 1);
        assert(events.take(j + 1).drop_last() =~= events.take(j));
    }
}

/// The tempo changes of a stream, in its order.
pub open spec fn tempos_of(s: Seq<RawEvent>) -> Seq<RawEvent>
    decreases s.len(),
{
    if s.len() == 0 {
        Seq::empty()
    } else if s.last().event is Tempo {
        tempos_of(s.drop_last()).push(s.last())
    } else {
        tempos_of(s.drop_last())
    }
}

proof fn lemma_tempos_of_sum(a: Seq<RawEvent>, b: Seq<RawEvent>)
    ensures
        tempos_of(a + b) == tempos_of(a) + tempos_of(b),
    decreases b.len(),
{
    if b.len() == 0 {
        assert(a + b =~= a);
        assert(tempos_of(a) + tempos_of(b) =~= tempos_of(a));
    } else {
        lemma_tempos_of_sum(a, b.drop_last());
        assert((a + b).drop_last() =~= a + b.drop_last());
        assert(tempos_of(a) + tempos_of(b.drop_last()).push(b.last()) =~= (tempos_of(a)
            + tempos_of(b.drop_last())).push(b.last()));
    }
}

proof fn lemma_tempos_of_selected(events: Seq<RawEvent>, keys: Seq<TrackKey>, played: bool)
    ensures
        tempos_of(selected_of(events, keys, played)) == tempos_of(events),
    decreases events.len(),
{
    if events.len() > 0 {
        lemma_tempos_of_selected(events.drop_last(), keys, played);
        let before = selected_of(events.drop_last(), keys, played);
        if enters(events.last(), played) {
            assert(before.push(shift_event(events.last(), keys)).drop_last() =~= before);
        }
    }
}

/// Tempo changes are global: those that enter the merge are the tempo
/// changes of all tracks, whichever tracks are played.
pub proof fn lemma_tempos_are_global(
    tracks: Seq<TrackView>,
    indices: Seq<usize>,
    others: Seq<usize>,
)
    ensures
        tempos_of(gathered(tracks, indices)) == tempos_of(gathered(tracks, others)),
    decreases tracks.len(),
{
    if tracks.len() > 0 {
        let last = tracks.last();
        let place = (tracks.len() - 1) as usize;
        lemma_tempos_are_global(tracks.drop_last(), indices, others);
        lemma_tempos_of_sum(
            gathered(tracks.drop_last(), indices),
            selected(last, indices.contains(place)),
        );
        lemma_tempos_of_sum(
            gathered(tracks.drop_last(), others),
            selected(last, others.contains(place)),
        );
        lemma_tempos_of_selected(last.events, last.keys, indices.contains(place));
        lemma_tempos_of_selected(last.events, last.keys, others.contains(place));
    }
}

/// A track that is not played gives no note to the merge.
pub proof fn lemma_unplayed_gives_no_note(track: TrackView, i: int)
    requires
        0 <= i < selected(track, false).len(),
    ensures
        selected(track, false)[i].event is Tempo,
{
    lemma_selected_of_unplayed(track.events, track.keys, i);
}

proof fn lemma_selected_of_unplayed(events: Seq<RawEvent>, keys: Seq<TrackKey>, i: int)
    requires
        0 <= i < selected_of(events, keys, false).len(),
    ensures
        selected_of(events, keys, false)[i].event is Tempo,
    decreases events.len(),
{
    if events.len() > 0 {
        let before = selected_of(events.drop_last(), keys, false);
        if i < before.len() {
            lemma_selected_of_unplayed(events.drop_last(), keys, i);
        }
    }
}

/// Among key signatures in the order of their ticks, the one whose range
/// holds `tick` gives the shift: the range of a key signature runs from its
/// tick up to the tick of the next one, that of the last without end.
pub proof fn lemma_shift_in_range(keys: Seq<TrackKey>, i: int, tick: u32)
    requires
        keys_ascend(keys),
        0 <= i < keys.len(),
        keys[i].tick <= tick,
        i + 1 < keys.len() ==> tick < keys[i + 1].tick,
    ensures
        shift_at(keys, tick) == keys[i].real,
    decreases keys.len(),
{
    if i + 1 < keys.len() {
        assert(keys.last().tick >= keys[i + 1].tick);
        assert(keys.drop_last()[i] == keys[i]);
        if i + 1 < keys.drop_last().len() {
            assert(keys.drop_last()[i + 1] == keys[i + 1]);
        }
        lemma_shift_in_range(keys.drop_last(), i, tick);
    }
}

/// Before the first key signature nothing is shifted.
pub proof fn lemma_shift_before_first(keys: Seq<TrackKey>, tick: u32)
    requires
        keys_ascend(keys),
        keys.len() > 0 ==> tick < keys[0].tick,
    ensures
        shift_at(keys, tick) == 0,
    decreases keys.len(),
{
    if keys.len() > 0 {
        assert(keys.last().tick >= keys[0].tick);
        if keys.len() > 1 {
            assert(keys.drop_last()[0] == keys[0]);
        }
        lemma_shift_before_first(keys.drop_last(), tick);
    }
}

/// The shift in force at `tick` among `keys`.
pub fn shift_in_force(keys: &Vec<TrackKey>, tick: u32) -> (shift: i32)
    ensures
        shift == shift_at(keys@, tick),
{
    let mut n: usize = keys.len();
    proof {
        assert(keys@.take(n as int) =~= keys@);
    }
    while n > 0
        invariant
            n <= keys.len(),
            shift_at(keys@, tick) == shift_at(keys@.take(n as int), tick),
        decreases n,
    {
        proof {
            assert(keys@.take(n as int).drop_last() =~= keys@.take(n - 1));
        }
        if keys[n - 1].tick <= tick {
            return keys[n - 1].real;
        }
        n -= 1;
    }
    proof {
        assert(keys@.take(0).len() == 0);
    }
    0
}

/// Whether `index` is among `indices`.
pub fn is_listed(indices: &[usize], index: usize) -> (r: bool)
    ensures
        r == indices@.contains(index),
{
    let mut i: usize = 0;
    while i < indices.len()
        invariant
            i <= indices.len(),
            forall|j: int| 0 <= j < i ==> indices@[j] != index,
        decreases indices.len() - i,
    {
        if indices[i] == index {
            return true;
        }
        i += 1;
    }
    false
}

/// Adds to `stream` what `track` gives to the merge.
pub fn select_into(stream: &mut Vec<RawEvent>, track: &Track, played: bool)
    ensures
        final(stream)@ == old(stream)@ + selected(track@, played),
{
    let mut i: usize = 0;
    while i < track.events.len()
        invariant
            i <= track.events.len(),
            stream@ == old(stream)@ + selected_of(
                track.events@.take(i as int),
                track.keys@,
                played,
            ),
        decreases track.events.len() - i,
    {
        proof {
            assert(track.events@.take(i + 1).drop_last() =~= track.events@.take(i as int));
        }
        let e = track.events[i];
        match e.event {
            ValidEvent::Note(pitch) => {
                if played {
                    let shift = shift_in_force(&track.keys, e.tick);
                    stream.push(
                        RawEvent { event: ValidEvent::Note(transpose(pitch, shift)), tick: e.tick },
                    );
                }
            },
            ValidEvent::Tempo(_) => {
                stream.push(e);
            },
            ValidEvent::Other => {},
        }
        i += 1;
    }
    proof {
        assert(track.events@.take(i as int) =~= track.events@);
    }
}

/// What the tracks give to the merge, track after track.
pub fn gather(tracks: &Vec<Track>, indices: &[usize]) -> (stream: Vec<RawEvent>)
    ensures
        stream@ == gathered(track_views(tracks@), indices@),
{
    let mut stream: Vec<RawEvent> = Vec::new();
    let mut t: usize = 0;
    while t < tracks.len()
        invariant
            t <= tracks.len(),
            stream@ == gathered(track_views(tracks@).take(t as int), indices@),
        decreases tracks.len() - t,
    {
        proof {
            let views = track_views(tracks@);
            assert(views.take(t + 1).drop_last() =~= views.take(t as int));
            assert(views.take(t + 1).last() == tracks@[t as int]@);
        }
        let played = is_listed(indices, t);
        select_into(&mut stream, &tracks[t], played);
        t += 1;
    }
    proof {
        let views = track_views(tracks@);
        assert(views.take(t as int) =~= views);
    }
    stream
}

/// Turns a stream into its timeline, and the timeline into the time of each
/// of its presses.
pub fn resolve(stream: &Vec<RawEvent>, rate: TickRate) -> (r: (Vec<Event>, Vec<u64>))
    ensures
        r.0@ == timeline(stream@, rate),
        r.1@ == progress(r.0@),
{
    let mut events: Vec<Event> = Vec::new();
    let mut count: Vec<u64> = Vec::new();
    let mut cursor: u32 = 0;
    let mut tempo: u32 = DEFAULT_TEMPO_MPQ;
    let mut time: u64 = 0;
    let mut i: usize = 0;
    while i < stream.len()
        invariant
            i <= stream.len(),
            events@ == timeline(stream@.take(i as int), rate),
            cursor == cursor_after(stream@.take(i as int)),
            tempo == tempo_after(stream@.take(i as int)),
            time == capped(total_delay(events@)),
            count@ == progress(events@),
        decreases stream.len() - i,
    {
        proof {
            assert(stream@.take(i + 1).drop_last() =~= stream@.take(i as int));
        }
        let e = stream[i];
        match e.event {
            ValidEvent::Note(press) => {
                let delay: u64 = if e.tick >= cursor {
                    rate.micros(e.tick - cursor, tempo)
                } else {
                    proof {
                        lemma_no_delay_backwards(e.tick - cursor, tempo, rate);
                    }
                    0
                };
                let ghost before = events@;
                events.push(Event { press, delay });
                time = time.saturating_add(delay);
                count.push(time);
                cursor = e.tick;
                proof {
                    assert(events@.drop_last() =~= before);
                    assert(events@.take(events@.len() as int) =~= events@);
                    assert forall|k: int| 0 <= k < before.len() implies #[trigger] progress(
                        events@,
                    )[k] == progress(before)[k] by {
                        assert(events@.take(k + 1) =~= before.take(k + 1));
                    }
                    assert(count@ =~= progress(events@));
                }
            },
            ValidEvent::Tempo(mpq) => {
                tempo = mpq;
            },
            ValidEvent::Other => {},
        }
        i += 1;
    }
    proof {
        assert(stream@.take(i as int) =~= stream@);
    }
    (events, count)
}

/// Merges the tracks into one timeline, with the time of each of its
/// presses.
pub fn merge(tracks: &Vec<Track>, indices: &[usize], rate: TickRate) -> (r: (
    Vec<Event>,
    Vec<u64>,
))
    ensures
        r.0@ == merged(track_views(tracks@), indices@, rate),
        r.1@ == progress(r.0@),
{
    let mut stream = gather(tracks, indices);
    sort_events(&mut stream);
    resolve(&stream, rate)
}

} // verus!
