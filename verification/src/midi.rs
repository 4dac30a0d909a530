//! A loaded file and the timeline merged from it.

use vstd::prelude::*;
use vstd::slice::slice_to_vec;
use crate::control::{
    following, next_file, plan_playback, planned, plays_again, Plan, PlayMode, State,
};
use crate::convert::{notation, written};
use crate::schedule::{started, Scheduler};
use crate::coverage::{detect, hit_count, HitRate};
use crate::event::Event;
use crate::files::{midi_names, name_views, select_midis};
use crate::maps::{playable_pitches, playable_set, Mode};
use crate::merge::{merge, merged, progress};
use crate::parse::{read_track, track_of};
use crate::smf::{decode, file_of_contents, smf_parse, SmfFile, SmfFileView};
use crate::timing::{rate_of, TickRate};
use crate::track::{restored_track, track_views, Track, TrackView};
use crate::tune::{tune, tuned};

verus! {

/// Why a file could not be loaded.
#[derive(Debug, Clone, Copy, PartialEq, Eq, Structural)]
pub enum ParseError {
    /// The bytes are not a Standard MIDI File.
    Malformed,
}

/// The share of `events` that the three-row layout plays under `offset`.
pub open spec fn share_of(events: Seq<Event>, offset: i32) -> HitRate {
    HitRate {
        hits: hit_count(events, offset, playable_pitches(Mode::GenShin)) as usize,
        total: events.len() as usize,
    }
}

/// A merged timeline: its presses, the time of each, and its score. It is
/// built in one piece and never patched.
#[derive(Debug)]
pub struct Timeline {
    events: Vec<Event>,
    count: Vec<u64>,
    hit_rate: HitRate,
}

/// A merged timeline as contracts read it.
pub struct TimelineView {
    pub events: Seq<Event>,
    pub hit_rate: HitRate,
}

impl View for Timeline {
    type V = TimelineView;

    closed spec fn view(&self) -> TimelineView {
        TimelineView { events: self.events@, hit_rate: self.hit_rate }
    }
}

impl Timeline {
    #[verifier::type_invariant]
    spec fn holds_together(self) -> bool {
        &&& self.count@ == progress(self.events@)
        &&& self.hit_rate.total == self.events@.len()
        &&& self.hit_rate.hits <= self.hit_rate.total
    }

    /// The timeline of nothing.
    pub fn empty() -> (t: Timeline)
        ensures
            t@.events == Seq::<Event>::empty(),
            t@.hit_rate == (HitRate { hits: 0, total: 0 }),
    {
        let events: Vec<Event> = Vec::new();
        let count: Vec<u64> = Vec::new();
        assert(count@ =~= progress(events@));
        Timeline { events, count, hit_rate: HitRate::zero() }
    }

    /// Merges `tracks`, those at `indices` played, and scores the result
    /// under `offset`.
    pub fn build(tracks: &Vec<Track>, indices: &[usize], rate: TickRate, offset: i32) -> (t:
        Timeline)
        ensures
            t@.events == merged(track_views(tracks@), indices@, rate),
            t@.hit_rate == share_of(t@.events, offset),
    {
        let (events, count) = merge(tracks, indices, rate);
        let set = playable_set(Mode::GenShin);
        let hit_rate = detect(events.as_slice(), offset, set.as_slice());
        Timeline { events, count, hit_rate }
    }

    /// The presses.
    pub fn events(&self) -> (r: &Vec<Event>)
        ensures
            r@ == self@.events,
    {
        &self.events
    }

    /// The time of each press, in microseconds from the start.
    pub fn count(&self) -> (r: &Vec<u64>)
        ensures
            r@ == progress(self@.events),
    {
        proof {
            use_type_invariant(self);
        }
        &self.count
    }

    /// The score that the timeline was last given.
    pub fn hit_rate(&self) -> (r: HitRate)
        ensures
            r == self@.hit_rate,
            r.total == self@.events.len(),
            r.hits <= r.total,
    {
        proof {
            use_type_invariant(self);
        }
        self.hit_rate
    }

    /// The share of the presses that the three-row layout plays under
    /// `offset`.
    pub fn detect(&self, offset: i32) -> (r: HitRate)
        ensures
            r == share_of(self@.events, offset),
            r.hits <= r.total,
            self@.events.len() == 0 ==> r == (HitRate { hits: 0, total: 0 }),
    {
        let set = playable_set(Mode::GenShin);
        detect(self.events.as_slice(), offset, set.as_slice())
    }

    /// Scores the timeline anew, under `offset`.
    pub fn rescore(&mut self, offset: i32)
        ensures
            final(self)@.events == old(self)@.events,
            final(self)@.hit_rate == share_of(old(self)@.events, offset),
    {
        proof {
            use_type_invariant(&*self);
        }
        let rate = self.detect(offset);
        self.hit_rate = rate;
    }
}

/// A file loaded for playback: its tracks, its resolution, the timeline
/// merged from it, and the files of the directory it came from.
#[derive(Debug)]
pub struct Midi {
    pub name: Option<String>,
    pub fps: TickRate,
    pub tracks: Vec<Track>,
    pub midis: Vec<String>,
    pub timeline: Timeline,
}

/// A loaded file as contracts read it.
pub struct MidiView {
    pub name: Option<Seq<char>>,
    pub fps: TickRate,
    pub tracks: Seq<TrackView>,
    pub midis: Seq<Seq<char>>,
    pub events: Seq<Event>,
    pub hit_rate: HitRate,
}

impl View for Midi {
    type V = MidiView;

    open spec fn view(&self) -> MidiView {
        MidiView {
            name: match self.name {
                Some(text) => Some(text@),
                None => None,
            },
            fps: self.fps,
            tracks: track_views(self.tracks@),
            midis: name_views(self.midis@),
            events: self.timeline@.events,
            hit_rate: self.timeline@.hit_rate,
        }
    }
}

/// The places `0..n`, ascending.
pub open spec fn all_indices(n: nat) -> Seq<usize> {
    Seq::new(n, |i: int| i as usize)
}

/// The places of the tracks that are played, ascending.
pub open spec fn enabled_indices(tracks: Seq<TrackView>) -> Seq<usize>
    decreases tracks.len(),
{
    if tracks.len() == 0 {
        Seq::empty()
    } else {
        let before = enabled_indices(tracks.drop_last());
        if tracks.last().enabled {
            before.push((tracks.len() - 1) as usize)
        } else {
            before
        }
    }
}

/// The tracks that the file `file` is read into.
pub open spec fn tracks_of(file: SmfFileView) -> Seq<TrackView> {
    Seq::new(file.tracks.len(), |t: int| track_of(file.tracks[t]))
}

/// What stands after the file `file` was loaded under the name `name`: its
/// tracks, all of them played and none shifted, its resolution, and the
/// timeline merged from all of them, scored without transposition.
pub open spec fn loaded(file: SmfFileView, name: Seq<char>, midis: Seq<Seq<char>>) -> MidiView {
    let tracks = tracks_of(file);
    let events = merged(tracks, all_indices(tracks.len()), rate_of(file.timing));
    MidiView {
        name: Some(name),
        fps: rate_of(file.timing),
        tracks,
        midis,
        events,
        hit_rate: share_of(events, 0),
    }
}

/// The tracks without the shifts of their key signatures.
pub open spec fn restored(tracks: Seq<TrackView>) -> Seq<TrackView> {
    Seq::new(tracks.len(), |t: int| restored_track(tracks[t]))
}

/// What stands after a merge of the tracks at `indices`, scored under
/// `offset`: a new timeline, made of the tracks as they are and of nothing
/// of the timeline before it.
pub open spec fn remerged(m: MidiView, indices: Seq<usize>, offset: i32) -> MidiView {
    let events = merged(m.tracks, indices, m.fps);
    MidiView { events, hit_rate: share_of(events, offset), ..m }
}

/// Merging twice what was merged once changes nothing.
pub proof fn lemma_remerge_is_idempotent(m: MidiView, indices: Seq<usize>, offset: i32)
    ensures
        remerged(remerged(m, indices, offset), indices, offset) == remerged(m, indices, offset),
{
}

/// The timeline of a merge does not depend on the timeline before it, nor
/// on the offset it is scored under.
pub proof fn lemma_remerge_from_tracks(
    a: MidiView,
    b: MidiView,
    indices: Seq<usize>,
    offset_a: i32,
    offset_b: i32,
)
    requires
        a.tracks == b.tracks,
        a.fps == b.fps,
    ensures
        remerged(a, indices, offset_a).events == remerged(b, indices, offset_b).events,
{
}

/// A place is among those of the played tracks exactly where it is the
/// place of a played track.
pub proof fn lemma_enabled_indices(tracks: Seq<TrackView>, i: usize)
    requires
        tracks.len() <= usize::MAX,
    ensures
        enabled_indices(tracks).contains(i) <==> i < tracks.len() && tracks[i as int].enabled,
    decreases tracks.len(),
{
    if tracks.len() > 0 {
        let before = enabled_indices(tracks.drop_last());
        lemma_enabled_indices(tracks.drop_last(), i);
        let last = (tracks.len() - 1) as usize;
        if tracks.last().enabled {
            let all = before.push(last);
            assert(all[before.len() as int] == last);
            if before.contains(i) {
                let k = choose|k: int| 0 <= k < before.len() && before[k] == i;
                assert(all[k] == i);
            }
            if all.contains(i) && i != last {
                let k = choose|k: int| 0 <= k < all.len() && all[k] == i;
                assert(before[k] == i);
            }
        }
        if i < tracks.len() - 1 {
            assert(tracks.drop_last()[i as int] == tracks[i as int]);
        }
    }
}

impl Midi {
    /// Nothing loaded yet.
    pub fn new() -> (m: Midi)
        ensures
            m@ == (MidiView {
                name: None,
                fps: TickRate { num: 0, den: 1 },
                tracks: Seq::empty(),
                midis: Seq::empty(),
                events: Seq::empty(),
                hit_rate: HitRate { hits: 0, total: 0 },
            }),
    {
        let m = Midi {
            name: None,
            fps: TickRate { num: 0, den: 1 },
            tracks: Vec::new(),
            midis: Vec::new(),
            timeline: Timeline::empty(),
        };
        proof {
            assert(m@.tracks =~= Seq::empty());
            assert(m@.midis =~= Seq::empty());
        }
        m
    }

    /// Takes over the file `file` under the name `name`, and merges all of
    /// its tracks.
    pub fn load(&mut self, file: &SmfFile, name: String)
        ensures
            final(self)@ == loaded(file@, name@, old(self)@.midis),
    {
        let rate = TickRate::of_timing(file.timing);
        let mut tracks: Vec<Track> = Vec::new();
        let mut indices: Vec<usize> = Vec::new();
        let mut t: usize = 0;
        while t < file.tracks.len()
            invariant
                t <= file.tracks.len(),
                tracks@.len() == t,
                forall|k: int| 0 <= k < t ==> (#[trigger] tracks@[k])@ == track_of(file@.tracks[k]),
                indices@ == all_indices(t as nat),
            decreases file.tracks.len() - t,
        {
            let track = read_track(&file.tracks[t]);
            tracks.push(track);
            indices.push(t);
            proof {
                assert(indices@ =~= all_indices((t + 1) as nat));
            }
            t += 1;
        }
        proof {
            assert(track_views(tracks@) =~= tracks_of(file@));
        }
        let timeline = Timeline::build(&tracks, indices.as_slice(), rate, 0);
        self.name = Some(name);
        self.fps = rate;
        self.tracks = tracks;
        self.timeline = timeline;
    }

    /// Loads the Standard MIDI File `bytes` under the name `name`. Where
    /// the bytes are no such file, nothing changes.
    pub fn read_midi(&mut self, bytes: &[u8], name: String) -> (r: Result<(), ParseError>)
        ensures
            match r {
                Ok(()) => smf_parse(bytes@) matches Some(c) && final(self)@ == loaded(
                    file_of_contents(c),
                    name@,
                    old(self)@.midis,
                ),
                Err(e) => e == ParseError::Malformed && smf_parse(bytes@) is None && *final(self)
                    == *old(self),
            },
    {
        match decode(bytes) {
            Some(file) => {
                self.load(&file, name);
                Ok(())
            },
            None => Err(ParseError::Malformed),
        }
    }

    /// Replaces the timeline by the merge of the tracks at `indices`, and
    /// scores it under `offset`.
    pub fn merge_tracks(&mut self, indices: &[usize], offset: i32)
        ensures
            final(self)@ == remerged(old(self)@, indices@, offset),
    {
        let timeline = Timeline::build(&self.tracks, indices, self.fps, offset);
        self.timeline = timeline;
    }

    /// The share of the timeline that the three-row layout plays under
    /// `offset`; that of an empty timeline is zero.
    pub fn detect(&self, offset: i32) -> (r: HitRate)
        ensures
            r == share_of(self@.events, offset),
            r.hits <= r.total,
            self@.events.len() == 0 ==> r == (HitRate { hits: 0, total: 0 }),
    {
        self.timeline.detect(offset)
    }

    /// The places of the tracks that are played.
    pub fn current_range(&self) -> (r: Vec<usize>)
        ensures
            r@ == enabled_indices(self@.tracks),
    {
        let mut range: Vec<usize> = Vec::new();
        let mut t: usize = 0;
        while t < self.tracks.len()
            invariant
                t <= self.tracks.len(),
                range@ == enabled_indices(self@.tracks.take(t as int)),
            decreases self.tracks.len() - t,
        {
            proof {
                assert(self@.tracks.take(t + 1).drop_last() =~= self@.tracks.take(t as int));
            }
            if self.tracks[t].enabled {
                range.push(t);
            }
            t += 1;
        }
        proof {
            assert(self@.tracks.take(t as int) =~= self@.tracks);
        }
        range
    }

    /// What a playback starts from when the clock reads `now`: a copy of the
    /// timeline as it stands, which a later merge does not reach, and the
    /// player at its start.
    pub fn playback(&self, now: u64) -> (r: (Vec<Event>, Scheduler))
        ensures
            r.0@ == self@.events,
            r.1 == started(now),
    {
        (slice_to_vec(self.timeline.events().as_slice()), Scheduler::start(now))
    }

    /// What a playback under `play_mode` consists of.
    pub fn playback_by(&self, play_mode: PlayMode) -> (plan: Plan)
        ensures
            plan == planned(play_mode, self@.midis.len()),
    {
        plan_playback(play_mode, self.midis.len())
    }

    /// Whether the file is played over again after a playback that ended
    /// in `state`, `once` telling whether it is played in a loop.
    pub fn playback_one(state: State, once: bool) -> (again: bool)
        ensures
            again == (once && !(state is Stop)),
    {
        plays_again(state, once)
    }

    /// The place of the file to play after the file at `index`, once its
    /// playback has ended in `state`; `None` ends the playback. In a round
    /// the file that follows comes; else one of the files, drawn by chance.
    pub fn playback_list(&self, state: State, index: usize, random: bool) -> (r: Option<usize>)
        ensures
            r is None <==> state is Stop || self@.midis.len() == 0,
            r matches Some(n) ==> n < self@.midis.len() && (!random ==> n == following(
                index,
                self.midis@.len() as usize,
            )),
    {
        next_file(state, index, self.midis.len(), random)
    }

    /// The timeline written down, in letters and in numbered notation.
    pub fn convert_from_midi(&self) -> (r: (Vec<u8>, Vec<u8>))
        ensures
            r.0@ == written(self@.events, false),
            r.1@ == written(self@.events, true),
    {
        let events = self.timeline.events().as_slice();
        (notation(events, false), notation(events, true))
    }

    /// Takes those of `names`, the names of the entries of a directory,
    /// that name MIDI files as the files to play from.
    pub fn get_midis_path(&mut self, names: &Vec<String>)
        ensures
            final(self)@ == (MidiView { midis: midi_names(name_views(names@)), ..old(self)@ }),
    {
        let midis = select_midis(names);
        self.midis = midis;
        proof {
            assert(self@.midis =~= name_views(self.midis@));
        }
    }

    /// Takes every shift of every track away.
    pub fn restore_keys(&mut self)
        ensures
            final(self)@ == (MidiView { tracks: restored(old(self)@.tracks), ..old(self)@ }),
    {
        let mut t: usize = 0;
        while t < self.tracks.len()
            invariant
                t <= self.tracks.len(),
                self.tracks@.len() == old(self).tracks@.len(),
                self.name == old(self).name,
                self.fps == old(self).fps,
                self.midis == old(self).midis,
                self.timeline == old(self).timeline,
                forall|k: int|
                    0 <= k < t ==> (#[trigger] self.tracks@[k])@ == restored_track(
                        old(self).tracks@[k]@,
                    ),
                forall|k: int|
                    t <= k < self.tracks@.len() ==> #[trigger] self.tracks@[k] == old(
                        self,
                    ).tracks@[k],
            decreases self.tracks.len() - t,
        {
            self.tracks[t].restore_keys();
            t += 1;
        }
        proof {
            assert(self@.tracks =~= restored(old(self)@.tracks));
        }
    }

    /// The transposition that `mode` plays the timeline best under. The
    /// search is not made while a playback is under way.
    pub fn tune(&self, state: State, mode: Mode) -> (r: Option<i32>)
        ensures
            r == if state is Stop {
                Some(tuned(self@.events, playable_pitches(mode)))
            } else {
                None
            },
    {
        match state {
            State::Stop => {
                let set = playable_set(mode);
                Some(tune(self.timeline.events().as_slice(), set.as_slice()))
            },
            _ => None,
        }
    }
}

} // verus!
