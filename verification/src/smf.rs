//! Reading a Standard MIDI File with `midly`.
//!
//! `midly` does the decoding. This module states what the rest of the crate
//! believes of it, fetches what playback reads out of a parsed file, one
//! plain value at a time, and hands it on as an [`SmfFile`].

use vstd::prelude::*;

verus! {

/// `midly`'s parsed file. Nothing inside it is visible to proofs; what it
/// holds goes by the name `smf_contents`.
#[verifier::external_type_specification]
#[verifier::external_body]
pub struct ExSmf<'a>(midly::Smf<'a>);

/// `midly`'s parse error.
#[verifier::external_type_specification]
#[verifier::external_body]
pub struct ExMidlyError(midly::Error);

/// The time base of a file.
#[derive(Debug, Clone, Copy, PartialEq, Eq, Structural)]
pub enum SmfTiming {
    /// Ticks per quarter note.
    Metrical(u16),
    /// Frames per second (24, 25, 29 for 29.97, or 30), then ticks per
    /// frame.
    Timecode(u8, u8),
}

/// What a track event is, as far as playback reads it.
#[derive(Debug, Clone, Copy, PartialEq, Eq, Structural)]
pub enum SmfKind {
    /// A Note-On channel message.
    NoteOn { key: u8, vel: u8 },
    /// A tempo meta event: microseconds per quarter note.
    Tempo(u32),
    /// A key-signature meta event: the count of sharps, negative for flats.
    KeySignature(i8),
    /// A track-name meta event; its text is kept apart.
    TrackName,
    /// Any other event.
    Other,
}

/// One track event: the ticks since the event before it, and its kind.
#[derive(Debug, Clone, Copy, PartialEq, Eq, Structural)]
pub struct SmfEvent {
    pub delta: u32,
    pub kind: SmfKind,
}

/// What a parsed file holds: its time base, the events of each track, and
/// beside each event the bytes of its text (empty unless it is a track
/// name).
pub struct SmfContents {
    pub timing: SmfTiming,
    pub tracks: Seq<Seq<SmfEvent>>,
    pub texts: Seq<Seq<Seq<u8>>>,
}

/// What `midly::Smf::parse` makes of `bytes`: `None` where it fails.
pub uninterp spec fn smf_parse(bytes: Seq<u8>) -> Option<SmfContents>;

/// What a parsed file holds.
pub uninterp spec fn smf_contents(smf: midly::Smf) -> SmfContents;

/// What `String::from_utf8_lossy` makes of `bytes`.
pub uninterp spec fn utf8_lossy_text(bytes: Seq<u8>) -> Seq<char>;

/// Calls `midly::Smf::parse`. The outcome depends on the bytes alone: it
/// fails exactly where `smf_parse` is `None`, and otherwise the file holds
/// what `smf_parse` names.
#[verifier::external_body]
fn parse_smf<'a>(bytes: &'a [u8]) -> (r: Result<midly::Smf<'a>, midly::Error>)
    ensures
        match r {
            Ok(smf) => smf_parse(bytes@) == Some(smf_contents(smf)),
            Err(_) => smf_parse(bytes@) is None,
        },
{
    midly::Smf::parse(bytes)
}

/// Reads `header.timing` of a parsed file. For a frame rate it gives
/// `midly`'s `Fps::as_int`: 24, 25, 29 or 30.
#[verifier::external_body]
fn smf_timing(smf: &midly::Smf) -> (r: SmfTiming)
    ensures
        r == smf_contents(*smf).timing,
{
    match smf.header.timing {
        midly::Timing::Metrical(ticks) => SmfTiming::Metrical(ticks.as_int()),
        midly::Timing::Timecode(fps, ticks) => SmfTiming::Timecode(fps.as_int(), ticks),
    }
}

/// The number of tracks of a parsed file.
#[verifier::external_body]
fn smf_track_count(smf: &midly::Smf) -> (r: usize)
    ensures
        r == smf_contents(*smf).tracks.len(),
{
    smf.tracks.len()
}

/// The number of events of track `t`.
#[verifier::external_body]
fn smf_track_len(smf: &midly::Smf, t: usize) -> (r: usize)
    requires
        t < smf_contents(*smf).tracks.len(),
    ensures
        r == smf_contents(*smf).tracks[t as int].len(),
{
    smf.tracks[t].len()
}

/// Event `i` of track `t`: its delta time, and which of the kinds that
/// playback tells apart `midly` found it to be, with that kind's numbers.
#[verifier::external_body]
fn smf_event(smf: &midly::Smf, t: usize, i: usize) -> (r: SmfEvent)
    requires
        t < smf_contents(*smf).tracks.len(),
        i < smf_contents(*smf).tracks[t as int].len(),
    ensures
        r == smf_contents(*smf).tracks[t as int][i as int],
{
    let e = &smf.tracks[t][i];
    let kind = match e.kind {
        midly::TrackEventKind::Midi { message: midly::MidiMessage::NoteOn { key, vel }, .. } =>
            SmfKind::NoteOn { key: key.as_int(), vel: vel.as_int() },
        midly::TrackEventKind::Meta(midly::MetaMessage::Tempo(t)) => SmfKind::Tempo(t.as_int()),
        midly::TrackEventKind::Meta(midly::MetaMessage::KeySignature(k, _)) =>
            SmfKind::KeySignature(k),
        midly::TrackEventKind::Meta(midly::MetaMessage::TrackName(_)) => SmfKind::TrackName,
        _ => SmfKind::Other,
    };
    SmfEvent { delta: e.delta.as_int(), kind }
}

/// The bytes of the text of event `i` of track `t`, where it is a track
/// name; no bytes otherwise.
#[verifier::external_body]
fn smf_text(smf: &midly::Smf, t: usize, i: usize) -> (r: Vec<u8>)
    requires
        t < smf_contents(*smf).tracks.len(),
        i < smf_contents(*smf).tracks[t as int].len(),
    ensures
        r@ == smf_contents(*smf).texts[t as int][i as int],
{
    match smf.tracks[t][i].kind {
        midly::TrackEventKind::Meta(midly::MetaMessage::TrackName(name)) => name.to_vec(),
        _ => Vec::new(),
    }
}

/// Calls `String::from_utf8_lossy`, whose result depends on the bytes alone.
#[verifier::external_body]
fn utf8_lossy(bytes: &[u8]) -> (r: String)
    ensures
        r@ == utf8_lossy_text(bytes@),
{
    String::from_utf8_lossy(bytes).into_owned()
}

/// One track of a file in plain values: its events, and the text of its
/// last track name, if it has one.
#[derive(Debug)]
pub struct SmfTrack {
    pub events: Vec<SmfEvent>,
    pub name: Option<String>,
}

/// A track of a file as contracts read it.
pub struct SmfTrackView {
    pub events: Seq<SmfEvent>,
    pub name: Option<Seq<char>>,
}

impl View for SmfTrack {
    type V = SmfTrackView;

    open spec fn view(&self) -> SmfTrackView {
        SmfTrackView {
            events: self.events@,
            name: match self.name {
                Some(text) => Some(text@),
                None => None,
            },
        }
    }
}

/// A file in plain values: its time base and its tracks.
#[derive(Debug)]
pub struct SmfFile {
    pub timing: SmfTiming,
    pub tracks: Vec<SmfTrack>,
}

/// A file as contracts read it.
pub struct SmfFileView {
    pub timing: SmfTiming,
    pub tracks: Seq<SmfTrackView>,
}

impl View for SmfFile {
    type V = SmfFileView;

    open spec fn view(&self) -> SmfFileView {
        SmfFileView {
            timing: self.timing,
            tracks: Seq::new(self.tracks@.len(), |t: int| self.tracks@[t]@),
        }
    }
}

/// The place of the last track name among `events`.
pub open spec fn last_name(events: Seq<SmfEvent>) -> Option<int>
    decreases events.len(),
{
    if events.len() == 0 {
        None
    } else if events.last().kind is TrackName {
        Some(events.len() - 1)
    } else {
        last_name(events.drop_last())
    }
}

/// Track `t` of what a parsed file holds, in plain values.
pub open spec fn track_of_contents(c: SmfContents, t: int) -> SmfTrackView {
    SmfTrackView {
        events: c.tracks[t],
        name: match last_name(c.tracks[t]) {
            Some(i) => Some(utf8_lossy_text(c.texts[t][i])),
            None => None,
        },
    }
}

/// What a parsed file holds, in plain values.
pub open spec fn file_of_contents(c: SmfContents) -> SmfFileView {
    SmfFileView {
        timing: c.timing,
        tracks: Seq::new(c.tracks.len(), |t: int| track_of_contents(c, t)),
    }
}

/// The place of the last track name is a place of a track name.
pub proof fn lemma_last_name(events: Seq<SmfEvent>)
    ensures
        match last_name(events) {
            Some(i) => 0 <= i < events.len() && events[i].kind is TrackName && forall|j: int|
                i < j < events.len() ==> !(events[j].kind is TrackName),
            None => forall|j: int| 0 <= j < events.len() ==> !(events[j].kind is TrackName),
        },
    decreases events.len(),
{
    if events.len() > 0 && !(events.last().kind is TrackName) {
        let before = events.drop_last();
        lemma_last_name(before);
        assert forall|j: int| 0 <= j < before.len() implies before[j] == events[j] by {}
    }
}

/// Fetches track `t` of a parsed file.
fn decode_track(smf: &midly::Smf, t: usize) -> (track: SmfTrack)
    requires
        t < smf_contents(*smf).tracks.len(),
    ensures
        track@ == track_of_contents(smf_contents(*smf), t as int),
{
    let ghost all = smf_contents(*smf).tracks[t as int];
    let len = smf_track_len(smf, t);
    let mut events: Vec<SmfEvent> = Vec::new();
    let mut named: Option<usize> = None;
    let mut i: usize = 0;
    while i < len
        invariant
            i <= len,
            len == all.len(),
            t < smf_contents(*smf).tracks.len(),
            all == smf_contents(*smf).tracks[t as int],
            events@ == all.take(i as int),
            match named {
                Some(n) => last_name(all.take(i as int)) == Some(n as int),
                None => last_name(all.take(i as int)) is None,
            },
        decreases len - i,
    {
        proof {
            assert(all.take(i + 1).drop_last() =~= all.take(i as int));
        }
        let e = smf_event(smf, t, i);
        if matches!(e.kind, SmfKind::TrackName) {
            named = Some(i);
        }
        events.push(e);
        proof {
            assert(events@ =~= all.take(i + 1));
        }
        i += 1;
    }
    proof {
        assert(all.take(i as int) =~= all);
        lemma_last_name(all);
    }
    let name = match named {
        Some(n) => {
            let text = smf_text(smf, t, n);
            Some(utf8_lossy(text.as_slice()))
        },
        None => None,
    };
    SmfTrack { events, name }
}

/// Parses `bytes` as a Standard MIDI File and fetches what playback reads
/// of it; `None` where the bytes are no such file.
pub fn decode(bytes: &[u8]) -> (r: Option<SmfFile>)
    ensures
        match r {
            Some(file) => smf_parse(bytes@) matches Some(c) && file@ == file_of_contents(c),
            None => smf_parse(bytes@) is None,
        },
{
    match parse_smf(bytes) {
        Err(_) => None,
        Ok(smf) => {
            let ghost c = smf_contents(smf);
            let timing = smf_timing(&smf);
            let count = smf_track_count(&smf);
            let mut tracks: Vec<SmfTrack> = Vec::new();
            let mut t: usize = 0;
            while t < count
                invariant
                    t <= count,
                    count == c.tracks.len(),
                    c == smf_contents(smf),
                    tracks@.len() == t,
                    forall|k: int| 0 <= k < t ==> (#[trigger] tracks@[k])@ == track_of_contents(c, k),
                decreases count - t,
            {
                let track = decode_track(&smf, t);
                tracks.push(track);
                t += 1;
            }
            let file = SmfFile { timing, tracks };
            proof {
                assert(file@.tracks =~= file_of_contents(c).tracks);
            }
            Some(file)
        },
    }
}

} // verus!
