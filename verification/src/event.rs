//! The events of a track and of the merged timeline.

use vstd::prelude::*;

verus! {

/// The tempo in force before any tempo event: microseconds per quarter note.
pub const DEFAULT_TEMPO_MPQ: u32 = 500000;

/// What a track event means to playback.
#[derive(Debug, Clone, Copy, PartialEq, Eq, Structural)]
pub enum ValidEvent {
    /// The onset of a note, with its pitch in semitones.
    Note(i32),
    /// A tempo change, in microseconds per quarter note.
    Tempo(u32),
    /// Anything that playback ignores.
    Other,
}

impl ValidEvent {
    /// Whether this is a tempo change.
    pub fn is_tempo(&self) -> (r: bool)
        ensures
            r == (*self is Tempo),
    {
        matches!(self, ValidEvent::Tempo(_))
    }
}

/// One event of one track, at its tick counted from the start of the track.
#[derive(Debug, Clone, Copy, PartialEq, Eq, Structural)]
pub struct RawEvent {
    pub event: ValidEvent,
    pub tick: u32,
}

impl RawEvent {
    /// A note onset of pitch `pitch` at `tick`.
    pub fn note(tick: u32, pitch: i32) -> (r: RawEvent)
        ensures
            r == (RawEvent { event: ValidEvent::Note(pitch), tick }),
    {
        RawEvent { event: ValidEvent::Note(pitch), tick }
    }

    /// A tempo change to `mpq` microseconds per quarter note at `tick`.
    pub fn tempo(tick: u32, mpq: u32) -> (r: RawEvent)
        ensures
            r == (RawEvent { event: ValidEvent::Tempo(mpq), tick }),
    {
        RawEvent { event: ValidEvent::Tempo(mpq), tick }
    }

    /// An event at `tick` that playback ignores.
    pub fn other(tick: u32) -> (r: RawEvent)
        ensures
            r == (RawEvent { event: ValidEvent::Other, tick }),
    {
        RawEvent { event: ValidEvent::Other, tick }
    }
}

/// One key press of the merged timeline: the pitch, and the microseconds
/// that separate it from the press before it.
#[derive(Debug, Clone, Copy, PartialEq, Eq, Structural)]
pub struct Event {
    pub press: i32,
    pub delay: u64,
}

/// A key signature of a track: from its tick on, until the next one of the
/// track, the notes of the track are shifted by `real` semitones.
///
/// `key` is the signature as it now reads, `backup` as the file gave it.
#[derive(Debug, Clone, Copy, PartialEq, Eq, Structural)]
pub struct TrackKey {
    pub tick: u32,
    pub key: i32,
    pub backup: i32,
    pub real: i32,
}

/// What a key signature is written with.
#[derive(Debug, Clone, Copy, PartialEq, Eq, Structural)]
pub enum Accidental {
    Sharp,
    Flat,
    Natural,
}

/// `pitch` moved by `by` semitones, held within the range of `i32`.
pub open spec fn transposed(pitch: i32, by: i32) -> i32 {
    if pitch + by > i32::MAX {
        i32::MAX
    } else if pitch + by < i32::MIN {
        i32::MIN
    } else {
        (pitch + by) as i32
    }
}

/// Moves `pitch` by `by` semitones, stopping at the ends of `i32`.
pub fn transpose(pitch: i32, by: i32) -> (r: i32)
    ensures
        r == transposed(pitch, by),
{
    let sum: i64 = pitch as i64 + by as i64;
    if sum > i32::MAX as i64 {
        i32::MAX
    } else if sum < i32::MIN as i64 {
        i32::MIN
    } else {
        sum as i32
    }
}

/// A key signature without its shift, as the file gave it.
pub open spec fn restored_key(key: TrackKey) -> TrackKey {
    TrackKey { key: key.backup, real: 0, ..key }
}

impl TrackKey {
    /// The key signature `key` found at `tick`, not shifted.
    pub fn new(tick: u32, key: i32) -> (r: TrackKey)
        ensures
            r == (TrackKey { tick, key, backup: key, real: 0 }),
    {
        TrackKey { tick, key, backup: key, real: 0 }
    }

    /// How the key signature reads: in sharps where `key` is above zero, in
    /// flats where it is below, and how many of them.
    pub fn accidentals(&self) -> (r: (Accidental, u32))
        ensures
            r.0 == if self.key > 0 {
                Accidental::Sharp
            } else if self.key < 0 {
                Accidental::Flat
            } else {
                Accidental::Natural
            },
            r.1 == if self.key >= 0 {
                self.key as int
            } else {
                -self.key
            },
    {
        if self.key > 0 {
            (Accidental::Sharp, self.key as u32)
        } else if self.key < 0 {
            (Accidental::Flat, (-(self.key as i64)) as u32)
        } else {
            (Accidental::Natural, 0)
        }
    }

    /// Shifts one semitone up.
    pub fn raise(&mut self)
        ensures
            *final(self) == (TrackKey {
                key: transposed(old(self).key, 1),
                real: transposed(old(self).real, 1),
                ..*old(self)
            }),
    {
        self.key = transpose(self.key, 1);
        self.real = transpose(self.real, 1);
    }

    /// Shifts one semitone down.
    pub fn lower(&mut self)
        ensures
            *final(self) == (TrackKey {
                key: transposed(old(self).key, -1i32),
                real: transposed(old(self).real, -1i32),
                ..*old(self)
            }),
    {
        self.key = transpose(self.key, -1);
        self.real = transpose(self.real, -1);
    }

    /// Takes the shift away and reads as the file gave it again.
    pub fn restore(&mut self)
        ensures
            *final(self) == restored_key(*old(self)),
    {
        self.key = self.backup;
        self.real = 0;
    }
}

} // verus!
