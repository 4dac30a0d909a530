//! One track of a file, as playback keeps it.

use vstd::prelude::*;
use crate::event::{restored_key, RawEvent, TrackKey};

verus! {

/// A track: its events, its key signatures, whether it is played, and the
/// name it goes by.
#[derive(Debug)]
pub struct Track {
    pub events: Vec<RawEvent>,
    pub keys: Vec<TrackKey>,
    pub enabled: bool,
    pub name: String,
}

/// A track as contracts read it.
pub struct TrackView {
    pub events: Seq<RawEvent>,
    pub keys: Seq<TrackKey>,
    pub enabled: bool,
    pub name: Seq<char>,
}

impl View for Track {
    type V = TrackView;

    open spec fn view(&self) -> TrackView {
        TrackView {
            events: self.events@,
            keys: self.keys@,
            enabled: self.enabled,
            name: self.name@,
        }
    }
}

/// A track without the shifts of its key signatures.
pub open spec fn restored_track(track: TrackView) -> TrackView {
    TrackView {
        keys: Seq::new(track.keys.len(), |j: int| restored_key(track.keys[j])),
        ..track
    }
}

impl Track {
    /// Takes the shifts of the key signatures away.
    pub fn restore_keys(&mut self)
        ensures
            final(self)@ == restored_track(old(self)@),
    {
        let mut k: usize = 0;
        while k < self.keys.len()
            invariant
                k <= self.keys.len(),
                self.keys@.len() == old(self).keys@.len(),
                self.events == old(self).events,
                self.enabled == old(self).enabled,
                self.name == old(self).name,
                forall|j: int| 0 <= j < k ==> #[trigger] self.keys@[j] == restored_key(old(self).keys@[j]),
                forall|j: int|
                    k <= j < self.keys@.len() ==> #[trigger] self.keys@[j] == old(self).keys@[j],
            decreases self.keys.len() - k,
        {
            self.keys[k].restore();
            k += 1;
        }
        proof {
            assert(self@.keys =~= restored_track(old(self)@).keys);
        }
    }
}

/// The tracks of a list, each as contracts read it.
pub open spec fn track_views(tracks: Seq<Track>) -> Seq<TrackView> {
    Seq::new(tracks.len(), |i: int| tracks[i]@)
}

} // verus!
