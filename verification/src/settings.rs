//! What the player is set up with: the keys that control it and the keys
//! that play.

use vstd::prelude::*;
use crate::maps::{default_keys, default_map};

verus! {

/// The keys that start, pause and stop a playback, as virtual-key codes.
#[derive(Debug, Clone, Copy, PartialEq, Eq, Structural)]
pub struct FunctionKey {
    pub play: u16,
    pub pause: u16,
    pub stop: u16,
}

impl Default for FunctionKey {
    /// Space plays, backspace pauses, control stops.
    fn default() -> (r: FunctionKey)
        ensures
            r == (FunctionKey { play: 32, pause: 8, stop: 17 }),
    {
        FunctionKey { play: 32, pause: 8, stop: 17 }
    }
}

/// One of the three controls.
#[derive(Debug, Clone, Copy, PartialEq, Eq, Structural)]
pub enum Control {
    Play,
    Pause,
    Stop,
}

/// Whether the keys that change the speed were down when last looked at.
#[derive(Debug, Clone, Copy, PartialEq, Eq, Structural)]
pub struct ControlKey {
    pub add: bool,
    pub sub: bool,
}

impl Default for ControlKey {
    fn default() -> (r: ControlKey)
        ensures
            r == (ControlKey { add: false, sub: false }),
    {
        ControlKey { add: false, sub: false }
    }
}

impl ControlKey {
    /// Looks at the key that speeds up, `pressed` telling whether it is
    /// down and `clicked` whether the button was clicked. The speed changes
    /// on a click, and once each time the key goes down.
    pub fn on_add(&mut self, pressed: bool, clicked: bool) -> (act: bool)
        ensures
            act == (clicked || (pressed && !old(self).add)),
            *final(self) == (ControlKey { add: pressed, ..*old(self) }),
    {
        let act = clicked || (pressed && !self.add);
        self.add = pressed;
        act
    }

    /// Looks at the key that slows down, as `on_add` does at the other.
    pub fn on_sub(&mut self, pressed: bool, clicked: bool) -> (act: bool)
        ensures
            act == (clicked || (pressed && !old(self).sub)),
            *final(self) == (ControlKey { sub: pressed, ..*old(self) }),
    {
        let act = clicked || (pressed && !self.sub);
        self.sub = pressed;
        act
    }
}

/// What is kept from one run to the next: the directory of the files, the
/// keys of the controls, and the keys of the slots of the three-row layout.
#[derive(Debug)]
pub struct Config {
    pub midi_dir: String,
    pub function_key: FunctionKey,
    pub map: [u16; 21],
}

impl Default for Config {
    fn default() -> (r: Config)
        ensures
            r.midi_dir@ == Seq::<char>::empty(),
            r.function_key == (FunctionKey { play: 32, pause: 8, stop: 17 }),
            r.map@ == default_keys(),
    {
        Config {
            midi_dir: String::new(),
            function_key: FunctionKey { play: 32, pause: 8, stop: 17 },
            map: default_map(),
        }
    }
}

/// Whether `key` is the key of one of the slots of `map`.
pub fn plays(map: &[u16; 21], key: u16) -> (r: bool)
    ensures
        r == map@.contains(key),
{
    let mut i: usize = 0;
    while i < 21
        invariant
            i <= 21,
            forall|j: int| 0 <= j < i ==> map@[j] != key,
        decreases 21 - i,
    {
        if map[i] == key {
            return true;
        }
        i += 1;
    }
    false
}

impl Config {
    /// The key of `control`.
    pub fn key_of_control(&self, control: Control) -> (key: u16)
        ensures
            key == match control {
                Control::Play => self.function_key.play,
                Control::Pause => self.function_key.pause,
                Control::Stop => self.function_key.stop,
            },
    {
        match control {
            Control::Play => self.function_key.play,
            Control::Pause => self.function_key.pause,
            Control::Stop => self.function_key.stop,
        }
    }

    /// Whether `key` may become the key of `control`: it is the key of
    /// neither of the two other controls, and plays nothing.
    pub fn can_control(&self, control: Control, key: u16) -> (r: bool)
        ensures
            r == (!self.map@.contains(key) && match control {
                Control::Play => key != self.function_key.pause && key != self.function_key.stop,
                Control::Pause => key != self.function_key.play && key != self.function_key.stop,
                Control::Stop => key != self.function_key.play && key != self.function_key.pause,
            }),
    {
        let others = match control {
            Control::Play => key != self.function_key.pause && key != self.function_key.stop,
            Control::Pause => key != self.function_key.play && key != self.function_key.stop,
            Control::Stop => key != self.function_key.play && key != self.function_key.pause,
        };
        others && !plays(&self.map, key)
    }

    /// Whether `key` may become the key of a slot: it is the key of no
    /// control.
    pub fn can_play(&self, key: u16) -> (r: bool)
        ensures
            r == (key != self.function_key.play && key != self.function_key.pause && key
                != self.function_key.stop),
    {
        key != self.function_key.play && key != self.function_key.pause && key
            != self.function_key.stop
    }
}

} // verus!
