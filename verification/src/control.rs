//! The state of playback, and what the controls do to it.
//!
//! The player and its controls share the state, the speed and the place of
//! the playback. What a key or a button does to them is decided here, on
//! plain values; how they are shared is the caller's matter.

use rand::Rng;
use vstd::prelude::*;

verus! {

/// Whether the player is playing, paused or at rest.
#[derive(Debug, Clone, Copy, PartialEq, Eq, Structural)]
pub enum State {
    Playing,
    Stop,
    Pause,
}

/// What is played, and what follows it.
#[derive(Debug, Clone, Copy, PartialEq, Eq, Structural)]
pub enum PlayMode {
    /// The loaded file, once.
    Once,
    /// The loaded file, again and again.
    OneLoop,
    /// The files of the directory, one after the other, and round again.
    Loop,
    /// The files of the directory, each drawn by chance.
    Random,
}

/// What the play key asks for.
#[derive(Debug, Clone, Copy, PartialEq, Eq, Structural)]
pub enum KeyAction {
    /// Start a playback.
    Start,
    /// Go on with the paused playback.
    Resume,
    /// Nothing.
    Ignore,
}

/// What a playback consists of.
#[derive(Debug, Clone, Copy, PartialEq, Eq, Structural)]
pub enum Plan {
    /// The loaded file, over again where `repeat` is set.
    Single { repeat: bool },
    /// The files of the directory, drawn by chance where `random` is set.
    List { random: bool },
    /// Nothing: there is no file to play.
    Nothing,
}

/// Whether a playback is under way, paused or not.
pub fn is_playing(state: State) -> (r: bool)
    ensures
        r == !(state is Stop),
{
    !matches!(state, State::Stop)
}

/// What the play key asks for under `state`: a paused playback goes on, and
/// a new one starts from rest unless the last one is still winding up.
pub fn on_play_key(state: State, winding_up: bool) -> (r: KeyAction)
    ensures
        r == match state {
            State::Stop => if winding_up {
                KeyAction::Ignore
            } else {
                KeyAction::Start
            },
            State::Pause => KeyAction::Resume,
            State::Playing => KeyAction::Ignore,
        },
{
    match state {
        State::Stop => {
            if winding_up {
                KeyAction::Ignore
            } else {
                KeyAction::Start
            }
        },
        State::Pause => KeyAction::Resume,
        State::Playing => KeyAction::Ignore,
    }
}

/// The state after the pause key: only a running playback pauses.
pub fn on_pause_key(state: State) -> (r: State)
    ensures
        r == if state is Playing {
            State::Pause
        } else {
            state
        },
{
    match state {
        State::Playing => State::Pause,
        _ => state,
    }
}

/// The state after the play key was answered with `action`.
pub fn after_play_key(state: State, action: KeyAction) -> (r: State)
    ensures
        r == if action is Ignore {
            state
        } else {
            State::Playing
        },
{
    match action {
        KeyAction::Ignore => state,
        _ => State::Playing,
    }
}

/// What a playback under `play_mode` consists of, with `files` files in the
/// directory: the loaded file whether there is a directory or not, or the
/// files of the directory, if there are any.
pub open spec fn planned(play_mode: PlayMode, files: nat) -> Plan {
    match play_mode {
        PlayMode::Once => Plan::Single { repeat: false },
        PlayMode::OneLoop => Plan::Single { repeat: true },
        PlayMode::Loop => if files > 0 {
            Plan::List { random: false }
        } else {
            Plan::Nothing
        },
        PlayMode::Random => if files > 0 {
            Plan::List { random: true }
        } else {
            Plan::Nothing
        },
    }
}

/// What a playback under `play_mode` consists of, with `files` files in the
/// directory.
pub fn plan_playback(play_mode: PlayMode, files: usize) -> (plan: Plan)
    ensures
        plan == planned(play_mode, files as nat),
{
    match play_mode {
        PlayMode::Once => Plan::Single { repeat: false },
        PlayMode::OneLoop => Plan::Single { repeat: true },
        PlayMode::Loop => {
            if files > 0 {
                Plan::List { random: false }
            } else {
                Plan::Nothing
            }
        },
        PlayMode::Random => {
            if files > 0 {
                Plan::List { random: true }
            } else {
                Plan::Nothing
            }
        },
    }
}

/// Whether the loaded file is played over again, after a playback that
/// ended in `state`: only where that is asked for and nobody stopped it.
pub fn plays_again(state: State, repeat: bool) -> (r: bool)
    ensures
        r == (repeat && !(state is Stop)),
{
    repeat && !matches!(state, State::Stop)
}

/// The file that follows the file at `index` in a round through `files`
/// files: the next one, and the first after the last.
pub open spec fn following(index: usize, files: usize) -> usize {
    if index + 1 < files {
        (index + 1) as usize
    } else {
        0
    }
}

/// Draws a place below `max` with `rand`: `random_range(0..max)` on the
/// generator of the thread. Which place comes is left open.
#[verifier::external_body]
fn random_below(max: usize) -> (r: usize)
    requires
        max > 0,
    ensures
        r < max,
{
    rand::rng().random_range(0..max)
}

/// The place of the file to play after the file at `index` of `files`
/// files, given the place `drawn` by chance, if one was drawn. `None` ends
/// the playback: after a stop, and where there is no file.
pub fn next_file_with(state: State, index: usize, files: usize, drawn: Option<usize>) -> (r:
    Option<usize>)
    ensures
        r == if state is Stop || files == 0 {
            None
        } else {
            match drawn {
                Some(d) => Some(d),
                None => Some(following(index, files)),
            }
        },
        drawn is None ==> (r matches Some(n) ==> n < files),
{
    if matches!(state, State::Stop) || files == 0 {
        None
    } else {
        match drawn {
            Some(d) => Some(d),
            None => {
                if index < files - 1 {
                    Some(index + 1)
                } else {
                    Some(0)
                }
            },
        }
    }
}

/// The place of the file to play after the file at `index` of `files`
/// files, once its playback has ended in `state`. `None` ends the
/// playback: after a stop, and where there is no file. In a round the file
/// that follows comes; else one of the files, drawn by chance.
pub fn next_file(state: State, index: usize, files: usize, random: bool) -> (r: Option<usize>)
    ensures
        r is None <==> state is Stop || files == 0,
        r matches Some(n) ==> n < files && (!random ==> n == following(index, files)),
{
    if random && files > 0 {
        let drawn = random_below(files);
        next_file_with(state, index, files, Some(drawn))
    } else {
        next_file_with(state, index, files, None)
    }
}

/// The speed one step of a tenth slower; a speed of a tenth or less stays.
pub fn slower(speed: u32) -> (r: u32)
    ensures
        r == if speed > 100 {
            speed - 100
        } else {
            speed as int
        },
{
    if speed > 100 {
        speed - 100
    } else {
        speed
    }
}

/// The speed one step of a tenth faster, held within `u32`.
pub fn faster(speed: u32) -> (r: u32)
    ensures
        r == if speed + 100 > u32::MAX {
            u32::MAX as int
        } else {
            speed + 100
        },
{
    speed.saturating_add(100)
}

/// The minutes and the seconds of the minute that `micros` microseconds
/// come to, as a clock shows them.
pub fn minutes_seconds(micros: u64) -> (r: (u64, u64))
    ensures
        r.0 == micros / 60000000,
        r.1 == micros / 1000000 % 60,
{
    (micros / 60000000, micros / 1000000 % 60)
}

} // verus!
