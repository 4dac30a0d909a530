//! The two key layouts: which key plays which pitch.

use vstd::prelude::*;
use crate::keys::{
    KEY_A, KEY_B, KEY_C, KEY_COMMA, KEY_D, KEY_E, KEY_F, KEY_F1, KEY_F10, KEY_F2, KEY_F3, KEY_F4,
    KEY_F5, KEY_F6, KEY_F7, KEY_F8, KEY_F9, KEY_G, KEY_H, KEY_I, KEY_J, KEY_K, KEY_L, KEY_M, KEY_N,
    KEY_NP0, KEY_NP2, KEY_NP3, KEY_NP5, KEY_NP6, KEY_NP8, KEY_NP9, KEY_NP_DECIMAL, KEY_NP_DIVIDE,
    KEY_NP_MULTIPLY, KEY_NUM0, KEY_NUM1, KEY_NUM2, KEY_NUM3, KEY_NUM4, KEY_NUM5, KEY_NUM6,
    KEY_NUM7, KEY_NUM8, KEY_NUM9, KEY_O, KEY_P, KEY_PERIOD, KEY_Q, KEY_R, KEY_S, KEY_SEMICOLON,
    KEY_SLASH, KEY_T, KEY_U, KEY_V, KEY_W, KEY_X, KEY_Y, KEY_Z,
};

verus! {

/// The instrument whose keys are pressed.
#[derive(Debug, Clone, Copy, PartialEq, Eq, Structural)]
pub enum Mode {
    /// Three rows of seven keys: the naturals of three octaves.
    GenShin,
    /// Sixty keys, one for every semitone of five octaves.
    VRChat,
}

/// The number of keys of the three-row layout.
pub const ROW_KEYS: usize = 21;

/// The position of a semitone of the octave among the seven naturals,
/// counted from C; `None` for the five others.
pub open spec fn scale_degree(semitone: int) -> Option<int> {
    if semitone == 0 {
        Some(0)
    } else if semitone == 2 {
        Some(1)
    } else if semitone == 4 {
        Some(2)
    } else if semitone == 5 {
        Some(3)
    } else if semitone == 7 {
        Some(4)
    } else if semitone == 9 {
        Some(5)
    } else if semitone == 11 {
        Some(6)
    } else {
        None
    }
}

/// The slot of the three-row layout that plays `pitch`.
///
/// Slots 0 to 6 are the high row, 7 to 13 the middle row, 14 to 20 the low
/// row. The naturals from 72 to 95 play the high row, those from 60 to 71
/// the middle row and those from 24 to 59 the low row; no other pitch has
/// a slot.
pub open spec fn gen_shin_slot(pitch: int) -> Option<int> {
    if 24 <= pitch <= 95 {
        match scale_degree(pitch % 12) {
            Some(d) => Some(
                if pitch < 60 {
                    14 + d
                } else if pitch < 72 {
                    7 + d
                } else {
                    d
                },
            ),
            None => None,
        }
    } else {
        None
    }
}

/// The key of the sixty-key layout that plays `pitch`.
pub open spec fn vr_chat_key(pitch: i32) -> Option<u16> {
    match pitch {
        36 => Some(KEY_Z),
        37 => Some(KEY_COMMA),
        38 => Some(KEY_X),
        39 => Some(KEY_PERIOD),
        40 => Some(KEY_C),
        41 => Some(KEY_V),
        42 => Some(KEY_SLASH),
        43 => Some(KEY_B),
        44 => Some(KEY_NP0),
        45 => Some(KEY_N),
        46 => Some(KEY_NP_DECIMAL),
        47 => Some(KEY_M),
        48 => Some(KEY_A),
        49 => Some(KEY_K),
        50 => Some(KEY_S),
        51 => Some(KEY_L),
        52 => Some(KEY_D),
        53 => Some(KEY_F),
        54 => Some(KEY_SEMICOLON),
        55 => Some(KEY_G),
        56 => Some(KEY_NP2),
        57 => Some(KEY_H),
        58 => Some(KEY_NP3),
        59 => Some(KEY_J),
        60 => Some(KEY_Q),
        61 => Some(KEY_I),
        62 => Some(KEY_W),
        63 => Some(KEY_O),
        64 => Some(KEY_E),
        65 => Some(KEY_R),
        66 => Some(KEY_P),
        67 => Some(KEY_T),
        68 => Some(KEY_NP5),
        69 => Some(KEY_Y),
        70 => Some(KEY_NP6),
        71 => Some(KEY_U),
        72 => Some(KEY_NUM1),
        73 => Some(KEY_NUM8),
        74 => Some(KEY_NUM2),
        75 => Some(KEY_NUM9),
        76 => Some(KEY_NUM3),
        77 => Some(KEY_NUM4),
        78 => Some(KEY_NUM0),
        79 => Some(KEY_NUM5),
        80 => Some(KEY_NP8),
        81 => Some(KEY_NUM6),
        82 => Some(KEY_NP9),
        83 => Some(KEY_NUM7),
        84 => Some(KEY_F1),
        85 => Some(KEY_F8),
        86 => Some(KEY_F2),
        87 => Some(KEY_F9),
        88 => Some(KEY_F3),
        89 => Some(KEY_F4),
        90 => Some(KEY_F10),
        91 => Some(KEY_F5),
        92 => Some(KEY_NP_DIVIDE),
        93 => Some(KEY_F6),
        94 => Some(KEY_NP_MULTIPLY),
        95 => Some(KEY_F7),
        _ => None,
    }
}

/// The key that plays `pitch` under `mode`, with `map` as the keys of the
/// slots of the three-row layout.
pub open spec fn key_of(mode: Mode, pitch: i32, map: Seq<u16>) -> Option<u16> {
    match mode {
        Mode::GenShin => match gen_shin_slot(pitch as int) {
            Some(slot) => Some(map[slot]),
            None => None,
        },
        Mode::VRChat => vr_chat_key(pitch),
    }
}

/// The keys of the slots of the three-row layout, unless remapped: the
/// rows Q to U, A to J and Z to M.
pub open spec fn default_keys() -> Seq<u16> {
    seq![
        KEY_Q, KEY_W, KEY_E, KEY_R, KEY_T, KEY_Y, KEY_U,
        KEY_A, KEY_S, KEY_D, KEY_F, KEY_G, KEY_H, KEY_J,
        KEY_Z, KEY_X, KEY_C, KEY_V, KEY_B, KEY_N, KEY_M,
    ]
}

/// The keys of the slots of the three-row layout, unless remapped.
pub fn default_map() -> (map: [u16; 21])
    ensures
        map@ =~= default_keys(),
{
    [
        KEY_Q, KEY_W, KEY_E, KEY_R, KEY_T, KEY_Y, KEY_U,
        KEY_A, KEY_S, KEY_D, KEY_F, KEY_G, KEY_H, KEY_J,
        KEY_Z, KEY_X, KEY_C, KEY_V, KEY_B, KEY_N, KEY_M,
    ]
}

/// The slot of the three-row layout that plays pitch `val`, if it has one.
pub fn slot_of(val: i32) -> (slot: Option<usize>)
    ensures
        match slot {
            Some(n) => gen_shin_slot(val as int) == Some(n as int) && n < ROW_KEYS,
            None => gen_shin_slot(val as int) is None,
        },
{
    match val {
        24 => Some(14),
        26 => Some(15),
        28 => Some(16),
        29 => Some(17),
        31 => Some(18),
        33 => Some(19),
        35 => Some(20),
        36 => Some(14),
        38 => Some(15),
        40 => Some(16),
        41 => Some(17),
        43 => Some(18),
        45 => Some(19),
        47 => Some(20),
        48 => Some(14),
        50 => Some(15),
        52 => Some(16),
        53 => Some(17),
        55 => Some(18),
        57 => Some(19),
        59 => Some(20),
        60 => Some(7),
        62 => Some(8),
        64 => Some(9),
        65 => Some(10),
        67 => Some(11),
        69 => Some(12),
        71 => Some(13),
        72 => Some(0),
        74 => Some(1),
        76 => Some(2),
        77 => Some(3),
        79 => Some(4),
        81 => Some(5),
        83 => Some(6),
        84 => Some(0),
        86 => Some(1),
        88 => Some(2),
        89 => Some(3),
        91 => Some(4),
        93 => Some(5),
        95 => Some(6),
        _ => None,
    }
}

/// The key of the three-row layout to press for pitch `val`, if it has one.
pub fn gen_shin(val: i32, map: &[u16; 21]) -> (key: Option<u16>)
    ensures
        key == key_of(Mode::GenShin, val, map@),
        key is Some <==> gen_shin_slot(val as int) is Some,
{
    match slot_of(val) {
        Some(slot) => Some(map[slot]),
        None => None,
    }
}

/// The key of the sixty-key layout to press for pitch `val`, if it has one.
pub fn vr_chat(val: i32) -> (key: Option<u16>)
    ensures
        key == vr_chat_key(val),
        key is Some <==> 36 <= val <= 95,
{
    match val {
        36 => Some(KEY_Z),
        37 => Some(KEY_COMMA),
        38 => Some(KEY_X),
        39 => Some(KEY_PERIOD),
        40 => Some(KEY_C),
        41 => Some(KEY_V),
        42 => Some(KEY_SLASH),
        43 => Some(KEY_B),
        44 => Some(KEY_NP0),
        45 => Some(KEY_N),
        46 => Some(KEY_NP_DECIMAL),
        47 => Some(KEY_M),
        48 => Some(KEY_A),
        49 => Some(KEY_K),
        50 => Some(KEY_S),
        51 => Some(KEY_L),
        52 => Some(KEY_D),
        53 => Some(KEY_F),
        54 => Some(KEY_SEMICOLON),
        55 => Some(KEY_G),
        56 => Some(KEY_NP2),
        57 => Some(KEY_H),
        58 => Some(KEY_NP3),
        59 => Some(KEY_J),
        60 => Some(KEY_Q),
        61 => Some(KEY_I),
        62 => Some(KEY_W),
        63 => Some(KEY_O),
        64 => Some(KEY_E),
        65 => Some(KEY_R),
        66 => Some(KEY_P),
        67 => Some(KEY_T),
        68 => Some(KEY_NP5),
        69 => Some(KEY_Y),
        70 => Some(KEY_NP6),
        71 => Some(KEY_U),
        72 => Some(KEY_NUM1),
        73 => Some(KEY_NUM8),
        74 => Some(KEY_NUM2),
        75 => Some(KEY_NUM9),
        76 => Some(KEY_NUM3),
        77 => Some(KEY_NUM4),
        78 => Some(KEY_NUM0),
        79 => Some(KEY_NUM5),
        80 => Some(KEY_NP8),
        81 => Some(KEY_NUM6),
        82 => Some(KEY_NP9),
        83 => Some(KEY_NUM7),
        84 => Some(KEY_F1),
        85 => Some(KEY_F8),
        86 => Some(KEY_F2),
        87 => Some(KEY_F9),
        88 => Some(KEY_F3),
        89 => Some(KEY_F4),
        90 => Some(KEY_F10),
        91 => Some(KEY_F5),
        92 => Some(KEY_NP_DIVIDE),
        93 => Some(KEY_F6),
        94 => Some(KEY_NP_MULTIPLY),
        95 => Some(KEY_F7),
        _ => None,
    }
}

/// The key to press for pitch `val` under `mode`, if it has one.
pub fn get_map(mode: Mode, val: i32, map: &[u16; 21]) -> (key: Option<u16>)
    ensures
        key == key_of(mode, val, map@),
{
    match mode {
        Mode::GenShin => gen_shin(val, map),
        Mode::VRChat => vr_chat(val),
    }
}

/// The pitches that the three-row layout plays, ascending: the naturals
/// from 24 to 95.
pub open spec fn gen_shin_pitches() -> Seq<i32> {
    seq![
        24, 26, 28, 29, 31, 33, 35, 36, 38, 40, 41, 43, 45, 47, 48, 50, 52, 53, 55, 57, 59, 60,
        62, 64, 65, 67, 69, 71, 72, 74, 76, 77, 79, 81, 83, 84, 86, 88, 89, 91, 93, 95,
    ]
}

/// The pitches that the sixty-key layout plays, ascending: 36 to 95.
pub open spec fn vr_chat_pitches() -> Seq<i32> {
    Seq::new(60, |i: int| (36 + i) as i32)
}

/// The pitches that a layout plays, ascending.
pub open spec fn playable_pitches(mode: Mode) -> Seq<i32> {
    match mode {
        Mode::GenShin => gen_shin_pitches(),
        Mode::VRChat => vr_chat_pitches(),
    }
}

/// The pitches that `mode` plays, ascending.
pub fn playable_set(mode: Mode) -> (set: Vec<i32>)
    ensures
        set@ == playable_pitches(mode),
{
    match mode {
        Mode::GenShin => {
            let set: Vec<i32> = vec![
                24, 26, 28, 29, 31, 33, 35, 36, 38, 40, 41, 43, 45, 47, 48, 50, 52, 53, 55, 57, 59,
                60, 62, 64, 65, 67, 69, 71, 72, 74, 76, 77, 79, 81, 83, 84, 86, 88, 89, 91, 93, 95,
            ];
            assert(set@ =~= gen_shin_pitches());
            set
        },
        Mode::VRChat => {
            let mut set: Vec<i32> = Vec::new();
            let mut pitch: i32 = 36;
            while pitch <= 95
                invariant
                    36 <= pitch <= 96,
                    set@ =~= Seq::new((pitch - 36) as nat, |i: int| (36 + i) as i32),
                decreases 96 - pitch,
            {
                set.push(pitch);
                pitch += 1;
            }
            set
        },
    }
}

/// A layout plays a pitch exactly where it has a key for it, whatever the
/// keys of the slots are.
pub proof fn lemma_playable_has_key(mode: Mode, pitch: i32, map: Seq<u16>)
    ensures
        playable_pitches(mode).contains(pitch) <==> key_of(mode, pitch, map) is Some,
{
    match mode {
        Mode::GenShin => {
            let s = gen_shin_pitches();
            if gen_shin_slot(pitch as int) is Some {
                let i = 7 * ((pitch - 24) / 12) + scale_degree(pitch as int % 12).unwrap();
                assert(0 <= i < 42);
                assert(s[i] == pitch);
            }
            if s.contains(pitch) {
                let i = choose|i: int| 0 <= i < s.len() && s[i] == pitch;
                assert(gen_shin_slot(s[i] as int) is Some);
            }
        },
        Mode::VRChat => {
            let s = vr_chat_pitches();
            if 36 <= pitch <= 95 {
                assert(s[pitch - 36] == pitch);
            }
        },
    }
}

/// No two pitches share a key of the sixty-key layout.
pub proof fn lemma_vr_chat_injective(p: i32, q: i32)
    requires
        vr_chat_key(p) is Some,
        vr_chat_key(p) == vr_chat_key(q),
    ensures
        p == q,
{
}

/// Pitches an octave apart share a slot of the three-row layout while they
/// stay within one of its rows' ranges.
pub proof fn lemma_gen_shin_octaves(p: int)
    requires
        gen_shin_slot(p) is Some,
        24 <= p < 48 || 72 <= p < 84,
    ensures
        gen_shin_slot(p + 12) == gen_shin_slot(p),
{
}

} // verus!
