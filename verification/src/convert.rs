//! Writing a timeline down as text.
//!
//! Each press is written as the key of the three-row layout that plays it
//! — as the letter of that key, or in numbered notation as the degree of
//! the scale, `+` before it in the high row and `-` in the low row — with a
//! space after it. Presses that sound together, those with no delay after
//! the first of them, form a group; a group of several stands in brackets,
//! and a space follows every group. A press that the layout cannot play
//! leaves only its space.
//!
//! A group is written when the next one begins, so the group that the
//! timeline ends in stays unwritten.

use vstd::prelude::*;
use crate::event::Event;
use crate::maps::{default_keys, default_map, gen_shin_slot, slot_of};

verus! {

/// The letter of the key that plays `press`, in upper case; nothing where
/// there is no such key.
pub open spec fn letter_token(press: i32) -> Seq<u8> {
    match gen_shin_slot(press as int) {
        Some(slot) => seq![default_keys()[slot] as u8],
        None => Seq::empty(),
    }
}

/// `press` in numbered notation: the degree of the scale from `1` to `7`,
/// after `+` in the high row and `-` in the low row; nothing where the
/// layout has no key for it.
pub open spec fn number_token(press: i32) -> Seq<u8> {
    match gen_shin_slot(press as int) {
        Some(slot) => {
            let digit = seq![(49 + slot % 7) as u8];
            if slot < 7 {
                seq![43u8] + digit
            } else if slot < 14 {
                digit
            } else {
                seq![45u8] + digit
            }
        },
        None => Seq::empty(),
    }
}

/// `press` as it is written, in numbers where `numbered` is set and as a
/// letter else.
pub open spec fn token(press: i32, numbered: bool) -> Seq<u8> {
    if numbered {
        number_token(press)
    } else {
        letter_token(press)
    }
}

/// The presses of a group, each followed by a space.
pub open spec fn chord(group: Seq<Event>, numbered: bool) -> Seq<u8>
    decreases group.len(),
{
    if group.len() == 0 {
        Seq::empty()
    } else {
        chord(group.drop_last(), numbered) + token(group.last().press, numbered) + seq![32u8]
    }
}

/// A group as it is written: in brackets where it holds several presses,
/// and followed by a space.
pub open spec fn group_text(group: Seq<Event>, numbered: bool) -> Seq<u8> {
    if group.len() > 1 {
        seq![91u8] + chord(group, numbered) + seq![93u8, 32u8]
    } else {
        chord(group, numbered) + seq![32u8]
    }
}

/// The group that `events` ends in: its last press with a delay, or its
/// first press, and all that follow.
pub open spec fn pending(events: Seq<Event>) -> Seq<Event>
    decreases events.len(),
{
    if events.len() == 0 {
        Seq::empty()
    } else if events.last().delay != 0 {
        seq![events.last()]
    } else {
        pending(events.drop_last()).push(events.last())
    }
}

/// The text of `events`: its groups in their order, but for the one that it
/// ends in.
pub open spec fn written(events: Seq<Event>, numbered: bool) -> Seq<u8>
    decreases events.len(),
{
    if events.len() == 0 {
        Seq::empty()
    } else {
        let before = events.drop_last();
        if events.last().delay != 0 && pending(before).len() > 0 {
            written(before, numbered) + group_text(pending(before), numbered)
        } else {
            written(before, numbered)
        }
    }
}

/// The group that a timeline ends in holds at most all of its presses.
pub proof fn lemma_pending_len(events: Seq<Event>)
    ensures
        pending(events).len() <= events.len(),
        events.len() > 0 ==> pending(events).len() > 0,
    decreases events.len(),
{
    if events.len() > 0 && events.last().delay == 0 {
        lemma_pending_len(events.drop_last());
    }
}

impl Event {
    /// The letter of the key of the three-row layout that plays this press,
    /// in lower case, if there is one.
    pub fn get_key(&self) -> (key: Option<u8>)
        ensures
            match key {
                Some(letter) => letter_token(self.press) == seq![(letter - 32) as u8],
                None => letter_token(self.press) == Seq::<u8>::empty(),
            },
    {
        match slot_of(self.press) {
            Some(slot) => {
                let keys = default_map();
                Some(keys[slot] as u8 + 32)
            },
            None => None,
        }
    }
}

/// Adds to `text` what `press` is written as.
fn write_token(text: &mut Vec<u8>, press: i32, numbered: bool)
    ensures
        final(text)@ == old(text)@ + token(press, numbered),
{
    match slot_of(press) {
        Some(slot) => {
            if numbered {
                if slot < 7 {
                    text.push(43u8);
                } else if slot >= 14 {
                    text.push(45u8);
                }
                text.push(49u8 + (slot % 7) as u8);
            } else {
                let keys = default_map();
                text.push(keys[slot] as u8);
            }
            proof {
                assert(text@ =~= old(text)@ + token(press, numbered));
            }
        },
        None => {
            proof {
                assert(text@ =~= old(text)@ + token(press, numbered));
            }
        },
    }
}

/// The text of the timeline `events`, in numbered notation where
/// `numbered` is set and in letters else, as ASCII.
pub fn notation(events: &[Event], numbered: bool) -> (text: Vec<u8>)
    ensures
        text@ == written(events@, numbered),
{
    let mut text: Vec<u8> = Vec::new();
    let mut group: Vec<u8> = Vec::new();
    let mut count: usize = 0;
    let mut i: usize = 0;
    while i < events.len()
        invariant
            i <= events.len(),
            text@ == written(events@.take(i as int), numbered),
            group@ == chord(pending(events@.take(i as int)), numbered),
            count == pending(events@.take(i as int)).len(),
        decreases events.len() - i,
    {
        proof {
            assert(events@.take(i + 1).drop_last() =~= events@.take(i as int));
            lemma_pending_len(events@.take(i as int));
        }
        let e = events[i];
        if e.delay != 0 {
            if count > 0 {
                let ghost before = text@;
                if count > 1 {
                    text.push(91u8);
                    text.append(&mut group);
                    text.push(93u8);
                    text.push(32u8);
                } else {
                    text.append(&mut group);
                    text.push(32u8);
                }
                proof {
                    assert(text@ =~= before + group_text(
                        pending(events@.take(i as int)),
                        numbered,
                    ));
                }
            }
            group = Vec::new();
            write_token(&mut group, e.press, numbered);
            group.push(32u8);
            count = 1;
            proof {
                let one = seq![e];
                assert(one.drop_last() =~= Seq::<Event>::empty());
                assert(chord(one.drop_last(), numbered) =~= Seq::<u8>::empty());
                assert(group@ =~= chord(one, numbered));
            }
        } else {
            let ghost held = pending(events@.take(i as int));
            write_token(&mut group, e.press, numbered);
            group.push(32u8);
            count += 1;
            proof {
                assert(held.push(e).drop_last() =~= held);
                assert(group@ =~= chord(held.push(e), numbered));
            }
        }
        i += 1;
    }
    proof {
        assert(events@.take(i as int) =~= events@);
    }
    text
}

} // verus!
