use lyred::convert::notation;
use lyred::event::{Event, RawEvent};
use lyred::midi::Midi;
use lyred::timing::TickRate;
use lyred::track::Track;

fn press(press: i32, delay: u64) -> Event {
    Event { press, delay }
}

fn letters(events: &[Event]) -> String {
    String::from_utf8(notation(events, false)).unwrap()
}

fn numbers(events: &[Event]) -> String {
    String::from_utf8(notation(events, true)).unwrap()
}

#[test]
fn single_presses_are_written_one_by_one() {
    let events = [press(60, 0), press(62, 10), press(64, 10), press(72, 10), press(24, 10)];
    assert_eq!(letters(&events), "A  S  D  Q  ");
    assert_eq!(numbers(&events), "1  2  3  +1  ");
}

#[test]
fn presses_that_sound_together_stand_in_brackets() {
    let events = [
        press(60, 5),
        press(64, 0),
        press(67, 0),
        press(71, 5),
        press(83, 5),
        press(48, 0),
        press(95, 5),
    ];
    assert_eq!(letters(&events), "[A D G ] J  [U Z ] ");
    assert_eq!(numbers(&events), "[1 3 5 ] 7  [+7 -1 ] ");
}

#[test]
fn the_last_group_is_not_written() {
    assert_eq!(letters(&[]), "");
    assert_eq!(letters(&[press(60, 0)]), "");
    assert_eq!(letters(&[press(60, 7)]), "");
    assert_eq!(letters(&[press(60, 0), press(62, 0)]), "");
    assert_eq!(letters(&[press(60, 0), press(62, 0), press(64, 1)]), "[A S ] ");
    assert_eq!(numbers(&[press(60, 7)]), "");
}

#[test]
fn a_press_without_a_key_leaves_its_space() {
    let events = [press(61, 0), press(60, 3), press(61, 0), press(0, 0), press(62, 3), press(1, 3)];
    assert_eq!(letters(&events), "  [A   ] S  ");
    assert_eq!(numbers(&events), "  [1   ] 2  ");
}

#[test]
fn every_key_has_its_letter_and_its_number() {
    let expected = [
        (24, "Z", "-1"), (26, "X", "-2"), (28, "C", "-3"), (29, "V", "-4"), (31, "B", "-5"),
        (33, "N", "-6"), (35, "M", "-7"), (36, "Z", "-1"), (47, "M", "-7"), (48, "Z", "-1"),
        (59, "M", "-7"), (60, "A", "1"), (62, "S", "2"), (64, "D", "3"), (65, "F", "4"),
        (67, "G", "5"), (69, "H", "6"), (71, "J", "7"), (72, "Q", "+1"), (74, "W", "+2"),
        (76, "E", "+3"), (77, "R", "+4"), (79, "T", "+5"), (81, "Y", "+6"), (83, "U", "+7"),
        (84, "Q", "+1"), (95, "U", "+7"),
    ];
    for (pitch, letter, number) in expected {
        let events = [press(pitch, 1), press(0, 1)];
        assert_eq!(letters(&events), format!("{}  ", letter));
        assert_eq!(numbers(&events), format!("{}  ", number));
        let key = press(pitch, 0).get_key().unwrap();
        assert_eq!((key as char).to_string(), letter.to_lowercase());
    }
    assert_eq!(press(61, 0).get_key(), None);
    assert_eq!(press(96, 0).get_key(), None);
}

#[test]
fn a_loaded_timeline_is_written_both_ways() {
    let mut midi = Midi::new();
    midi.fps = TickRate { num: 480, den: 1 };
    midi.tracks = vec![Track {
        events: vec![
            RawEvent::note(0, 60),
            RawEvent::note(0, 64),
            RawEvent::note(480, 72),
            RawEvent::note(960, 36),
        ],
        keys: Vec::new(),
        enabled: true,
        name: String::from("t"),
    }];
    midi.merge_tracks(&[0], 0);
    let (keys, numbered) = midi.convert_from_midi();
    assert_eq!(String::from_utf8(keys).unwrap(), "[A D ] Q  ");
    assert_eq!(String::from_utf8(numbered).unwrap(), "[1 3 ] +1  ");
}
