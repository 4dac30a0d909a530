use lyred::control::State;
use lyred::coverage::{detect, is_playable, HitRate};
use lyred::event::{Event, RawEvent};
use lyred::maps::{playable_set, Mode};
use lyred::midi::Midi;
use lyred::timing::TickRate;
use lyred::track::Track;
use lyred::tune::{scan, tune, HORIZON};

fn presses(pitches: &[i32]) -> Vec<Event> {
    pitches.iter().map(|p| Event { press: *p, delay: 1000 }).collect()
}

fn midi_with(pitches: &[i32]) -> Midi {
    let mut midi = Midi::new();
    midi.fps = TickRate { num: 480, den: 1 };
    let events: Vec<RawEvent> =
        pitches.iter().enumerate().map(|(i, p)| RawEvent::note(i as u32, *p)).collect();
    midi.tracks =
        vec![Track { events, keys: Vec::new(), enabled: true, name: String::from("t") }];
    midi.merge_tracks(&[0], 0);
    midi
}

#[test]
fn an_empty_timeline_scores_zero_under_any_offset() {
    let set = playable_set(Mode::GenShin);
    for offset in [0, 1, -1, 21, -21, 1000, i32::MAX, i32::MIN] {
        let rate = detect(&[], offset, &set);
        assert_eq!(rate, HitRate { hits: 0, total: 0 });
        assert_eq!(rate.basis_points(), 0);
        assert_eq!(detect(&[], offset, &[]), HitRate { hits: 0, total: 0 });
    }
    assert_eq!(Midi::new().detect(5), HitRate { hits: 0, total: 0 });
}

#[test]
fn detect_counts_the_presses_that_land_in_the_set() {
    let events = presses(&[60, 61, 62, 63, 64]);
    let set = playable_set(Mode::GenShin);
    assert_eq!(detect(&events, 0, &set), HitRate { hits: 3, total: 5 });
    assert_eq!(detect(&events, 1, &set), HitRate { hits: 3, total: 5 });
    assert_eq!(detect(&events, -36, &set), HitRate { hits: 3, total: 5 });
    assert_eq!(detect(&events, -37, &set), HitRate { hits: 2, total: 5 });
    assert_eq!(detect(&events, 36, &set), HitRate { hits: 0, total: 5 });
    assert_eq!(detect(&events, 0, &[61, 63, 63]), HitRate { hits: 2, total: 5 });
    assert_eq!(detect(&events, 0, &[]), HitRate { hits: 0, total: 5 });
    let all = playable_set(Mode::VRChat);
    assert_eq!(detect(&events, 0, &all), HitRate { hits: 5, total: 5 });
    assert_eq!(detect(&events, 32, &all), HitRate { hits: 4, total: 5 });
}

#[test]
fn detect_transposes_within_i32() {
    let events = presses(&[i32::MAX - 1, i32::MIN]);
    assert_eq!(detect(&events, 5, &[i32::MAX]), HitRate { hits: 1, total: 2 });
    assert_eq!(detect(&events, -5, &[i32::MIN]), HitRate { hits: 1, total: 2 });
}

#[test]
fn is_playable_looks_the_pitch_up() {
    assert!(is_playable(&[1, 5, 9], 5));
    assert!(!is_playable(&[1, 5, 9], 6));
    assert!(!is_playable(&[], 0));
}

#[test]
fn basis_points_are_hundredths_of_a_percent() {
    assert_eq!(HitRate { hits: 3, total: 5 }.basis_points(), 6000);
    assert_eq!(HitRate { hits: 1, total: 3 }.basis_points(), 3333);
    assert_eq!(HitRate { hits: 2, total: 3 }.basis_points(), 6666);
    assert_eq!(HitRate { hits: 7, total: 7 }.basis_points(), 10000);
    assert_eq!(HitRate { hits: 0, total: 7 }.basis_points(), 0);
    assert_eq!(HitRate::zero().basis_points(), 0);
    assert_eq!(HitRate { hits: usize::MAX, total: usize::MAX }.basis_points(), 10000);
}

#[test]
fn tune_finds_the_offset_that_plays_all_ten_notes() {
    let events = presses(&[21, 23, 25, 26, 28, 30, 32, 33, 35, 37]);
    let set = playable_set(Mode::GenShin);
    assert_eq!(detect(&events, 3, &set), HitRate { hits: 10, total: 10 });
    for offset in -HORIZON..=HORIZON {
        assert!(detect(&events, offset, &set).hits <= 10);
    }
    assert_eq!(tune(&events, &set), 3);
    assert_eq!(scan(&events, &set, true), (3, 10));
    assert_eq!(scan(&events, &set, false), (2, 6));
}

#[test]
fn tune_keeps_the_offset_nearest_to_zero_within_a_branch() {
    // 3 and 15 both play all of them; the downward branch plays fewer.
    let events = presses(&[21, 23, 25, 26, 28, 30, 32, 33, 35, 37]);
    let set = playable_set(Mode::GenShin);
    assert_eq!(detect(&events, 15, &set), HitRate { hits: 10, total: 10 });
    assert_eq!(scan(&events, &set, true).0, 3);
}

#[test]
fn tune_prefers_the_downward_offset_on_equal_scores() {
    let set = playable_set(Mode::GenShin);
    // +1 and -1 both play both notes.
    assert_eq!(tune(&presses(&[61, 63]), &set), -1);
    // +1 and -2 both play both notes.
    assert_eq!(tune(&presses(&[59, 61]), &set), -2);
    // +3 and -9 both play all ten.
    assert_eq!(tune(&presses(&[57, 59, 61, 62, 64, 66, 68, 69, 71, 73]), &set), -9);
}

#[test]
fn tune_stays_at_zero_where_nothing_is_better() {
    let set = playable_set(Mode::GenShin);
    assert_eq!(tune(&presses(&[60, 62, 64]), &set), 0);
    assert_eq!(tune(&[], &set), 0);
    assert_eq!(tune(&presses(&[60]), &[]), 0);
    assert_eq!(tune(&presses(&[1000]), &set), 0);
}

#[test]
fn tune_takes_the_upward_offset_where_it_scores_more() {
    assert_eq!(tune(&presses(&[10, 10, 12]), &[15, 17, 7]), 5);
    assert_eq!(tune(&presses(&[10, 10, 12]), &[31]), 21);
    assert_eq!(tune(&presses(&[10, 10, 12]), &[32]), 20);
    assert_eq!(tune(&presses(&[10, 10, 12]), &[-11]), -21);
    assert_eq!(tune(&presses(&[10, 10, 12]), &[-12]), 0);
    assert_eq!(tune(&presses(&[10, 10, 12]), &[33]), 21);
    assert_eq!(tune(&presses(&[10, 10, 12]), &[34]), 0);
}

#[test]
fn the_search_is_not_made_during_a_playback() {
    let midi = midi_with(&[21, 23, 25, 26, 28, 30, 32, 33, 35, 37]);
    assert_eq!(midi.tune(State::Stop, Mode::GenShin), Some(3));
    assert_eq!(midi.tune(State::Playing, Mode::GenShin), None);
    assert_eq!(midi.tune(State::Pause, Mode::GenShin), None);
    assert_eq!(midi.tune(State::Stop, Mode::VRChat), Some(15));
}

#[test]
fn a_merge_scores_under_the_offset_it_is_given() {
    let mut midi = midi_with(&[60, 61, 62, 63, 64]);
    assert_eq!(midi.timeline.hit_rate(), HitRate { hits: 3, total: 5 });
    assert_eq!(midi.detect(-37), HitRate { hits: 2, total: 5 });
    assert_eq!(midi.timeline.hit_rate(), HitRate { hits: 3, total: 5 });
    midi.merge_tracks(&[0], -37);
    assert_eq!(midi.timeline.hit_rate(), HitRate { hits: 2, total: 5 });
    midi.timeline.rescore(1);
    assert_eq!(midi.timeline.hit_rate(), HitRate { hits: 3, total: 5 });
    assert_eq!(midi.timeline.events().len(), 5);
}
