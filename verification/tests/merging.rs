use lyred::coverage::HitRate;
use lyred::event::{transpose, Event, RawEvent, TrackKey, ValidEvent, DEFAULT_TEMPO_MPQ};
use lyred::merge::{gather, merge, resolve, shift_in_force};
use lyred::midi::Midi;
use lyred::order::sort_events;
use lyred::smf::SmfTiming;
use lyred::timing::TickRate;
use lyred::track::Track;

fn track(events: Vec<RawEvent>, keys: Vec<TrackKey>) -> Track {
    Track { events, keys, enabled: true, name: String::from("t") }
}

fn midi_of(tracks: Vec<Track>, ticks_per_quarter: u32) -> Midi {
    let mut midi = Midi::new();
    midi.fps = TickRate { num: ticks_per_quarter, den: 1 };
    midi.tracks = tracks;
    midi
}

fn key(tick: u32, real: i32) -> TrackKey {
    TrackKey { tick, key: real, backup: 0, real }
}

#[test]
fn tempo_resolution_of_two_notes() {
    let mut midi = midi_of(
        vec![track(
            vec![RawEvent::tempo(0, 500000), RawEvent::note(0, 60), RawEvent::note(480, 62)],
            vec![],
        )],
        480,
    );
    midi.merge_tracks(&[0], 0);
    assert_eq!(
        midi.timeline.events(),
        &vec![Event { press: 60, delay: 0 }, Event { press: 62, delay: 500000 }]
    );
    assert_eq!(midi.timeline.count(), &vec![0, 500000]);
}

#[test]
fn default_tempo_holds_before_the_first_tempo_event() {
    assert_eq!(DEFAULT_TEMPO_MPQ, 500000);
    let stream = vec![RawEvent::note(96, 60), RawEvent::tempo(96, 250000), RawEvent::note(192, 62)];
    let (events, count) = resolve(&stream, TickRate { num: 96, den: 1 });
    assert_eq!(
        events,
        vec![Event { press: 60, delay: 500000 }, Event { press: 62, delay: 250000 }]
    );
    assert_eq!(count, vec![500000, 750000]);
}

#[test]
fn a_delay_is_counted_from_the_note_before_not_from_the_tempo_change() {
    let stream = vec![
        RawEvent::note(0, 60),
        RawEvent::other(10),
        RawEvent::tempo(240, 1000000),
        RawEvent::note(480, 62),
    ];
    let (events, _) = resolve(&stream, TickRate { num: 480, den: 1 });
    assert_eq!(
        events,
        vec![Event { press: 60, delay: 0 }, Event { press: 62, delay: 1000000 }]
    );
}

#[test]
fn key_signature_ranges_shift_their_notes() {
    let mut midi = midi_of(
        vec![track(
            vec![RawEvent::note(100, 60), RawEvent::note(1000, 60)],
            vec![key(0, 0), key(960, 2)],
        )],
        480,
    );
    midi.merge_tracks(&[0], 0);
    let presses: Vec<i32> = midi.timeline.events().iter().map(|e| e.press).collect();
    assert_eq!(presses, vec![60, 62]);
}

#[test]
fn shift_in_force_is_a_step_function() {
    let keys = vec![key(10, 1), key(20, -3), key(20, 5), key(40, 7)];
    assert_eq!(shift_in_force(&keys, 0), 0);
    assert_eq!(shift_in_force(&keys, 9), 0);
    assert_eq!(shift_in_force(&keys, 10), 1);
    assert_eq!(shift_in_force(&keys, 19), 1);
    assert_eq!(shift_in_force(&keys, 20), 5);
    assert_eq!(shift_in_force(&keys, 39), 5);
    assert_eq!(shift_in_force(&keys, 40), 7);
    assert_eq!(shift_in_force(&keys, u32::MAX), 7);
    assert_eq!(shift_in_force(&Vec::new(), 5), 0);
}

#[test]
fn merging_twice_gives_the_same_timeline() {
    let mut midi = midi_of(
        vec![
            track(
                vec![RawEvent::tempo(0, 400000), RawEvent::note(0, 60), RawEvent::note(240, 64)],
                vec![key(0, 3)],
            ),
            track(vec![RawEvent::note(120, 48), RawEvent::note(240, 50)], vec![key(200, -1)]),
        ],
        480,
    );
    midi.merge_tracks(&[0, 1], 2);
    let first: Vec<Event> = midi.timeline.events().clone();
    let first_count: Vec<u64> = midi.timeline.count().clone();
    let first_rate = midi.timeline.hit_rate();
    midi.merge_tracks(&[0, 1], 2);
    assert_eq!(midi.timeline.events(), &first);
    assert_eq!(midi.timeline.count(), &first_count);
    assert_eq!(midi.timeline.hit_rate(), first_rate);
    assert_eq!(
        first,
        vec![
            Event { press: 63, delay: 0 },
            Event { press: 48, delay: 100000 },
            Event { press: 67, delay: 100000 },
            Event { press: 49, delay: 0 },
        ]
    );
    assert_eq!(midi.tracks[0].events[1], RawEvent::note(0, 60));
}

#[test]
fn a_changed_shift_is_applied_once() {
    let mut midi = midi_of(
        vec![track(vec![RawEvent::note(0, 60), RawEvent::note(10, 62)], vec![key(0, 0)])],
        480,
    );
    midi.merge_tracks(&[0], 0);
    midi.tracks[0].keys[0].raise();
    midi.merge_tracks(&[0], 0);
    midi.merge_tracks(&[0], 0);
    let presses: Vec<i32> = midi.timeline.events().iter().map(|e| e.press).collect();
    assert_eq!(presses, vec![61, 63]);
    midi.restore_keys();
    midi.merge_tracks(&[0], 0);
    let presses: Vec<i32> = midi.timeline.events().iter().map(|e| e.press).collect();
    assert_eq!(presses, vec![60, 62]);
}

#[test]
fn tempo_of_a_silenced_track_still_counts() {
    let mut midi = midi_of(
        vec![
            track(vec![RawEvent::tempo(0, 1000000), RawEvent::note(0, 40)], vec![]),
            track(vec![RawEvent::note(0, 60), RawEvent::note(480, 62)], vec![]),
        ],
        480,
    );
    midi.merge_tracks(&[1], 0);
    assert_eq!(
        midi.timeline.events(),
        &vec![Event { press: 60, delay: 0 }, Event { press: 62, delay: 1000000 }]
    );
    midi.merge_tracks(&[], 0);
    assert_eq!(midi.timeline.events(), &Vec::<Event>::new());
    assert_eq!(midi.timeline.count(), &Vec::<u64>::new());
    assert_eq!(midi.timeline.hit_rate(), HitRate { hits: 0, total: 0 });
}

#[test]
fn indices_that_name_no_track_are_ignored() {
    let mut midi = midi_of(vec![track(vec![RawEvent::note(5, 60)], vec![])], 480);
    midi.merge_tracks(&[7, 0, 0, 3], 0);
    assert_eq!(midi.timeline.events().len(), 1);
}

#[test]
fn gather_takes_notes_of_played_tracks_and_every_tempo() {
    let tracks = vec![
        track(
            vec![RawEvent::note(3, 60), RawEvent::other(4), RawEvent::tempo(5, 7)],
            vec![key(0, 1)],
        ),
        track(vec![RawEvent::tempo(1, 9), RawEvent::note(2, 70)], vec![key(0, 1)]),
    ];
    assert_eq!(
        gather(&tracks, &[1]),
        vec![RawEvent::tempo(5, 7), RawEvent::tempo(1, 9), RawEvent::note(2, 71)]
    );
    assert_eq!(
        gather(&tracks, &[0]),
        vec![RawEvent::note(3, 61), RawEvent::tempo(5, 7), RawEvent::tempo(1, 9)]
    );
}

#[test]
fn sorting_is_by_tick_and_keeps_ties_in_stream_order() {
    let mut stream = vec![
        RawEvent::note(30, 1),
        RawEvent::note(10, 2),
        RawEvent::tempo(30, 3),
        RawEvent::note(10, 4),
        RawEvent::note(0, 5),
        RawEvent::note(30, 6),
        RawEvent::note(10, 7),
    ];
    sort_events(&mut stream);
    assert_eq!(
        stream,
        vec![
            RawEvent::note(0, 5),
            RawEvent::note(10, 2),
            RawEvent::note(10, 4),
            RawEvent::note(10, 7),
            RawEvent::note(30, 1),
            RawEvent::tempo(30, 3),
            RawEvent::note(30, 6),
        ]
    );
}

#[test]
fn sorting_a_long_stream_is_stable() {
    let mut stream: Vec<RawEvent> = Vec::new();
    for i in 0..5000u32 {
        stream.push(RawEvent::note((i * 7919) % 50, i as i32));
    }
    sort_events(&mut stream);
    assert_eq!(stream.len(), 5000);
    for pair in stream.windows(2) {
        assert!(pair[0].tick <= pair[1].tick);
        if pair[0].tick == pair[1].tick {
            match (pair[0].event, pair[1].event) {
                (ValidEvent::Note(a), ValidEvent::Note(b)) => assert!(a < b),
                _ => unreachable!(),
            }
        }
    }
}

#[test]
fn tracks_interleave_by_tick() {
    let tracks = vec![
        track(vec![RawEvent::note(0, 1), RawEvent::note(200, 3)], vec![]),
        track(vec![RawEvent::note(100, 2), RawEvent::note(200, 4)], vec![]),
    ];
    let (events, count) = merge(&tracks, &[0, 1], TickRate { num: 100, den: 1 });
    assert_eq!(
        events,
        vec![
            Event { press: 1, delay: 0 },
            Event { press: 2, delay: 500000 },
            Event { press: 3, delay: 500000 },
            Event { press: 4, delay: 0 },
        ]
    );
    assert_eq!(count, vec![0, 500000, 1000000, 1000000]);
}

#[test]
fn micros_follow_ticks_times_tempo_over_rate() {
    assert_eq!(TickRate { num: 480, den: 1 }.micros(480, 500000), 500000);
    assert_eq!(TickRate { num: 480, den: 1 }.micros(1, 500000), 1041);
    assert_eq!(TickRate { num: 480, den: 1 }.micros(0, 500000), 0);
    assert_eq!(TickRate { num: 96, den: 1 }.micros(48, 600000), 300000);
    assert_eq!(TickRate { num: 1200000, den: 1001 }.micros(1200, 500000), 500500);
}

#[test]
fn micros_stop_at_the_end_of_u64() {
    assert_eq!(TickRate { num: 1, den: u32::MAX }.micros(u32::MAX, u32::MAX), u64::MAX);
    assert_eq!(TickRate { num: 0, den: 1 }.micros(1, 1), u64::MAX);
    assert_eq!(TickRate { num: 0, den: 1 }.micros(0, 500000), 0);
    assert_eq!(TickRate { num: 0, den: 1 }.micros(5, 0), 0);
    assert_eq!(TickRate { num: 7, den: 0 }.micros(5, 500000), 0);
    let stream = vec![RawEvent::note(1, 60), RawEvent::note(2, 61), RawEvent::note(3, 62)];
    let (events, count) = resolve(&stream, TickRate { num: 0, den: 1 });
    assert_eq!(events[1].delay, u64::MAX);
    assert_eq!(count, vec![u64::MAX, u64::MAX, u64::MAX]);
}

#[test]
fn rate_of_each_time_base() {
    assert_eq!(TickRate::of_timing(SmfTiming::Metrical(480)), TickRate { num: 480, den: 1 });
    assert_eq!(TickRate::of_timing(SmfTiming::Timecode(24, 80)), TickRate { num: 1920, den: 1 });
    assert_eq!(TickRate::of_timing(SmfTiming::Timecode(25, 40)), TickRate { num: 1000, den: 1 });
    assert_eq!(TickRate::of_timing(SmfTiming::Timecode(30, 100)), TickRate { num: 3000, den: 1 });
    assert_eq!(
        TickRate::of_timing(SmfTiming::Timecode(29, 40)),
        TickRate { num: 1200000, den: 1001 }
    );
    assert_eq!(
        TickRate::of_timing(SmfTiming::Timecode(255, 255)),
        TickRate { num: 65025, den: 1 }
    );
}

#[test]
fn a_stream_that_steps_back_takes_no_time_for_the_step() {
    let stream = vec![RawEvent::note(100, 60), RawEvent::note(50, 61), RawEvent::note(150, 62)];
    let (events, _) = resolve(&stream, TickRate { num: 100, den: 1 });
    assert_eq!(
        events,
        vec![
            Event { press: 60, delay: 500000 },
            Event { press: 61, delay: 0 },
            Event { press: 62, delay: 500000 },
        ]
    );
}

#[test]
fn transposing_stops_at_the_ends_of_i32() {
    assert_eq!(transpose(60, 3), 63);
    assert_eq!(transpose(60, -61), -1);
    assert_eq!(transpose(i32::MAX, 1), i32::MAX);
    assert_eq!(transpose(i32::MIN, -1), i32::MIN);
    assert_eq!(transpose(i32::MIN, i32::MAX), -1);
}

#[test]
fn track_key_is_shifted_and_restored() {
    let mut k = TrackKey::new(30, -2);
    assert_eq!(k, TrackKey { tick: 30, key: -2, backup: -2, real: 0 });
    k.raise();
    k.raise();
    assert_eq!(k, TrackKey { tick: 30, key: 0, backup: -2, real: 2 });
    k.lower();
    assert_eq!(k, TrackKey { tick: 30, key: -1, backup: -2, real: 1 });
    k.restore();
    assert_eq!(k, TrackKey { tick: 30, key: -2, backup: -2, real: 0 });
    let mut top = TrackKey { tick: 0, key: i32::MAX, backup: 0, real: 5 };
    top.raise();
    assert_eq!(top, TrackKey { tick: 0, key: i32::MAX, backup: 0, real: 6 });
}

#[test]
fn current_range_lists_the_played_tracks() {
    let mut midi = midi_of(
        vec![track(vec![], vec![]), track(vec![], vec![]), track(vec![], vec![])],
        480,
    );
    assert_eq!(midi.current_range(), vec![0, 1, 2]);
    midi.tracks[1].enabled = false;
    assert_eq!(midi.current_range(), vec![0, 2]);
    midi.tracks[0].enabled = false;
    midi.tracks[2].enabled = false;
    assert_eq!(midi.current_range(), Vec::<usize>::new());
    assert_eq!(Midi::new().current_range(), Vec::<usize>::new());
}

#[test]
fn classified_events_tell_tempo_and_note() {
    assert!(ValidEvent::Tempo(1).is_tempo());
    assert!(!ValidEvent::Note(1).is_tempo());
    assert!(!ValidEvent::Other.is_tempo());
}
