use lyred::control::{
    after_play_key, faster, is_playing, minutes_seconds, next_file, next_file_with, on_pause_key,
    on_play_key, plan_playback, plays_again, slower, KeyAction, Plan, PlayMode, State,
};
use lyred::midi::Midi;
use lyred::settings::{plays, Config, Control, ControlKey, FunctionKey};

#[test]
fn playing_is_all_but_rest() {
    assert!(is_playing(State::Playing));
    assert!(is_playing(State::Pause));
    assert!(!is_playing(State::Stop));
}

#[test]
fn the_play_key_starts_or_resumes() {
    assert_eq!(on_play_key(State::Stop, false), KeyAction::Start);
    assert_eq!(on_play_key(State::Stop, true), KeyAction::Ignore);
    assert_eq!(on_play_key(State::Pause, false), KeyAction::Resume);
    assert_eq!(on_play_key(State::Pause, true), KeyAction::Resume);
    assert_eq!(on_play_key(State::Playing, false), KeyAction::Ignore);
    assert_eq!(on_play_key(State::Playing, true), KeyAction::Ignore);
    assert_eq!(after_play_key(State::Stop, KeyAction::Start), State::Playing);
    assert_eq!(after_play_key(State::Pause, KeyAction::Resume), State::Playing);
    assert_eq!(after_play_key(State::Stop, KeyAction::Ignore), State::Stop);
}

#[test]
fn the_pause_key_pauses_only_a_running_playback() {
    assert_eq!(on_pause_key(State::Playing), State::Pause);
    assert_eq!(on_pause_key(State::Pause), State::Pause);
    assert_eq!(on_pause_key(State::Stop), State::Stop);
}

#[test]
fn a_playback_is_planned_by_its_mode() {
    assert_eq!(plan_playback(PlayMode::Once, 0), Plan::Single { repeat: false });
    assert_eq!(plan_playback(PlayMode::OneLoop, 9), Plan::Single { repeat: true });
    assert_eq!(plan_playback(PlayMode::Loop, 0), Plan::Nothing);
    assert_eq!(plan_playback(PlayMode::Loop, 1), Plan::List { random: false });
    assert_eq!(plan_playback(PlayMode::Random, 0), Plan::Nothing);
    assert_eq!(plan_playback(PlayMode::Random, 3), Plan::List { random: true });
    let mut midi = Midi::new();
    assert_eq!(midi.playback_by(PlayMode::Loop), Plan::Nothing);
    midi.midis = vec![String::from("a.mid")];
    assert_eq!(midi.playback_by(PlayMode::Loop), Plan::List { random: false });
    assert_eq!(midi.playback_by(PlayMode::Once), Plan::Single { repeat: false });
}

#[test]
fn a_file_is_played_again_only_in_a_loop_that_nobody_stopped() {
    assert!(plays_again(State::Playing, true));
    assert!(plays_again(State::Pause, true));
    assert!(!plays_again(State::Stop, true));
    assert!(!plays_again(State::Playing, false));
    assert!(Midi::playback_one(State::Playing, true));
    assert!(!Midi::playback_one(State::Stop, true));
}

#[test]
fn a_round_goes_through_the_files_and_starts_over() {
    assert_eq!(next_file(State::Playing, 0, 3, false), Some(1));
    assert_eq!(next_file(State::Playing, 1, 3, false), Some(2));
    assert_eq!(next_file(State::Playing, 2, 3, false), Some(0));
    assert_eq!(next_file(State::Playing, 7, 3, false), Some(0));
    assert_eq!(next_file(State::Playing, usize::MAX, usize::MAX, false), Some(0));
    assert_eq!(next_file(State::Pause, 0, 1, false), Some(0));
    assert_eq!(next_file(State::Stop, 0, 3, false), None);
    assert_eq!(next_file(State::Playing, 0, 0, false), None);
    assert_eq!(next_file(State::Playing, 0, 0, true), None);
    assert_eq!(next_file(State::Stop, 0, 3, true), None);
}

#[test]
fn a_file_drawn_by_chance_is_one_of_the_files() {
    let mut seen = [false; 4];
    for _ in 0..400 {
        match next_file(State::Playing, 1, 4, true) {
            Some(n) => {
                assert!(n < 4);
                seen[n] = true;
            }
            None => panic!("a file must follow"),
        }
    }
    assert_eq!(seen, [true; 4]);
    assert_eq!(next_file(State::Playing, 0, 1, true), Some(0));
    let mut midi = Midi::new();
    midi.midis = vec![String::from("a.mid"), String::from("b.mid")];
    assert_eq!(midi.playback_list(State::Playing, 0, false), Some(1));
    assert_eq!(midi.playback_list(State::Playing, 1, false), Some(0));
    assert_eq!(midi.playback_list(State::Stop, 1, false), None);
    assert!(midi.playback_list(State::Playing, 1, true).unwrap() < 2);
}

#[test]
fn the_file_that_follows_is_the_one_drawn_if_one_was_drawn() {
    assert_eq!(next_file_with(State::Playing, 0, 3, Some(2)), Some(2));
    assert_eq!(next_file_with(State::Playing, 2, 3, None), Some(0));
    assert_eq!(next_file_with(State::Stop, 2, 3, Some(1)), None);
    assert_eq!(next_file_with(State::Playing, 2, 0, Some(1)), None);
}

#[test]
fn the_speed_changes_by_tenths() {
    assert_eq!(slower(1000), 900);
    assert_eq!(slower(150), 50);
    assert_eq!(slower(101), 1);
    assert_eq!(slower(100), 100);
    assert_eq!(slower(50), 50);
    assert_eq!(slower(0), 0);
    assert_eq!(faster(1000), 1100);
    assert_eq!(faster(0), 100);
    assert_eq!(faster(u32::MAX - 100), u32::MAX);
    assert_eq!(faster(u32::MAX - 5), u32::MAX);
}

#[test]
fn a_clock_shows_minutes_and_seconds() {
    assert_eq!(minutes_seconds(0), (0, 0));
    assert_eq!(minutes_seconds(999_999), (0, 0));
    assert_eq!(minutes_seconds(59_999_999), (0, 59));
    assert_eq!(minutes_seconds(60_000_000), (1, 0));
    assert_eq!(minutes_seconds(3_725_000_000), (62, 5));
}

#[test]
fn the_keys_of_the_controls_are_space_backspace_and_control() {
    assert_eq!(FunctionKey::default(), FunctionKey { play: 32, pause: 8, stop: 17 });
    let config = Config::default();
    assert_eq!(config.midi_dir, "");
    assert_eq!(config.function_key, FunctionKey::default());
    assert_eq!(
        config.map,
        [81, 87, 69, 82, 84, 89, 85, 65, 83, 68, 70, 71, 72, 74, 90, 88, 67, 86, 66, 78, 77]
    );
    assert_eq!(config.key_of_control(Control::Play), 32);
    assert_eq!(config.key_of_control(Control::Pause), 8);
    assert_eq!(config.key_of_control(Control::Stop), 17);
}

#[test]
fn a_key_serves_one_purpose() {
    let config = Config::default();
    assert!(config.can_control(Control::Play, 13));
    assert!(config.can_control(Control::Play, 32));
    assert!(!config.can_control(Control::Play, 8));
    assert!(!config.can_control(Control::Play, 17));
    assert!(!config.can_control(Control::Play, 81));
    assert!(config.can_control(Control::Pause, 8));
    assert!(!config.can_control(Control::Pause, 32));
    assert!(!config.can_control(Control::Stop, 8));
    assert!(config.can_control(Control::Stop, 17));
    assert!(!config.can_control(Control::Stop, 77));
    assert!(config.can_play(81));
    assert!(config.can_play(13));
    assert!(!config.can_play(32));
    assert!(!config.can_play(8));
    assert!(!config.can_play(17));
    assert!(plays(&config.map, 77));
    assert!(!plays(&config.map, 32));
}

#[test]
fn a_speed_key_acts_once_each_time_it_goes_down() {
    let mut keys = ControlKey::default();
    assert_eq!(keys, ControlKey { add: false, sub: false });
    assert!(!keys.on_add(false, false));
    assert!(keys.on_add(true, false));
    assert_eq!(keys, ControlKey { add: true, sub: false });
    assert!(!keys.on_add(true, false));
    assert!(keys.on_add(true, true));
    assert!(!keys.on_add(false, false));
    assert!(keys.on_add(false, true));
    assert_eq!(keys, ControlKey { add: false, sub: false });
    assert!(keys.on_sub(true, false));
    assert!(!keys.on_sub(true, false));
    assert_eq!(keys, ControlKey { add: false, sub: true });
    assert!(!keys.on_sub(false, false));
    assert!(keys.on_sub(true, false));
}
