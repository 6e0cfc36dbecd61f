use quiz_buzzer::audio::{audio_path, AudioCue};
use quiz_buzzer::devboard_controller::{DevboardEvent, DevboardEventType, DevboardEvents};
use quiz_buzzer::game::frontend_state;
use quiz_buzzer::game::reaction_time_game::{PlayerButtonState, MAX_DELAY_NS, MIN_DELAY_NS};
use quiz_buzzer::game::{QuizGame, ReactionTimeGame, SoundCheck, NUMBER_OF_BUTTONS};
use quiz_buzzer::quiz_mode::{self, QuizMode};

fn press(button_index: usize, timestamp: usize) -> DevboardEvent {
    DevboardEvent { button_index, event_type: DevboardEventType::Pressed, timestamp }
}

fn release(button_index: usize, timestamp: usize) -> DevboardEvent {
    DevboardEvent { button_index, event_type: DevboardEventType::Released, timestamp }
}

fn batch(ms_since_reset: usize, button_events: Vec<DevboardEvent>) -> DevboardEvents {
    DevboardEvents { number_of_buttons: 6, ms_since_reset, button_events }
}

fn lit(leds: &quiz_buzzer::devboard_controller::DevboardButtonLeds) -> Vec<usize> {
    leds.button_leds.iter().enumerate().filter(|(_, l)| l.enabled).map(|(i, _)| i).collect()
}

#[test]
fn quiz_first_press_buzzes_and_lights_its_led() {
    let mut game = QuizGame::new(true);
    let leds = game.update(batch(100, vec![release(3, 150), press(2, 170), press(4, 180)]));
    assert_eq!(game.first_buzz, Some((2, 70)));
    assert_eq!(leds.button_leds.len(), NUMBER_OF_BUTTONS);
    assert_eq!(lit(&leds), vec![2]);
    assert_eq!(game.take_sounds(), vec![AudioCue::Buzzer(2)]);
    assert_eq!(game.take_sounds(), vec![]);
}

#[test]
fn quiz_later_press_keeps_the_first_buzz_and_plays_fail() {
    let mut game = QuizGame::new(true);
    game.update(batch(100, vec![press(5, 400)]));
    game.take_sounds();
    let leds = game.update(batch(2000, vec![press(1, 1500)]));
    assert_eq!(game.first_buzz, Some((5, 300)));
    assert_eq!(lit(&leds), vec![5]);
    assert_eq!(game.take_sounds(), vec![AudioCue::Fail]);
}

#[test]
fn quiz_without_presses_lights_nothing() {
    let mut game = QuizGame::new(true);
    let leds = game.update(batch(100, vec![release(0, 50)]));
    assert_eq!(game.first_buzz, None);
    assert_eq!(lit(&leds), Vec::<usize>::new());
    assert_eq!(game.take_sounds(), vec![]);
}

#[test]
fn quiz_without_audio_asks_for_no_sound() {
    let mut game = QuizGame::new(false);
    game.update(batch(0, vec![press(3, 10)]));
    game.update(batch(20, vec![press(4, 30)]));
    assert_eq!(game.take_sounds(), vec![]);
    assert_eq!(game.first_buzz, Some((3, 10)));
}

#[test]
fn quiz_devboard_reset_moves_the_start_time_back() {
    let mut game = QuizGame::new(false);
    game.update(batch(5000, vec![]));
    game.update(batch(100, vec![press(0, 250)]));
    assert_eq!(game.first_buzz, Some((0, 150)));
}

#[test]
fn quiz_press_before_the_start_time_wraps_around() {
    let mut game = QuizGame::new(false);
    game.update(batch(1000, vec![press(1, 990)]));
    assert_eq!(game.first_buzz, Some((1, 990usize.wrapping_sub(1000) as u64)));
}

#[test]
fn reaction_ranks_presses_after_the_delay() {
    let mut game = ReactionTimeGame::with_delay(true, 3_000_000_000);
    let leds = game.update(batch(
        1000,
        vec![press(4, 6000), press(1, 8000), press(0, 2000), press(4, 9000), release(2, 9500)],
    ));
    assert_eq!(game.player_button_states[4], PlayerButtonState::Pressed(5000));
    assert_eq!(game.player_button_states[1], PlayerButtonState::Pressed(7000));
    assert_eq!(game.player_button_states[0], PlayerButtonState::Pressed(1000));
    assert_eq!(game.player_button_states[2], PlayerButtonState::NotPressed);
    assert_eq!(game.winners, vec![(4, 5000), (1, 7000)]);
    assert_eq!(game.overeager_trigger_happy.len(), 1);
    assert!(game.overeager_trigger_happy.contains(&0));
    assert_eq!(lit(&leds), vec![4]);
    assert_eq!(game.take_sounds(), vec![AudioCue::Buzzer(4), AudioCue::Fail]);
}

#[test]
fn reaction_recorded_press_does_not_change() {
    let mut game = ReactionTimeGame::with_delay(false, 2_000_000_000);
    game.update(batch(0, vec![press(3, 2500)]));
    game.update(batch(3000, vec![press(3, 2900), press(2, 2100)]));
    assert_eq!(game.player_button_states[3], PlayerButtonState::Pressed(2500));
    assert_eq!(game.winners, vec![(2, 2100), (3, 2500)]);
}

#[test]
fn reaction_equal_times_rank_by_button() {
    let mut game = ReactionTimeGame::with_delay(false, 2_000_000_000);
    let leds = game.update(batch(0, vec![press(5, 2500), press(1, 2500), press(3, 2400)]));
    assert_eq!(game.winners, vec![(3, 2400), (1, 2500), (5, 2500)]);
    assert_eq!(lit(&leds), vec![3]);
}

#[test]
fn reaction_delay_boundary_is_in_time() {
    let mut game = ReactionTimeGame::with_delay(true, 2_000_000_000);
    game.update(batch(0, vec![press(0, 2000), press(1, 1999)]));
    assert_eq!(game.winners, vec![(0, 2000)]);
    assert!(game.overeager_trigger_happy.contains(&1));
    assert_eq!(game.take_sounds(), vec![AudioCue::Buzzer(0), AudioCue::Fail]);
}

#[test]
fn reaction_partial_millisecond_delay() {
    // A delay of 2000.5 ms: a press at 2000 ms is early, one at 2001 ms is in time,
    // and both are past the whole milliseconds of the delay for the sounds.
    let mut game = ReactionTimeGame::with_delay(true, 2_000_500_000);
    game.update(batch(0, vec![press(0, 2000), press(1, 2001)]));
    assert!(game.overeager_trigger_happy.contains(&0));
    assert_eq!(game.winners, vec![(1, 2001)]);
    assert_eq!(game.take_sounds(), vec![AudioCue::Buzzer(0)]);
}

#[test]
fn reaction_no_buzzer_once_someone_won() {
    let mut game = ReactionTimeGame::with_delay(true, 2_000_000_000);
    game.update(batch(0, vec![press(0, 3000)]));
    assert_eq!(game.take_sounds(), vec![AudioCue::Buzzer(0)]);
    let leds = game.update(batch(5000, vec![press(2, 2500), press(1, 1000)]));
    assert_eq!(game.take_sounds(), vec![AudioCue::Fail]);
    assert_eq!(game.winners, vec![(2, 2500), (0, 3000)]);
    assert_eq!(lit(&leds), vec![2]);
}

#[test]
fn reaction_new_draws_delay_in_range() {
    let mut delays = Vec::new();
    for _ in 0..50 {
        let game = ReactionTimeGame::new(false);
        assert!(MIN_DELAY_NS <= game.delay && game.delay < MAX_DELAY_NS);
        assert!(game.winners.is_empty());
        assert!(game.overeager_trigger_happy.is_empty());
        delays.push(game.delay);
    }
    assert!(delays.iter().any(|d| *d != MIN_DELAY_NS));
}

#[test]
fn reaction_without_presses_lights_nothing() {
    let mut game = ReactionTimeGame::with_delay(true, 5_000_000_000);
    let leds = game.update(batch(10, vec![]));
    assert_eq!(lit(&leds), Vec::<usize>::new());
    assert_eq!(leds.button_leds.len(), 6);
    assert!(game.take_sounds().is_empty());
}

#[test]
fn sound_check_lights_every_button_with_an_event() {
    let mut game = SoundCheck::new(true);
    let leds = game.update(batch(0, vec![press(3, 1), release(3, 2), press(0, 3), release(5, 4)]));
    assert_eq!(lit(&leds), vec![0, 3, 5]);
    assert_eq!(game.take_sound_buttons(), vec![3, 0, 5]);
    assert_eq!(game.take_sound_buttons(), Vec::<usize>::new());
    assert_eq!(game.first_buzz, None);
}

#[test]
fn sound_check_without_audio_keeps_no_buttons() {
    let mut game = SoundCheck::new(false);
    let leds = game.update(batch(0, vec![press(1, 1)]));
    assert_eq!(lit(&leds), vec![1]);
    assert!(game.take_sound_buttons().is_empty());
}

#[test]
fn sound_check_slots_and_variants() {
    assert_eq!(SoundCheck::sound_slot(0), 0);
    assert_eq!(SoundCheck::sound_slot(1), 43);
    assert_eq!(SoundCheck::sound_slot(5), 219);
    assert_eq!(SoundCheck::sound_variant(43, 0), 43 % 6);
    assert_eq!(SoundCheck::sound_variant(43, 12), (43 + 2 * 7919) % 6);
    assert_eq!(SoundCheck::sound_variant(219, usize::MAX), 219usize.wrapping_add((usize::MAX / 5).wrapping_mul(7919)) % 6);
}

#[test]
fn legacy_reaction_game_lights_a_fixed_pattern() {
    let mut game = quiz_mode::ReactionTimeGame {};
    let leds = game.update(batch(0, vec![press(1, 1)]));
    let enabled: Vec<bool> = leds.button_leds.iter().map(|l| l.enabled).collect();
    assert_eq!(enabled, vec![true, false, true]);
}

#[test]
fn audio_paths_of_cues() {
    assert_eq!(audio_path(AudioCue::Fail), "../static/audio/boo-womp.mp3");
    assert_eq!(audio_path(AudioCue::Buzzer(0)), "../static/audio/duck.mp3");
    assert_eq!(audio_path(AudioCue::Buzzer(2)), "../static/audio/mario.mp3");
    assert_eq!(audio_path(AudioCue::Buzzer(5)), "../static/audio/wololo.mp3");
}

#[test]
fn frontend_state_is_the_fixed_json() {
    let json = frontend_state();
    let value: serde_json::Value = serde_json::from_str(&json).unwrap();
    assert_eq!(value["game_over"], serde_json::Value::Bool(false));
    assert_eq!(value["game_mode"], serde_json::Value::String("sound_check".to_string()));
    assert!(value["game_state"]["first_buzz"].is_null());
}

#[test]
fn sound_check_sound_stays_within_five_phases() {
    for slot in [0usize, 43, 87, 131, 175, 219] {
        assert_eq!(SoundCheck::sound_variant(slot, 10), SoundCheck::sound_variant(slot, 14));
        assert!(SoundCheck::sound_variant(slot, 14) < 6);
    }
    assert_ne!(SoundCheck::sound_variant(0, 4), SoundCheck::sound_variant(0, 5));
}

#[test]
fn reaction_only_the_first_winner_buzzes() {
    let mut game = ReactionTimeGame::with_delay(true, 3_000_000_000);
    let leds = game.update(batch(0, vec![press(1, 4000), press(4, 5000)]));
    assert_eq!(game.take_sounds(), vec![AudioCue::Buzzer(1)]);
    assert_eq!(game.winners, vec![(1, 4000), (4, 5000)]);
    assert_eq!(lit(&leds), vec![1]);
}

#[test]
fn reaction_released_events_change_nothing() {
    let mut with_releases = ReactionTimeGame::with_delay(true, 2_000_000_000);
    let mut presses_only = ReactionTimeGame::with_delay(true, 2_000_000_000);
    let leds1 = with_releases.update(batch(0, vec![release(2, 100), press(3, 2500), release(3, 2600), press(0, 1500), release(7, 3000)]));
    let leds2 = presses_only.update(batch(0, vec![press(3, 2500), press(0, 1500)]));
    assert_eq!(lit(&leds1), lit(&leds2));
    assert_eq!(with_releases.player_button_states, presses_only.player_button_states);
    assert_eq!(with_releases.winners, presses_only.winners);
    assert_eq!(with_releases.overeager_trigger_happy, presses_only.overeager_trigger_happy);
    assert_eq!(with_releases.take_sounds(), presses_only.take_sounds());
}

#[test]
fn quiz_only_the_first_press_matters() {
    let mut full = QuizGame::new(true);
    let mut first_only = QuizGame::new(true);
    let leds1 = full.update(batch(10, vec![release(1, 20), press(4, 30), press(2, 40), release(4, 50)]));
    let leds2 = first_only.update(batch(10, vec![press(4, 30)]));
    assert_eq!(full.first_buzz, first_only.first_buzz);
    assert_eq!(lit(&leds1), lit(&leds2));
    assert_eq!(full.take_sounds(), first_only.take_sounds());
}
