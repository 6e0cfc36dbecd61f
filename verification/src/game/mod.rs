//! The games that can run on the buzzer board, and what they share: the clock of
//! the devboard and the LED answer.
use vstd::prelude::*;

use crate::devboard_controller::{DevboardButtonLed, DevboardButtonLeds};

pub mod quiz_game;
pub mod reaction_time_game;
pub mod sound_check;

pub use quiz_game::QuizGame;
pub use reaction_time_game::ReactionTimeGame;
pub use sound_check::SoundCheck;

verus! {

/// Number of player buttons on the board.
pub const NUMBER_OF_BUTTONS: usize = 6;

/// The devboard time at which the running game started, after a batch that was
/// sent at `ms_since_reset`: the first batch fixes it, and a batch sent at an
/// earlier time (the devboard was reset) moves it back to that time.
pub open spec fn next_reference(reference: Option<usize>, ms_since_reset: usize) -> usize {
    match reference {
        None => ms_since_reset,
        Some(r) => if ms_since_reset < r { ms_since_reset } else { r },
    }
}

/// The start time of a game is never later than the newest batch, and stays
/// put while the devboard is not reset.
pub proof fn lemma_reference_not_after_batch(reference: Option<usize>, ms_since_reset: usize)
    ensures
        next_reference(reference, ms_since_reset) <= ms_since_reset,
        reference is Some && reference->0 <= ms_since_reset ==> next_reference(reference, ms_since_reset) == reference->0,
{
}

/// Milliseconds between `reference` and `timestamp`, computed modulo the word
/// size as a release build of the server computes them.
pub open spec fn elapsed_ms(timestamp: usize, reference: usize) -> usize {
    if timestamp >= reference {
        (timestamp - reference) as usize
    } else {
        (timestamp - reference + usize::MAX + 1) as usize
    }
}

/// The game state that every game reports to the frontend after a tick.
pub open spec fn frontend_state_text() -> Seq<char> {
    r#"{
                "game_over": false, "game_mode": "sound_check", "game_state": {"first_buzz": null}

    }"#@
}

/// The game state for the frontend, as JSON text.
pub fn frontend_state() -> (json: String)
    ensures
        json@ == frontend_state_text(),
{
    String::from_str(
        r#"{
                "game_over": false, "game_mode": "sound_check", "game_state": {"first_buzz": null}

    }"#,
    )
}

/// Moves the game's start time along with a new batch, as `next_reference` says,
/// and returns it.
pub(crate) fn advance_reference(reference: &mut Option<usize>, ms_since_reset: usize) -> (r: usize)
    ensures
        r == next_reference(*old(reference), ms_since_reset),
        *final(reference) == Some(r),
{
    let r = match *reference {
        None => ms_since_reset,
        Some(prev) => if ms_since_reset < prev { ms_since_reset } else { prev },
    };
    *reference = Some(r);
    r
}

/// `elapsed_ms` in executable form.
pub(crate) fn elapsed_since(timestamp: usize, reference: usize) -> (d: usize)
    ensures
        d == elapsed_ms(timestamp, reference),
{
    timestamp.wrapping_sub(reference)
}

/// An LED answer with all `NUMBER_OF_BUTTONS` LEDs off.
pub(crate) fn leds_all_off() -> (leds: DevboardButtonLeds)
    ensures
        leds.button_leds@.len() == NUMBER_OF_BUTTONS,
        forall|k: int| 0 <= k < NUMBER_OF_BUTTONS ==> !(#[trigger] leds.button_leds@[k]).enabled,
{
    let mut button_leds: Vec<DevboardButtonLed> = Vec::new();
    let mut i: usize = 0;
    while i < NUMBER_OF_BUTTONS
        invariant
            i <= NUMBER_OF_BUTTONS,
            button_leds@.len() == i,
            forall|k: int| 0 <= k < i ==> !(#[trigger] button_leds@[k]).enabled,
        decreases NUMBER_OF_BUTTONS - i,
    {
        button_leds.push(DevboardButtonLed { enabled: false });
        i = i + 1;
    }
    DevboardButtonLeds { button_leds }
}

} // verus!
