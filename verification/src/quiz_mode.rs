//! The first game interface of the server, kept with its placeholder game: a
//! fixed LED pattern whatever the buttons do.
use vstd::prelude::*;

use crate::devboard_controller::{DevboardButtonLed, DevboardButtonLeds, DevboardEvents};

verus! {

/// A game driven by batches of button events.
pub trait QuizMode {
    /// This is the update function of the game loop. It takes new button input
    /// from the devboard and returns the LED states of the buttons.
    fn update(&mut self, inputs: DevboardEvents) -> DevboardButtonLeds;
}

/// The placeholder reaction time game.
pub struct ReactionTimeGame {}

impl QuizMode for ReactionTimeGame {
    /// Lights the first and third of three LEDs, whatever the events.
    fn update(&mut self, inputs: DevboardEvents) -> (leds: DevboardButtonLeds)
        ensures
            leds.button_leds@ == seq![
                DevboardButtonLed { enabled: true },
                DevboardButtonLed { enabled: false },
                DevboardButtonLed { enabled: true },
            ],
    {
        let mut button_leds: Vec<DevboardButtonLed> = Vec::new();
        button_leds.push(DevboardButtonLed { enabled: true });
        button_leds.push(DevboardButtonLed { enabled: false });
        button_leds.push(DevboardButtonLed { enabled: true });
        DevboardButtonLeds { button_leds }
    }
}

} // verus!
