//! The messages exchanged between the devboard and the game server.
use vstd::prelude::*;

verus! {

/// One batch of button events reported by the devboard.
#[derive(Debug)]
pub struct DevboardEvents {
    pub number_of_buttons: i32,
    /// Milliseconds since the devboard was reset, taken when the batch was sent.
    pub ms_since_reset: usize,
    /// The button events, in the order in which they happened.
    pub button_events: Vec<DevboardEvent>,
}

/// A single button event.
#[derive(Debug, Clone, Copy)]
pub struct DevboardEvent {
    pub button_index: usize,
    pub event_type: DevboardEventType,
    /// Milliseconds since the devboard was reset, taken when the event happened.
    pub timestamp: usize,
}

#[derive(Debug, Clone, Copy, PartialEq, Eq, Structural)]
pub enum DevboardEventType {
    Pressed,
    Released,
}

/// The answer to a batch of events: the state of each button LED.
#[derive(Debug)]
pub struct DevboardButtonLeds {
    pub button_leds: Vec<DevboardButtonLed>,
}

#[derive(Debug, Clone, Copy, PartialEq, Eq, Structural)]
pub struct DevboardButtonLed {
    pub enabled: bool,
}

/// Whether an event is a button press.
pub open spec fn is_press(event: DevboardEvent) -> bool {
    event.event_type == DevboardEventType::Pressed
}

/// The LED answer has exactly `n` LEDs, and LED `k` is lit exactly when `lit(k)` holds.
pub open spec fn leds_match(leds: DevboardButtonLeds, n: nat, lit: spec_fn(usize) -> bool) -> bool {
    &&& leds.button_leds@.len() == n
    &&& forall|k: usize| k < n ==> (#[trigger] leds.button_leds@[k as int]).enabled == lit(k)
}

} // verus!
