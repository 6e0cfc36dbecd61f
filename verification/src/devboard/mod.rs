//! The devboard side of the buzzer system: the board collects button presses and
//! posts them to the game server over HTTP.
use vstd::prelude::*;

pub mod http;

verus! {

/// Number of buttons on the board.
pub const NUM_BUTTONS: i32 = 6;

/// Most button presses sent in one message.
pub const NUM_BUTTON_PRESSES_PER_MSG: usize = 20;

/// Time after a press during which a button is not read again, in milliseconds.
pub const DEBOUNCE_MS: u64 = 100;

/// Time between two messages to the server, in milliseconds.
pub const STATE_PERIOD_MS: u64 = 1000;

/// Size of the buffers for a request and for a response, in bytes.
pub const BUFFER_SIZE: usize = 100 + (NUM_BUTTON_PRESSES_PER_MSG * 20);

#[verifier::external_type_specification]
#[verifier::external_body]
#[verifier::reject_recursive_types(T)]
pub struct ExBoundedVec<T, const N: usize>(heapless::Vec<T, N>);

/// A button press the board has seen: the button, and the milliseconds since
/// the board was reset.
pub type ButtonPress = (usize, u64);

/// The board's state report.
#[derive(Debug)]
pub struct State {
    pub time: u64,
    pub button_presses: heapless::Vec<ButtonPress, NUM_BUTTON_PRESSES_PER_MSG>,
}

/// One message of button events from the board to the server.
#[derive(Debug)]
pub struct DevboardEvents {
    pub number_of_buttons: i32,
    /// Milliseconds since the board was reset, when the message was made.
    pub ms_since_reset: u64,
    pub button_events: heapless::Vec<DevboardEvent, NUM_BUTTON_PRESSES_PER_MSG>,
}

/// A button event on the board.
#[derive(Debug, Clone, Copy)]
pub struct DevboardEvent {
    pub button_index: usize,
    pub event_type: DevboardEventType,
    /// Milliseconds since the board was reset, when the event happened.
    pub timestamp: u64,
}

#[derive(Debug, Clone, Copy, PartialEq, Eq, Structural)]
pub enum DevboardEventType {
    Pressed,
    Released,
}

/// The events that a message holds, in order.
pub uninterp spec fn batch_contents(events: heapless::Vec<DevboardEvent, NUM_BUTTON_PRESSES_PER_MSG>) -> Seq<DevboardEvent>;

/// Calls `heapless::Vec::<T, N>::new`, which makes an empty vector.
#[verifier::external_body]
fn empty_batch() -> (events: heapless::Vec<DevboardEvent, NUM_BUTTON_PRESSES_PER_MSG>)
    ensures
        batch_contents(events) == Seq::<DevboardEvent>::empty(),
{
    heapless::Vec::new()
}

/// Calls `heapless::Vec::<T, N>::push`, which appends `event` when the vector
/// is below its capacity and hands `event` back otherwise.
#[verifier::external_body]
fn push_event(
    events: &mut heapless::Vec<DevboardEvent, NUM_BUTTON_PRESSES_PER_MSG>,
    event: DevboardEvent,
) -> (pushed: Result<(), DevboardEvent>)
    ensures
        pushed is Ok <==> batch_contents(*old(events)).len() < NUM_BUTTON_PRESSES_PER_MSG,
        pushed is Ok ==> batch_contents(*final(events)) == batch_contents(*old(events)).push(event),
        pushed matches Err(back) ==> back == event && batch_contents(*final(events)) == batch_contents(*old(events)),
{
    events.push(event)
}

/// Calls `heapless::Vec::<T, N>::is_full`, which tells whether the vector holds
/// as many items as its capacity.
#[verifier::external_body]
fn batch_is_full(events: &heapless::Vec<DevboardEvent, NUM_BUTTON_PRESSES_PER_MSG>) -> (full: bool)
    ensures
        full == (batch_contents(*events).len() == NUM_BUTTON_PRESSES_PER_MSG),
{
    events.is_full()
}

/// The press event that a queued button press becomes.
pub open spec fn press_event(press: ButtonPress) -> DevboardEvent {
    DevboardEvent { button_index: press.0, event_type: DevboardEventType::Pressed, timestamp: press.1 }
}

impl DevboardEvents {
    /// An empty message made at `ms_since_reset`, for all the board's buttons.
    pub fn new(ms_since_reset: u64) -> (message: Self)
        ensures
            message.number_of_buttons == NUM_BUTTONS,
            message.ms_since_reset == ms_since_reset,
            batch_contents(message.button_events) == Seq::<DevboardEvent>::empty(),
    {
        DevboardEvents { number_of_buttons: NUM_BUTTONS, ms_since_reset, button_events: empty_batch() }
    }

    /// Adds a queued button press as a press event, unless the message is
    /// already full, and tells whether the message is now full, so that no more
    /// presses are taken from the queue.
    pub fn record_press(&mut self, press: ButtonPress) -> (full: bool)
        ensures
            batch_contents(final(self).button_events) == if batch_contents(old(self).button_events).len()
                < NUM_BUTTON_PRESSES_PER_MSG {
                batch_contents(old(self).button_events).push(press_event(press))
            } else {
                batch_contents(old(self).button_events)
            },
            full == (batch_contents(final(self).button_events).len() == NUM_BUTTON_PRESSES_PER_MSG),
            final(self).number_of_buttons == old(self).number_of_buttons,
            final(self).ms_since_reset == old(self).ms_since_reset,
    {
        let event = DevboardEvent { button_index: press.0, event_type: DevboardEventType::Pressed, timestamp: press.1 };
        let _ = push_event(&mut self.button_events, event);
        batch_is_full(&self.button_events)
    }
}

} // verus!
