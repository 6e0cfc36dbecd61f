//! The quiz game. Several players control a button each. A quiz question is read
//! out or shown. The first player to press their button is the one to answer:
//! their buzzer sound is played and the LED of their button is lit. Players who
//! press after them hear the fail sound.
use vstd::prelude::*;

use crate::audio::AudioCue;
use crate::devboard_controller::{is_press, leds_match, DevboardButtonLed, DevboardButtonLeds, DevboardEvent, DevboardEvents, DevboardEventType};
use crate::game::{advance_reference, elapsed_ms, elapsed_since, leds_all_off, next_reference, NUMBER_OF_BUTTONS};

verus! {

/// The first press among `events`, in their order.
pub open spec fn first_press(events: Seq<DevboardEvent>) -> Option<DevboardEvent>
    decreases events.len(),
{
    if events.len() == 0 {
        None
    } else if is_press(events[0]) {
        Some(events[0])
    } else {
        first_press(events.drop_first())
    }
}

/// The first buzz after a batch of `events`, given the first buzz before it and
/// the game's start time `reference`: an earlier buzz stays; otherwise the first
/// press of the batch becomes the buzz, with its time since the game started.
pub open spec fn buzz_after(
    first_buzz: Option<(usize, u64)>,
    events: Seq<DevboardEvent>,
    reference: usize,
) -> Option<(usize, u64)> {
    match first_buzz {
        Some(b) => Some(b),
        None => match first_press(events) {
            Some(e) => Some((e.button_index, elapsed_ms(e.timestamp, reference) as u64)),
            None => None,
        },
    }
}

/// The first buzz is final: once a player has buzzed, no later batch changes
/// who it was or when.
pub proof fn lemma_first_buzz_is_final(buzz: (usize, u64), events: Seq<DevboardEvent>, reference: usize)
    ensures
        buzz_after(Some(buzz), events, reference) == Some(buzz),
{
}

/// The first press of a batch is a press of that batch.
proof fn lemma_first_press_is_press(events: Seq<DevboardEvent>)
    ensures
        first_press(events) matches Some(e) ==> is_press(e),
    decreases events.len(),
{
    if events.len() > 0 && !is_press(events[0]) {
        lemma_first_press_is_press(events.drop_first());
    }
}

/// A batch that holds a press has a first press.
proof fn lemma_press_gives_first_press(events: Seq<DevboardEvent>)
    requires
        exists|i: int| 0 <= i < events.len() && is_press(#[trigger] events[i]),
    ensures
        first_press(events) is Some,
    decreases events.len(),
{
    if !is_press(events[0]) {
        let i = choose|i: int| 0 <= i < events.len() && is_press(#[trigger] events[i]);
        let rest = events.drop_first();
        assert(is_press(rest[i - 1]));
        lemma_press_gives_first_press(rest);
    }
}

/// Once somebody has buzzed, any batch that holds a press, on whichever
/// button (the buzzing player's own too), asks for the fail sound and nothing
/// else.
pub proof fn lemma_press_after_buzz_fails(buzz: (usize, u64), events: Seq<DevboardEvent>)
    requires
        exists|i: int| 0 <= i < events.len() && is_press(#[trigger] events[i]),
    ensures
        quiz_cues(Some(buzz), events) == seq![AudioCue::Fail],
{
    lemma_press_gives_first_press(events);
}

/// Before anybody has buzzed, a batch that holds a press asks for the buzzer of
/// the button of its first press, a press before which the batch holds none.
pub proof fn lemma_first_press_buzzes(events: Seq<DevboardEvent>, i: int)
    requires
        0 <= i < events.len(),
        is_press(events[i]),
        forall|j: int| 0 <= j < i ==> !is_press(#[trigger] events[j]),
    ensures
        quiz_cues(None, events) == seq![AudioCue::Buzzer(events[i].button_index)],
    decreases i,
{
    if i > 0 {
        let rest = events.drop_first();
        assert forall|j: int| 0 <= j < i - 1 implies !is_press(#[trigger] rest[j]) by {
            assert(rest[j] == events[j + 1]);
        }
        assert(!is_press(events[0]));
        lemma_first_press_buzzes(rest, i - 1);
    }
}

/// The batch that holds only the first press of `events` (empty if it has none).
pub open spec fn first_press_only(events: Seq<DevboardEvent>) -> Seq<DevboardEvent> {
    match first_press(events) {
        Some(e) => seq![e],
        None => seq![],
    }
}

/// Only the first press of a batch matters: released events and later presses
/// change neither the first buzz, nor the sounds, nor whether the batch is
/// accepted. (The LEDs follow from the first buzz.)
pub proof fn lemma_only_first_press_matters(
    first_buzz: Option<(usize, u64)>,
    events: Seq<DevboardEvent>,
    reference: usize,
)
    ensures
        buzz_after(first_buzz, events, reference) == buzz_after(first_buzz, first_press_only(events), reference),
        quiz_cues(first_buzz, events) == quiz_cues(first_buzz, first_press_only(events)),
        quiz_accepts(first_buzz, events) == quiz_accepts(first_buzz, first_press_only(events)),
{
    lemma_first_press_is_press(events);
    if let Some(e) = first_press(events) {
        assert(first_press(first_press_only(events)) == Some(e));
    } else {
        assert(first_press(first_press_only(events)) is None);
    }
}

/// The sounds of a batch: the buzzer of the player who buzzes first, or the fail
/// sound for a press after someone has buzzed.
pub open spec fn quiz_cues(first_buzz: Option<(usize, u64)>, events: Seq<DevboardEvent>) -> Seq<AudioCue> {
    match first_press(events) {
        None => seq![],
        Some(e) => if first_buzz is None {
            seq![AudioCue::Buzzer(e.button_index)]
        } else {
            seq![AudioCue::Fail]
        },
    }
}

/// Whether `update` can take this batch: the button that buzzes, now or before,
/// is one of the board's buttons.
pub open spec fn quiz_accepts(first_buzz: Option<(usize, u64)>, events: Seq<DevboardEvent>) -> bool {
    match buzz_after(first_buzz, events, 0) {
        Some(b) => b.0 < NUMBER_OF_BUTTONS,
        None => true,
    }
}

/// The quiz game.
pub struct QuizGame {
    devboard_time_since_boot: Option<usize>,
    /// The button of the first player to press it, and the milliseconds from
    /// the start of the game to that press.
    pub first_buzz: Option<(usize, u64)>,
    audio: bool,
    pending_sounds: Vec<AudioCue>,
}

impl QuizGame {
    /// The devboard time at which the game started, once a batch has arrived.
    pub closed spec fn reference(&self) -> Option<usize> {
        self.devboard_time_since_boot
    }

    /// The first buzz: the `first_buzz` field.
    pub closed spec fn buzz(&self) -> Option<(usize, u64)> {
        self.first_buzz
    }

    /// Whether the game asks for sound effects.
    pub closed spec fn audio_enabled(&self) -> bool {
        self.audio
    }

    /// The sound effects asked for and not yet taken.
    pub closed spec fn sounds(&self) -> Seq<AudioCue> {
        self.pending_sounds@
    }

    /// A new game in which nobody has buzzed; with `audio`, it asks for sound effects.
    pub fn new(audio: bool) -> (game: Self)
        ensures
            game.reference() is None,
            game.buzz() is None,
            game.audio_enabled() == audio,
            game.sounds() == Seq::<AudioCue>::empty(),
    {
        QuizGame { devboard_time_since_boot: None, first_buzz: None, audio, pending_sounds: Vec::new() }
    }

    /// One tick of the game: takes a batch of button events and answers with the
    /// button LEDs, of which only the LED of the player who buzzed first is lit.
    pub fn update(&mut self, inputs: DevboardEvents) -> (leds: DevboardButtonLeds)
        requires
            quiz_accepts(old(self).buzz(), inputs.button_events@),
        ensures
            final(self).reference() == Some(next_reference(old(self).reference(), inputs.ms_since_reset)),
            final(self).buzz() == buzz_after(
                old(self).buzz(),
                inputs.button_events@,
                next_reference(old(self).reference(), inputs.ms_since_reset),
            ),
            final(self).audio_enabled() == old(self).audio_enabled(),
            final(self).sounds() == old(self).sounds() + (if old(self).audio_enabled() {
                quiz_cues(old(self).buzz(), inputs.button_events@)
            } else {
                Seq::<AudioCue>::empty()
            }),
            leds_match(leds, NUMBER_OF_BUTTONS as nat, (|k: usize| final(self).buzz() matches Some(b) && b.0 == k)),
    {
        let reference = advance_reference(&mut self.devboard_time_since_boot, inputs.ms_since_reset);
        let events = &inputs.button_events;
        let mut i: usize = 0;
        let mut found: Option<DevboardEvent> = None;
        assert(events@.subrange(0, events@.len() as int) =~= events@);
        while i < events.len()
            invariant
                i <= events@.len(),
                found is None ==> first_press(events@) == first_press(events@.subrange(i as int, events@.len() as int)),
                found is Some ==> first_press(events@) == found,
            decreases events@.len() - i,
        {
            if found.is_none() {
                assert(events@.subrange(i as int, events@.len() as int).drop_first()
                    =~= events@.subrange(i + 1, events@.len() as int));
                let ev = events[i];
                if ev.event_type == DevboardEventType::Pressed {
                    found = Some(ev);
                }
            }
            i = i + 1;
        }
        assert(found is None ==> events@.subrange(i as int, events@.len() as int).len() == 0);
        if let Some(ev) = found {
            if self.first_buzz.is_none() {
                let elapsed = elapsed_since(ev.timestamp, reference);
                self.first_buzz = Some((ev.button_index, elapsed as u64));
                if self.audio {
                    self.pending_sounds.push(AudioCue::Buzzer(ev.button_index));
                }
            } else if self.audio {
                self.pending_sounds.push(AudioCue::Fail);
            }
        }
        let mut leds = leds_all_off();
        if let Some(buzz) = self.first_buzz {
            leds.button_leds.set(buzz.0, DevboardButtonLed { enabled: true });
        }
        leds
    }

    /// Hands out the sound effects asked for so far, and forgets them.
    pub fn take_sounds(&mut self) -> (sounds: Vec<AudioCue>)
        ensures
            sounds@ == old(self).sounds(),
            final(self).sounds() == Seq::<AudioCue>::empty(),
            final(self).reference() == old(self).reference(),
            final(self).buzz() == old(self).buzz(),
            final(self).audio_enabled() == old(self).audio_enabled(),
    {
        let mut sounds: Vec<AudioCue> = Vec::new();
        std::mem::swap(&mut sounds, &mut self.pending_sounds);
        sounds
    }
}

} // verus!
