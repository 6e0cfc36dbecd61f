//! The sound check. Button presses create sounds, and the LEDs of the pressed
//! buttons light up. The sound effect of each button changes every few seconds.
use vstd::prelude::*;

use vstd::arithmetic::div_mod::{lemma_mod_sub_multiples_vanish, lemma_small_mod};

use crate::audio::NUMBER_OF_SOUNDS;
use crate::devboard_controller::{leds_match, DevboardButtonLed, DevboardButtonLeds, DevboardEvent, DevboardEvents};
use crate::game::{leds_all_off, NUMBER_OF_BUTTONS};

verus! {

/// The buttons that occur in `events`, each once, in the order of their first event.
pub open spec fn distinct_buttons(events: Seq<DevboardEvent>) -> Seq<usize>
    decreases events.len(),
{
    if events.len() == 0 {
        seq![]
    } else {
        let before = distinct_buttons(events.drop_last());
        if before.contains(events.last().button_index) {
            before
        } else {
            before.push(events.last().button_index)
        }
    }
}

/// Every button of a batch asks for its sound exactly once: the list of
/// buttons has no repetition, and holds exactly the buttons with an event.
pub proof fn lemma_each_button_sounds_once(events: Seq<DevboardEvent>)
    ensures
        distinct_buttons(events).no_duplicates(),
        forall|k: usize| distinct_buttons(events).contains(k) <==> has_event_on(events, k),
    decreases events.len(),
{
    if events.len() > 0 {
        let prefix = events.drop_last();
        lemma_each_button_sounds_once(prefix);
        let last = events.last().button_index;
        let d = distinct_buttons(prefix);
        let all = distinct_buttons(events);
        assert(all == if d.contains(last) { d } else { d.push(last) });
        assert forall|k: usize| all.contains(k) <==> has_event_on(events, k) by {
            if k == last {
                assert(events[events.len() - 1].button_index == k);
                if !d.contains(last) {
                    assert(all[d.len() as int] == k);
                }
            } else {
                if all.contains(k) {
                    let i = choose|i: int| 0 <= i < all.len() && all[i] == k;
                    assert(d[i] == k);
                    assert(d.contains(k));
                    assert(has_event_on(prefix, k));
                    let j = choose|j: int| 0 <= j < prefix.len() && (#[trigger] prefix[j]).button_index == k;
                    assert(events[j] == prefix[j]);
                }
                if has_event_on(events, k) {
                    let j = choose|j: int| 0 <= j < events.len() && (#[trigger] events[j]).button_index == k;
                    assert(prefix[j] == events[j]);
                    assert(has_event_on(prefix, k));
                    let i = choose|i: int| 0 <= i < d.len() && d[i] == k;
                    assert(all[i] == k);
                }
            }
        }
    }
}

/// Whether some event of `events` is on button `k`.
pub open spec fn has_event_on(events: Seq<DevboardEvent>, k: usize) -> bool {
    exists|i: int| 0 <= i < events.len() && (#[trigger] events[i]).button_index == k
}

/// Whether `update` can take this batch: every event is on one of the board's buttons.
pub open spec fn events_on_board(events: Seq<DevboardEvent>) -> bool {
    forall|i: int| 0 <= i < events.len() ==> (#[trigger] events[i]).button_index < NUMBER_OF_BUTTONS
}

/// The sound slot that the sound check gives to a button.
pub open spec fn slot_of(button: usize) -> usize {
    (button * 263 / NUMBER_OF_SOUNDS as int) as usize
}

/// `x` taken modulo the word size, as the arithmetic of a release build does.
pub open spec fn wrapped(x: int) -> usize {
    (x % (usize::MAX as int + 1)) as usize
}

/// The sound played for slot `slot` in phase `phase`: the slot moves on by 7919
/// for every 5 phases, with the arithmetic of a release build.
pub open spec fn variant_of(slot: usize, phase: usize) -> usize {
    (wrapped(slot + wrapped((phase / 5) * 7919)) % NUMBER_OF_SOUNDS) as usize
}

/// A button keeps its sound through five phases: the sound changes only when
/// the phase moves into the next group of five.
pub proof fn lemma_sound_steady_within_step(slot: usize, phase: usize, other: usize)
    requires
        phase / 5 == other / 5,
    ensures
        variant_of(slot, phase) == variant_of(slot, other),
{
}

/// The sound check.
pub struct SoundCheck {
    /// Kept for the frontend; the sound check never sets it.
    pub first_buzz: Option<(usize, u64)>,
    audio: bool,
    pending_buttons: Vec<usize>,
}

impl SoundCheck {
    /// The `first_buzz` field.
    pub closed spec fn buzz(&self) -> Option<(usize, u64)> {
        self.first_buzz
    }

    /// Whether the game asks for sound effects.
    pub closed spec fn audio_enabled(&self) -> bool {
        self.audio
    }

    /// The buttons whose sound was asked for and not yet taken.
    pub closed spec fn sound_buttons(&self) -> Seq<usize> {
        self.pending_buttons@
    }

    /// A new sound check; with `audio`, it asks for sound effects.
    pub fn new(audio: bool) -> (game: Self)
        ensures
            game.buzz() is None,
            game.audio_enabled() == audio,
            game.sound_buttons() == Seq::<usize>::empty(),
    {
        SoundCheck { first_buzz: None, audio, pending_buttons: Vec::new() }
    }

    /// One tick: every button with an event in the batch asks for its sound, once,
    /// and its LED is lit; all other LEDs are off.
    pub fn update(&mut self, inputs: DevboardEvents) -> (leds: DevboardButtonLeds)
        requires
            events_on_board(inputs.button_events@),
        ensures
            final(self).buzz() == old(self).buzz(),
            final(self).audio_enabled() == old(self).audio_enabled(),
            final(self).sound_buttons() == old(self).sound_buttons() + (if old(self).audio_enabled() {
                distinct_buttons(inputs.button_events@)
            } else {
                Seq::<usize>::empty()
            }),
            leds_match(leds, NUMBER_OF_BUTTONS as nat, (|k: usize| has_event_on(inputs.button_events@, k))),
    {
        let events = &inputs.button_events;
        let n = events.len();
        let mut buttons: Vec<usize> = Vec::new();
        let mut leds = leds_all_off();
        let mut i: usize = 0;
        assert(events@.subrange(0, 0) =~= Seq::<DevboardEvent>::empty());
        while i < n
            invariant
                n == events@.len(),
                i <= n,
                events_on_board(events@),
                buttons@ == distinct_buttons(events@.subrange(0, i as int)),
                leds.button_leds@.len() == NUMBER_OF_BUTTONS,
                forall|k: usize| k < NUMBER_OF_BUTTONS ==> (#[trigger] leds.button_leds@[k as int]).enabled
                    == has_event_on(events@.subrange(0, i as int), k),
            decreases n - i,
        {
            let ghost prefix = events@.subrange(0, i as int);
            let ghost next = events@.subrange(0, i + 1);
            assert(next.drop_last() =~= prefix);
            let b = events[i].button_index;
            let mut seen = false;
            let mut j: usize = 0;
            while j < buttons.len()
                invariant
                    j <= buttons@.len(),
                    seen <==> exists|a: int| 0 <= a < j && buttons@[a] == b,
                decreases buttons@.len() - j,
            {
                if buttons[j] == b {
                    seen = true;
                }
                j = j + 1;
            }
            if !seen {
                buttons.push(b);
            }
            leds.button_leds.set(b, DevboardButtonLed { enabled: true });
            assert forall|k: usize| k < NUMBER_OF_BUTTONS implies (#[trigger] leds.button_leds@[k as int]).enabled
                == has_event_on(next, k) by {
                if has_event_on(prefix, k) {
                    let a = choose|a: int| 0 <= a < prefix.len() && (#[trigger] prefix[a]).button_index == k;
                    assert(next[a] == prefix[a]);
                }
                if k == b {
                    assert(next[i as int].button_index == k);
                } else if has_event_on(next, k) {
                    let a = choose|a: int| 0 <= a < next.len() && (#[trigger] next[a]).button_index == k;
                    assert(prefix[a] == next[a]);
                }
            }
            i = i + 1;
        }
        assert(events@.subrange(0, n as int) =~= events@);
        if self.audio {
            self.pending_buttons.append(&mut buttons);
        }
        leds
    }

    /// Hands out the buttons whose sound was asked for so far, and forgets them.
    pub fn take_sound_buttons(&mut self) -> (buttons: Vec<usize>)
        ensures
            buttons@ == old(self).sound_buttons(),
            final(self).sound_buttons() == Seq::<usize>::empty(),
            final(self).buzz() == old(self).buzz(),
            final(self).audio_enabled() == old(self).audio_enabled(),
    {
        let mut buttons: Vec<usize> = Vec::new();
        std::mem::swap(&mut buttons, &mut self.pending_buttons);
        buttons
    }

    /// The sound slot of a button.
    pub fn sound_slot(button: usize) -> (slot: usize)
        requires
            button * 263 <= usize::MAX,
        ensures
            slot == slot_of(button),
    {
        (button * 263) / NUMBER_OF_SOUNDS
    }

    /// The sound played for a sound slot in a phase of the sound check; the
    /// phase grows with the time since the sound check started.
    pub fn sound_variant(slot: usize, phase: usize) -> (sound: usize)
        ensures
            sound == variant_of(slot, phase),
            sound < NUMBER_OF_SOUNDS,
    {
        let step = phase / 5;
        let moved = step.wrapping_mul(7919);
        let sum = slot.wrapping_add(moved);
        proof {
            let r = usize::MAX as int + 1;
            assert(moved == wrapped(step * 7919));
            if slot + moved > usize::MAX {
                lemma_mod_sub_multiples_vanish(slot + moved, r);
                lemma_small_mod((slot + moved - r) as nat, r as nat);
            } else {
                lemma_small_mod((slot + moved) as nat, r as nat);
            }
            assert(sum == wrapped(slot + moved));
        }
        sum % NUMBER_OF_SOUNDS
    }
}

} // verus!
