//! The reaction time game. Several players control a button each. When the game
//! starts, it draws a delay; once the delay has passed, the players are told on
//! the frontend that they may press. Every player who presses after the delay is
//! ranked by reaction time, and the fastest one wins. Players who press too early
//! have lost.
use vstd::prelude::*;

use rand::Rng;
use std::collections::HashSet;
use std::time::Duration;

use crate::audio::AudioCue;
use crate::devboard_controller::{is_press, leds_match, DevboardButtonLed, DevboardButtonLeds, DevboardEvent, DevboardEvents, DevboardEventType};
use crate::game::{advance_reference, elapsed_ms, elapsed_since, leds_all_off, next_reference, NUMBER_OF_BUTTONS};

verus! {

broadcast use vstd::std_specs::hash::group_hash_axioms;

/// Shortest delay before the players may press, in nanoseconds.
pub const MIN_DELAY_NS: u64 = 2_000_000_000;

/// Bound (excluded) on the delay before the players may press, in nanoseconds.
pub const MAX_DELAY_NS: u64 = 13_000_000_000;

/// Whether a player has pressed their button, and if so, how many milliseconds
/// after the start of the game.
#[derive(Debug, Copy, Clone, PartialEq, Eq, Structural)]
pub enum PlayerButtonState {
    NotPressed,
    Pressed(u64),
}

/// The button states after one event: the first press of a button records its
/// time since the start of the game; any other event changes nothing.
pub open spec fn register_press(
    states: Seq<PlayerButtonState>,
    event: DevboardEvent,
    reference: usize,
) -> Seq<PlayerButtonState> {
    if is_press(event) && event.button_index < states.len()
        && states[event.button_index as int] == PlayerButtonState::NotPressed {
        states.update(
            event.button_index as int,
            PlayerButtonState::Pressed(elapsed_ms(event.timestamp, reference) as u64),
        )
    } else {
        states
    }
}

/// The button states after a sequence of events, taken in order.
pub open spec fn register_presses(
    states: Seq<PlayerButtonState>,
    events: Seq<DevboardEvent>,
    reference: usize,
) -> Seq<PlayerButtonState>
    decreases events.len(),
{
    if events.len() == 0 {
        states
    } else {
        register_press(register_presses(states, events.drop_last(), reference), events.last(), reference)
    }
}

/// Whether `event` is the first press of its button and comes after the delay,
/// counted in whole milliseconds, as the sounds count it. `delay` is in nanoseconds.
pub open spec fn is_sounding_win(
    states: Seq<PlayerButtonState>,
    event: DevboardEvent,
    reference: usize,
    delay: u64,
) -> bool {
    &&& is_press(event)
    &&& event.button_index < states.len()
    &&& states[event.button_index as int] == PlayerButtonState::NotPressed
    &&& elapsed_ms(event.timestamp, reference) >= (delay / 1_000_000) as usize
}

/// Whether the first winner's buzzer is still to be played after `events`:
/// nobody had won before the batch (`nobody_won`), and no press of `events`
/// has won yet.
pub open spec fn buzzer_open(
    states: Seq<PlayerButtonState>,
    events: Seq<DevboardEvent>,
    reference: usize,
    delay: u64,
    nobody_won: bool,
) -> bool
    decreases events.len(),
{
    if events.len() == 0 {
        nobody_won
    } else {
        buzzer_open(states, events.drop_last(), reference, delay, nobody_won) && !is_sounding_win(
            register_presses(states, events.drop_last(), reference),
            events.last(),
            reference,
            delay,
        )
    }
}

/// The sound asked for by one event: the first winner's press plays the
/// player's buzzer (when `buzzer_open`), a first press before the delay plays
/// the fail sound. `delay` is in nanoseconds.
pub open spec fn press_cue(
    states: Seq<PlayerButtonState>,
    event: DevboardEvent,
    reference: usize,
    delay: u64,
    buzzer_open: bool,
) -> Seq<AudioCue> {
    if is_press(event) && event.button_index < states.len()
        && states[event.button_index as int] == PlayerButtonState::NotPressed {
        if elapsed_ms(event.timestamp, reference) >= (delay / 1_000_000) as usize {
            if buzzer_open {
                seq![AudioCue::Buzzer(event.button_index)]
            } else {
                seq![]
            }
        } else {
            seq![AudioCue::Fail]
        }
    } else {
        seq![]
    }
}

/// The sounds asked for by a sequence of events, in order: the buzzer of the
/// first winner (only if nobody had won before, `nobody_won`), and the fail
/// sound of every first press before the delay.
pub open spec fn press_cues(
    states: Seq<PlayerButtonState>,
    events: Seq<DevboardEvent>,
    reference: usize,
    delay: u64,
    nobody_won: bool,
) -> Seq<AudioCue>
    decreases events.len(),
{
    if events.len() == 0 {
        seq![]
    } else {
        press_cues(states, events.drop_last(), reference, delay, nobody_won) + press_cue(
            register_presses(states, events.drop_last(), reference),
            events.last(),
            reference,
            delay,
            buzzer_open(states, events.drop_last(), reference, delay, nobody_won),
        )
    }
}

/// A press `ms` milliseconds after the start came before a delay of `delay` nanoseconds.
pub open spec fn is_early(ms: u64, delay: u64) -> bool {
    ms * 1_000_000 < delay
}

/// The buttons that were pressed before the delay had passed.
pub open spec fn overeager_set(states: Seq<PlayerButtonState>, delay: u64) -> Set<usize> {
    Set::new(|i: usize| i < states.len() && (states[i as int] matches PlayerButtonState::Pressed(ms) && is_early(ms, delay)))
}

/// `entry` is a (button, reaction time in milliseconds) pair of a press after the delay.
pub open spec fn is_in_time_entry(states: Seq<PlayerButtonState>, delay: u64, entry: (usize, usize)) -> bool {
    &&& entry.0 < states.len()
    &&& states[entry.0 as int] matches PlayerButtonState::Pressed(ms)
    &&& !is_early(ms, delay)
    &&& entry.1 == ms as usize
}

/// `a` ranks before `b`: a faster reaction, or the same one on a lower button.
pub open spec fn ranked_before(a: (usize, usize), b: (usize, usize)) -> bool {
    a.1 < b.1 || (a.1 == b.1 && a.0 < b.0)
}

/// `winners` lists the presses after the delay, fastest first; equally fast
/// presses come in the order of their buttons.
pub open spec fn is_ranking(winners: Seq<(usize, usize)>, states: Seq<PlayerButtonState>, delay: u64) -> bool {
    &&& forall|a: int, b: int| 0 <= a < b < winners.len() ==> ranked_before(#[trigger] winners[a], #[trigger] winners[b])
    &&& forall|entry: (usize, usize)| winners.contains(entry) <==> is_in_time_entry(states, delay, entry)
}

/// Whether `update` can take this batch: every press is on one of the board's buttons.
pub open spec fn presses_on_board(events: Seq<DevboardEvent>) -> bool {
    forall|i: int| 0 <= i < events.len() && is_press(#[trigger] events[i]) ==> events[i].button_index < NUMBER_OF_BUTTONS
}

/// Two lists, each sorted strictly by `ranked_before`, that hold the same
/// entries are equal.
proof fn lemma_sorted_lists_equal(w1: Seq<(usize, usize)>, w2: Seq<(usize, usize)>)
    requires
        forall|a: int, b: int| 0 <= a < b < w1.len() ==> ranked_before(#[trigger] w1[a], #[trigger] w1[b]),
        forall|a: int, b: int| 0 <= a < b < w2.len() ==> ranked_before(#[trigger] w2[a], #[trigger] w2[b]),
        forall|entry: (usize, usize)| w1.contains(entry) <==> w2.contains(entry),
    ensures
        w1 == w2,
    decreases w1.len(),
{
    if w1.len() == 0 {
        if w2.len() > 0 {
            assert(w2.contains(w2[0]));
        }
        assert(w1 =~= w2);
    } else {
        assert(w1.contains(w1[0]));
        let j = choose|j: int| 0 <= j < w2.len() && w2[j] == w1[0];
        assert(w2.contains(w2[0]));
        let i = choose|i: int| 0 <= i < w1.len() && w1[i] == w2[0];
        if j > 0 {
            assert(ranked_before(w2[0], w2[j]));
            if i > 0 {
                assert(ranked_before(w1[0], w1[i]));
            }
            assert(false);
        }
        let t1 = w1.drop_first();
        let t2 = w2.drop_first();
        assert forall|entry: (usize, usize)| t1.contains(entry) <==> t2.contains(entry) by {
            if t1.contains(entry) {
                let a = choose|a: int| 0 <= a < t1.len() && t1[a] == entry;
                assert(w1[a + 1] == entry);
                assert(ranked_before(w1[0], w1[a + 1]));
                assert(w1.contains(entry));
                let b = choose|b: int| 0 <= b < w2.len() && w2[b] == entry;
                assert(b != 0);
                assert(t2[b - 1] == entry);
            }
            if t2.contains(entry) {
                let a = choose|a: int| 0 <= a < t2.len() && t2[a] == entry;
                assert(w2[a + 1] == entry);
                assert(ranked_before(w2[0], w2[a + 1]));
                assert(w2.contains(entry));
                let b = choose|b: int| 0 <= b < w1.len() && w1[b] == entry;
                assert(b != 0);
                assert(t1[b - 1] == entry);
            }
        }
        assert forall|a: int, b: int| 0 <= a < b < t1.len() implies ranked_before(#[trigger] t1[a], #[trigger] t1[b]) by {
            assert(t1[a] == w1[a + 1] && t1[b] == w1[b + 1]);
        }
        assert forall|a: int, b: int| 0 <= a < b < t2.len() implies ranked_before(#[trigger] t2[a], #[trigger] t2[b]) by {
            assert(t2[a] == w2[a + 1] && t2[b] == w2[b + 1]);
        }
        lemma_sorted_lists_equal(t1, t2);
        assert(w1 =~= seq![w1[0]] + t1);
        assert(w2 =~= seq![w2[0]] + t2);
    }
}

/// The ranking is determined by the button states and the delay: two lists
/// that both rank the same presses are the same list.
pub proof fn lemma_ranking_unique(
    w1: Seq<(usize, usize)>,
    w2: Seq<(usize, usize)>,
    states: Seq<PlayerButtonState>,
    delay: u64,
)
    requires
        is_ranking(w1, states, delay),
        is_ranking(w2, states, delay),
    ensures
        w1 == w2,
{
    lemma_sorted_lists_equal(w1, w2);
}

/// Every button that was pressed is either among the too early ones or ranked,
/// and never both; a button that was not pressed is neither.
pub proof fn lemma_presses_partition(winners: Seq<(usize, usize)>, states: Seq<PlayerButtonState>, delay: u64, i: usize)
    requires
        is_ranking(winners, states, delay),
        i < states.len(),
    ensures
        (states[i as int] is Pressed) <==> (overeager_set(states, delay).contains(i)
            || exists|a: int| 0 <= a < winners.len() && (#[trigger] winners[a]).0 == i),
        !(overeager_set(states, delay).contains(i)
            && exists|a: int| 0 <= a < winners.len() && (#[trigger] winners[a]).0 == i),
{
    if let PlayerButtonState::Pressed(ms) = states[i as int] {
        if !is_early(ms, delay) {
            let entry: (usize, usize) = (i, ms as usize);
            assert(is_in_time_entry(states, delay, entry));
            assert(winners.contains(entry));
            let a = choose|a: int| 0 <= a < winners.len() && winners[a] == entry;
            assert(winners[a].0 == i);
        }
    }
    if exists|a: int| 0 <= a < winners.len() && (#[trigger] winners[a]).0 == i {
        let a = choose|a: int| 0 <= a < winners.len() && (#[trigger] winners[a]).0 == i;
        assert(winners.contains(winners[a]));
        assert(is_in_time_entry(states, delay, winners[a]));
    }
}

/// A press, once recorded, keeps its time: later events never change the state
/// of a button that was pressed, nor the number of buttons.
pub proof fn lemma_recorded_press_stays(
    states: Seq<PlayerButtonState>,
    events: Seq<DevboardEvent>,
    reference: usize,
    i: int,
)
    requires
        0 <= i < states.len(),
        states[i] is Pressed,
    ensures
        register_presses(states, events, reference).len() == states.len(),
        register_presses(states, events, reference)[i] == states[i],
    decreases events.len(),
{
    if events.len() > 0 {
        lemma_recorded_press_stays(states, events.drop_last(), reference, i);
    }
}

/// The presses of a batch, in order, without its other events.
pub open spec fn presses_of(events: Seq<DevboardEvent>) -> Seq<DevboardEvent> {
    events.filter(|event: DevboardEvent| is_press(event))
}

/// Released events change nothing: a batch records the same button states,
/// asks for the same sounds and leaves the first winner's buzzer open or not
/// just as the batch of its presses alone does. (The too early buttons, the
/// ranking and the LEDs follow from the button states.)
pub proof fn lemma_releases_have_no_effect(
    states: Seq<PlayerButtonState>,
    events: Seq<DevboardEvent>,
    reference: usize,
    delay: u64,
    nobody_won: bool,
)
    ensures
        register_presses(states, events, reference) == register_presses(states, presses_of(events), reference),
        buzzer_open(states, events, reference, delay, nobody_won)
            == buzzer_open(states, presses_of(events), reference, delay, nobody_won),
        press_cues(states, events, reference, delay, nobody_won)
            == press_cues(states, presses_of(events), reference, delay, nobody_won),
    decreases events.len(),
{
    reveal_with_fuel(Seq::<_>::filter, 1);
    if events.len() > 0 {
        let prefix = events.drop_last();
        lemma_releases_have_no_effect(states, prefix, reference, delay, nobody_won);
        let filtered = presses_of(events);
        let filtered_prefix = presses_of(prefix);
        if is_press(events.last()) {
            assert(filtered == filtered_prefix.push(events.last()));
            assert(filtered.drop_last() =~= filtered_prefix);
        } else {
            assert(filtered == filtered_prefix);
            assert(press_cue(
                register_presses(states, prefix, reference),
                events.last(),
                reference,
                delay,
                buzzer_open(states, prefix, reference, delay, nobody_won),
            ) =~= Seq::<AudioCue>::empty());
            assert(press_cues(states, events, reference, delay, nobody_won)
                =~= press_cues(states, prefix, reference, delay, nobody_won));
        }
    }
}

/// While every event of `early` comes before the delay (in whole
/// milliseconds), the first winner's buzzer stays open.
proof fn lemma_early_events_keep_buzzer_open(
    states: Seq<PlayerButtonState>,
    early: Seq<DevboardEvent>,
    reference: usize,
    delay: u64,
)
    requires
        forall|i: int| 0 <= i < early.len() ==> elapsed_ms((#[trigger] early[i]).timestamp, reference) < (delay / 1_000_000) as usize,
    ensures
        buzzer_open(states, early, reference, delay, true),
    decreases early.len(),
{
    if early.len() > 0 {
        let prefix = early.drop_last();
        assert forall|i: int| 0 <= i < prefix.len() implies elapsed_ms((#[trigger] prefix[i]).timestamp, reference) < (delay / 1_000_000) as usize by {
            assert(prefix[i] == early[i]);
        }
        lemma_early_events_keep_buzzer_open(states, prefix, reference, delay);
        assert(early.last() == early[early.len() - 1]);
    }
}

/// Too early presses never take the first winner's buzzer: when nobody had won
/// before, and a batch holds presses before the delay followed by the first
/// press of a button after the delay (in whole milliseconds), that press plays
/// its player's buzzer.
pub proof fn lemma_early_presses_keep_buzzer(
    states: Seq<PlayerButtonState>,
    early: Seq<DevboardEvent>,
    winner: DevboardEvent,
    reference: usize,
    delay: u64,
)
    requires
        forall|i: int| 0 <= i < early.len() ==> elapsed_ms((#[trigger] early[i]).timestamp, reference) < (delay / 1_000_000) as usize,
        is_press(winner),
        winner.button_index < states.len(),
        register_presses(states, early, reference)[winner.button_index as int] == PlayerButtonState::NotPressed,
        elapsed_ms(winner.timestamp, reference) >= (delay / 1_000_000) as usize,
    ensures
        press_cues(states, early.push(winner), reference, delay, true)
            == press_cues(states, early, reference, delay, true).push(AudioCue::Buzzer(winner.button_index)),
{
    lemma_early_events_keep_buzzer_open(states, early, reference, delay);
    let all = early.push(winner);
    assert(all.drop_last() =~= early);
    assert(all.last() == winner);
    lemma_register_presses_len(states, early, reference);
    assert(press_cues(states, all, reference, delay, true)
        =~= press_cues(states, early, reference, delay, true).push(AudioCue::Buzzer(winner.button_index)));
}

/// Recording presses keeps the number of buttons.
proof fn lemma_register_presses_len(states: Seq<PlayerButtonState>, events: Seq<DevboardEvent>, reference: usize)
    ensures
        register_presses(states, events, reference).len() == states.len(),
    decreases events.len(),
{
    if events.len() > 0 {
        lemma_register_presses_len(states, events.drop_last(), reference);
    }
}

/// Draws a time span uniformly from `low_ns` (included) to `high_ns` (excluded)
/// with `rand::Rng::gen_range` on `std::time::Duration`s and the thread-local
/// generator of `rand::thread_rng`, and gives it in nanoseconds. The contract
/// claims only that the result lies in that range, which `gen_range` documents.
#[verifier::external_body]
fn random_duration_ns(low_ns: u64, high_ns: u64) -> (d: u64)
    requires
        low_ns < high_ns,
    ensures
        low_ns <= d < high_ns,
{
    let span = Duration::from_nanos(low_ns)..Duration::from_nanos(high_ns);
    rand::thread_rng().gen_range(span).as_nanos() as u64
}

/// The buttons pressed before the delay of `delay` nanoseconds had passed.
fn collect_overeager(states: &[PlayerButtonState; NUMBER_OF_BUTTONS], delay: u64) -> (set: HashSet<usize>)
    ensures
        set@ == overeager_set(states@, delay),
{
    let mut set: HashSet<usize> = HashSet::new();
    let mut j: usize = 0;
    while j < NUMBER_OF_BUTTONS
        invariant
            j <= NUMBER_OF_BUTTONS,
            states@.len() == NUMBER_OF_BUTTONS,
            set@ == Set::new(|i: usize| i < j && (states@[i as int] matches PlayerButtonState::Pressed(ms) && is_early(ms, delay))),
        decreases NUMBER_OF_BUTTONS - j,
    {
        if let PlayerButtonState::Pressed(ms) = states[j] {
            if (ms as u128) * 1_000_000 < (delay as u128) {
                set.insert(j);
            }
        }
        assert(set@ =~= Set::new(|i: usize| i < j + 1 && (states@[i as int] matches PlayerButtonState::Pressed(ms) && is_early(ms, delay))));
        j = j + 1;
    }
    assert(set@ =~= overeager_set(states@, delay));
    set
}

/// The presses made after the delay of `delay` nanoseconds, ranked fastest first.
fn rank_winners(states: &[PlayerButtonState; NUMBER_OF_BUTTONS], delay: u64) -> (winners: Vec<(usize, usize)>)
    ensures
        is_ranking(winners@, states@, delay),
{
    let mut winners: Vec<(usize, usize)> = Vec::new();
    let mut j: usize = 0;
    while j < NUMBER_OF_BUTTONS
        invariant
            j <= NUMBER_OF_BUTTONS,
            states@.len() == NUMBER_OF_BUTTONS,
            forall|a: int, b: int| 0 <= a < b < winners@.len() ==> ranked_before(#[trigger] winners@[a], #[trigger] winners@[b]),
            forall|a: int| 0 <= a < winners@.len() ==> is_in_time_entry(states@, delay, #[trigger] winners@[a]) && winners@[a].0 < j,
            forall|entry: (usize, usize)| is_in_time_entry(states@, delay, entry) && entry.0 < j ==> #[trigger] winners@.contains(entry),
        decreases NUMBER_OF_BUTTONS - j,
    {
        if let PlayerButtonState::Pressed(ms) = states[j] {
            if !((ms as u128) * 1_000_000 < (delay as u128)) {
                let entry: (usize, usize) = (j, #[verifier::truncate] (ms as usize));
                let mut k: usize = 0;
                while k < winners.len() && winners[k].1 <= entry.1
                    invariant
                        k <= winners@.len(),
                        forall|a: int| 0 <= a < k ==> (#[trigger] winners@[a]).1 <= entry.1,
                    decreases winners@.len() - k,
                {
                    k = k + 1;
                }
                let ghost before = winners@;
                winners.insert(k, entry);
                assert forall|a: int, b: int| 0 <= a < b < winners@.len() implies ranked_before(#[trigger] winners@[a], #[trigger] winners@[b]) by {
                    if b < k {
                        assert(winners@[a] == before[a] && winners@[b] == before[b]);
                    } else if b == k {
                        assert(winners@[a] == before[a]);
                        assert(before[a].0 < j);
                    } else if a == k {
                        assert(winners@[b] == before[b - 1]);
                        assert(before[k as int].1 > entry.1);
                        if b - 1 > k {
                            assert(ranked_before(before[k as int], before[b - 1]));
                        }
                    } else if a < k {
                        assert(winners@[a] == before[a] && winners@[b] == before[b - 1]);
                    } else {
                        assert(winners@[a] == before[a - 1] && winners@[b] == before[b - 1]);
                    }
                }
                assert forall|entry2: (usize, usize)| is_in_time_entry(states@, delay, entry2) && entry2.0 < j + 1 implies #[trigger] winners@.contains(entry2) by {
                    if entry2.0 < j {
                        assert(before.contains(entry2));
                        let a = choose|a: int| 0 <= a < before.len() && before[a] == entry2;
                        if a < k {
                            assert(winners@[a] == entry2);
                        } else {
                            assert(winners@[a + 1] == entry2);
                        }
                    } else {
                        assert(winners@[k as int] == entry2);
                    }
                }
            }
        }
        j = j + 1;
    }
    assert forall|entry: (usize, usize)| winners@.contains(entry) <==> is_in_time_entry(states@, delay, entry) by {
        if winners@.contains(entry) {
            let a = choose|a: int| 0 <= a < winners@.len() && winners@[a] == entry;
            assert(is_in_time_entry(states@, delay, winners@[a]));
        }
    }
    winners
}

/// The reaction time game.
pub struct ReactionTimeGame {
    devboard_time_since_boot: Option<usize>,
    /// Delay after which the players may press, in nanoseconds.
    pub delay: u64,
    pub player_button_states: [PlayerButtonState; NUMBER_OF_BUTTONS],
    /// Buttons that were pressed too early.
    pub overeager_trigger_happy: HashSet<usize>,
    /// (button, reaction time in milliseconds) of the buttons pressed in time,
    /// fastest first.
    pub winners: Vec<(usize, usize)>,
    audio: bool,
    pending_sounds: Vec<AudioCue>,
}

impl ReactionTimeGame {
    /// The devboard time at which the game started, once a batch has arrived.
    pub closed spec fn reference(&self) -> Option<usize> {
        self.devboard_time_since_boot
    }

    /// The `delay` field.
    pub closed spec fn delay_ns(&self) -> u64 {
        self.delay
    }

    /// The `player_button_states` field.
    pub closed spec fn states(&self) -> Seq<PlayerButtonState> {
        self.player_button_states@
    }

    /// The `overeager_trigger_happy` field.
    pub closed spec fn overeager(&self) -> Set<usize> {
        self.overeager_trigger_happy@
    }

    /// The `winners` field.
    pub closed spec fn ranking(&self) -> Seq<(usize, usize)> {
        self.winners@
    }

    /// Whether the game asks for sound effects.
    pub closed spec fn audio_enabled(&self) -> bool {
        self.audio
    }

    /// The sound effects asked for and not yet taken.
    pub closed spec fn sounds(&self) -> Seq<AudioCue> {
        self.pending_sounds@
    }

    /// Every game has one button state per button of the board.
    pub proof fn lemma_states_len(&self)
        ensures
            self.states().len() == NUMBER_OF_BUTTONS,
    {
    }

    /// A new game with a delay drawn at random between 2 and 13 seconds.
    pub fn new(audio: bool) -> (game: Self)
        ensures
            MIN_DELAY_NS <= game.delay_ns() < MAX_DELAY_NS,
            game.reference() is None,
            game.states() == Seq::new(NUMBER_OF_BUTTONS as nat, |i: int| PlayerButtonState::NotPressed),
            game.overeager() == Set::<usize>::empty(),
            game.ranking() == Seq::<(usize, usize)>::empty(),
            game.audio_enabled() == audio,
            game.sounds() == Seq::<AudioCue>::empty(),
    {
        let delay = random_duration_ns(MIN_DELAY_NS, MAX_DELAY_NS);
        Self::with_delay(audio, delay)
    }

    /// A new game with the given delay, in nanoseconds.
    pub fn with_delay(audio: bool, delay: u64) -> (game: Self)
        ensures
            game.delay_ns() == delay,
            game.reference() is None,
            game.states() == Seq::new(NUMBER_OF_BUTTONS as nat, |i: int| PlayerButtonState::NotPressed),
            game.overeager() == Set::<usize>::empty(),
            game.ranking() == Seq::<(usize, usize)>::empty(),
            game.audio_enabled() == audio,
            game.sounds() == Seq::<AudioCue>::empty(),
    {
        let states = [
            PlayerButtonState::NotPressed,
            PlayerButtonState::NotPressed,
            PlayerButtonState::NotPressed,
            PlayerButtonState::NotPressed,
            PlayerButtonState::NotPressed,
            PlayerButtonState::NotPressed,
        ];
        let game = ReactionTimeGame {
            devboard_time_since_boot: None,
            delay,
            player_button_states: states,
            overeager_trigger_happy: HashSet::new(),
            winners: Vec::new(),
            audio,
            pending_sounds: Vec::new(),
        };
        assert(game.states() =~= Seq::new(NUMBER_OF_BUTTONS as nat, |i: int| PlayerButtonState::NotPressed));
        game
    }
    /// Records the first press of each button among `events`, and the sounds
    /// those presses ask for.
    fn record_presses(&mut self, events: &Vec<DevboardEvent>, reference: usize, nobody_won: bool)
        requires
            presses_on_board(events@),
        ensures
            final(self).reference() == old(self).reference(),
            final(self).delay_ns() == old(self).delay_ns(),
            final(self).audio_enabled() == old(self).audio_enabled(),
            final(self).overeager() == old(self).overeager(),
            final(self).ranking() == old(self).ranking(),
            final(self).states() == register_presses(old(self).states(), events@, reference),
            final(self).sounds() == old(self).sounds() + (if old(self).audio_enabled() {
                press_cues(old(self).states(), events@, reference, old(self).delay_ns(), nobody_won)
            } else {
                Seq::<AudioCue>::empty()
            }),
    {
        let ghost states0 = self.player_button_states@;
        let ghost sounds0 = self.pending_sounds@;
        let delay_ms: usize = #[verifier::truncate] ((self.delay / 1_000_000) as usize);
        let n = events.len();
        let mut i: usize = 0;
        let mut open = nobody_won;
        assert(events@.subrange(0, 0) =~= Seq::<DevboardEvent>::empty());
        while i < n
            invariant
                n == events@.len(),
                open == buzzer_open(states0, events@.subrange(0, i as int), reference, self.delay, nobody_won),
                i <= n,
                presses_on_board(events@),
                delay_ms == (self.delay / 1_000_000) as usize,
                self.devboard_time_since_boot == old(self).devboard_time_since_boot,
                self.delay == old(self).delay,
                self.audio == old(self).audio,
                self.overeager_trigger_happy@ == old(self).overeager_trigger_happy@,
                self.winners@ == old(self).winners@,
                states0 == old(self).player_button_states@,
                sounds0 == old(self).pending_sounds@,
                self.player_button_states@ == register_presses(states0, events@.subrange(0, i as int), reference),
                self.pending_sounds@ == sounds0 + (if self.audio {
                    press_cues(states0, events@.subrange(0, i as int), reference, self.delay, nobody_won)
                } else {
                    Seq::<AudioCue>::empty()
                }),
            decreases n - i,
        {
            let ghost prefix = events@.subrange(0, i as int);
            assert(events@.subrange(0, i + 1).drop_last() =~= prefix);
            assert(events@.subrange(0, i + 1).last() == events@[i as int]);
            let ghost cues_before = self.pending_sounds@;
            let ghost open_before = open;
            let ev = events[i];
            if ev.event_type == DevboardEventType::Pressed {
                assert(is_press(events@[i as int]));
                if self.player_button_states[ev.button_index] == PlayerButtonState::NotPressed {
                    let elapsed = elapsed_since(ev.timestamp, reference);
                    self.player_button_states[ev.button_index] = PlayerButtonState::Pressed(elapsed as u64);
                    if elapsed >= delay_ms {
                        if self.audio && open {
                            self.pending_sounds.push(AudioCue::Buzzer(ev.button_index));
                        }
                        open = false;
                    } else if self.audio {
                        self.pending_sounds.push(AudioCue::Fail);
                    }
                }
            }
            proof {
                let cue = press_cue(register_presses(states0, prefix, reference), ev, reference, self.delay, open_before);
                if self.audio {
                    assert(self.pending_sounds@ =~= cues_before + cue);
                    assert(sounds0 + press_cues(states0, events@.subrange(0, i + 1), reference, self.delay, nobody_won)
                        =~= (sounds0 + press_cues(states0, prefix, reference, self.delay, nobody_won)) + cue);
                } else {
                    assert(self.pending_sounds@ =~= cues_before);
                }
                assert(self.player_button_states@ =~= register_press(register_presses(states0, prefix, reference), ev, reference));
            }
            i = i + 1;
        }
        assert(events@.subrange(0, n as int) =~= events@);
    }

    /// One tick of the game: records the first press of each button, with its
    /// time since the start of the game, sorts the presses into too early ones
    /// and ranked ones, and answers with the button LEDs, of which only the LED
    /// of the fastest player in time is lit.
    pub fn update(&mut self, inputs: DevboardEvents) -> (leds: DevboardButtonLeds)
        requires
            presses_on_board(inputs.button_events@),
        ensures
            final(self).reference() == Some(next_reference(old(self).reference(), inputs.ms_since_reset)),
            final(self).delay_ns() == old(self).delay_ns(),
            final(self).audio_enabled() == old(self).audio_enabled(),
            final(self).states() == register_presses(
                old(self).states(),
                inputs.button_events@,
                next_reference(old(self).reference(), inputs.ms_since_reset),
            ),
            final(self).states().len() == NUMBER_OF_BUTTONS,
            forall|i: int| 0 <= i < NUMBER_OF_BUTTONS && old(self).states()[i] is Pressed
                ==> #[trigger] final(self).states()[i] == old(self).states()[i],
            final(self).overeager() == overeager_set(final(self).states(), final(self).delay_ns()),
            is_ranking(final(self).ranking(), final(self).states(), final(self).delay_ns()),
            final(self).sounds() == old(self).sounds() + (if old(self).audio_enabled() {
                press_cues(
                    old(self).states(),
                    inputs.button_events@,
                    next_reference(old(self).reference(), inputs.ms_since_reset),
                    old(self).delay_ns(),
                    old(self).ranking().len() == 0,
                )
            } else {
                Seq::<AudioCue>::empty()
            }),
            leds_match(leds, NUMBER_OF_BUTTONS as nat, (|k: usize| final(self).ranking().len() > 0 && final(self).ranking()[0].0 == k)),
    {
        let reference = advance_reference(&mut self.devboard_time_since_boot, inputs.ms_since_reset);
        let nobody_won = self.winners.len() == 0;
        let ghost states0 = self.player_button_states@;
        self.record_presses(&inputs.button_events, reference, nobody_won);
        assert forall|i: int| 0 <= i < NUMBER_OF_BUTTONS && states0[i] is Pressed
            implies #[trigger] self.player_button_states@[i] == states0[i] by {
            lemma_recorded_press_stays(states0, inputs.button_events@, reference, i);
        }
        self.overeager_trigger_happy = collect_overeager(&self.player_button_states, self.delay);
        self.winners = rank_winners(&self.player_button_states, self.delay);
        let mut leds = leds_all_off();
        if self.winners.len() > 0 {
            let first = self.winners[0].0;
            proof {
                assert(self.winners@.contains(self.winners@[0]));
            }
            leds.button_leds.set(first, DevboardButtonLed { enabled: true });
        }
        leds
    }

    /// Hands out the sound effects asked for so far, and forgets them.
    pub fn take_sounds(&mut self) -> (sounds: Vec<AudioCue>)
        ensures
            sounds@ == old(self).sounds(),
            final(self).sounds() == Seq::<AudioCue>::empty(),
            final(self).reference() == old(self).reference(),
            final(self).delay_ns() == old(self).delay_ns(),
            final(self).states() == old(self).states(),
            final(self).overeager() == old(self).overeager(),
            final(self).ranking() == old(self).ranking(),
            final(self).audio_enabled() == old(self).audio_enabled(),
    {
        let mut sounds: Vec<AudioCue> = Vec::new();
        std::mem::swap(&mut sounds, &mut self.pending_sounds);
        sounds
    }
}

} // verus!
