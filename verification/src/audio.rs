//! The sound effects the games ask for, and the files that hold them.
use vstd::prelude::*;

verus! {

/// Number of player buzzer sounds.
pub const NUMBER_OF_SOUNDS: usize = 6;

/// A sound effect that a game asks to be played.
#[derive(Debug, Clone, Copy, PartialEq, Eq, Structural)]
pub enum AudioCue {
    /// The buzzer sound with this number (below `NUMBER_OF_SOUNDS`).
    Buzzer(usize),
    /// The sound for a press that came too late or too early.
    Fail,
}

/// The buzzer sound files, in the order of their numbers.
pub open spec fn buzzer_paths() -> Seq<Seq<char>> {
    seq![
        "../static/audio/duck.mp3"@,
        "../static/audio/icq.mp3"@,
        "../static/audio/mario.mp3"@,
        "../static/audio/mgs.mp3"@,
        "../static/audio/partyblower.mp3"@,
        "../static/audio/wololo.mp3"@,
    ]
}

/// The file of the fail sound.
pub open spec fn fail_path() -> Seq<char> {
    "../static/audio/boo-womp.mp3"@
}

/// The file of each sound effect.
pub open spec fn cue_path(cue: AudioCue) -> Seq<char> {
    match cue {
        AudioCue::Fail => "../static/audio/boo-womp.mp3"@,
        AudioCue::Buzzer(i) => if i == 0 {
            "../static/audio/duck.mp3"@
        } else if i == 1 {
            "../static/audio/icq.mp3"@
        } else if i == 2 {
            "../static/audio/mario.mp3"@
        } else if i == 3 {
            "../static/audio/mgs.mp3"@
        } else if i == 4 {
            "../static/audio/partyblower.mp3"@
        } else {
            "../static/audio/wololo.mp3"@
        },
    }
}

/// Buzzer `i` plays the `i`-th file of the buzzer sound list, and the fail cue
/// plays the fail sound file.
pub proof fn lemma_cue_paths_follow_the_list()
    ensures
        forall|i: usize| i < NUMBER_OF_SOUNDS ==> #[trigger] cue_path(AudioCue::Buzzer(i)) == buzzer_paths()[i as int],
        cue_path(AudioCue::Fail) == fail_path(),
        buzzer_paths().len() == NUMBER_OF_SOUNDS,
{
}

/// Whether a cue names a sound that exists.
pub open spec fn cue_is_valid(cue: AudioCue) -> bool {
    match cue {
        AudioCue::Fail => true,
        AudioCue::Buzzer(i) => i < NUMBER_OF_SOUNDS,
    }
}

/// The path of the file that holds the sound of `cue`.
pub fn audio_path(cue: AudioCue) -> (path: &'static str)
    requires
        cue_is_valid(cue),
    ensures
        path@ == cue_path(cue),
        cue matches AudioCue::Buzzer(i) ==> path@ == buzzer_paths()[i as int],
        cue is Fail ==> path@ == fail_path(),
{
    match cue {
        AudioCue::Fail => "../static/audio/boo-womp.mp3",
        AudioCue::Buzzer(i) => if i == 0 {
            "../static/audio/duck.mp3"
        } else if i == 1 {
            "../static/audio/icq.mp3"
        } else if i == 2 {
            "../static/audio/mario.mp3"
        } else if i == 3 {
            "../static/audio/mgs.mp3"
        } else if i == 4 {
            "../static/audio/partyblower.mp3"
        } else {
            "../static/audio/wololo.mp3"
        },
    }
}

} // verus!
