//! Sound cues the game emits at its decision points. The library only
//! decides *which* cue plays and maps it to the name of the clip; actual
//! playback is fire-and-forget I/O done by the binary.

use vstd::prelude::*;

verus! {

/// The named sound cues of the game.
#[derive(Clone, Copy, PartialEq, Eq, Structural, Debug)]
pub enum AudioActions {
    StartUp,
    Lose,
    Explode,
    Move,
    Pew,
    Win,
}

/// The name of the audio clip that a cue plays, as registered with the
/// audio device at startup.
pub fn cue_name(action: AudioActions) -> (r: &'static str)
    ensures
        action is StartUp ==> r@ == "startup"@,
        action is Lose ==> r@ == "lose"@,
        action is Explode ==> r@ == "explode"@,
        action is Move ==> r@ == "move"@,
        action is Pew ==> r@ == "pew"@,
        action is Win ==> r@ == "win"@,
{
    match action {
        AudioActions::StartUp => "startup",
        AudioActions::Lose => "lose",
        AudioActions::Explode => "explode",
        AudioActions::Move => "move",
        AudioActions::Pew => "pew",
        AudioActions::Win => "win",
    }
}

} // verus!
