//! The tone that accompanies the sound timer.

use vstd::prelude::*;

verus! {

/// What the tone generator is asked to do.
#[derive(Clone, Copy, Debug, PartialEq, Eq, Structural)]
pub enum Tone {
    /// Sound the tone.
    Play,
    /// Be silent.
    Pause,
}

/// The tone sounds for as long as the sound timer has not run out.
pub fn tone_for(sound_timer: u8) -> (tone: Tone)
    ensures
        tone == if sound_timer > 0 {
            Tone::Play
        } else {
            Tone::Pause
        },
{
    if sound_timer > 0 {
        Tone::Play
    } else {
        Tone::Pause
    }
}

} // verus!
