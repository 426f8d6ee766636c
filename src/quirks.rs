use vstd::prelude::*;

verus! {

/// Behaviour toggles that resolve the ambiguities between historical
/// CHIP-8 interpreters. They are chosen when the machine is built and
/// never change while it runs.
#[derive(Clone, Copy, Debug, PartialEq, Eq, Structural)]
pub struct Quirks {
    /// The AND, OR and XOR opcodes (`8xy1`, `8xy2` and `8xy3`) reset the flags register to zero.
    pub vf_reset: bool,
    /// The save and load opcodes (`Fx55` and `Fx65`) increment the index register.
    pub memory: bool,
    /// Sprites drawn at the edges of the screen get clipped instead of wrapping around.
    pub clipping: bool,
    /// The shift opcodes (`8xy6` and `8xyE`) operate on vX in place instead of on a copy of vY.
    pub shifting: bool,
    /// The jump instruction (`Bnnn`) uses vX, where X is the highest nibble of nnn, instead of v0.
    pub jumping: bool,
    /// The get key instruction (`Fx0A`) waits for a key press and the matching release.
    pub release: bool,
}

/// The toggles of the most common modern interpreter.
pub open spec fn default_quirks() -> Quirks {
    Quirks {
        vf_reset: true,
        memory: true,
        clipping: true,
        shifting: false,
        jumping: false,
        release: true,
    }
}

impl Quirks {
    pub fn new() -> (q: Self)
        ensures
            q == default_quirks(),
    {
        Quirks {
            vf_reset: true,
            memory: true,
            clipping: true,
            shifting: false,
            jumping: false,
            release: true,
        }
    }
}

} // verus!
