//! Instruction encoders, one module per instruction set.

use vstd::prelude::*;

pub mod arm;
pub mod x86;

verus! {

/// The instruction set of the code that a hook patches.
#[derive(Debug, Clone, Copy, PartialEq, Eq, Structural)]
pub enum Architecture {
    /// x86 or x86-64; the width of an address tells them apart.
    X86,
    /// 32-bit ARM in ARM state.
    Arm,
    /// 32-bit ARM in Thumb state.
    Thumb,
}

impl Architecture {
    /// Whether a jump to an arbitrary address can be encoded for this
    /// instruction set.
    pub open spec fn spec_has_jump_encoder(self) -> bool {
        self == Architecture::X86
    }

    /// Whether a jump to an arbitrary address can be encoded for this
    /// instruction set.
    #[verifier::when_used_as_spec(spec_has_jump_encoder)]
    pub fn has_jump_encoder(self) -> (has: bool)
        ensures
            has == self.spec_has_jump_encoder(),
    {
        match self {
            Architecture::X86 => true,
            _ => false,
        }
    }
}

} // verus!
