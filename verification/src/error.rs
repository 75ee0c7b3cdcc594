use vstd::prelude::*;

verus! {

/// The addresses that an operation takes and that must not be null.
#[derive(Clone, Copy, Debug, PartialEq, Eq, Structural)]
pub enum Argument {
    /// The function that a hook patches.
    Target,
    /// The function that calls are redirected to.
    Replacement,
    /// The function that a hook backend is asked to redirect.
    Symbol,
    /// The class whose message is hooked.
    Class,
    /// The selector of the message that is hooked.
    Selector,
    /// The implementation that takes the place of the hooked message.
    Implementation,
}

/// Why an operation of the engine did not succeed.
#[derive(Clone, Copy, Debug, PartialEq, Eq, Structural)]
pub enum HookError {
    /// The address handed in for the named argument was null.
    NullArgument(Argument),
    /// More bytes were asked for than the buffer at hand holds.
    CapacityExceeded,
    /// No executable buffer could be had for a trampoline.
    AllocationFailure,
    /// The platform refused a page protection change, or the range cannot
    /// be expressed as a page-aligned region.
    ProtectionFailure,
    /// No jump encoder exists for the instruction set of the hook.
    UnsupportedArchitecture,
    /// The length disassembler met an opcode it does not know.
    DecodeError,
    /// The hook is not installed.
    NotInstalled,
    /// The hook is installed already.
    AlreadyInstalled,
    /// A chain was handed a number of replacements that differs from the
    /// number of its hooks.
    CountMismatch,
    /// A hook backend did not give the address of the original function.
    BackendFailure,
}

impl HookError {
    /// The text that goes with each error.
    pub open spec fn spec_message(self) -> Seq<char> {
        match self {
            HookError::NullArgument(Argument::Target) => "Target is null"@,
            HookError::NullArgument(Argument::Replacement) => "Replacement is null"@,
            HookError::NullArgument(Argument::Symbol) => "Symbol pointer is null"@,
            HookError::NullArgument(Argument::Class) => "Class is null"@,
            HookError::NullArgument(Argument::Selector) => "Selector is null"@,
            HookError::NullArgument(Argument::Implementation) => "Implementation is null"@,
            HookError::CapacityExceeded => "Trampoline capacity exceeded"@,
            HookError::AllocationFailure => "Failed to allocate trampoline memory"@,
            HookError::ProtectionFailure => "mprotect failed"@,
            HookError::UnsupportedArchitecture => "Inline hooks not yet implemented for this architecture"@,
            HookError::DecodeError => "Instruction could not be decoded"@,
            HookError::NotInstalled => "Hook is not installed"@,
            HookError::AlreadyInstalled => "Hook is already installed"@,
            HookError::CountMismatch => "Hook count mismatch"@,
            HookError::BackendFailure => "Hook failed"@,
        }
    }

    /// A short description of the error, fit for a log line.
    pub fn message(&self) -> (text: &'static str)
        ensures
            text@ == self.spec_message(),
    {
        match self {
            HookError::NullArgument(Argument::Target) => "Target is null",
            HookError::NullArgument(Argument::Replacement) => "Replacement is null",
            HookError::NullArgument(Argument::Symbol) => "Symbol pointer is null",
            HookError::NullArgument(Argument::Class) => "Class is null",
            HookError::NullArgument(Argument::Selector) => "Selector is null",
            HookError::NullArgument(Argument::Implementation) => "Implementation is null",
            HookError::CapacityExceeded => "Trampoline capacity exceeded",
            HookError::AllocationFailure => "Failed to allocate trampoline memory",
            HookError::ProtectionFailure => "mprotect failed",
            HookError::UnsupportedArchitecture => "Inline hooks not yet implemented for this architecture",
            HookError::DecodeError => "Instruction could not be decoded",
            HookError::NotInstalled => "Hook is not installed",
            HookError::AlreadyInstalled => "Hook is already installed",
            HookError::CountMismatch => "Hook count mismatch",
            HookError::BackendFailure => "Hook failed",
        }
    }
}

} // verus!
