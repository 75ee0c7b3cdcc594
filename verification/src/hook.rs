//! Hooks through a backend that redirects a function by itself.
//!
//! Where such a backend is at hand, it does the patching; what is left to
//! the engine is to keep null addresses away from it and to hold on to the
//! address under which the original function stays reachable.

use vstd::prelude::*;
use crate::error::{Argument, HookError};

verus! {

/// Why the backend is not asked to redirect `symbol` to `replace`, if it is
/// not: one of the two is null, the symbol being looked at first.
pub open spec fn hook_refusal(symbol: usize, replace: usize) -> Option<HookError> {
    if symbol == 0 {
        Some(HookError::NullArgument(Argument::Symbol))
    } else if replace == 0 {
        Some(HookError::NullArgument(Argument::Replacement))
    } else {
        None
    }
}

/// Has `backend` redirect the function at `symbol` to the one at `replace`
/// and gives the address that the backend returns, under which the original
/// function can still be called. The backend is not asked where an address
/// is null.
pub fn ms_hook_function<B: Fn(usize, usize) -> usize>(symbol: usize, replace: usize, backend: &B) -> (r: Result<
    usize,
    HookError,
>)
    requires
        forall|s: usize, p: usize| s != 0 && p != 0 ==> backend.requires((s, p)),
    ensures
        match hook_refusal(symbol, replace) {
            Some(e) => r == Err::<usize, HookError>(e),
            None => r is Ok && backend.ensures((symbol, replace), r->Ok_0),
        },
{
    if symbol == 0 {
        return Err(HookError::NullArgument(Argument::Symbol));
    }
    if replace == 0 {
        return Err(HookError::NullArgument(Argument::Replacement));
    }
    Ok(backend(symbol, replace))
}

/// A function that a backend has redirected.
#[derive(Debug, Clone, Copy, PartialEq, Eq, Structural)]
pub struct Hook {
    original: usize,
}

impl Hook {
    /// The address under which the original function can be called; null
    /// where the backend gave none.
    pub closed spec fn spec_original(&self) -> usize {
        self.original
    }

    /// Has `backend` redirect the function at `symbol` to the one at
    /// `replacement` and keeps the address that it returns.
    pub fn new<B: Fn(usize, usize) -> usize>(symbol: usize, replacement: usize, backend: &B) -> (r: Result<
        Hook,
        HookError,
    >)
        requires
            forall|s: usize, p: usize| s != 0 && p != 0 ==> backend.requires((s, p)),
        ensures
            match hook_refusal(symbol, replacement) {
                Some(e) => r == Err::<Hook, HookError>(e),
                None => r is Ok && backend.ensures((symbol, replacement), r->Ok_0.spec_original()),
            },
    {
        match ms_hook_function(symbol, replacement, backend) {
            Ok(original) => Ok(Hook { original }),
            Err(e) => Err(e),
        }
    }

    /// The address under which the original function can be called; null
    /// where the backend gave none.
    pub fn original(&self) -> (addr: usize)
        ensures
            addr == self.spec_original(),
    {
        self.original
    }

    /// The address under which the original function can be called, if the
    /// backend gave one.
    pub fn original_fn(&self) -> (addr: Option<usize>)
        ensures
            addr == (if self.spec_original() == 0 {
                None
            } else {
                Some(self.spec_original())
            }),
    {
        if self.original == 0 {
            None
        } else {
            Some(self.original)
        }
    }
}

/// What becomes of the address that a backend returns where it must give
/// one: a null address is a failure of the backend.
pub open spec fn spec_original_or_failure(original: usize) -> Result<usize, HookError> {
    if original == 0 {
        Err(HookError::BackendFailure)
    } else {
        Ok(original)
    }
}

/// Judges the address that a backend returned where it must give one.
pub fn original_or_failure(original: usize) -> (r: Result<usize, HookError>)
    ensures
        r == spec_original_or_failure(original),
{
    if original == 0 {
        Err(HookError::BackendFailure)
    } else {
        Ok(original)
    }
}

/// Has `backend` redirect the function at `symbol` to the one at `replace`
/// and gives the address under which the original function can still be
/// called. The backend is not asked where an address is null, and a null
/// address from it is a failure.
pub fn a64_hook_function<B: Fn(usize, usize) -> usize>(symbol: usize, replace: usize, backend: &B) -> (r: Result<
    usize,
    HookError,
>)
    requires
        forall|s: usize, p: usize| s != 0 && p != 0 ==> backend.requires((s, p)),
    ensures
        match hook_refusal(symbol, replace) {
            Some(e) => r == Err::<usize, HookError>(e),
            None => exists|original: usize|
                backend.ensures((symbol, replace), original) && r == #[trigger] spec_original_or_failure(original),
        },
{
    if symbol == 0 {
        return Err(HookError::NullArgument(Argument::Symbol));
    }
    if replace == 0 {
        return Err(HookError::NullArgument(Argument::Replacement));
    }
    original_or_failure(backend(symbol, replace))
}

/// As `a64_hook_function`, with a backend that builds its trampoline in the
/// `rwx_size` bytes at `rwx`, which the caller has set aside for it.
pub fn a64_hook_function_v<B: Fn(usize, usize, usize, usize) -> usize>(
    symbol: usize,
    replace: usize,
    rwx: usize,
    rwx_size: usize,
    backend: &B,
) -> (r: Result<usize, HookError>)
    requires
        forall|s: usize, p: usize, m: usize, n: usize| s != 0 && p != 0 ==> backend.requires((s, p, m, n)),
    ensures
        match hook_refusal(symbol, replace) {
            Some(e) => r == Err::<usize, HookError>(e),
            None => exists|original: usize|
                backend.ensures((symbol, replace, rwx, rwx_size), original) && r
                    == #[trigger] spec_original_or_failure(original),
        },
{
    if symbol == 0 {
        return Err(HookError::NullArgument(Argument::Symbol));
    }
    if replace == 0 {
        return Err(HookError::NullArgument(Argument::Replacement));
    }
    original_or_failure(backend(symbol, replace, rwx, rwx_size))
}

/// Why the backend is not asked to hook the message `selector` of `class`
/// with `implementation`, if it is not: the first of the three that is
/// null.
pub open spec fn message_refusal(class: usize, selector: usize, implementation: usize) -> Option<HookError> {
    if class == 0 {
        Some(HookError::NullArgument(Argument::Class))
    } else if selector == 0 {
        Some(HookError::NullArgument(Argument::Selector))
    } else if implementation == 0 {
        Some(HookError::NullArgument(Argument::Implementation))
    } else {
        None
    }
}

/// A message of a class whose implementation a backend has replaced.
#[derive(Debug, Clone, Copy, PartialEq, Eq, Structural)]
pub struct ObjCHook {
    original: usize,
}

impl ObjCHook {
    /// The address of the implementation that was replaced; null where the
    /// backend gave none.
    pub closed spec fn spec_original(&self) -> usize {
        self.original
    }

    /// Has `backend` replace the implementation of the message `selector` of
    /// `class` with `implementation` and keeps the address that it returns.
    pub fn hook_message<B: Fn(usize, usize, usize) -> usize>(
        class: usize,
        selector: usize,
        implementation: usize,
        backend: &B,
    ) -> (r: Result<ObjCHook, HookError>)
        requires
            forall|c: usize, s: usize, i: usize| c != 0 && s != 0 && i != 0 ==> backend.requires((c, s, i)),
        ensures
            match message_refusal(class, selector, implementation) {
                Some(e) => r == Err::<ObjCHook, HookError>(e),
                None => r is Ok && backend.ensures((class, selector, implementation), r->Ok_0.spec_original()),
            },
    {
        if class == 0 {
            return Err(HookError::NullArgument(Argument::Class));
        }
        if selector == 0 {
            return Err(HookError::NullArgument(Argument::Selector));
        }
        if implementation == 0 {
            return Err(HookError::NullArgument(Argument::Implementation));
        }
        Ok(ObjCHook { original: backend(class, selector, implementation) })
    }

    /// The address of the implementation that was replaced; null where the
    /// backend gave none.
    pub fn original(&self) -> (addr: usize)
        ensures
            addr == self.spec_original(),
    {
        self.original
    }
}

} // verus!
