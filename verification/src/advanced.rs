//! Trampolines, inline hooks and chains of hooks.

use vstd::prelude::*;
use crate::arch::x86::{jump_bytes, X86Instruction};
use crate::arch::Architecture;
use crate::bytes::overwrite;
use crate::error::{Argument, HookError};
use crate::memory::{Access, MemoryProtection, MemoryRequest};

verus! {

/// The address that stands for a mapping that could not be made.
pub const MAP_FAILED: usize = usize::MAX;

/// A buffer of code under construction: the executable allocation that it
/// fills, the address of the allocation, and the number of bytes written so
/// far. The allocation is borrowed for as long as the trampoline is written
/// to; `finalize` ends the borrow, after which nothing can write through it.
pub struct Trampoline<'a> {
    base: usize,
    memory: &'a mut [u8],
    len: usize,
}

impl<'a> Trampoline<'a> {
    #[verifier::type_invariant]
    spec fn fits(&self) -> bool {
        &&& self.len <= self.memory@.len()
        &&& self.base + self.memory@.len() <= usize::MAX
    }

    /// The address of the first byte of the allocation.
    pub closed spec fn spec_base(&self) -> usize {
        self.base
    }

    /// Every byte of the allocation, written or not.
    pub closed spec fn spec_memory(&self) -> Seq<u8> {
        self.memory@
    }

    /// The number of bytes written.
    pub closed spec fn spec_len(&self) -> usize {
        self.len
    }

    /// The number of bytes that the allocation holds.
    pub open spec fn spec_capacity(&self) -> nat {
        self.spec_memory().len()
    }

    /// The bytes written so far.
    pub open spec fn code(&self) -> Seq<u8> {
        self.spec_memory().take(self.spec_len() as int)
    }

    /// Whether a mapping of `capacity` bytes at `base` can back a
    /// trampoline: the mapping was made, and its last byte has an address.
    pub open spec fn is_mapping(base: usize, capacity: nat) -> bool {
        base != MAP_FAILED && base + capacity <= usize::MAX
    }

    /// An empty trampoline over the allocation `memory`, whose first byte
    /// has the address `base`.
    pub fn new(base: usize, memory: &'a mut [u8]) -> (r: Result<Trampoline<'a>, HookError>)
        ensures
            !Self::is_mapping(base, old(memory)@.len()) ==> r == Err::<Trampoline<'a>, HookError>(
                HookError::AllocationFailure,
            ),
            Self::is_mapping(base, old(memory)@.len()) ==> r is Ok && r->Ok_0.spec_base() == base
                && r->Ok_0.spec_memory() == old(memory)@ && r->Ok_0.spec_len() == 0,
    {
        Self::open(base, memory)
    }

    /// Appends `bytes` to the code. A write that would pass the end of the
    /// allocation fails and leaves every byte as it was.
    pub fn write_bytes(&mut self, bytes: &[u8]) -> (r: Result<(), HookError>)
        ensures
            final(self).spec_base() == old(self).spec_base(),
            old(self).spec_len() + bytes@.len() > old(self).spec_capacity() ==> r == Err::<(), HookError>(
                HookError::CapacityExceeded,
            ) && final(self).spec_memory() == old(self).spec_memory() && final(self).spec_len()
                == old(self).spec_len(),
            old(self).spec_len() + bytes@.len() <= old(self).spec_capacity() ==> r == Ok::<(), HookError>(())
                && final(self).spec_memory() == overwrite(
                old(self).spec_memory(),
                old(self).spec_len() as int,
                bytes@,
            ) && final(self).spec_len() == old(self).spec_len() + bytes@.len() && final(self).code()
                == old(self).code() + bytes@,
    {
        proof {
            use_type_invariant(&*self);
        }
        let r = self.append(bytes);
        proof {
            if r is Ok {
                assert(self.code() =~= old(self).code() + bytes@);
            }
        }
        r
    }

    /// Makes the written bytes executable and gives the address of the
    /// code. The trampoline is used up: nothing can be written afterwards.
    pub fn finalize<H: Fn(&MemoryRequest) -> i32>(self, guard: &MemoryProtection<H>) -> (r: Result<usize, HookError>)
        ensures
            r is Ok ==> r == Ok::<usize, HookError>(self.spec_base()) && guard.may_make_executable(
                self.spec_base(),
                self.spec_len(),
                Ok(()),
            ),
            r is Err ==> r == Err::<usize, HookError>(HookError::ProtectionFailure)
                && guard.may_make_executable(
                self.spec_base(),
                self.spec_len(),
                Err(HookError::ProtectionFailure),
            ),
    {
        self.seal(guard)
    }

    /// `new`, for callers in this module, which also learn that the
    /// allocation ends up as the trampoline leaves it.
    fn open(base: usize, memory: &'a mut [u8]) -> (r: Result<Trampoline<'a>, HookError>)
        ensures
            !Self::is_mapping(base, old(memory)@.len()) ==> r == Err::<Trampoline<'a>, HookError>(
                HookError::AllocationFailure,
            ) && final(memory)@ == old(memory)@,
            Self::is_mapping(base, old(memory)@.len()) ==> r is Ok && r->Ok_0.spec_base() == base
                && r->Ok_0.spec_memory() == old(memory)@ && r->Ok_0.spec_len() == 0
                && final(r->Ok_0.memory)@ == final(memory)@,
    {
        let capacity = memory.len();
        if base == MAP_FAILED || capacity > usize::MAX - base {
            return Err(HookError::AllocationFailure);
        }
        Ok(Trampoline { base, memory, len: 0 })
    }

    /// `write_bytes`, for callers in this module, which also learn that the
    /// trampoline still writes to the same allocation.
    fn append(&mut self, bytes: &[u8]) -> (r: Result<(), HookError>)
        ensures
            final(self).spec_base() == old(self).spec_base(),
            final(final(self).memory)@ == final(old(self).memory)@,
            old(self).spec_len() + bytes@.len() > old(self).spec_capacity() ==> r == Err::<(), HookError>(
                HookError::CapacityExceeded,
            ) && final(self).spec_memory() == old(self).spec_memory() && final(self).spec_len()
                == old(self).spec_len(),
            old(self).spec_len() + bytes@.len() <= old(self).spec_capacity() ==> r == Ok::<(), HookError>(())
                && final(self).spec_memory() == overwrite(
                old(self).spec_memory(),
                old(self).spec_len() as int,
                bytes@,
            ) && final(self).spec_len() == old(self).spec_len() + bytes@.len(),
    {
        proof {
            use_type_invariant(&*self);
        }
        let capacity = self.memory.len();
        if bytes.len() > capacity - self.len {
            return Err(HookError::CapacityExceeded);
        }
        let n = bytes.len();
        let start = self.len;
        let mut i: usize = 0;
        while i < n
            invariant
                n == bytes@.len(),
                i <= n,
                start + n <= capacity,
                capacity == self.memory@.len(),
                self.len == start,
                self.base == old(self).base,
                self.base + capacity <= usize::MAX,
                final(self.memory)@ == final(old(self).memory)@,
                self.memory@ == overwrite(old(self).memory@, start as int, bytes@.take(i as int)),
            decreases n - i,
        {
            self.memory[start + i] = bytes[i];
            i += 1;
            assert(self.memory@ =~= overwrite(old(self).memory@, start as int, bytes@.take(i as int)));
        }
        assert(bytes@.take(n as int) =~= bytes@);
        self.len = start + n;
        Ok(())
    }

    /// `finalize`, for callers in this module, which also learn that the
    /// allocation is left as it was written.
    fn seal<H: Fn(&MemoryRequest) -> i32>(self, guard: &MemoryProtection<H>) -> (r: Result<usize, HookError>)
        ensures
            final(self.memory)@ == self.spec_memory(),
            r is Ok ==> r == Ok::<usize, HookError>(self.spec_base()) && guard.may_make_executable(
                self.spec_base(),
                self.spec_len(),
                Ok(()),
            ),
            r is Err ==> r == Err::<usize, HookError>(HookError::ProtectionFailure)
                && guard.may_make_executable(
                self.spec_base(),
                self.spec_len(),
                Err(HookError::ProtectionFailure),
            ),
    {
        match guard.make_executable(self.base, self.len) {
            Ok(()) => Ok(self.base),
            Err(e) => Err(e),
        }
    }

    /// The address of the first byte of the allocation.
    pub fn as_ptr(&self) -> (addr: usize)
        ensures
            addr == self.spec_base(),
    {
        self.base
    }

    /// The number of bytes written.
    pub fn len(&self) -> (n: usize)
        ensures
            n == self.spec_len(),
            n <= self.spec_capacity(),
    {
        proof {
            use_type_invariant(self);
        }
        self.len
    }

    /// Whether nothing was written yet.
    pub fn is_empty(&self) -> (empty: bool)
        ensures
            empty == (self.spec_len() == 0),
    {
        self.len == 0
    }

    /// The number of bytes that the allocation holds.
    pub fn capacity(&self) -> (n: usize)
        ensures
            n == self.spec_capacity(),
    {
        self.memory.len()
    }
}

/// Where a hook stands in its life.
#[derive(Debug, Clone, Copy, PartialEq, Eq, Structural)]
pub enum HookState {
    /// The original bytes are captured; the target is as it was found.
    Created,
    /// The target starts with a jump to the replacement.
    Installed,
    /// The captured bytes are back at the target.
    Uninstalled,
}

/// A hook as contracts see it.
pub struct HookView {
    /// The instruction set of the target.
    pub arch: Architecture,
    /// The address of the first byte of the target.
    pub target: usize,
    /// The bytes at the target as they are now.
    pub code: Seq<u8>,
    /// The bytes that were captured when the hook was made.
    pub original: Seq<u8>,
    /// The address of the relocated original code, once there is one.
    pub trampoline: Option<usize>,
    /// Where the hook stands in its life.
    pub state: HookState,
}

impl HookView {
    /// The validity of a hook: the target is not null, the captured bytes
    /// lie within the bytes it can reach, and those have addresses.
    pub open spec fn wf(self) -> bool {
        &&& self.target != 0
        &&& self.original.len() <= self.code.len()
        &&& self.target + self.code.len() <= usize::MAX
    }

    /// Why `install` refuses before it asks anything of the platform, if it
    /// does.
    pub open spec fn install_refusal(self, replacement: usize) -> Option<HookError> {
        if replacement == 0 {
            Some(HookError::NullArgument(Argument::Replacement))
        } else if self.state == HookState::Installed {
            Some(HookError::AlreadyInstalled)
        } else if !self.arch.has_jump_encoder() {
            Some(HookError::UnsupportedArchitecture)
        } else if jump_bytes(replacement, self.target).len() > self.code.len() {
            Some(HookError::CapacityExceeded)
        } else {
            None
        }
    }

    /// The hook after the jump to `replacement` was written.
    pub open spec fn patched(self, replacement: usize) -> HookView {
        HookView {
            code: overwrite(self.code, 0, jump_bytes(replacement, self.target)),
            state: HookState::Installed,
            ..self
        }
    }

    /// The address of the first byte of the target that the hook did not
    /// capture, where the relocated code returns to.
    pub open spec fn resume_address(self) -> usize {
        (self.target + self.original.len()) as usize
    }

    /// The code of a trampoline at the address `base`: the captured bytes,
    /// then a jump from behind them to the resume address.
    pub open spec fn trampoline_code(self, base: usize) -> Seq<u8> {
        self.original + jump_bytes(self.resume_address(), (base + self.original.len()) as usize)
    }

    /// The hook after the captured bytes were written back.
    pub open spec fn restored(self) -> HookView {
        HookView { code: overwrite(self.code, 0, self.original), state: HookState::Uninstalled, ..self }
    }
}

/// Whether `install` may take a hook from `pre` to `post` with the result
/// `r`. A refusal leaves the hook as it was. Otherwise the platform decides:
/// where it does not make the target writable, the hook is left as it was
/// and the result is a protection failure; where it does, the jump is
/// written and the hook is installed, and the result is that of making the
/// jump executable again.
#[verifier::opaque]
pub open spec fn install_spec<H: Fn(&MemoryRequest) -> i32>(
    guard: &MemoryProtection<H>,
    pre: HookView,
    replacement: usize,
    post: HookView,
    r: Result<(), HookError>,
) -> bool {
    match pre.install_refusal(replacement) {
        Some(e) => r == Err::<(), HookError>(e) && post == pre,
        None => {
            ||| {
                &&& guard.may_make_writable(
                    pre.target,
                    pre.original.len() as usize,
                    Err(HookError::ProtectionFailure),
                )
                &&& r == Err::<(), HookError>(HookError::ProtectionFailure)
                &&& post == pre
            }
            ||| {
                &&& guard.may_make_writable(pre.target, pre.original.len() as usize, Ok(()))
                &&& guard.may_make_executable(pre.target, jump_bytes(replacement, pre.target).len() as usize, r)
                &&& post == pre.patched(replacement)
            }
        },
    }
}

/// Whether `uninstall` may take a hook from `pre` to `post` with the result
/// `r`. A hook that is not installed is left as it was. Otherwise the
/// platform decides: where it does not make the target writable, the hook is
/// left as it was and the result is a protection failure; where it does, the
/// captured bytes are written back and the hook is uninstalled, and the
/// result is that of making them executable again.
#[verifier::opaque]
pub open spec fn uninstall_spec<H: Fn(&MemoryRequest) -> i32>(
    guard: &MemoryProtection<H>,
    pre: HookView,
    post: HookView,
    r: Result<(), HookError>,
) -> bool {
    if pre.state != HookState::Installed {
        r == Err::<(), HookError>(HookError::NotInstalled) && post == pre
    } else {
        ||| {
            &&& guard.may_make_writable(pre.target, pre.original.len() as usize, Err(HookError::ProtectionFailure))
            &&& r == Err::<(), HookError>(HookError::ProtectionFailure)
            &&& post == pre
        }
        ||| {
            &&& guard.may_make_writable(pre.target, pre.original.len() as usize, Ok(()))
            &&& guard.may_make_executable(pre.target, pre.original.len() as usize, r)
            &&& post == pre.restored()
        }
    }
}

/// Whether `create_trampoline` may take a hook from `pre` to `post` and an
/// allocation at `base` from `memory` to `written` with the result `r`.
/// Nothing is written where the hook's instruction set has no jump encoder,
/// where the allocation is no mapping, or where the captured bytes do not
/// fit it. Where they fit but the jump behind them does not, they are
/// written and the result is still a failure. Otherwise the allocation
/// starts with the trampoline's code, and the platform decides: where it
/// makes the code executable, the hook records its address and the result is
/// that address; where it does not, the hook is as it was.
pub open spec fn create_trampoline_spec<H: Fn(&MemoryRequest) -> i32>(
    guard: &MemoryProtection<H>,
    pre: HookView,
    base: usize,
    memory: Seq<u8>,
    post: HookView,
    written: Seq<u8>,
    r: Result<usize, HookError>,
) -> bool {
    if !pre.arch.has_jump_encoder() {
        r == Err::<usize, HookError>(HookError::UnsupportedArchitecture) && post == pre && written == memory
    } else if !Trampoline::is_mapping(base, memory.len()) {
        r == Err::<usize, HookError>(HookError::AllocationFailure) && post == pre && written == memory
    } else if pre.original.len() > memory.len() {
        r == Err::<usize, HookError>(HookError::CapacityExceeded) && post == pre && written == memory
    } else if pre.trampoline_code(base).len() > memory.len() {
        r == Err::<usize, HookError>(HookError::CapacityExceeded) && post == pre && written == overwrite(
            memory,
            0,
            pre.original,
        )
    } else {
        let code = pre.trampoline_code(base);
        &&& written == overwrite(memory, 0, code)
        &&& {
            ||| {
                &&& guard.may_make_executable(base, code.len() as usize, Ok(()))
                &&& r == Ok::<usize, HookError>(base)
                &&& post == (HookView { trampoline: Some(base), ..pre })
            }
            ||| {
                &&& guard.may_make_executable(base, code.len() as usize, Err(HookError::ProtectionFailure))
                &&& r == Err::<usize, HookError>(HookError::ProtectionFailure)
                &&& post == pre
            }
        }
    }
}

/// One hook: the target it patches, the bytes it found there, and where it
/// stands in its life. The bytes of the target are borrowed for as long as
/// the hook lives, so nothing else writes to them meanwhile.
pub struct InlineHook<'a> {
    arch: Architecture,
    target: usize,
    code: &'a mut [u8],
    original_bytes: Vec<u8>,
    trampoline: Option<usize>,
    state: HookState,
}

impl<'a> View for InlineHook<'a> {
    type V = HookView;

    closed spec fn view(&self) -> HookView {
        HookView {
            arch: self.arch,
            target: self.target,
            code: self.code@,
            original: self.original_bytes@,
            trampoline: self.trampoline,
            state: self.state,
        }
    }
}

impl<'a> InlineHook<'a> {
    #[verifier::type_invariant]
    spec fn valid(&self) -> bool {
        self@.wf()
    }

    /// Why no hook can be made, if none can: the target is null, or more
    /// bytes are to be captured than `code` holds or than have addresses
    /// from `target` on.
    pub open spec fn new_refusal(target: usize, code: Seq<u8>, hook_size: usize) -> Option<HookError> {
        if target == 0 {
            Some(HookError::NullArgument(Argument::Target))
        } else if hook_size > code.len() || target + code.len() > usize::MAX {
            Some(HookError::CapacityExceeded)
        } else {
            None
        }
    }

    /// A hook on the function at `target`, whose bytes from `target` on are
    /// `code`. The first `hook_size` bytes are captured as they are; nothing
    /// is written.
    pub fn new(arch: Architecture, target: usize, code: &'a mut [u8], hook_size: usize) -> (r: Result<
        InlineHook<'a>,
        HookError,
    >)
        ensures
            match Self::new_refusal(target, old(code)@, hook_size) {
                Some(e) => r == Err::<InlineHook<'a>, HookError>(e),
                None => r is Ok && r->Ok_0@ == (HookView {
                    arch,
                    target,
                    code: old(code)@,
                    original: old(code)@.take(hook_size as int),
                    trampoline: None,
                    state: HookState::Created,
                }),
            },
    {
        if target == 0 {
            return Err(HookError::NullArgument(Argument::Target));
        }
        let reach = code.len();
        if hook_size > reach || reach > usize::MAX - target {
            return Err(HookError::CapacityExceeded);
        }
        let mut original_bytes: Vec<u8> = Vec::new();
        let mut i: usize = 0;
        while i < hook_size
            invariant
                i <= hook_size <= reach,
                reach == code@.len(),
                code@ == old(code)@,
                original_bytes@ == code@.take(i as int),
            decreases hook_size - i,
        {
            original_bytes.push(code[i]);
            i += 1;
            assert(original_bytes@ =~= code@.take(i as int));
        }
        Ok(InlineHook { arch, target, code, original_bytes, trampoline: None, state: HookState::Created })
    }

    /// Lays `bytes` over the start of the target.
    fn patch(&mut self, bytes: &[u8])
        requires
            bytes@.len() <= old(self)@.code.len(),
        ensures
            final(self)@ == (HookView { code: overwrite(old(self)@.code, 0, bytes@), ..old(self)@ }),
    {
        proof {
            use_type_invariant(&*self);
        }
        let n = bytes.len();
        let reach = self.code.len();
        let mut i: usize = 0;
        assert(self.code@ =~= overwrite(self.code@, 0, bytes@.take(0)));
        while i < n
            invariant
                n == bytes@.len(),
                i <= n <= reach,
                reach == self.code@.len(),
                self@ == (HookView { code: overwrite(old(self)@.code, 0, bytes@.take(i as int)), ..old(self)@ }),
                old(self)@.wf(),
            decreases n - i,
        {
            self.code[i] = bytes[i];
            i += 1;
            assert(self.code@ =~= overwrite(old(self)@.code, 0, bytes@.take(i as int)));
        }
        assert(bytes@.take(n as int) =~= bytes@);
    }

    /// Overwrites the start of the target with a jump to `replacement`. The
    /// jump is encoded in full before the first byte of the target is
    /// touched, and the target is writable only while the jump is copied.
    pub fn install<H: Fn(&MemoryRequest) -> i32>(&mut self, replacement: usize, guard: &MemoryProtection<H>) -> (r:
        Result<(), HookError>)
        ensures
            install_spec(guard, old(self)@, replacement, final(self)@, r),
    {
        proof {
            use_type_invariant(&*self);
            reveal(install_spec);
        }
        if replacement == 0 {
            return Err(HookError::NullArgument(Argument::Replacement));
        }
        if self.state == HookState::Installed {
            return Err(HookError::AlreadyInstalled);
        }
        if !self.arch.has_jump_encoder() {
            return Err(HookError::UnsupportedArchitecture);
        }
        let size = X86Instruction::size_of_jump(replacement, self.target);
        if size > self.code.len() {
            return Err(HookError::CapacityExceeded);
        }
        match guard.make_writable(self.target, self.original_bytes.len()) {
            Err(e) => {
                return Err(e);
            },
            Ok(()) => {},
        }
        let mut jump_code = vec![0u8; size];
        X86Instruction::write_jump_address(jump_code.as_mut_slice(), 0, replacement, self.target);
        assert(jump_code@ =~= jump_bytes(replacement, self.target));
        self.patch(jump_code.as_slice());
        self.state = HookState::Installed;
        guard.make_executable(self.target, jump_code.len())
    }

    /// Writes the captured bytes back over the start of the target.
    pub fn uninstall<H: Fn(&MemoryRequest) -> i32>(&mut self, guard: &MemoryProtection<H>) -> (r: Result<
        (),
        HookError,
    >)
        ensures
            uninstall_spec(guard, old(self)@, final(self)@, r),
    {
        proof {
            use_type_invariant(&*self);
            reveal(uninstall_spec);
        }
        if self.state != HookState::Installed {
            return Err(HookError::NotInstalled);
        }
        match guard.make_writable(self.target, self.original_bytes.len()) {
            Err(e) => {
                return Err(e);
            },
            Ok(()) => {},
        }
        let bytes = self.original_bytes.clone();
        self.patch(bytes.as_slice());
        self.state = HookState::Uninstalled;
        guard.make_executable(self.target, self.original_bytes.len())
    }

    /// Builds the relocated original code in the allocation `memory`, whose
    /// first byte has the address `base`: the captured bytes, followed by a
    /// jump back to the first byte of the target behind them. The bytes are
    /// those captured when the hook was made, whatever the target holds by
    /// now.
    pub fn create_trampoline<H: Fn(&MemoryRequest) -> i32>(
        &mut self,
        base: usize,
        memory: &mut [u8],
        guard: &MemoryProtection<H>,
    ) -> (r: Result<usize, HookError>)
        ensures
            create_trampoline_spec(guard, old(self)@, base, old(memory)@, final(self)@, final(memory)@, r),
    {
        proof {
            use_type_invariant(&*self);
        }
        if !self.arch.has_jump_encoder() {
            return Err(HookError::UnsupportedArchitecture);
        }
        let mut tramp = match Trampoline::open(base, memory) {
            Ok(tramp) => tramp,
            Err(e) => {
                return Err(e);
            },
        };
        match tramp.append(self.original_bytes.as_slice()) {
            Ok(()) => {},
            Err(e) => {
                return Err(e);
            },
        }
        assert(tramp.spec_memory() =~= overwrite(old(memory)@, 0, self@.original));

        let return_addr = self.target + self.original_bytes.len();
        let tramp_addr = tramp.as_ptr() + tramp.len();
        let size = X86Instruction::size_of_jump(return_addr, tramp_addr);

        let mut jump_code = vec![0u8; size];
        X86Instruction::write_jump_address(jump_code.as_mut_slice(), 0, return_addr, tramp_addr);
        assert(jump_code@ =~= jump_bytes(return_addr, tramp_addr));
        match tramp.append(jump_code.as_slice()) {
            Ok(()) => {},
            Err(e) => {
                return Err(e);
            },
        }
        assert(tramp.spec_memory() =~= overwrite(old(memory)@, 0, self@.trampoline_code(base)));

        match tramp.seal(guard) {
            Ok(ptr) => {
                self.trampoline = Some(ptr);
                Ok(ptr)
            },
            Err(e) => Err(e),
        }
    }

    /// The bytes that were captured when the hook was made.
    pub fn original_bytes(&self) -> (bytes: &[u8])
        ensures
            bytes@ == self@.original,
    {
        self.original_bytes.as_slice()
    }

    /// The bytes at the target as they are now.
    pub fn code(&self) -> (bytes: &[u8])
        ensures
            bytes@ == self@.code,
    {
        &*self.code
    }

    /// The address of the relocated original code, once there is one.
    pub fn trampoline(&self) -> (addr: Option<usize>)
        ensures
            addr == self@.trampoline,
    {
        self.trampoline
    }

    /// The address of the first byte of the target.
    pub fn target(&self) -> (addr: usize)
        ensures
            addr == self@.target,
    {
        self.target
    }

    /// Where the hook stands in its life.
    pub fn state(&self) -> (state: HookState)
        ensures
            state == self@.state,
    {
        self.state
    }
}

/// The first failure among `results`, or success where there is none.
pub open spec fn first_error(results: Seq<Result<(), HookError>>) -> Result<(), HookError>
    decreases results.len(),
{
    if results.len() == 0 {
        Ok(())
    } else if first_error(results.drop_last()) is Err {
        first_error(results.drop_last())
    } else {
        results.last()
    }
}

/// Whether `install_all` may take the hooks of a chain from `pre` to `post`
/// with the result `r`. Nothing happens where the number of replacements is
/// not the number of hooks. Otherwise the hooks are installed in order up to
/// the first whose `install` fails: success means that every `install`
/// succeeded; a failure is that of one hook, every hook before which was
/// installed with success and every hook after which is as it was.
pub open spec fn install_all_spec<H: Fn(&MemoryRequest) -> i32>(
    guard: &MemoryProtection<H>,
    pre: Seq<HookView>,
    replacements: Seq<usize>,
    post: Seq<HookView>,
    r: Result<(), HookError>,
) -> bool {
    if pre.len() != replacements.len() {
        r == Err::<(), HookError>(HookError::CountMismatch) && post == pre
    } else {
        &&& post.len() == pre.len()
        &&& match r {
            Ok(()) => forall|i: int|
                0 <= i < pre.len() ==> install_spec(guard, pre[i], replacements[i], #[trigger] post[i], Ok(())),
            Err(e) => exists|k: int|
                {
                    &&& 0 <= k < pre.len()
                    &&& forall|i: int|
                        0 <= i < k ==> install_spec(guard, pre[i], replacements[i], #[trigger] post[i], Ok(()))
                    &&& install_spec(guard, pre[k], replacements[k], #[trigger] post[k], Err(e))
                    &&& forall|i: int| k < i < pre.len() ==> #[trigger] post[i] == pre[i]
                },
        }
    }
}

/// Whether `uninstall_all` may take the hooks of a chain from `pre` to
/// `post` with the result `r`: every hook went through `uninstall`, whatever
/// became of the hooks before it, and `r` is the first failure among the
/// results, or success.
pub open spec fn uninstall_all_spec<H: Fn(&MemoryRequest) -> i32>(
    guard: &MemoryProtection<H>,
    pre: Seq<HookView>,
    post: Seq<HookView>,
    r: Result<(), HookError>,
) -> bool {
    &&& post.len() == pre.len()
    &&& exists|results: Seq<Result<(), HookError>>|
        {
            &&& results.len() == pre.len()
            &&& forall|i: int|
                0 <= i < pre.len() ==> uninstall_spec(guard, pre[i], #[trigger] post[i], results[i])
            &&& r == first_error(results)
        }
}

/// A failure among `results` makes their first failure a failure.
proof fn lemma_first_error_is_err(results: Seq<Result<(), HookError>>, at: int)
    requires
        0 <= at < results.len(),
        results[at] is Err,
    ensures
        first_error(results) is Err,
    decreases results.len(),
{
    if at < results.len() - 1 {
        lemma_first_error_is_err(results.drop_last(), at);
    }
}

/// Installing a hook and uninstalling it next leaves the target as the hook
/// found it, byte for byte, where the jump is no longer than the bytes that
/// the hook captured and the target still held those bytes.
pub proof fn lemma_install_uninstall_round_trip<H: Fn(&MemoryRequest) -> i32>(
    guard: &MemoryProtection<H>,
    pre: HookView,
    replacement: usize,
    installed: HookView,
    uninstalled: HookView,
)
    requires
        pre.wf(),
        pre.code.take(pre.original.len() as int) == pre.original,
        jump_bytes(replacement, pre.target).len() <= pre.original.len(),
        install_spec(guard, pre, replacement, installed, Ok(())),
        uninstall_spec(guard, installed, uninstalled, Ok(())),
    ensures
        installed.state == HookState::Installed,
        installed.code == overwrite(pre.code, 0, jump_bytes(replacement, pre.target)),
        uninstalled.state == HookState::Uninstalled,
        uninstalled.code == pre.code,
{
    reveal(install_spec);
    reveal(uninstall_spec);
    assert(installed == pre.patched(replacement));
    assert(uninstalled == installed.restored());
    assert(uninstalled.code =~= pre.code);
}

/// What `install` leaves behind: on success the hook is patched; on failure
/// it is as it was, or, where the failure came only after the jump was
/// written, patched.
pub proof fn lemma_install_outcome<H: Fn(&MemoryRequest) -> i32>(
    guard: &MemoryProtection<H>,
    pre: HookView,
    replacement: usize,
    post: HookView,
    r: Result<(), HookError>,
)
    requires
        install_spec(guard, pre, replacement, post, r),
    ensures
        r is Ok ==> post == pre.patched(replacement),
        r is Err ==> post == pre || (r == Err::<(), HookError>(HookError::ProtectionFailure) && post
            == pre.patched(replacement)),
        pre.install_refusal(replacement) matches Some(e) ==> r == Err::<(), HookError>(e) && post == pre,
{
    reveal(install_spec);
}

/// What `uninstall` leaves behind: a hook that is not installed is refused
/// and stays as it was; an installed hook has its captured bytes back, or,
/// where the platform keeps its target from being written, is as it was.
pub proof fn lemma_uninstall_outcome<H: Fn(&MemoryRequest) -> i32>(
    guard: &MemoryProtection<H>,
    pre: HookView,
    post: HookView,
    r: Result<(), HookError>,
)
    requires
        uninstall_spec(guard, pre, post, r),
    ensures
        pre.state != HookState::Installed ==> post == pre && r == Err::<(), HookError>(HookError::NotInstalled),
        pre.state == HookState::Installed ==> post == pre.restored() || (post == pre && r is Err),
        r is Ok ==> post == pre.restored(),
{
    reveal(uninstall_spec);
}

/// Whether `installed` is what a failure of `install_all` at the hook at
/// index `k` leaves of `pre`: every hook before `k` is patched, every hook
/// behind `k` is as it was, and the hook at `k` is as it was or, where the
/// failure `e` came only after its jump was written, patched.
pub open spec fn stopped_at(
    pre: Seq<HookView>,
    replacements: Seq<usize>,
    e: HookError,
    installed: Seq<HookView>,
    k: int,
) -> bool {
    &&& 0 <= k < pre.len()
    &&& installed.len() == pre.len()
    &&& forall|i: int| 0 <= i < k ==> #[trigger] installed[i] == pre[i].patched(replacements[i])
    &&& forall|i: int| k < i < pre.len() ==> #[trigger] installed[i] == pre[i]
    &&& installed[k] == pre[k] || (e == HookError::ProtectionFailure && installed[k] == pre[k].patched(
        replacements[k],
    ))
}

/// A failed `install_all` stopped at one hook: the hooks before it are
/// installed, the hooks behind it are untouched.
pub proof fn lemma_failed_install_all<H: Fn(&MemoryRequest) -> i32>(
    guard: &MemoryProtection<H>,
    pre: Seq<HookView>,
    replacements: Seq<usize>,
    e: HookError,
    installed: Seq<HookView>,
)
    requires
        pre.len() == replacements.len(),
        install_all_spec(guard, pre, replacements, installed, Err(e)),
    ensures
        exists|k: int| stopped_at(pre, replacements, e, installed, k),
{
    let k = choose|k: int|
        {
            &&& 0 <= k < pre.len()
            &&& forall|i: int|
                0 <= i < k ==> install_spec(guard, pre[i], replacements[i], #[trigger] installed[i], Ok(()))
            &&& install_spec(guard, pre[k], replacements[k], #[trigger] installed[k], Err(e))
            &&& forall|i: int| k < i < pre.len() ==> #[trigger] installed[i] == pre[i]
        };
    assert forall|i: int| 0 <= i < k implies #[trigger] installed[i] == pre[i].patched(replacements[i]) by {
        lemma_install_outcome(guard, pre[i], replacements[i], installed[i], Ok(()));
    }
    lemma_install_outcome(guard, pre[k], replacements[k], installed[k], Err(e));
    assert(stopped_at(pre, replacements, e, installed, k));
}

/// What `uninstall_all` makes of a chain: a hook that is not installed is
/// left as it is, and makes the result a failure; an installed hook has its
/// captured bytes back, or is as it was; and where the result is success,
/// every hook has its captured bytes back.
pub proof fn lemma_uninstall_all_outcome<H: Fn(&MemoryRequest) -> i32>(
    guard: &MemoryProtection<H>,
    pre: Seq<HookView>,
    post: Seq<HookView>,
    r: Result<(), HookError>,
)
    requires
        uninstall_all_spec(guard, pre, post, r),
    ensures
        post.len() == pre.len(),
        forall|i: int|
            0 <= i < pre.len() && (#[trigger] pre[i]).state != HookState::Installed ==> post[i] == pre[i] && r
                is Err,
        forall|i: int|
            0 <= i < pre.len() && (#[trigger] pre[i]).state == HookState::Installed ==> post[i]
                == pre[i].restored() || post[i] == pre[i],
        r is Ok ==> forall|i: int| 0 <= i < pre.len() ==> #[trigger] post[i] == pre[i].restored(),
{
    let results = choose|results: Seq<Result<(), HookError>>|
        {
            &&& results.len() == pre.len()
            &&& forall|i: int|
                0 <= i < pre.len() ==> uninstall_spec(guard, pre[i], #[trigger] post[i], results[i])
            &&& r == first_error(results)
        };
    assert forall|i: int| 0 <= i < pre.len() && (#[trigger] pre[i]).state != HookState::Installed implies post[i]
        == pre[i] && r is Err by {
        assert(uninstall_spec(guard, pre[i], post[i], results[i]));
        lemma_uninstall_outcome(guard, pre[i], post[i], results[i]);
        lemma_first_error_is_err(results, i);
    }
    assert forall|i: int| 0 <= i < pre.len() && (#[trigger] pre[i]).state == HookState::Installed implies post[i]
        == pre[i].restored() || post[i] == pre[i] by {
        assert(uninstall_spec(guard, pre[i], post[i], results[i]));
        lemma_uninstall_outcome(guard, pre[i], post[i], results[i]);
    }
    if r is Ok {
        assert forall|i: int| 0 <= i < pre.len() implies #[trigger] post[i] == pre[i].restored() by {
            assert(uninstall_spec(guard, pre[i], post[i], results[i]));
            lemma_uninstall_outcome(guard, pre[i], post[i], results[i]);
            if results[i] is Err {
                lemma_first_error_is_err(results, i);
            }
        }
    }
}

/// A failed `install_all` followed by `uninstall_all`, on hooks none of
/// which was installed before. The install stopped at one hook, at an index
/// `k`. `uninstall_all` leaves the hooks behind `k` as they always were,
/// gives each hook before `k` its captured bytes back unless the platform
/// keeps its target from being written, and fails where a hook is left that
/// was not installed: the hook at `k`, unless its failure came only after
/// its jump was written, and every hook behind it.
pub proof fn lemma_partial_install_then_uninstall<H: Fn(&MemoryRequest) -> i32>(
    guard: &MemoryProtection<H>,
    pre: Seq<HookView>,
    replacements: Seq<usize>,
    e: HookError,
    installed: Seq<HookView>,
    r: Result<(), HookError>,
    uninstalled: Seq<HookView>,
)
    requires
        pre.len() == replacements.len(),
        forall|i: int| 0 <= i < pre.len() ==> (#[trigger] pre[i]).state != HookState::Installed,
        install_all_spec(guard, pre, replacements, installed, Err(e)),
        uninstall_all_spec(guard, installed, uninstalled, r),
    ensures
        exists|k: int|
            {
                &&& #[trigger] stopped_at(pre, replacements, e, installed, k)
                &&& forall|i: int|
                    0 <= i < k ==> #[trigger] uninstalled[i] == installed[i].restored() || uninstalled[i]
                        == installed[i]
                &&& forall|i: int| k < i < pre.len() ==> #[trigger] uninstalled[i] == pre[i]
                &&& installed[k] == pre[k] ==> uninstalled[k] == pre[k]
                &&& (installed[k] == pre[k] || k < pre.len() - 1) ==> r is Err
            },
{
    lemma_failed_install_all(guard, pre, replacements, e, installed);
    lemma_uninstall_all_outcome(guard, installed, uninstalled, r);
    let k = choose|k: int| stopped_at(pre, replacements, e, installed, k);
    assert forall|i: int| 0 <= i < k implies #[trigger] uninstalled[i] == installed[i].restored()
        || uninstalled[i] == installed[i] by {
        assert(installed[i] == pre[i].patched(replacements[i]));
        assert(installed[i].state == HookState::Installed);
    }
    assert forall|i: int| k < i < pre.len() implies #[trigger] uninstalled[i] == pre[i] by {
        assert(installed[i] == pre[i]);
        assert(pre[i].state != HookState::Installed);
    }
    if installed[k] == pre[k] {
        assert(pre[k].state != HookState::Installed);
    } else if k < pre.len() - 1 {
        assert(installed[k + 1] == pre[k + 1]);
        assert(pre[k + 1].state != HookState::Installed);
    }
}

/// Hooks that are installed and uninstalled together, in the order in which
/// they were added.
pub struct HookChain<'a> {
    hooks: Vec<InlineHook<'a>>,
}

impl<'a> View for HookChain<'a> {
    type V = Seq<HookView>;

    closed spec fn view(&self) -> Seq<HookView> {
        Seq::new(self.hooks@.len(), |i: int| self.hooks@[i]@)
    }
}

impl<'a> HookChain<'a> {
    /// A chain without hooks.
    pub fn new() -> (chain: Self)
        ensures
            chain@ == Seq::<HookView>::empty(),
    {
        let chain = HookChain { hooks: Vec::new() };
        assert(chain@ =~= Seq::<HookView>::empty());
        chain
    }

    /// Takes `hook` into the chain, behind the hooks that are there.
    pub fn add_hook(&mut self, hook: InlineHook<'a>)
        ensures
            final(self)@ == old(self)@.push(hook@),
    {
        self.hooks.push(hook);
        assert(self@ =~= old(self)@.push(hook@));
    }

    /// Installs the hooks in order, the hook at index `i` with the
    /// replacement at index `i`, and stops at the first that fails. The
    /// hooks before it stay installed.
    pub fn install_all<H: Fn(&MemoryRequest) -> i32>(
        &mut self,
        replacements: &[usize],
        guard: &MemoryProtection<H>,
    ) -> (r: Result<(), HookError>)
        ensures
            install_all_spec(guard, old(self)@, replacements@, final(self)@, r),
    {
        let n = self.hooks.len();
        if n != replacements.len() {
            return Err(HookError::CountMismatch);
        }
        let mut i: usize = 0;
        while i < n
            invariant
                i <= n,
                n == self.hooks@.len(),
                n == old(self).hooks@.len(),
                n == replacements@.len(),
                forall|j: int|
                    0 <= j < i ==> install_spec(
                        guard,
                        old(self).hooks@[j]@,
                        replacements@[j],
                        #[trigger] self.hooks@[j]@,
                        Ok(()),
                    ),
                forall|j: int| i <= j < n ==> #[trigger] self.hooks@[j] == old(self).hooks@[j],
            decreases n - i,
        {
            let ghost before = self.hooks@;
            let result = self.hooks[i].install(replacements[i], guard);
            assert(self.hooks@ == before.update(i as int, self.hooks@[i as int]));
            assert(install_spec(
                guard,
                old(self).hooks@[i as int]@,
                replacements@[i as int],
                self.hooks@[i as int]@,
                result,
            ));
            match result {
                Ok(()) => {
                    assert(result->Ok_0 == ());
                },
                Err(e) => {
                    proof {
                        let k = i as int;
                        assert(forall|j: int| 0 <= j < n ==> #[trigger] self@[j] == self.hooks@[j]@);
                        assert(forall|j: int| 0 <= j < n ==> #[trigger] old(self)@[j] == old(self).hooks@[j]@);
                        assert(install_spec(guard, old(self)@[k], replacements@[k], self@[k], Err(e)));
                        assert(forall|j: int| k < j < n ==> #[trigger] self@[j] == old(self)@[j]);
                    }
                    return Err(e);
                },
            }
            i += 1;
        }
        proof {
            assert(forall|j: int| 0 <= j < n ==> #[trigger] self@[j] == self.hooks@[j]@);
            assert(forall|j: int| 0 <= j < n ==> #[trigger] old(self)@[j] == old(self).hooks@[j]@);
        }
        Ok(())
    }

    /// Uninstalls every hook, whatever becomes of the hooks before it, and
    /// gives the first failure, if there was one.
    pub fn uninstall_all<H: Fn(&MemoryRequest) -> i32>(&mut self, guard: &MemoryProtection<H>) -> (r: Result<
        (),
        HookError,
    >)
        ensures
            uninstall_all_spec(guard, old(self)@, final(self)@, r),
    {
        let n = self.hooks.len();
        let mut first: Result<(), HookError> = Ok(());
        let ghost mut results: Seq<Result<(), HookError>> = Seq::empty();
        let mut i: usize = 0;
        while i < n
            invariant
                i <= n,
                n == self.hooks@.len(),
                n == old(self).hooks@.len(),
                results.len() == i,
                forall|j: int|
                    0 <= j < i ==> uninstall_spec(
                        guard,
                        old(self).hooks@[j]@,
                        #[trigger] self.hooks@[j]@,
                        results[j],
                    ),
                forall|j: int| i <= j < n ==> #[trigger] self.hooks@[j] == old(self).hooks@[j],
                first == first_error(results),
            decreases n - i,
        {
            let ghost before = self.hooks@;
            let result = self.hooks[i].uninstall(guard);
            assert(self.hooks@ == before.update(i as int, self.hooks@[i as int]));
            assert(uninstall_spec(guard, old(self).hooks@[i as int]@, self.hooks@[i as int]@, result));
            proof {
                assert(results.push(result).drop_last() =~= results);
                results = results.push(result);
            }
            if first.is_ok() {
                first = result;
            }
            i += 1;
        }
        proof {
            assert(forall|j: int| 0 <= j < n ==> #[trigger] self@[j] == self.hooks@[j]@);
            assert(forall|j: int| 0 <= j < n ==> #[trigger] old(self)@[j] == old(self).hooks@[j]@);
            assert(forall|j: int|
                0 <= j < n ==> uninstall_spec(guard, old(self)@[j], #[trigger] self@[j], results[j]));
        }
        first
    }

    /// The number of hooks.
    pub fn len(&self) -> (n: usize)
        ensures
            n == self@.len(),
    {
        self.hooks.len()
    }

    /// Whether the chain has no hooks.
    pub fn is_empty(&self) -> (empty: bool)
        ensures
            empty == (self@.len() == 0),
    {
        self.hooks.len() == 0
    }

    /// The hook at `index`, if there is one.
    pub fn get(&self, index: usize) -> (hook: Option<&InlineHook<'a>>)
        ensures
            index >= self@.len() ==> hook is None,
            index < self@.len() ==> hook is Some && hook->Some_0@ == self@[index as int],
    {
        if index < self.hooks.len() {
            Some(&self.hooks[index])
        } else {
            None
        }
    }
}

impl<'a> Default for HookChain<'a> {
    fn default() -> (chain: Self)
        ensures
            chain@ == Seq::<HookView>::empty(),
    {
        Self::new()
    }
}

} // verus!
