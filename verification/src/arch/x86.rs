//! Jump, call and register instructions for x86 and x86-64.
//!
//! Every encoder writes into a caller's buffer at an offset and returns the
//! number of bytes it wrote. What it writes is given by a spec function of
//! its operands alone, so a caller can size a patch before encoding it.

use vstd::prelude::*;
use crate::bytes::{le_bytes32, le_bytes64, lemma_overwrite_extend, overwrite, put_le32};
use crate::disasm::{DisassembledInstruction, Disassembler, RawInstruction};

verus! {

/// Whether addresses are 32 bits wide. A relative jump then reaches every
/// address.
pub const IS_32BIT: bool = usize::BITS == 32;

/// The general purpose registers, in the order of their encoding.
#[allow(non_camel_case_types)]
#[derive(Debug, Clone, Copy, PartialEq, Eq, Structural)]
pub enum X86Register {
    RAX,
    RCX,
    RDX,
    RBX,
    RSP,
    RBP,
    RSI,
    RDI,
    R8,
    R9,
    R10,
    R11,
    R12,
    R13,
    R14,
    R15,
}

impl X86Register {
    /// The number that encodes the register, 0 to 15.
    pub open spec fn spec_index(self) -> u8 {
        match self {
            X86Register::RAX => 0,
            X86Register::RCX => 1,
            X86Register::RDX => 2,
            X86Register::RBX => 3,
            X86Register::RSP => 4,
            X86Register::RBP => 5,
            X86Register::RSI => 6,
            X86Register::RDI => 7,
            X86Register::R8 => 8,
            X86Register::R9 => 9,
            X86Register::R10 => 10,
            X86Register::R11 => 11,
            X86Register::R12 => 12,
            X86Register::R13 => 13,
            X86Register::R14 => 14,
            X86Register::R15 => 15,
        }
    }

    /// The number that encodes the register, 0 to 15.
    #[verifier::when_used_as_spec(spec_index)]
    pub fn index(self) -> (i: u8)
        ensures
            i == self.spec_index(),
            i < 16,
    {
        match self {
            X86Register::RAX => 0,
            X86Register::RCX => 1,
            X86Register::RDX => 2,
            X86Register::RBX => 3,
            X86Register::RSP => 4,
            X86Register::RBP => 5,
            X86Register::RSI => 6,
            X86Register::RDI => 7,
            X86Register::R8 => 8,
            X86Register::R9 => 9,
            X86Register::R10 => 10,
            X86Register::R11 => 11,
            X86Register::R12 => 12,
            X86Register::R13 => 13,
            X86Register::R14 => 14,
            X86Register::R15 => 15,
        }
    }
}

/// How control is transferred to a target.
#[derive(Debug, Clone, Copy, PartialEq, Eq, Structural)]
pub enum JumpStrategy {
    /// One instruction with a 32-bit displacement relative to its own end.
    Near,
    /// The absolute target is pushed on the stack and a return transfers to
    /// it.
    Far,
}

/// The shape of a jump: its encoding strategy and the bytes it takes.
#[derive(Debug, Clone, Copy, PartialEq, Eq, Structural)]
pub struct JumpPlan {
    pub size: usize,
    pub strategy: JumpStrategy,
}

/// The number of distinct addresses: 2^32 or 2^64.
pub open spec fn address_span() -> int {
    usize::MAX as int + 1
}

/// The distance from `source` to `target` as the processor sees it: the
/// difference of the two addresses, wrapped into the signed range of an
/// address.
pub open spec fn signed_distance(target: usize, source: usize) -> int {
    let d = target as int - source as int;
    if 2 * d >= address_span() {
        d - address_span()
    } else if 2 * d < -address_span() {
        d + address_span()
    } else {
        d
    }
}

/// Whether the distance from `source` to `target` can be held in a signed
/// 32-bit displacement.
pub open spec fn spec_is_32bit_offset(target: usize, source: usize) -> bool {
    -0x8000_0000 <= signed_distance(target, source) <= 0x7fff_ffff
}

/// The address that follows a five byte instruction at `source`, which is
/// the address its displacement is relative to.
pub open spec fn end_of_near(source: usize) -> usize {
    if source + 5 > usize::MAX {
        (source + 5 - address_span()) as usize
    } else {
        (source + 5) as usize
    }
}

/// Whether a jump or call from `source` to `target` takes the near form.
pub open spec fn is_near(target: usize, source: usize) -> bool {
    usize::BITS == 32 || spec_is_32bit_offset(target, end_of_near(source))
}

/// The displacement field of a near jump or call from `source` to `target`,
/// as an unsigned bit pattern.
pub open spec fn rel32(target: usize, source: usize) -> u32 {
    ((target as int - end_of_near(source) as int) % 0x1_0000_0000) as u32
}

/// The unsigned 32-bit number with the bit pattern of `x` in two's
/// complement.
pub open spec fn twos_complement32(x: i32) -> u32 {
    (x as int % 0x1_0000_0000) as u32
}

/// A relative jump over `size` bytes: the opcode `e9` and the displacement.
pub open spec fn skip_bytes(size: i32) -> Seq<u8> {
    seq![0xe9u8] + le_bytes32(twos_complement32(size))
}

/// The low half of an address.
pub open spec fn low32(target: usize) -> u32 {
    (target as int % 0x1_0000_0000) as u32
}

/// The high half of an address; zero where addresses are 32 bits wide.
pub open spec fn high32(target: usize) -> u32 {
    (target as int / 0x1_0000_0000) as u32
}

/// `push imm32` with the low half of `target`, followed, where the high
/// half is not zero, by `mov dword [rsp+4], imm32` with the high half.
pub open spec fn push_pointer_bytes(target: usize) -> Seq<u8> {
    if high32(target) == 0 {
        seq![0x68u8] + le_bytes32(low32(target))
    } else {
        seq![0x68u8] + le_bytes32(low32(target)) + seq![0xc7u8, 0x44u8, 0x24u8, 0x04u8]
            + le_bytes32(high32(target))
    }
}

/// A jump from `source` to `target`: near where the target is in reach, else
/// the pushed target and `ret`.
pub open spec fn jump_bytes(target: usize, source: usize) -> Seq<u8> {
    if is_near(target, source) {
        seq![0xe9u8] + le_bytes32(rel32(target, source))
    } else {
        push_pointer_bytes(target) + seq![0xc3u8]
    }
}

/// The plan of a jump from `source` to `target`: the strategy, and the
/// number of bytes that the jump takes.
pub open spec fn spec_plan_jump(target: usize, source: usize) -> JumpPlan {
    JumpPlan {
        size: jump_bytes(target, source).len() as usize,
        strategy: if is_near(target, source) {
            JumpStrategy::Near
        } else {
            JumpStrategy::Far
        },
    }
}

/// A call from `source` to `target`: near where the target is in reach, else
/// the pushed target, `add esp, 8` and an indirect call through the slot
/// that was just left.
pub open spec fn call_bytes(target: usize, source: usize) -> Seq<u8> {
    if is_near(target, source) {
        seq![0xe8u8] + le_bytes32(rel32(target, source))
    } else {
        push_pointer_bytes(target) + seq![0x83u8, 0xc4u8, 0x08u8]
            + seq![0x67u8, 0xffu8, 0x54u8, 0x24u8, 0xf8u8]
    }
}

/// The prefix byte that carries the fourth bit of a register number. It is
/// there only for the numbers above 7.
pub open spec fn register_prefix(reg: u8) -> Seq<u8> {
    if reg >= 8 {
        seq![(0x40 + reg / 8 % 2) as u8]
    } else {
        Seq::empty()
    }
}

/// `call reg`.
pub open spec fn call_register_bytes(reg: u8) -> Seq<u8> {
    register_prefix(reg) + seq![0xffu8, (0xd0 + reg % 8) as u8]
}

/// `jmp reg`.
pub open spec fn jump_register_bytes(reg: u8) -> Seq<u8> {
    register_prefix(reg) + seq![0xffu8, (0xe0 + reg % 8) as u8]
}

/// `pop reg`.
pub open spec fn pop_bytes(reg: u8) -> Seq<u8> {
    register_prefix(reg) + seq![(0x58 + reg % 8) as u8]
}

/// `push reg`.
pub open spec fn push_bytes(reg: u8) -> Seq<u8> {
    register_prefix(reg) + seq![(0x50 + reg % 8) as u8]
}

/// `add reg, imm8` in the form whose second byte starts from `c4`.
pub open spec fn add_bytes(reg: u8, value: u8) -> Seq<u8> {
    seq![0x83u8, 0xc4u8 | (reg & 0x07u8), value]
}

/// `mov reg, imm64`.
pub open spec fn set64_bytes(reg: u8, value: u64) -> Seq<u8> {
    seq![(0x48 + 4 * (reg / 8 % 2)) as u8, (0xb8 + reg % 8) as u8] + le_bytes64(value)
}

/// `mov target, source` between 64-bit registers.
pub open spec fn move64_bytes(source: u8, target: u8) -> Seq<u8> {
    seq![
        (0x48 + 4 * (target / 8 % 2) + source / 8 % 2) as u8,
        0x8bu8,
        (8 * (target % 8) + source % 8) as u8,
    ]
}

/// Addresses are 32 or 64 bits wide, and the span follows the width.
pub proof fn lemma_address_span()
    ensures
        usize::BITS == 32 ==> address_span() == 0x1_0000_0000,
        usize::BITS != 32 ==> usize::BITS == 64 && address_span() == 0x1_0000_0000_0000_0000,
{
    assert(usize::BITS == 32 || usize::BITS == 64);
    assert(usize::BITS == 32 ==> usize::MAX == 0xffff_ffff);
    assert(usize::BITS == 64 ==> usize::MAX == 0xffff_ffff_ffff_ffff);
}

/// Where addresses are 64 bits wide, a jump is near exactly when the
/// distance from the end of a near jump at `source` to `target` fits a
/// signed 32-bit number, and one byte beyond either end of that range the
/// jump is far. Where addresses are 32 bits wide, every jump is near.
pub proof fn lemma_near_far_boundary(target: usize, source: usize)
    requires
        source + 5 <= usize::MAX,
    ensures
        usize::BITS == 32 ==> is_near(target, source),
        usize::BITS == 64 && -0x8000_0000_0000_0000 <= target - (source + 5) < 0x8000_0000_0000_0000 ==> (is_near(
            target,
            source,
        ) <==> -0x8000_0000 <= target - (source + 5) <= 0x7fff_ffff),
        usize::BITS == 64 && target - (source + 5) == 0x7fff_ffff && target < usize::MAX ==> is_near(
            target,
            source,
        ) && !is_near((target + 1) as usize, source),
        usize::BITS == 64 && target - (source + 5) == -0x8000_0000 && target > 0 ==> is_near(target, source)
            && !is_near((target - 1) as usize, source),
{
    lemma_address_span();
}

proof fn lemma_register_bits(reg: u8)
    by (bit_vector)
    ensures
        (reg >> 3 != 0) == (reg >= 8),
        0x40u8 | ((reg & 0x08u8) >> 3) == 0x40 + reg / 8 % 2,
        0xd0u8 | (reg & 0x07u8) == 0xd0 + reg % 8,
        0xe0u8 | (reg & 0x07u8) == 0xe0 + reg % 8,
        0x58u8 | (reg & 0x07u8) == 0x58 + reg % 8,
        0x50u8 | (reg & 0x07u8) == 0x50 + reg % 8,
        0xb8u8 | (reg & 0x07u8) == 0xb8 + reg % 8,
        0x48u8 | (((reg & 0x08u8) >> 3) << 2) == 0x48 + 4 * (reg / 8 % 2),
{
}

proof fn lemma_move_bits(source: u8, target: u8)
    by (bit_vector)
    ensures
        0x48u8 | (((target & 0x08u8) >> 3) << 2) | ((source & 0x08u8) >> 3) == 0x48 + 4 * (target / 8
            % 2) + source / 8 % 2,
        ((target & 0x07u8) << 3) | (source & 0x07u8) == 8 * (target % 8) + source % 8,
{
}

/// The encoders. The type has no value: its functions are the interface.
pub struct X86Instruction;

impl X86Instruction {
    /// Whether the distance from `source` to `target` fits a signed 32-bit
    /// displacement.
    pub fn is_32bit_offset(target: usize, source: usize) -> (fits: bool)
        ensures
            fits == spec_is_32bit_offset(target, source),
    {
        proof {
            lemma_address_span();
        }
        let wrapped = target.wrapping_sub(source);
        IS_32BIT || wrapped <= 0x7fff_ffff || wrapped >= usize::MAX - 0x7fff_ffff
    }

    /// The size of a relative jump.
    pub fn size_of_skip() -> (size: usize)
        ensures
            size == 5,
    {
        5
    }

    /// The size of the sequence that pushes `target`.
    pub fn size_of_push_pointer(target: usize) -> (size: usize)
        ensures
            size == push_pointer_bytes(target).len(),
            size == if (target as int) < 0x1_0000_0000 { 5int } else { 13int },
    {
        if target as u64 <= 0xffff_ffff {
            5
        } else {
            13
        }
    }

    /// The size of a jump to `target` from an address that is not known:
    /// near only where every address is in reach.
    pub fn size_of_jump_blind(target: usize) -> (size: usize)
        ensures
            size == if usize::BITS == 32 { 5nat } else { push_pointer_bytes(target).len() + 1 },
    {
        if IS_32BIT {
            Self::size_of_skip()
        } else {
            Self::size_of_push_pointer(target) + 1
        }
    }

    /// Chooses the encoding of a jump from `source` to `target`: near where
    /// addresses are 32 bits wide or the target lies within a signed 32-bit
    /// displacement of the end of a near jump at `source`, far otherwise.
    pub fn plan_jump(target: usize, source: usize) -> (plan: JumpPlan)
        ensures
            plan == spec_plan_jump(target, source),
            plan.strategy == JumpStrategy::Near ==> plan.size == 5,
            plan.strategy == JumpStrategy::Far ==> plan.size == 6 || plan.size == 14,
    {
        match near_displacement(target, source) {
            Some(_) => JumpPlan { size: Self::size_of_skip(), strategy: JumpStrategy::Near },
            None => JumpPlan { size: Self::size_of_push_pointer(target) + 1, strategy: JumpStrategy::Far },
        }
    }

    /// The number of bytes that a jump from `source` to `target` takes.
    pub fn size_of_jump(target: usize, source: usize) -> (size: usize)
        ensures
            size == spec_plan_jump(target, source).size,
            size == jump_bytes(target, source).len(),
            size == 5 || size == 6 || size == 14,
            is_near(target, source) <==> size == 5,
    {
        Self::plan_jump(target, source).size
    }

    /// Writes a relative jump over `size` bytes at `buffer[offset..]`.
    pub fn write_skip(buffer: &mut [u8], offset: usize, size: i32)
        requires
            offset + 5 <= old(buffer)@.len(),
        ensures
            final(buffer)@ == overwrite(old(buffer)@, offset as int, skip_bytes(size)),
    {
        let pattern: u32 = if size >= 0 {
            size as u32
        } else {
            (size as i64 + 0x1_0000_0000) as u32
        };
        write_relative(buffer, offset, 0xe9, pattern);
    }

    /// Writes the sequence that pushes `target` at `buffer[offset..]` and
    /// returns its length.
    pub fn write_push_pointer(buffer: &mut [u8], offset: usize, target: usize) -> (written: usize)
        requires
            offset + push_pointer_bytes(target).len() <= old(buffer)@.len(),
        ensures
            written == push_pointer_bytes(target).len(),
            final(buffer)@ == overwrite(old(buffer)@, offset as int, push_pointer_bytes(target)),
    {
        let total = buffer.len();
        let ghost at = offset as int;
        let low = (target as u64 % 0x1_0000_0000) as u32;
        let high = (target as u64 / 0x1_0000_0000) as u32;
        write_relative(buffer, offset, 0x68, low);
        if high == 0 {
            return 5;
        }
        let ghost pushed = buffer@;
        buffer[offset + 5] = 0xc7;
        buffer[offset + 6] = 0x44;
        buffer[offset + 7] = 0x24;
        buffer[offset + 8] = 0x04;
        assert(buffer@ =~= overwrite(pushed, at + 5, seq![0xc7u8, 0x44u8, 0x24u8, 0x04u8]));
        let ghost moved = buffer@;
        put_le32(buffer, offset + 9, high);
        proof {
            let push = seq![0x68u8] + le_bytes32(low);
            let mov = seq![0xc7u8, 0x44u8, 0x24u8, 0x04u8];
            lemma_overwrite_extend(old(buffer)@, at, push, mov);
            lemma_overwrite_extend(old(buffer)@, at, push + mov, le_bytes32(high));
        }
        13
    }

    /// Writes `call reg` at `buffer[offset..]` and returns its length.
    pub fn write_call_register(buffer: &mut [u8], offset: usize, target: X86Register) -> (written: usize)
        requires
            offset + call_register_bytes(target.index()).len() <= old(buffer)@.len(),
        ensures
            written == call_register_bytes(target.index()).len(),
            final(buffer)@ == overwrite(old(buffer)@, offset as int, call_register_bytes(target.index())),
    {
        let total = buffer.len();
        let mut pos = offset;
        let reg = target.index();
        proof {
            lemma_register_bits(reg);
        }
        if (reg >> 3) != 0 {
            buffer[pos] = 0x40 | ((reg & 0x08) >> 3);
            pos += 1;
        }
        buffer[pos] = 0xff;
        buffer[pos + 1] = 0xd0 | (reg & 0x07);
        assert(buffer@ =~= overwrite(old(buffer)@, offset as int, call_register_bytes(reg)));
        pos + 2 - offset
    }

    /// Writes a call from `source` to `target` at `buffer[offset..]` and
    /// returns its length.
    pub fn write_call_address(buffer: &mut [u8], offset: usize, target: usize, source: usize) -> (written: usize)
        requires
            offset + call_bytes(target, source).len() <= old(buffer)@.len(),
        ensures
            written == call_bytes(target, source).len(),
            final(buffer)@ == overwrite(old(buffer)@, offset as int, call_bytes(target, source)),
    {
        let total = buffer.len();
        if let Some(rel) = near_displacement(target, source) {
            write_relative(buffer, offset, 0xe8, rel);
            5
        } else {
            let ghost at = offset as int;
            let mut pos = offset;
            pos += Self::write_push_pointer(buffer, pos, target);
            let ghost pushed = buffer@;
            buffer[pos] = 0x83;
            buffer[pos + 1] = 0xc4;
            buffer[pos + 2] = 0x08;
            assert(buffer@ =~= overwrite(pushed, pos as int, seq![0x83u8, 0xc4u8, 0x08u8]));
            pos += 3;
            let ghost adjusted = buffer@;
            buffer[pos] = 0x67;
            buffer[pos + 1] = 0xff;
            buffer[pos + 2] = 0x54;
            buffer[pos + 3] = 0x24;
            buffer[pos + 4] = 0xf8;
            assert(buffer@ =~= overwrite(adjusted, pos as int, seq![0x67u8, 0xffu8, 0x54u8, 0x24u8, 0xf8u8]));
            proof {
                let push = push_pointer_bytes(target);
                let add = seq![0x83u8, 0xc4u8, 0x08u8];
                lemma_overwrite_extend(old(buffer)@, at, push, add);
                lemma_overwrite_extend(old(buffer)@, at, push + add, seq![0x67u8, 0xffu8, 0x54u8, 0x24u8, 0xf8u8]);
            }
            pos + 5 - offset
        }
    }

    /// Writes a jump from `source` to `target` at `buffer[offset..]` and
    /// returns its length, which is the one that `plan_jump` and
    /// `size_of_jump` give.
    pub fn write_jump_address(buffer: &mut [u8], offset: usize, target: usize, source: usize) -> (written: usize)
        requires
            offset + jump_bytes(target, source).len() <= old(buffer)@.len(),
        ensures
            written == spec_plan_jump(target, source).size,
            written == jump_bytes(target, source).len(),
            final(buffer)@ == overwrite(old(buffer)@, offset as int, jump_bytes(target, source)),
    {
        let total = buffer.len();
        if let Some(rel) = near_displacement(target, source) {
            write_relative(buffer, offset, 0xe9, rel);
            5
        } else {
            let mut pos = offset;
            pos += Self::write_push_pointer(buffer, pos, target);
            let ghost pushed = buffer@;
            buffer[pos] = 0xc3;
            assert(buffer@ =~= overwrite(pushed, pos as int, seq![0xc3u8]));
            proof {
                lemma_overwrite_extend(old(buffer)@, offset as int, push_pointer_bytes(target), seq![0xc3u8]);
            }
            pos + 1 - offset
        }
    }

    /// Writes `jmp reg` at `buffer[offset..]` and returns its length.
    pub fn write_jump_register(buffer: &mut [u8], offset: usize, target: X86Register) -> (written: usize)
        requires
            offset + jump_register_bytes(target.index()).len() <= old(buffer)@.len(),
        ensures
            written == jump_register_bytes(target.index()).len(),
            final(buffer)@ == overwrite(old(buffer)@, offset as int, jump_register_bytes(target.index())),
    {
        let total = buffer.len();
        let mut pos = offset;
        let reg = target.index();
        proof {
            lemma_register_bits(reg);
        }
        if (reg >> 3) != 0 {
            buffer[pos] = 0x40 | ((reg & 0x08) >> 3);
            pos += 1;
        }
        buffer[pos] = 0xff;
        buffer[pos + 1] = 0xe0 | (reg & 0x07);
        assert(buffer@ =~= overwrite(old(buffer)@, offset as int, jump_register_bytes(reg)));
        pos + 2 - offset
    }

    /// Writes `pop` of the register numbered `target` at `buffer[offset..]`
    /// and returns its length.
    pub fn write_pop(buffer: &mut [u8], offset: usize, target: u8) -> (written: usize)
        requires
            offset + pop_bytes(target).len() <= old(buffer)@.len(),
        ensures
            written == pop_bytes(target).len(),
            final(buffer)@ == overwrite(old(buffer)@, offset as int, pop_bytes(target)),
    {
        let total = buffer.len();
        let mut pos = offset;
        proof {
            lemma_register_bits(target);
        }
        if (target >> 3) != 0 {
            buffer[pos] = 0x40 | ((target & 0x08) >> 3);
            pos += 1;
        }
        buffer[pos] = 0x58 | (target & 0x07);
        assert(buffer@ =~= overwrite(old(buffer)@, offset as int, pop_bytes(target)));
        pos + 1 - offset
    }

    /// The number of bytes that `pop` of the register numbered `target`
    /// takes.
    pub fn size_of_pop(target: u8) -> (size: usize)
        ensures
            size == pop_bytes(target).len(),
            size == if target >= 8 { 2int } else { 1int },
    {
        proof {
            lemma_register_bits(target);
        }
        if (target >> 3) != 0 {
            2
        } else {
            1
        }
    }

    /// Writes `push reg` at `buffer[offset..]` and returns its length.
    pub fn write_push(buffer: &mut [u8], offset: usize, target: X86Register) -> (written: usize)
        requires
            offset + push_bytes(target.index()).len() <= old(buffer)@.len(),
        ensures
            written == push_bytes(target.index()).len(),
            final(buffer)@ == overwrite(old(buffer)@, offset as int, push_bytes(target.index())),
    {
        let total = buffer.len();
        let mut pos = offset;
        let reg = target.index();
        proof {
            lemma_register_bits(reg);
        }
        if (reg >> 3) != 0 {
            buffer[pos] = 0x40 | ((reg & 0x08) >> 3);
            pos += 1;
        }
        buffer[pos] = 0x50 | (reg & 0x07);
        assert(buffer@ =~= overwrite(old(buffer)@, offset as int, push_bytes(reg)));
        pos + 1 - offset
    }

    /// Writes `add reg, value` at `buffer[offset..]` and returns its length.
    pub fn write_add(buffer: &mut [u8], offset: usize, target: X86Register, value: u8) -> (written: usize)
        requires
            offset + 3 <= old(buffer)@.len(),
        ensures
            written == 3,
            final(buffer)@ == overwrite(old(buffer)@, offset as int, add_bytes(target.index(), value)),
    {
        let total = buffer.len();
        buffer[offset] = 0x83;
        buffer[offset + 1] = 0xc4 | (target.index() & 0x07);
        buffer[offset + 2] = value;
        assert(buffer@ =~= overwrite(old(buffer)@, offset as int, add_bytes(target.index(), value)));
        3
    }

    /// Writes `mov reg, value` with a 64-bit immediate at `buffer[offset..]`
    /// and returns its length.
    pub fn write_set64(buffer: &mut [u8], offset: usize, target: X86Register, value: u64) -> (written: usize)
        requires
            offset + 10 <= old(buffer)@.len(),
        ensures
            written == 10,
            final(buffer)@ == overwrite(old(buffer)@, offset as int, set64_bytes(target.index(), value)),
    {
        let total = buffer.len();
        let reg = target.index();
        proof {
            lemma_register_bits(reg);
        }
        buffer[offset] = 0x48 | (((reg & 0x08) >> 3) << 2);
        buffer[offset + 1] = 0xb8 | (reg & 0x7);
        put_le32(buffer, offset + 2, (value % 0x1_0000_0000) as u32);
        put_le32(buffer, offset + 6, (value / 0x1_0000_0000) as u32);
        assert(buffer@ =~= overwrite(old(buffer)@, offset as int, set64_bytes(reg, value)));
        10
    }

    /// Writes a 64-bit move from the register numbered `source` to the one
    /// numbered `target` at `buffer[offset..]` and returns its length.
    pub fn write_move64(buffer: &mut [u8], offset: usize, source: u8, target: u8) -> (written: usize)
        requires
            offset + 3 <= old(buffer)@.len(),
        ensures
            written == 3,
            final(buffer)@ == overwrite(old(buffer)@, offset as int, move64_bytes(source, target)),
    {
        let total = buffer.len();
        proof {
            lemma_move_bits(source, target);
        }
        buffer[offset] = 0x48 | (((target & 0x08) >> 3) << 2) | ((source & 0x08) >> 3);
        buffer[offset + 1] = 0x8b;
        buffer[offset + 2] = ((target & 0x07) << 3) | (source & 0x07);
        assert(buffer@ =~= overwrite(old(buffer)@, offset as int, move64_bytes(source, target)));
        3
    }

    /// The size of a 64-bit register move.
    pub fn size_of_move64() -> (size: usize)
        ensures
            size == 3,
    {
        3
    }
}

/// The width of the instruction that `start` begins with, or 0 where the
/// bytes are no instruction.
pub fn get_instruction_width<D: Fn(&[u8]) -> RawInstruction>(start: &[u8], disassembler: &Disassembler<D>) -> (width:
    usize)
    ensures
        exists|r: Option<DisassembledInstruction>| #[trigger]
            disassembler.may_decode(start@, r) && width == (match r {
                Some(instruction) => instruction.length,
                None => 0,
            }),
        width <= 15,
        width <= start@.len(),
{
    disassembler.instruction_length(start)
}

/// The displacement of a near jump or call from `source` to `target`, or
/// nothing where the transfer has to be far.
fn near_displacement(target: usize, source: usize) -> (rel: Option<u32>)
    ensures
        rel is Some <==> is_near(target, source),
        rel is Some ==> rel == Some(rel32(target, source)),
{
    proof {
        lemma_address_span();
    }
    let next = source.wrapping_add(5);
    assert(next == end_of_near(source));
    if IS_32BIT || X86Instruction::is_32bit_offset(target, next) {
        let wrapped = target.wrapping_sub(next);
        let low = (wrapped as u64 % 0x1_0000_0000) as u32;
        assert(low == rel32(target, source)) by {
            let d = target as int - next as int;
            if d < 0 {
                assert(wrapped == d + address_span());
                if usize::BITS == 32 {
                    assert((d + 0x1_0000_0000) % 0x1_0000_0000 == d % 0x1_0000_0000);
                } else {
                    assert((d + 0x1_0000_0000_0000_0000) % 0x1_0000_0000 == d % 0x1_0000_0000);
                }
            }
        }
        Some(low)
    } else {
        None
    }
}

/// Writes one opcode byte and a 32-bit field after it.
fn write_relative(buffer: &mut [u8], offset: usize, opcode: u8, field: u32)
    requires
        offset + 5 <= old(buffer)@.len(),
    ensures
        final(buffer)@ == overwrite(old(buffer)@, offset as int, seq![opcode] + le_bytes32(field)),
{
    let total = buffer.len();
    buffer[offset] = opcode;
    put_le32(buffer, offset + 1, field);
    assert(buffer@ =~= overwrite(old(buffer)@, offset as int, seq![opcode] + le_bytes32(field)));
}

} // verus!
