//! Instruction words for 32-bit ARM, in ARM state and in Thumb state.
//!
//! Each builder is a function of its operand fields to one instruction
//! word. The words are used to put together the short veneers that lead
//! from a hook to relocated code.

use vstd::prelude::*;
use crate::disasm::{InstructionData, RawInstruction};

verus! {

/// The core registers, in the order of their encoding.
#[derive(Debug, Clone, Copy, PartialEq, Eq, Structural)]
pub enum ArmRegister {
    R0,
    R1,
    R2,
    R3,
    R4,
    R5,
    R6,
    R7,
    R8,
    R9,
    R10,
    R11,
    R12,
    R13,
    R14,
    R15,
}

/// The stack pointer.
pub const ARM_SP: ArmRegister = ArmRegister::R13;

/// The link register.
pub const ARM_LR: ArmRegister = ArmRegister::R14;

/// The program counter.
pub const ARM_PC: ArmRegister = ArmRegister::R15;

impl ArmRegister {
    /// The number that encodes the register, 0 to 15.
    pub open spec fn spec_index(self) -> u32 {
        match self {
            ArmRegister::R0 => 0,
            ArmRegister::R1 => 1,
            ArmRegister::R2 => 2,
            ArmRegister::R3 => 3,
            ArmRegister::R4 => 4,
            ArmRegister::R5 => 5,
            ArmRegister::R6 => 6,
            ArmRegister::R7 => 7,
            ArmRegister::R8 => 8,
            ArmRegister::R9 => 9,
            ArmRegister::R10 => 10,
            ArmRegister::R11 => 11,
            ArmRegister::R12 => 12,
            ArmRegister::R13 => 13,
            ArmRegister::R14 => 14,
            ArmRegister::R15 => 15,
        }
    }

    /// The number that encodes the register, 0 to 15.
    #[verifier::when_used_as_spec(spec_index)]
    pub fn index(self) -> (i: u32)
        ensures
            i == self.spec_index(),
            i < 16,
    {
        match self {
            ArmRegister::R0 => 0,
            ArmRegister::R1 => 1,
            ArmRegister::R2 => 2,
            ArmRegister::R3 => 3,
            ArmRegister::R4 => 4,
            ArmRegister::R5 => 5,
            ArmRegister::R6 => 6,
            ArmRegister::R7 => 7,
            ArmRegister::R8 => 8,
            ArmRegister::R9 => 9,
            ArmRegister::R10 => 10,
            ArmRegister::R11 => 11,
            ArmRegister::R12 => 12,
            ArmRegister::R13 => 13,
            ArmRegister::R14 => 14,
            ArmRegister::R15 => 15,
        }
    }
}

/// The conditions under which an instruction is executed, in the order of
/// their encoding.
#[derive(Debug, Clone, Copy, PartialEq, Eq, Structural)]
pub enum ArmCondition {
    EQ,
    NE,
    CS,
    CC,
    MI,
    PL,
    VS,
    VC,
    HI,
    LS,
    GE,
    LT,
    GT,
    LE,
    AL,
}

/// Unsigned higher or same: another name for carry set.
pub const ARM_HS: ArmCondition = ArmCondition::CS;

/// Unsigned lower: another name for carry clear.
pub const ARM_LO: ArmCondition = ArmCondition::CC;

impl ArmCondition {
    /// The number that encodes the condition, 0 to 14.
    pub open spec fn spec_index(self) -> u32 {
        match self {
            ArmCondition::EQ => 0,
            ArmCondition::NE => 1,
            ArmCondition::CS => 2,
            ArmCondition::CC => 3,
            ArmCondition::MI => 4,
            ArmCondition::PL => 5,
            ArmCondition::VS => 6,
            ArmCondition::VC => 7,
            ArmCondition::HI => 8,
            ArmCondition::LS => 9,
            ArmCondition::GE => 10,
            ArmCondition::LT => 11,
            ArmCondition::GT => 12,
            ArmCondition::LE => 13,
            ArmCondition::AL => 14,
        }
    }

    /// The number that encodes the condition, 0 to 14.
    #[verifier::when_used_as_spec(spec_index)]
    pub fn index(self) -> (i: u32)
        ensures
            i == self.spec_index(),
            i < 15,
    {
        match self {
            ArmCondition::EQ => 0,
            ArmCondition::NE => 1,
            ArmCondition::CS => 2,
            ArmCondition::CC => 3,
            ArmCondition::MI => 4,
            ArmCondition::PL => 5,
            ArmCondition::VS => 6,
            ArmCondition::VC => 7,
            ArmCondition::HI => 8,
            ArmCondition::LS => 9,
            ArmCondition::GE => 10,
            ArmCondition::LT => 11,
            ArmCondition::GT => 12,
            ArmCondition::LE => 13,
            ArmCondition::AL => 14,
        }
    }
}

/// The size of `imm` without its sign.
pub open spec fn magnitude(imm: i32) -> u32 {
    if imm >= 0 {
        imm as u32
    } else {
        (-imm) as u32
    }
}

/// A load or store with an immediate offset from a base register: the bits
/// of `opcode`, the up bit where the offset is not negative, the registers
/// in their fields and the size of the offset in the low bits.
pub open spec fn load_store_word(opcode: u32, rd: ArmRegister, rn: ArmRegister, imm: i32) -> u32 {
    opcode | (if imm >= 0 { 0x0080_0000u32 } else { 0u32 }) | (rn.index() << 16) | (rd.index() << 12)
        | magnitude(imm)
}

/// The builders of ARM instruction words. The type has no value: its
/// functions are the interface.
pub struct ArmInstruction;

impl ArmInstruction {
    /// `stmia sp!, {r0}`.
    pub const STMIA_SP_R0: u32 = 0xe8ad0001;

    /// `bx r0`.
    pub const BX_R0: u32 = 0xe12fff10;

    /// `mrs rd, cpsr`: the status register is read into `rd`, whose number
    /// stands in bits 12 to 15.
    pub fn mrs_rm_cpsr(rd: ArmRegister) -> (word: u32)
        ensures
            word == 0xe10f_0000 + 0x1000 * rd.index(),
    {
        let d = rd.index();
        assert(d < 16 ==> (0xe10f_0000u32 | (d << 12)) == 0xe10f_0000 + 0x1000 * d) by (bit_vector);
        0xe10f0000 | (d << 12)
    }

    /// `msr cpsr_f, rm`: the flags of the status register are written from
    /// `rm`, whose number stands in bits 0 to 3.
    pub fn msr_cpsr_f_rm(rm: ArmRegister) -> (word: u32)
        ensures
            word == 0xe128_f000 + rm.index(),
    {
        let m = rm.index();
        assert(m < 16 ==> (0xe128_f000u32 | m) == 0xe128_f000 + m) by (bit_vector);
        0xe128f000 | m
    }

    /// `ldr rd, [rn, #imm]`. Offsets of a size up to 4095 fit the offset
    /// field; the word is then the sum of its fields.
    pub fn ldr_rd_rn_imm(rd: ArmRegister, rn: ArmRegister, imm: i32) -> (word: u32)
        ensures
            word == load_store_word(0xe510_0000, rd, rn, imm),
            0 <= imm < 0x1000 ==> word == 0xe590_0000 + 0x1_0000 * rn.index() + 0x1000 * rd.index() + imm,
            -0x1000 < imm < 0 ==> word == 0xe510_0000 + 0x1_0000 * rn.index() + 0x1000 * rd.index() - imm,
    {
        load_store(0xe5100000, rd, rn, imm)
    }

    /// `str rd, [rn, #imm]`. Offsets of a size up to 4095 fit the offset
    /// field; the word is then the sum of its fields.
    pub fn str_rd_rn_imm(rd: ArmRegister, rn: ArmRegister, imm: i32) -> (word: u32)
        ensures
            word == load_store_word(0xe500_0000, rd, rn, imm),
            0 <= imm < 0x1000 ==> word == 0xe580_0000 + 0x1_0000 * rn.index() + 0x1000 * rd.index() + imm,
            -0x1000 < imm < 0 ==> word == 0xe500_0000 + 0x1_0000 * rn.index() + 0x1000 * rd.index() - imm,
    {
        load_store(0xe5000000, rd, rn, imm)
    }

    /// `sub rd, rn, #imm`.
    pub fn sub_rd_rn_imm(rd: ArmRegister, rn: ArmRegister, imm: u8) -> (word: u32)
        ensures
            word == 0xe240_0000 + 0x1_0000 * rn.index() + 0x1000 * rd.index() + imm,
    {
        let d = rd.index();
        let n = rn.index();
        let i = imm as u32;
        assert(d < 16 && n < 16 && i < 256 ==> (0xe240_0000u32 | (n << 16) | (d << 12) | (i & 0xff))
            == 0xe240_0000 + 0x1_0000 * n + 0x1000 * d + i) by (bit_vector);
        0xe2400000 | (n << 16) | (d << 12) | (i & 0xff)
    }

    /// `blx rm`.
    pub fn blx_rm(rm: ArmRegister) -> (word: u32)
        ensures
            word == 0xe12f_ff30 + rm.index(),
    {
        let m = rm.index();
        assert(m < 16 ==> (0xe12f_ff30u32 | m) == 0xe12f_ff30 + m) by (bit_vector);
        0xe12fff30 | m
    }

    /// `mov rd, rm`.
    pub fn mov_rd_rm(rd: ArmRegister, rm: ArmRegister) -> (word: u32)
        ensures
            word == 0xe1a0_0000 + 0x1000 * rd.index() + rm.index(),
            word != 0,
    {
        let d = rd.index();
        let m = rm.index();
        assert(d < 16 && m < 16 ==> (0xe1a0_0000u32 | (d << 12) | m) == 0xe1a0_0000 + 0x1000 * d + m)
            by (bit_vector);
        0xe1a00000 | (d << 12) | m
    }

    /// `ldmia sp!, {regs}`: the registers whose bits are set in `regs` are
    /// popped.
    pub fn ldmia_sp_regs(regs: u16) -> (word: u32)
        ensures
            word == 0xe8bd_0000 + regs,
    {
        let r = regs as u32;
        let sp = ARM_SP.index();
        assert(r < 0x1_0000 && sp == 13 ==> (0xe8b0_0000u32 | (sp << 16) | r) == 0xe8bd_0000 + r)
            by (bit_vector);
        0xe8b00000 | (sp << 16) | r
    }

    /// `stmdb sp!, {regs}`: the registers whose bits are set in `regs` are
    /// pushed.
    pub fn stmdb_sp_regs(regs: u16) -> (word: u32)
        ensures
            word == 0xe92d_0000 + regs,
    {
        let r = regs as u32;
        let sp = ARM_SP.index();
        assert(r < 0x1_0000 && sp == 13 ==> (0xe920_0000u32 | (sp << 16) | r) == 0xe92d_0000 + r)
            by (bit_vector);
        0xe9200000 | (sp << 16) | r
    }
}

/// A load or store word for `opcode`.
fn load_store(opcode: u32, rd: ArmRegister, rn: ArmRegister, imm: i32) -> (word: u32)
    requires
        opcode == 0xe510_0000 || opcode == 0xe500_0000,
    ensures
        word == load_store_word(opcode, rd, rn, imm),
        0 <= imm < 0x1000 ==> word == opcode + 0x80_0000 + 0x1_0000 * rn.index() + 0x1000 * rd.index() + imm,
        -0x1000 < imm < 0 ==> word == opcode + 0x1_0000 * rn.index() + 0x1000 * rd.index() - imm,
{
    let d = rd.index();
    let n = rn.index();
    let u_bit: u32 = if imm >= 0 {
        1u32 << 23
    } else {
        0
    };
    let size: u32 = if imm >= 0 {
        imm as u32
    } else {
        (-(imm as i64)) as u32
    };
    assert(1u32 << 23 == 0x0080_0000u32) by (bit_vector);
    assert((opcode == 0xe510_0000 || opcode == 0xe500_0000) && d < 16 && n < 16 && size < 0x1000 ==> (opcode
        | 0x0080_0000u32 | (n << 16) | (d << 12) | size) == opcode + 0x80_0000 + 0x1_0000 * n + 0x1000 * d
        + size && (opcode | 0u32 | (n << 16) | (d << 12) | size) == opcode + 0x1_0000 * n + 0x1000 * d + size)
        by (bit_vector);
    opcode | u_bit | (n << 16) | (d << 12) | size
}

/// A Thumb data processing word on two registers of the full set: the high
/// bit of `rd` stands in bit 7, that of `rm` in bit 6, the low bits of `rm`
/// in bits 3 to 5 and those of `rd` in bits 0 to 2.
pub open spec fn high_register_word(opcode: u16, rd: u8, rm: u8) -> u16 {
    opcode | (((rd & 0x8) as u16) >> 3 << 7) | (((rm & 0x8) as u16) >> 3 << 6) | (((rm & 0x7) as u16) << 3) | ((rd
        & 0x7) as u16)
}

/// A Thumb word with a register in bits 8 to 10 and an 8-bit immediate.
pub open spec fn register_immediate_word(opcode: u16, r: u8, imm: u8) -> u16 {
    opcode | ((r as u16) << 8) | (imm as u16 & 0xff)
}

/// A Thumb push or pop word: the low eight registers in bits 0 to 7, and in
/// bit 8 the bit of `regs` at `extra`, which stands for the link register
/// or the program counter.
pub open spec fn register_list_word(opcode: u16, regs: u16, extra: u16) -> u16 {
    opcode | ((regs & (1u16 << extra)) >> extra << 8) | (regs & 0xff)
}

/// The builders of Thumb instruction words. The type has no value: its
/// functions are the interface.
pub struct ThumbInstruction;

impl ThumbInstruction {
    /// `pop {r0}`.
    pub const POP_R0: u16 = 0xbc01;

    /// `mov r8, r8`, which does nothing.
    pub const NOP: u16 = 0x46c0;

    /// The permanently undefined word with the payload `imm`, read as a
    /// byte.
    pub fn b(imm: i8) -> (word: u16)
        ensures
            word == 0xde00 + (if imm >= 0 { imm as int } else { imm + 0x100 }),
    {
        let low: u16 = if imm >= 0 {
            imm as u16
        } else {
            (imm as i16 + 0x100) as u16
        };
        assert(low < 0x100 ==> (0xde00u16 | (low & 0xff)) == 0xde00 + low) by (bit_vector);
        0xde00 | (low & 0xff)
    }

    /// `blx rm`. The number of a register of the full set fits the field.
    pub fn blx(rm: u8) -> (word: u16)
        ensures
            word == 0x4780u16 | ((rm as u16) << 3),
            rm < 16 ==> word == 0x4780 + 8 * rm,
    {
        let m = rm as u16;
        assert(m < 16 ==> (0x4780u16 | (m << 3)) == 0x4780 + 8 * m) by (bit_vector);
        0x4780 | (m << 3)
    }

    /// `bx rm`. The number of a register of the full set fits the field.
    pub fn bx(rm: u8) -> (word: u16)
        ensures
            word == 0x4700u16 | ((rm as u16) << 3),
            rm < 16 ==> word == 0x4700 + 8 * rm,
    {
        let m = rm as u16;
        assert(m < 16 ==> (0x4700u16 | (m << 3)) == 0x4700 + 8 * m) by (bit_vector);
        0x4700 | (m << 3)
    }

    /// `add rd, rm` on registers of the full set.
    pub fn add_rd_rm(rd: u8, rm: u8) -> (word: u16)
        ensures
            word == high_register_word(0x4400, rd, rm),
            rd < 16 && rm < 16 ==> word == 0x4400 + 0x80 * (rd / 8) + 8 * rm + rd % 8,
    {
        assert(rd < 16 && rm < 16 ==> (0x4400u16 | (((rd & 0x8) as u16) >> 3 << 7) | (((rm & 0x8) as u16) >> 3
            << 6) | (((rm & 0x7) as u16) << 3) | ((rd & 0x7) as u16)) == 0x4400 + 0x80 * (rd / 8) + 8 * rm + rd
            % 8) by (bit_vector);
        0x4400 | (((rd & 0x8) as u16) >> 3 << 7) | (((rm & 0x8) as u16) >> 3 << 6) | (((rm & 0x7) as u16) << 3)
            | ((rd & 0x7) as u16)
    }

    /// `push {regs}`: the low eight registers, and the link register where
    /// bit 14 of `regs` is set.
    pub fn push_regs(regs: u16) -> (word: u16)
        ensures
            word == register_list_word(0xb400, regs, 14),
            word == 0xb400 + 0x100 * (regs / 0x4000 % 2) + regs % 0x100,
    {
        assert((0xb400u16 | ((regs & (1u16 << 14)) >> 14 << 8) | (regs & 0xff)) == 0xb400 + 0x100 * (regs
            / 0x4000 % 2) + regs % 0x100) by (bit_vector);
        let lr_bit = (regs & (1 << 14)) >> 14 << 8;
        0xb400 | lr_bit | (regs & 0xff)
    }

    /// `pop {regs}`: the low eight registers, and the program counter where
    /// bit 15 of `regs` is set.
    pub fn pop_regs(regs: u16) -> (word: u16)
        ensures
            word == register_list_word(0xbc00, regs, 15),
            word == 0xbc00 + 0x100 * (regs / 0x8000) + regs % 0x100,
    {
        assert((0xbc00u16 | ((regs & (1u16 << 15)) >> 15 << 8) | (regs & 0xff)) == 0xbc00 + 0x100 * (regs
            / 0x8000) + regs % 0x100) by (bit_vector);
        let pc_bit = (regs & (1 << 15)) >> 15 << 8;
        0xbc00 | pc_bit | (regs & 0xff)
    }

    /// `mov rd, rm` on registers of the full set.
    pub fn mov_rd_rm(rd: u8, rm: u8) -> (word: u16)
        ensures
            word == high_register_word(0x4600, rd, rm),
            rd < 16 && rm < 16 ==> word == 0x4600 + 0x80 * (rd / 8) + 8 * rm + rd % 8,
    {
        assert(rd < 16 && rm < 16 ==> (0x4600u16 | (((rd & 0x8) as u16) >> 3 << 7) | (((rm & 0x8) as u16) >> 3
            << 6) | (((rm & 0x7) as u16) << 3) | ((rd & 0x7) as u16)) == 0x4600 + 0x80 * (rd / 8) + 8 * rm + rd
            % 8) by (bit_vector);
        0x4600 | (((rd & 0x8) as u16) >> 3 << 7) | (((rm & 0x8) as u16) >> 3 << 6) | (((rm & 0x7) as u16) << 3)
            | ((rd & 0x7) as u16)
    }

    /// `ldr rd, [rn, #imm]` on low registers, with the low five bits of
    /// `imm` as the offset in words.
    pub fn ldr_rd_rn_imm(rd: u8, rn: u8, imm: u8) -> (word: u16)
        ensures
            word == 0x6800u16 | (((imm & 0x1f) as u16) << 6) | ((rn as u16) << 3) | (rd as u16),
            rd < 8 && rn < 8 ==> word == 0x6800 + 0x40 * (imm % 32) + 8 * rn + rd,
    {
        assert(rd < 8 && rn < 8 ==> (0x6800u16 | (((imm & 0x1f) as u16) << 6) | ((rn as u16) << 3) | (rd as u16))
            == 0x6800 + 0x40 * (imm % 32) + 8 * rn + rd) by (bit_vector);
        0x6800 | (((imm & 0x1f) as u16) << 6) | ((rn as u16) << 3) | (rd as u16)
    }

    /// `ldr rd, [pc, #imm]` on a low register, with `imm` as the offset in
    /// words.
    pub fn ldr_rd_pc_imm(rd: u8, imm: u8) -> (word: u16)
        ensures
            word == register_immediate_word(0x4800, rd, imm),
            rd < 8 ==> word == 0x4800 + 0x100 * rd + imm,
    {
        register_immediate(0x4800, rd, imm)
    }

    /// Compares the low register `rn` with `imm`.
    pub fn cmp_rn_imm(rn: u8, imm: u8) -> (word: u16)
        ensures
            word == register_immediate_word(0x2000, rn, imm),
            rn < 8 ==> word == 0x2000 + 0x100 * rn + imm,
    {
        register_immediate(0x2000, rn, imm)
    }

    /// Whether `instr` is the first half of an instruction of 32 bits: its
    /// top five bits are `11101`, `11110` or `11111`.
    pub fn is_32bit(instr: u16) -> (wide: bool)
        ensures
            wide == (instr >= 0xe800),
            wide == (instr / 0x800 == 0x1d || instr / 0x800 == 0x1e || instr / 0x800 == 0x1f),
    {
        assert(((instr & 0xe000) == 0xe000 && (instr & 0x1800) != 0x0000) == (instr >= 0xe800)) by (bit_vector);
        (instr & 0xe000) == 0xe000 && (instr & 0x1800) != 0x0000
    }
}

/// A Thumb word with a register in bits 8 to 10 and an 8-bit immediate.
fn register_immediate(opcode: u16, r: u8, imm: u8) -> (word: u16)
    requires
        opcode == 0x4800 || opcode == 0x2000,
    ensures
        word == register_immediate_word(opcode, r, imm),
        r < 8 ==> word == opcode + 0x100 * r + imm,
{
    assert((opcode == 0x4800 || opcode == 0x2000) && r < 8 ==> (opcode | ((r as u16) << 8) | (imm as u16 & 0xff))
        == opcode + 0x100 * r + imm) by (bit_vector);
    opcode | ((r as u16) << 8) | (imm as u16 & 0xff)
}

/// The width of the instruction at an address in ARM state: always 4.
pub fn get_instruction_width_arm() -> (width: usize)
    ensures
        width == 4,
{
    4
}

/// The first halfword of Thumb code, which is stored low byte first.
pub open spec fn leading_halfword(code: Seq<u8>) -> u16 {
    (code[0] + 0x100 * code[1]) as u16
}

/// The width of the Thumb instruction that `code` starts with: 4 where the
/// leading halfword opens an instruction of 32 bits, else 2.
pub open spec fn spec_width_thumb(code: Seq<u8>) -> usize {
    if leading_halfword(code) >= 0xe800 {
        4
    } else {
        2
    }
}

/// The width of the Thumb instruction that `code` starts with.
pub fn get_instruction_width_thumb(code: &[u8]) -> (width: usize)
    requires
        code@.len() >= 2,
    ensures
        width == spec_width_thumb(code@),
{
    let low = code[0] as u16;
    let high = code[1] as u16;
    let thumb = low + 0x100 * high;
    if ThumbInstruction::is_32bit(thumb) {
        4
    } else {
        2
    }
}

/// Whether the function pointer `start` points at Thumb code: its low bit
/// is set.
pub fn is_thumb_pointer(start: usize) -> (thumb: bool)
    ensures
        thumb == (start % 2 == 1),
{
    assert((start & 0x1) == start % 2) by (bit_vector);
    (start & 0x1) != 0
}

/// The address of the code that the function pointer `start` points at: the
/// pointer without its low bit.
pub fn code_address(start: usize) -> (addr: usize)
    ensures
        addr == start - start % 2,
{
    assert((start & !0x1usize) == start - start % 2) by (bit_vector);
    start & !0x1
}

/// The width of the instruction at the function pointer `start`. The low
/// bit of the pointer tells the state: clear for ARM, set for Thumb. `code`
/// holds the bytes at the pointer with that bit cleared.
pub fn get_instruction_width(start: usize, code: &[u8]) -> (width: usize)
    requires
        start % 2 == 1 ==> code@.len() >= 2,
    ensures
        width == if start % 2 == 0 { 4 } else { spec_width_thumb(code@) },
{
    if is_thumb_pointer(start) {
        get_instruction_width_thumb(code)
    } else {
        get_instruction_width_arm()
    }
}

/// What a decoder for ARM code says of an instruction of `length` bytes: the
/// length, and no parts, since ARM instructions have none of the parts that
/// are told apart for x86.
pub open spec fn plain_instruction(length: u32) -> RawInstruction {
    RawInstruction {
        length,
        data: InstructionData {
            flags: 0,
            opcode: 0,
            opcode2: 0,
            modrm: 0,
            modrm_mod: 0,
            modrm_reg: 0,
            modrm_rm: 0,
        },
    }
}

/// An instruction of `length` bytes without parts.
fn plain(length: u32) -> (raw: RawInstruction)
    ensures
        raw == plain_instruction(length),
{
    RawInstruction {
        length,
        data: InstructionData {
            flags: 0,
            opcode: 0,
            opcode2: 0,
            modrm: 0,
            modrm_mod: 0,
            modrm_reg: 0,
            modrm_rm: 0,
        },
    }
}

/// The decoder for code in ARM state, for use with a disassembler: every
/// instruction takes 4 bytes.
pub fn decode_arm(window: &[u8]) -> (raw: RawInstruction)
    ensures
        raw == plain_instruction(4),
{
    plain(4)
}

/// The decoder for code in Thumb state, for use with a disassembler: the
/// width of the instruction that `window` starts with, or 0 where `window`
/// is too short to tell.
pub fn decode_thumb(window: &[u8]) -> (raw: RawInstruction)
    ensures
        raw == plain_instruction(
            if window@.len() >= 2 {
                spec_width_thumb(window@) as u32
            } else {
                0
            },
        ),
{
    if window.len() >= 2 {
        plain(get_instruction_width_thumb(window) as u32)
    } else {
        plain(0)
    }
}

} // verus!
