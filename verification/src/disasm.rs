//! Length disassembly for x86 and x86-64: how many bytes the next
//! instruction takes, and what it is made of.
//!
//! The decoder itself is a primitive that the embedding program supplies.
//! This module decides which bytes the decoder gets to see, which of its
//! answers count as an instruction, and how instructions are gathered until
//! enough bytes are covered.

use vstd::prelude::*;
use crate::error::HookError;

verus! {

/// The instruction has a ModR/M byte.
pub const F_MODRM: u32 = 0x0000_0001;

/// The instruction has a SIB byte.
pub const F_SIB: u32 = 0x0000_0002;

/// The instruction has an 8-bit immediate.
pub const F_IMM8: u32 = 0x0000_0004;

/// The instruction has a 16-bit immediate.
pub const F_IMM16: u32 = 0x0000_0008;

/// The instruction has a 32-bit immediate.
pub const F_IMM32: u32 = 0x0000_0010;

/// The instruction has a 64-bit immediate.
pub const F_IMM64: u32 = 0x0000_0020;

/// The instruction has an 8-bit displacement.
pub const F_DISP8: u32 = 0x0000_0040;

/// The instruction has a 16-bit displacement.
pub const F_DISP16: u32 = 0x0000_0080;

/// The instruction has a 32-bit displacement.
pub const F_DISP32: u32 = 0x0000_0100;

/// The immediate is relative to the address of the next instruction.
pub const F_RELATIVE: u32 = 0x0000_0200;

/// The bytes are no instruction that the decoder knows.
pub const F_ERROR: u32 = 0x0000_1000;

/// The longest instruction there is.
pub const MAX_INSTRUCTION_LENGTH: usize = 15;

/// The parts of one instruction.
#[derive(Debug, Clone, Copy, PartialEq, Eq, Structural)]
pub struct InstructionData {
    /// The `F_` flags that hold of the instruction.
    pub flags: u32,
    /// The opcode byte.
    pub opcode: u8,
    /// The second opcode byte, where the first is an escape.
    pub opcode2: u8,
    /// The ModR/M byte.
    pub modrm: u8,
    /// The `mod` field of the ModR/M byte.
    pub modrm_mod: u8,
    /// The `reg` field of the ModR/M byte.
    pub modrm_reg: u8,
    /// The `rm` field of the ModR/M byte.
    pub modrm_rm: u8,
}

/// What the decoder says of the bytes it was shown: the length of the
/// instruction they start with, and its parts.
#[derive(Debug, Clone, Copy, PartialEq, Eq, Structural)]
pub struct RawInstruction {
    pub length: u32,
    pub data: InstructionData,
}

/// An instruction that was decoded with success.
#[derive(Debug, Clone, Copy, PartialEq, Eq, Structural)]
pub struct DisassembledInstruction {
    /// The number of bytes that the instruction takes.
    pub length: usize,
    /// The parts of the instruction.
    pub data: InstructionData,
}

/// Whether the bit `flag` is set in `flags`.
pub open spec fn has_flag(flags: u32, flag: u32) -> bool {
    flags & flag != 0
}

impl DisassembledInstruction {
    /// The number of bytes that the instruction takes.
    pub fn len(&self) -> (n: usize)
        ensures
            n == self.length,
    {
        self.length
    }

    /// Whether the instruction takes no bytes.
    pub fn is_empty(&self) -> (empty: bool)
        ensures
            empty == (self.length == 0),
    {
        self.length == 0
    }

    /// The opcode byte.
    pub fn opcode(&self) -> (byte: u8)
        ensures
            byte == self.data.opcode,
    {
        self.data.opcode
    }

    /// The second opcode byte.
    pub fn opcode2(&self) -> (byte: u8)
        ensures
            byte == self.data.opcode2,
    {
        self.data.opcode2
    }

    /// The ModR/M byte.
    pub fn modrm(&self) -> (byte: u8)
        ensures
            byte == self.data.modrm,
    {
        self.data.modrm
    }

    /// The `mod` field of the ModR/M byte.
    pub fn modrm_mod(&self) -> (field: u8)
        ensures
            field == self.data.modrm_mod,
    {
        self.data.modrm_mod
    }

    /// The `reg` field of the ModR/M byte.
    pub fn modrm_reg(&self) -> (field: u8)
        ensures
            field == self.data.modrm_reg,
    {
        self.data.modrm_reg
    }

    /// The `rm` field of the ModR/M byte.
    pub fn modrm_rm(&self) -> (field: u8)
        ensures
            field == self.data.modrm_rm,
    {
        self.data.modrm_rm
    }

    /// Whether the instruction has a ModR/M byte.
    pub fn has_modrm(&self) -> (has: bool)
        ensures
            has == has_flag(self.data.flags, F_MODRM),
    {
        (self.data.flags & F_MODRM) != 0
    }

    /// Whether the instruction has a SIB byte.
    pub fn has_sib(&self) -> (has: bool)
        ensures
            has == has_flag(self.data.flags, F_SIB),
    {
        (self.data.flags & F_SIB) != 0
    }

    /// Whether the instruction has an 8-bit immediate.
    pub fn has_imm8(&self) -> (has: bool)
        ensures
            has == has_flag(self.data.flags, F_IMM8),
    {
        (self.data.flags & F_IMM8) != 0
    }

    /// Whether the instruction has a 16-bit immediate.
    pub fn has_imm16(&self) -> (has: bool)
        ensures
            has == has_flag(self.data.flags, F_IMM16),
    {
        (self.data.flags & F_IMM16) != 0
    }

    /// Whether the instruction has a 32-bit immediate.
    pub fn has_imm32(&self) -> (has: bool)
        ensures
            has == has_flag(self.data.flags, F_IMM32),
    {
        (self.data.flags & F_IMM32) != 0
    }

    /// Whether the instruction has a 64-bit immediate.
    pub fn has_imm64(&self) -> (has: bool)
        ensures
            has == has_flag(self.data.flags, F_IMM64),
    {
        (self.data.flags & F_IMM64) != 0
    }

    /// Whether the instruction has an 8-bit displacement.
    pub fn has_disp8(&self) -> (has: bool)
        ensures
            has == has_flag(self.data.flags, F_DISP8),
    {
        (self.data.flags & F_DISP8) != 0
    }

    /// Whether the instruction has a 16-bit displacement.
    pub fn has_disp16(&self) -> (has: bool)
        ensures
            has == has_flag(self.data.flags, F_DISP16),
    {
        (self.data.flags & F_DISP16) != 0
    }

    /// Whether the instruction has a 32-bit displacement.
    pub fn has_disp32(&self) -> (has: bool)
        ensures
            has == has_flag(self.data.flags, F_DISP32),
    {
        (self.data.flags & F_DISP32) != 0
    }

    /// Whether the immediate is relative to the next instruction.
    pub fn is_relative(&self) -> (relative: bool)
        ensures
            relative == has_flag(self.data.flags, F_RELATIVE),
    {
        (self.data.flags & F_RELATIVE) != 0
    }

    /// Whether the decoder did not know the instruction.
    pub fn has_error(&self) -> (error: bool)
        ensures
            error == has_flag(self.data.flags, F_ERROR),
    {
        (self.data.flags & F_ERROR) != 0
    }

    /// Whether the instruction addresses memory relative to the instruction
    /// pointer: it has a ModR/M byte whose `mod` field is 0 and whose `rm`
    /// field is 5.
    pub fn is_rip_relative(&self) -> (relative: bool)
        ensures
            relative == (has_flag(self.data.flags, F_MODRM) && self.data.modrm & 0xc7 == 0x05),
            relative ==> self.data.modrm / 64 == 0 && self.data.modrm % 8 == 5,
    {
        let modrm = self.data.modrm;
        assert(modrm & 0xc7 == 0x05 ==> modrm / 64 == 0 && modrm % 8 == 5) by (bit_vector);
        self.has_modrm() && (self.data.modrm & 0xc7) == 0x05
    }
}

/// The bytes of `code` that the decoder is shown: the first 15, or all of
/// them where there are fewer.
pub open spec fn decoder_window(code: Seq<u8>) -> Seq<u8> {
    if code.len() > MAX_INSTRUCTION_LENGTH {
        code.take(MAX_INSTRUCTION_LENGTH as int)
    } else {
        code
    }
}

/// What becomes of the decoder's answer, where `available` bytes were there
/// to decode: an instruction where the answer is free of the error flag and
/// its length is at least 1, at most 15 and at most `available`, and nothing
/// otherwise.
pub open spec fn spec_accept(raw: RawInstruction, available: nat) -> Option<DisassembledInstruction> {
    if raw.length == 0 || raw.length > MAX_INSTRUCTION_LENGTH || raw.length > available || has_flag(
        raw.data.flags,
        F_ERROR,
    ) {
        None
    } else {
        Some(DisassembledInstruction { length: raw.length as usize, data: raw.data })
    }
}

/// Judges the decoder's answer for a run of `available` bytes.
pub fn accept(raw: RawInstruction, available: usize) -> (r: Option<DisassembledInstruction>)
    ensures
        r == spec_accept(raw, available as nat),
{
    if raw.length == 0 || raw.length as usize > MAX_INSTRUCTION_LENGTH || raw.length as usize > available
        || (raw.data.flags & F_ERROR) != 0 {
        None
    } else {
        Some(DisassembledInstruction { length: raw.length as usize, data: raw.data })
    }
}

/// The sum of `lengths`.
pub open spec fn total_length(lengths: Seq<usize>) -> nat
    decreases lengths.len(),
{
    if lengths.len() == 0 {
        0
    } else {
        total_length(lengths.drop_last()) + lengths.last() as nat
    }
}

/// The length disassembler over a decoder primitive. The primitive is shown
/// the bytes at the start of an instruction and answers with its length and
/// parts.
pub struct Disassembler<D: Fn(&[u8]) -> RawInstruction> {
    decoder: D,
}

impl<D: Fn(&[u8]) -> RawInstruction> Disassembler<D> {
    #[verifier::type_invariant]
    spec fn decodes_every_window(&self) -> bool {
        forall|window: &[u8]| 0 < window@.len() <= MAX_INSTRUCTION_LENGTH ==> self.decoder.requires((window,))
    }

    /// Whether `raw` is an answer that the decoder may give when shown
    /// `window`.
    pub closed spec fn answers(&self, window: Seq<u8>, raw: RawInstruction) -> bool {
        exists|shown: &[u8]| shown@ == window && self.decoder.ensures((shown,), raw)
    }

    /// Whether `r` is what `disassemble` may give for `code`: nothing where
    /// there are no bytes, and else what becomes of an answer of the decoder
    /// to the window of `code`.
    pub open spec fn may_decode(&self, code: Seq<u8>, r: Option<DisassembledInstruction>) -> bool {
        if code.len() == 0 {
            r is None
        } else {
            exists|raw: RawInstruction| #[trigger]
                self.answers(decoder_window(code), raw) && r == spec_accept(raw, code.len())
        }
    }

    /// Whether the number at index `i` of `lengths` is the length of an
    /// instruction of `code` that starts where the instructions of the
    /// lengths before it end, and lies within `code`.
    pub open spec fn is_instruction(&self, code: Seq<u8>, lengths: Seq<usize>, i: int) -> bool {
        let at = total_length(lengths.take(i));
        &&& at + lengths[i] <= code.len()
        &&& exists|instruction: DisassembledInstruction| #[trigger]
            self.may_decode(code.skip(at as int), Some(instruction)) && instruction.length == lengths[i]
    }

    /// Whether `lengths` are the lengths of instructions that follow one
    /// another from the start of `code`, each decoded where the one before
    /// it ends.
    pub open spec fn is_run(&self, code: Seq<u8>, lengths: Seq<usize>) -> bool {
        forall|i: int| 0 <= i < lengths.len() ==> #[trigger] self.is_instruction(code, lengths, i)
    }

    /// Whether no instruction starts at or behind `limit` bytes in the run
    /// of instructions of the lengths `lengths`.
    pub open spec fn starts_before(lengths: Seq<usize>, limit: usize) -> bool {
        forall|i: int| 0 <= i < lengths.len() ==> total_length(#[trigger] lengths.take(i)) < limit
    }

    /// A run of instructions goes on with an instruction that is decoded
    /// where the run ends.
    proof fn lemma_run_extends(
        &self,
        code: Seq<u8>,
        lengths: Seq<usize>,
        limit: usize,
        instruction: DisassembledInstruction,
    )
        requires
            self.is_run(code, lengths),
            Self::starts_before(lengths, limit),
            total_length(lengths) < limit,
            total_length(lengths) + instruction.length <= code.len(),
            self.may_decode(code.skip(total_length(lengths) as int), Some(instruction)),
        ensures
            self.is_run(code, lengths.push(instruction.length)),
            Self::starts_before(lengths.push(instruction.length), limit),
            total_length(lengths.push(instruction.length)) == total_length(lengths) + instruction.length,
    {
        let grown = lengths.push(instruction.length);
        assert(grown.drop_last() =~= lengths);
        assert(grown.take(lengths.len() as int) =~= lengths);
        assert forall|i: int| 0 <= i < grown.len() implies #[trigger] self.is_instruction(code, grown, i) by {
            if i < lengths.len() {
                assert(grown.take(i) =~= lengths.take(i));
                assert(self.is_instruction(code, lengths, i));
            }
        }
        assert forall|i: int| 0 <= i < grown.len() implies total_length(#[trigger] grown.take(i)) < limit by {
            if i < lengths.len() {
                assert(grown.take(i) =~= lengths.take(i));
            }
        }
    }

    /// Whether `copied` is what `copy_instructions` may give for `from` and
    /// `min_size`: the bytes of a run of instructions from the start of
    /// `from`, none of which starts at `min_size` bytes or later, and which
    /// covers `min_size` bytes unless no instruction can be decoded where the
    /// run ends.
    pub open spec fn may_copy(&self, from: Seq<u8>, min_size: usize, copied: Seq<u8>) -> bool {
        exists|lengths: Seq<usize>|
            {
                &&& #[trigger] self.is_run(from, lengths)
                &&& Self::starts_before(lengths, min_size)
                &&& copied == from.take(total_length(lengths) as int)
                &&& total_length(lengths) >= min_size || self.may_decode(
                    from.skip(total_length(lengths) as int),
                    None,
                )
            }
    }

    /// A disassembler over `decoder`, which must be callable with every run
    /// of 1 to 15 bytes.
    pub fn new(decoder: D) -> (disassembler: Self)
        requires
            forall|window: &[u8]| 0 < window@.len() <= MAX_INSTRUCTION_LENGTH ==> decoder.requires((window,)),
        ensures
            forall|window: &[u8], raw: RawInstruction|
                decoder.ensures((window,), raw) ==> disassembler.answers(window@, raw),
    {
        Disassembler { decoder }
    }

    /// Decodes the instruction at the start of `code`. The decoder is shown
    /// at most 15 bytes.
    pub fn disassemble(&self, code: &[u8]) -> (r: Option<DisassembledInstruction>)
        ensures
            self.may_decode(code@, r),
            r matches Some(instruction) ==> 1 <= instruction.length <= MAX_INSTRUCTION_LENGTH
                && instruction.length <= code@.len() && !has_flag(instruction.data.flags, F_ERROR),
    {
        proof {
            use_type_invariant(self);
        }
        let available = code.len();
        if available == 0 {
            return None;
        }
        let window = if available > MAX_INSTRUCTION_LENGTH {
            vstd::slice::slice_subrange(code, 0, MAX_INSTRUCTION_LENGTH)
        } else {
            code
        };
        assert(window@ =~= decoder_window(code@));
        let raw = (self.decoder)(window);
        assert(self.answers(decoder_window(code@), raw));
        accept(raw, available)
    }

    /// The number of bytes that the instruction at the start of `code`
    /// takes, or 0 where there is none.
    pub fn instruction_length(&self, code: &[u8]) -> (n: usize)
        ensures
            exists|r: Option<DisassembledInstruction>| #[trigger]
                self.may_decode(code@, r) && n == (match r {
                    Some(instruction) => instruction.length,
                    None => 0,
                }),
            n <= MAX_INSTRUCTION_LENGTH,
            n <= code@.len(),
    {
        match self.disassemble(code) {
            Some(instruction) => instruction.length,
            None => 0,
        }
    }

    /// Gathers whole instructions from the start of `from` until they cover
    /// at least `min_size` bytes, and gives the bytes they take. Where an
    /// instruction cannot be decoded before that, the bytes of those before
    /// it are given: a result shorter than `min_size` says that the code
    /// cannot be relocated.
    pub fn copy_instructions(&self, from: &[u8], min_size: usize) -> (copied: Vec<u8>)
        ensures
            self.may_copy(from@, min_size, copied@),
    {
        let mut copied: Vec<u8> = Vec::new();
        let mut offset: usize = 0;
        let ghost mut lengths: Seq<usize> = Seq::empty();
        let available = from.len();
        assert(from@.take(0) =~= Seq::<u8>::empty());
        loop
            invariant
                available == from@.len(),
                offset <= available,
                offset == total_length(lengths),
                self.is_run(from@, lengths),
                Self::starts_before(lengths, min_size),
                copied@ == from@.take(offset as int),
            ensures
                offset == total_length(lengths),
                offset >= min_size || self.may_decode(from@.skip(offset as int), None),
            decreases available - offset,
        {
            if offset >= min_size {
                break ;
            }
            let rest = vstd::slice::slice_subrange(from, offset, available);
            assert(rest@ =~= from@.skip(offset as int));
            match self.disassemble(rest) {
                Some(instruction) => {
                    let bytes = vstd::slice::slice_subrange(from, offset, offset + instruction.length);
                    copied.extend_from_slice(bytes);
                    proof {
                        self.lemma_run_extends(from@, lengths, min_size, instruction);
                        assert(copied@ =~= from@.take(offset + instruction.length));
                        lengths = lengths.push(instruction.length);
                    }
                    offset += instruction.length;
                },
                None => {
                    break ;
                },
            }
        }
        copied
    }

    /// Gathers whole instructions from the start of `from` that cover at
    /// least `min_size` bytes, for a patch of that size. Code in which an
    /// instruction cannot be decoded before that many bytes are covered
    /// cannot be relocated.
    pub fn copy_for_relocation(&self, from: &[u8], min_size: usize) -> (r: Result<Vec<u8>, HookError>)
        ensures
            exists|copied: Seq<u8>| #[trigger]
                self.may_copy(from@, min_size, copied) && (if copied.len() < min_size {
                    r == Err::<Vec<u8>, HookError>(HookError::DecodeError)
                } else {
                    r is Ok && r->Ok_0@ == copied
                }),
    {
        let copied = self.copy_instructions(from, min_size);
        if copied.len() < min_size {
            Err(HookError::DecodeError)
        } else {
            Ok(copied)
        }
    }
}

} // verus!
