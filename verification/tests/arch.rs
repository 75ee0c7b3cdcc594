use cydia_substrate::arch::arm::{
    code_address, get_instruction_width, get_instruction_width_arm, get_instruction_width_thumb, is_thumb_pointer,
    ArmCondition, ArmInstruction, ArmRegister, ThumbInstruction, ARM_HS, ARM_LO, ARM_LR, ARM_PC, ARM_SP,
};
use cydia_substrate::arch::x86::{JumpPlan, JumpStrategy, X86Instruction, X86Register, IS_32BIT};
use cydia_substrate::arch::Architecture;

#[test]
fn test_x86_instruction_sizes() {
    assert_eq!(X86Instruction::size_of_skip(), 5);
    assert!(X86Instruction::size_of_push_pointer(0x12345678) >= 5);
}

#[test]
fn test_arm_registers() {
    assert_eq!(ARM_SP as u8, 13);
    assert_eq!(ARM_LR as u8, 14);
    assert_eq!(ARM_PC as u8, 15);
}

#[test]
fn test_arm_instruction_generation() {
    let instr = ArmInstruction::mov_rd_rm(ArmRegister::R0, ArmRegister::R1);
    assert_ne!(instr, 0);
}

#[test]
fn test_thumb_instruction() {
    assert_eq!(ThumbInstruction::NOP, 0x46c0);
    assert_eq!(ThumbInstruction::POP_R0, 0xbc01);
}

fn wide() -> bool {
    usize::BITS == 64
}

fn high_address() -> usize {
    0x1122_3344_5566_7788u64 as usize
}

#[test]
fn address_width_is_that_of_usize() {
    assert_eq!(IS_32BIT, usize::BITS == 32);
}

#[test]
fn only_x86_has_a_jump_encoder() {
    assert!(Architecture::X86.has_jump_encoder());
    assert!(!Architecture::Arm.has_jump_encoder());
    assert!(!Architecture::Thumb.has_jump_encoder());
}

#[test]
fn x86_register_numbers() {
    assert_eq!(X86Register::RAX.index(), 0);
    assert_eq!(X86Register::RSP.index(), 4);
    assert_eq!(X86Register::RDI.index(), 7);
    assert_eq!(X86Register::R8.index(), 8);
    assert_eq!(X86Register::R15.index(), 15);
    assert_eq!(X86Register::R15 as u8, 15);
}

#[test]
fn x86_offset_range() {
    assert!(X86Instruction::is_32bit_offset(0x1000, 0x1000));
    assert!(X86Instruction::is_32bit_offset(0x7fff_ffff, 0));
    assert!(X86Instruction::is_32bit_offset(0, 0x7fff_ffff));
    assert!(X86Instruction::is_32bit_offset(0, 0x8000_0000));
    // the difference wraps to -1
    assert!(X86Instruction::is_32bit_offset(usize::MAX, 0));
    assert!(X86Instruction::is_32bit_offset(0, usize::MAX));
    if wide() {
        assert!(!X86Instruction::is_32bit_offset(0x8000_0000, 0));
        assert!(!X86Instruction::is_32bit_offset(0, 0x8000_0001));
        assert!(!X86Instruction::is_32bit_offset(high_address(), 0x1000));
    }
}

#[test]
fn x86_sizes() {
    assert_eq!(X86Instruction::size_of_push_pointer(0x12345678), 5);
    assert_eq!(X86Instruction::size_of_push_pointer(0xffff_ffff), 5);
    assert_eq!(X86Instruction::size_of_pop(0), 1);
    assert_eq!(X86Instruction::size_of_pop(7), 1);
    assert_eq!(X86Instruction::size_of_pop(8), 2);
    assert_eq!(X86Instruction::size_of_pop(15), 2);
    assert_eq!(X86Instruction::size_of_move64(), 3);
    assert_eq!(X86Instruction::size_of_jump(0x2000, 0x1000), 5);
    if wide() {
        assert_eq!(X86Instruction::size_of_push_pointer(0x1_0000_0000), 13);
        assert_eq!(X86Instruction::size_of_jump_blind(0x1234), 6);
        assert_eq!(X86Instruction::size_of_jump_blind(high_address()), 14);
        assert_eq!(X86Instruction::size_of_jump(0x9000_0000, 0x1000), 6);
        assert_eq!(X86Instruction::size_of_jump(high_address(), 0x1000), 14);
    } else {
        assert_eq!(X86Instruction::size_of_jump_blind(0x1234), 5);
    }
}

#[test]
fn x86_plan_switches_at_the_edge_of_the_near_range() {
    let source = 0x1000usize;
    let near = JumpPlan { size: 5, strategy: JumpStrategy::Near };
    assert_eq!(X86Instruction::plan_jump(source + 5 + 0x7fff_ffff, source), near);
    assert_eq!(X86Instruction::plan_jump(source, source), near);
    if wide() {
        let source = 0x1_0000_0000u64 as usize;
        let far = JumpPlan { size: 6, strategy: JumpStrategy::Far };
        assert_eq!(X86Instruction::plan_jump(source + 5 + 0x7fff_ffff, source), near);
        assert_eq!(
            X86Instruction::plan_jump(source + 5 + 0x8000_0000, source),
            JumpPlan { size: 14, strategy: JumpStrategy::Far }
        );
        assert_eq!(X86Instruction::plan_jump(source + 5 - 0x8000_0000, source), near);
        assert_eq!(X86Instruction::plan_jump(source + 5 - 0x8000_0001, source), far);
    }
}

#[test]
fn x86_write_skip() {
    let mut buffer = [0xccu8; 8];
    X86Instruction::write_skip(&mut buffer, 1, 0x100);
    assert_eq!(buffer, [0xcc, 0xe9, 0x00, 0x01, 0x00, 0x00, 0xcc, 0xcc]);
    X86Instruction::write_skip(&mut buffer, 3, -2);
    assert_eq!(buffer, [0xcc, 0xe9, 0x00, 0xe9, 0xfe, 0xff, 0xff, 0xff]);
    X86Instruction::write_skip(&mut buffer, 0, i32::MIN);
    assert_eq!(&buffer[..5], &[0xe9, 0x00, 0x00, 0x00, 0x80]);
}

#[test]
fn x86_write_push_pointer() {
    let mut buffer = [0xccu8; 16];
    assert_eq!(X86Instruction::write_push_pointer(&mut buffer, 2, 0x12345678), 5);
    assert_eq!(&buffer[..8], &[0xcc, 0xcc, 0x68, 0x78, 0x56, 0x34, 0x12, 0xcc]);
    if wide() {
        let mut buffer = [0xccu8; 16];
        assert_eq!(X86Instruction::write_push_pointer(&mut buffer, 1, high_address()), 13);
        assert_eq!(
            buffer,
            [0xcc, 0x68, 0x88, 0x77, 0x66, 0x55, 0xc7, 0x44, 0x24, 0x04, 0x44, 0x33, 0x22, 0x11, 0xcc, 0xcc]
        );
    }
}

#[test]
fn x86_write_jump_address() {
    let mut buffer = [0xccu8; 16];
    assert_eq!(X86Instruction::write_jump_address(&mut buffer, 0, 0x2000, 0x1000), 5);
    assert_eq!(&buffer[..6], &[0xe9, 0xfb, 0x0f, 0x00, 0x00, 0xcc]);
    assert_eq!(X86Instruction::write_jump_address(&mut buffer, 0, 0x1000, 0x1000), 5);
    assert_eq!(&buffer[..6], &[0xe9, 0xfb, 0xff, 0xff, 0xff, 0xcc]);
    if wide() {
        let mut buffer = [0xccu8; 16];
        assert_eq!(X86Instruction::write_jump_address(&mut buffer, 1, high_address(), 0x1000), 14);
        assert_eq!(
            buffer,
            [0xcc, 0x68, 0x88, 0x77, 0x66, 0x55, 0xc7, 0x44, 0x24, 0x04, 0x44, 0x33, 0x22, 0x11, 0xc3, 0xcc]
        );
        let mut buffer = [0xccu8; 8];
        assert_eq!(X86Instruction::write_jump_address(&mut buffer, 0, 0x9000_0000, 0x1000), 6);
        assert_eq!(buffer, [0x68, 0x00, 0x00, 0x00, 0x90, 0xc3, 0xcc, 0xcc]);
    }
}

#[test]
fn x86_written_length_is_the_planned_length() {
    let sources = [0x1000usize, 0x7fff_0000, usize::MAX - 2, 0];
    let targets = [0x2000usize, 0x9000_0000, usize::MAX, 1, high_address()];
    for source in sources {
        for target in targets {
            let mut buffer = [0u8; 16];
            let written = X86Instruction::write_jump_address(&mut buffer, 0, target, source);
            assert_eq!(written, X86Instruction::plan_jump(target, source).size);
            assert_eq!(written, X86Instruction::size_of_jump(target, source));
        }
    }
}

#[test]
fn x86_write_call_address() {
    let mut buffer = [0xccu8; 24];
    assert_eq!(X86Instruction::write_call_address(&mut buffer, 0, 0x1100, 0x1000), 5);
    assert_eq!(&buffer[..6], &[0xe8, 0xfb, 0x00, 0x00, 0x00, 0xcc]);
    if wide() {
        let mut buffer = [0xccu8; 24];
        assert_eq!(X86Instruction::write_call_address(&mut buffer, 1, high_address(), 0x1000), 21);
        assert_eq!(
            buffer,
            [
                0xcc, 0x68, 0x88, 0x77, 0x66, 0x55, 0xc7, 0x44, 0x24, 0x04, 0x44, 0x33, 0x22, 0x11, 0x83, 0xc4,
                0x08, 0x67, 0xff, 0x54, 0x24, 0xf8, 0xcc, 0xcc
            ]
        );
    }
}

#[test]
fn x86_register_instructions() {
    let mut buffer = [0xccu8; 4];
    assert_eq!(X86Instruction::write_call_register(&mut buffer, 0, X86Register::RAX), 2);
    assert_eq!(buffer, [0xff, 0xd0, 0xcc, 0xcc]);
    assert_eq!(X86Instruction::write_call_register(&mut buffer, 1, X86Register::R9), 3);
    assert_eq!(buffer, [0xff, 0x41, 0xff, 0xd1]);

    let mut buffer = [0xccu8; 4];
    assert_eq!(X86Instruction::write_jump_register(&mut buffer, 0, X86Register::RBX), 2);
    assert_eq!(buffer, [0xff, 0xe3, 0xcc, 0xcc]);
    assert_eq!(X86Instruction::write_jump_register(&mut buffer, 0, X86Register::R15), 3);
    assert_eq!(buffer, [0x41, 0xff, 0xe7, 0xcc]);

    let mut buffer = [0xccu8; 4];
    assert_eq!(X86Instruction::write_pop(&mut buffer, 0, 0), 1);
    assert_eq!(X86Instruction::write_pop(&mut buffer, 1, 8), 2);
    assert_eq!(buffer, [0x58, 0x41, 0x58, 0xcc]);
    assert_eq!(X86Instruction::write_pop(&mut buffer, 2, 16), 2);
    assert_eq!(buffer, [0x58, 0x41, 0x40, 0x58]);

    let mut buffer = [0xccu8; 4];
    assert_eq!(X86Instruction::write_push(&mut buffer, 0, X86Register::RBP), 1);
    assert_eq!(X86Instruction::write_push(&mut buffer, 1, X86Register::R12), 2);
    assert_eq!(buffer, [0x55, 0x41, 0x54, 0xcc]);

    let mut buffer = [0xccu8; 4];
    assert_eq!(X86Instruction::write_add(&mut buffer, 0, X86Register::RSP, 8), 3);
    assert_eq!(buffer, [0x83, 0xc4, 0x08, 0xcc]);
    assert_eq!(X86Instruction::write_add(&mut buffer, 1, X86Register::RBX, 0xff), 3);
    assert_eq!(buffer, [0x83, 0x83, 0xc7, 0xff]);

    let mut buffer = [0xccu8; 4];
    assert_eq!(X86Instruction::write_move64(&mut buffer, 0, 1, 0), 3);
    assert_eq!(buffer, [0x48, 0x8b, 0x01, 0xcc]);
    assert_eq!(X86Instruction::write_move64(&mut buffer, 1, 9, 10), 3);
    assert_eq!(buffer, [0x48, 0x4d, 0x8b, 0x11]);
}

#[test]
fn x86_write_set64() {
    let mut buffer = [0xccu8; 12];
    assert_eq!(X86Instruction::write_set64(&mut buffer, 1, X86Register::RAX, 0x1122_3344_5566_7788), 10);
    assert_eq!(buffer, [0xcc, 0x48, 0xb8, 0x88, 0x77, 0x66, 0x55, 0x44, 0x33, 0x22, 0x11, 0xcc]);
    assert_eq!(X86Instruction::write_set64(&mut buffer, 0, X86Register::R10, 1), 10);
    assert_eq!(&buffer[..10], &[0x4c, 0xba, 0x01, 0, 0, 0, 0, 0, 0, 0]);
}

#[test]
fn arm_register_and_condition_numbers() {
    assert_eq!(ArmRegister::R0.index(), 0);
    assert_eq!(ArmRegister::R15.index(), 15);
    assert_eq!(ARM_SP, ArmRegister::R13);
    assert_eq!(ArmCondition::EQ.index(), 0);
    assert_eq!(ArmCondition::AL.index(), 14);
    assert_eq!(ArmCondition::AL as u8, 14);
    assert_eq!(ARM_HS, ArmCondition::CS);
    assert_eq!(ARM_LO, ArmCondition::CC);
}

#[test]
fn arm_words() {
    assert_eq!(ArmInstruction::mrs_rm_cpsr(ArmRegister::R0), 0xe10f0000);
    assert_eq!(ArmInstruction::mrs_rm_cpsr(ArmRegister::R1), 0xe10f1000);
    assert_eq!(ArmInstruction::msr_cpsr_f_rm(ArmRegister::R0), 0xe128f000);
    assert_eq!(ArmInstruction::msr_cpsr_f_rm(ArmRegister::R7), 0xe128f007);
    assert_eq!(ArmInstruction::ldr_rd_rn_imm(ArmRegister::R0, ArmRegister::R1, 4), 0xe5910004);
    assert_eq!(ArmInstruction::ldr_rd_rn_imm(ArmRegister::R0, ArmRegister::R1, -4), 0xe5110004);
    assert_eq!(ArmInstruction::ldr_rd_rn_imm(ArmRegister::R15, ArmRegister::R15, 0), 0xe59ff000);
    assert_eq!(ArmInstruction::str_rd_rn_imm(ArmRegister::R2, ARM_SP, -8), 0xe50d2008);
    assert_eq!(ArmInstruction::str_rd_rn_imm(ArmRegister::R2, ARM_SP, 0xfff), 0xe58d2fff);
    assert_eq!(ArmInstruction::sub_rd_rn_imm(ARM_SP, ARM_SP, 16), 0xe24dd010);
    assert_eq!(ArmInstruction::blx_rm(ArmRegister::R12), 0xe12fff3c);
    assert_eq!(ArmInstruction::mov_rd_rm(ArmRegister::R0, ArmRegister::R1), 0xe1a00001);
    assert_eq!(ArmInstruction::mov_rd_rm(ARM_PC, ARM_LR), 0xe1a0f00e);
    assert_eq!(ArmInstruction::ldmia_sp_regs(0x000f), 0xe8bd000f);
    assert_eq!(ArmInstruction::stmdb_sp_regs(0x4000), 0xe92d4000);
    assert_eq!(ArmInstruction::ldmia_sp_regs(0x0001) & 0xffff_0000, ArmInstruction::STMIA_SP_R0 ^ 0x0010_0001);
    assert_eq!(ArmInstruction::BX_R0, 0xe12fff10);
    assert_eq!(ArmInstruction::STMIA_SP_R0, 0xe8ad0001);
}

#[test]
fn arm_offsets_beyond_the_field_run_into_the_fields_above() {
    // 0x1000 is bit 12, the lowest bit of the rd field
    assert_eq!(ArmInstruction::ldr_rd_rn_imm(ArmRegister::R0, ArmRegister::R0, 0x1000), 0xe5901000);
    assert_eq!(ArmInstruction::ldr_rd_rn_imm(ArmRegister::R0, ArmRegister::R0, i32::MIN), 0xe5100000);
}

#[test]
fn thumb_words() {
    assert_eq!(ThumbInstruction::b(0), 0xde00);
    assert_eq!(ThumbInstruction::b(-1), 0xdeff);
    assert_eq!(ThumbInstruction::b(0x7f), 0xde7f);
    assert_eq!(ThumbInstruction::b(i8::MIN), 0xde80);
    assert_eq!(ThumbInstruction::blx(3), 0x4798);
    assert_eq!(ThumbInstruction::bx(14), 0x4770);
    assert_eq!(ThumbInstruction::add_rd_rm(0, 1), 0x4408);
    assert_eq!(ThumbInstruction::add_rd_rm(8, 1), 0x4488);
    assert_eq!(ThumbInstruction::add_rd_rm(13, 15), 0x44fd);
    assert_eq!(ThumbInstruction::mov_rd_rm(8, 8), ThumbInstruction::NOP);
    assert_eq!(ThumbInstruction::mov_rd_rm(0, 1), 0x4608);
    assert_eq!(ThumbInstruction::push_regs(0x4001), 0xb501);
    assert_eq!(ThumbInstruction::push_regs(0x8001), 0xb401);
    assert_eq!(ThumbInstruction::pop_regs(0x8001), 0xbd01);
    assert_eq!(ThumbInstruction::pop_regs(0x0001), ThumbInstruction::POP_R0);
    assert_eq!(ThumbInstruction::ldr_rd_rn_imm(0, 1, 2), 0x6888);
    assert_eq!(ThumbInstruction::ldr_rd_rn_imm(7, 7, 0x3f), 0x6fff);
    assert_eq!(ThumbInstruction::ldr_rd_pc_imm(1, 4), 0x4904);
    assert_eq!(ThumbInstruction::cmp_rn_imm(2, 0x10), 0x2210);
}

#[test]
fn thumb_wide_instructions() {
    assert!(ThumbInstruction::is_32bit(0xe800));
    assert!(ThumbInstruction::is_32bit(0xf000));
    assert!(ThumbInstruction::is_32bit(0xf800));
    assert!(ThumbInstruction::is_32bit(0xffff));
    assert!(!ThumbInstruction::is_32bit(0xe7ff));
    assert!(!ThumbInstruction::is_32bit(0xe000));
    assert!(!ThumbInstruction::is_32bit(0x4770));
    assert!(!ThumbInstruction::is_32bit(0));
}

#[test]
fn arm_instruction_widths() {
    assert_eq!(get_instruction_width_arm(), 4);
    assert_eq!(get_instruction_width_thumb(&[0x70, 0x47]), 2);
    // the halfword is stored low byte first: 0xf000
    assert_eq!(get_instruction_width_thumb(&[0x00, 0xf0, 0x00, 0xf8]), 4);
    assert_eq!(get_instruction_width_thumb(&[0xf0, 0x00]), 2);
    assert_eq!(get_instruction_width(0x1000, &[0x00, 0xf0, 0x00, 0xf8]), 4);
    assert_eq!(get_instruction_width(0x1000, &[]), 4);
    assert_eq!(get_instruction_width(0x1001, &[0x70, 0x47]), 2);
    assert_eq!(get_instruction_width(0x1001, &[0x00, 0xf0, 0x00, 0xf8]), 4);
}

#[test]
fn arm_function_pointers() {
    assert!(!is_thumb_pointer(0x1000));
    assert!(is_thumb_pointer(0x1001));
    assert!(is_thumb_pointer(usize::MAX));
    assert_eq!(code_address(0x1000), 0x1000);
    assert_eq!(code_address(0x1001), 0x1000);
    assert_eq!(code_address(usize::MAX), usize::MAX - 1);
    assert_eq!(code_address(0), 0);
}
