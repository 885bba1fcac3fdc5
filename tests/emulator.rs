use rv::emulator::{DecodeError, Emulator, StepError};
use rv::memory::{Memory, MemoryError};
use rv::ops::Op;
use rv::registers::Registers;
use rv::types::RegIndex;

fn boot_words(words: &[u32], size: usize) -> Emulator {
    let mut mem = Memory::with_size(size);
    for (i, w) in words.iter().enumerate() {
        mem.store32_unaligned((i * 4) as u32, *w).unwrap();
    }
    Emulator::new(mem)
}

fn load_word(rd: u32, funct3: u32, rs1: u32, imm: u32) -> u32 {
    (imm << 20) | (rs1 << 15) | (funct3 << 12) | (rd << 7) | 0b0000011
}

#[test]
fn test_lui() {
    // lui x2, 0xBEEF
    let mut emu = boot_words(&[0x0BEE_F137], 64);
    emu.step().unwrap();
    assert_eq!(emu.regs.load(2 as RegIndex), 0xBEEF000);
    assert_eq!(emu.regs.load(Registers::PC_INDEX), 4);
}

#[test]
fn signed_and_unsigned_byte_loads() {
    // lb x1, 16(x0); lbu x3, 16(x0)
    let mut emu = boot_words(&[load_word(1, 0b000, 0, 16), load_word(3, 0b100, 0, 16)], 64);
    emu.mem.store8(16, 0xFF).unwrap();
    emu.step().unwrap();
    assert_eq!(emu.regs.load(1), 0xFFFF_FFFF);
    emu.step().unwrap();
    assert_eq!(emu.regs.load(3), 0x0000_00FF);
    assert_eq!(emu.regs.load(Registers::PC_INDEX), 8);
}

#[test]
fn half_and_word_loads() {
    // lh x1, 20(x0); lhu x2, 20(x0); lw x3, 21(x0)
    let mut emu = boot_words(
        &[load_word(1, 0b001, 0, 20), load_word(2, 0b101, 0, 20), load_word(3, 0b010, 0, 21)],
        64,
    );
    emu.mem.store32_unaligned(20, 0x1280_8001).unwrap();
    emu.mem.store8(24, 0x34).unwrap();
    emu.step().unwrap();
    assert_eq!(emu.regs.load(1), 0xFFFF_8001);
    emu.step().unwrap();
    assert_eq!(emu.regs.load(2), 0x0000_8001);
    emu.step().unwrap();
    assert_eq!(emu.regs.load(3), 0x3412_8080);
}

#[test]
fn load_with_negative_offset_and_base() {
    // lui x5, 0x1 (x5 = 0x1000); lbu x6, -4(x5) reads 0xFFC
    let mut emu = boot_words(&[0x0000_12B7, load_word(6, 0b100, 5, 0xFFC)], 0x1000);
    emu.mem.store8(0xFFC, 0x7E).unwrap();
    emu.step().unwrap();
    assert_eq!(emu.regs.load(5), 0x1000);
    emu.step().unwrap();
    assert_eq!(emu.regs.load(6), 0x7E);
}

#[test]
fn write_to_register_zero_is_discarded() {
    // lui x0, 0xBEEF
    let mut emu = boot_words(&[0x0BEE_F037], 16);
    emu.step().unwrap();
    assert_eq!(emu.regs.load(0), 0);
    assert_eq!(emu.regs.load(Registers::PC_INDEX), 4);
}

#[test]
fn decode_classifies_words() {
    let emu = boot_words(&[0x0BEE_F137, load_word(1, 0b011, 0, 0), 0x0000_0013], 16);
    let ins = emu.decode(0).unwrap();
    assert_eq!(ins.num_words, 1);
    assert!(matches!(ins.op, Op::Lui(_)));
    assert!(matches!(emu.decode(4), Err(DecodeError::Illegal)));
    assert!(matches!(emu.decode(8), Err(DecodeError::Illegal)));
    assert!(matches!(emu.decode(2), Err(DecodeError::MemoryError(MemoryError::Unaligned))));
    assert!(matches!(emu.decode(16), Err(DecodeError::MemoryError(MemoryError::Unmapped))));
}

#[test]
fn failed_step_leaves_machine_unchanged() {
    // lw x1, 100(x0) in 16 bytes of memory
    let mut emu = boot_words(&[load_word(1, 0b010, 0, 100), 0xFFFF_FFFF], 16);
    assert_eq!(emu.step(), Err(StepError::Load(MemoryError::Unmapped)));
    assert_eq!(emu.regs.load(Registers::PC_INDEX), 0);
    assert_eq!(emu.regs.load(1), 0);
    emu.regs.store(Registers::PC_INDEX, 4);
    assert_eq!(emu.step(), Err(StepError::Decode(DecodeError::Illegal)));
    assert_eq!(emu.regs.load(Registers::PC_INDEX), 4);
}

#[test]
fn effective_address_wraps() {
    // x5 = 0 (reset); imm = -1 wraps to 0xFFFF_FFFF
    let emu = boot_words(&[load_word(6, 0b100, 5, 0xFFF)], 16);
    let ins = emu.decode(0).unwrap();
    match ins.op {
        Op::Lbu(p) => assert_eq!(emu.compute_address_load_store(&p), 0xFFFF_FFFF),
        _ => panic!("expected an unsigned byte load"),
    }
}
