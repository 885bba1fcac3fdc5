use vstd::prelude::*;

use crate::bitutil::{bits_of, sext_field, sign_extend};
use crate::encodings::{funct3_of, rd_of, rs1_of, IType, UType};
use crate::memory::{access_fault, read_le, Memory, MemoryError};
use crate::ops::{Instruction, Op};
use crate::registers::{reg_write, Registers};
use crate::types::{RegIndex, Word};

verus! {

/// Why an instruction could not be decoded.
#[derive(Debug, Clone, Copy, PartialEq, Eq, Structural)]
pub enum DecodeError {
    /// Fetching the instruction word faulted.
    MemoryError(MemoryError),
    /// No instruction has this opcode and function code.
    Illegal,
}

impl From<MemoryError> for DecodeError {
    fn from(value: MemoryError) -> (r: Self) {
        DecodeError::MemoryError(value)
    }
}

impl vstd::std_specs::convert::FromSpecImpl<MemoryError> for DecodeError {
    open spec fn obeys_from_spec() -> bool {
        true
    }

    open spec fn from_spec(v: MemoryError) -> DecodeError {
        DecodeError::MemoryError(v)
    }
}

/// Why a step did not complete; the machine is left as it was.
#[derive(Debug, Clone, Copy, PartialEq, Eq, Structural)]
pub enum StepError {
    /// The instruction at the program counter could not be decoded.
    Decode(DecodeError),
    /// The memory access of a load faulted.
    Load(MemoryError),
}

/// The primary opcode, bits 6..0.
pub open spec fn opcode_of(w: u32) -> u32 {
    w & 0x7f
}

/// A load-upper-immediate instruction.
pub open spec fn is_lui(w: u32) -> bool {
    opcode_of(w) == 0x37
}

/// A load: its opcode with a width and sign code of byte, half, word, or
/// unsigned byte or half.
pub open spec fn is_load(w: u32) -> bool {
    &&& opcode_of(w) == 0x03
    &&& {
        let f = funct3_of(w);
        f == 0 || f == 1 || f == 2 || f == 4 || f == 5
    }
}

/// `op` is the instruction that word `w` encodes.
pub open spec fn decodes_to(w: u32, op: Op) -> bool {
    match op {
        Op::Lui(u) => is_lui(w) && u.decodes(w),
        Op::Lb(i) => opcode_of(w) == 0x03 && funct3_of(w) == 0 && i.decodes(w),
        Op::Lh(i) => opcode_of(w) == 0x03 && funct3_of(w) == 1 && i.decodes(w),
        Op::Lw(i) => opcode_of(w) == 0x03 && funct3_of(w) == 2 && i.decodes(w),
        Op::Lbu(i) => opcode_of(w) == 0x03 && funct3_of(w) == 4 && i.decodes(w),
        Op::Lhu(i) => opcode_of(w) == 0x03 && funct3_of(w) == 5 && i.decodes(w),
        _ => false,
    }
}

/// Bytes read by a load with width and sign code `f`.
pub open spec fn load_width(f: u8) -> nat {
    if f == 0 || f == 4 {
        1
    } else if f == 1 || f == 5 {
        2
    } else {
        4
    }
}

/// The register value of `n` loaded bytes worth `raw`, sign-extended when
/// `signed` holds and zero-extended otherwise.
pub open spec fn extend_loaded(raw: nat, n: nat, signed: bool) -> u32 {
    if signed {
        sign_extend(raw as u32, (8 * n) as u32)
    } else {
        raw as u32
    }
}

/// `base` plus `offset`, modulo `2^32`.
pub open spec fn offset_address(base: u32, offset: int) -> u32 {
    ((base + offset) % 0x1_0000_0000) as u32
}

/// The twelve-bit immediate at bits 31..20 of `w`, sign-extended.
pub open spec fn imm12_of(w: u32) -> int {
    sign_extend(bits_of(w, 20, 31), 12) as i32 as int
}

/// `value` sign-extended from its low `k` bits, as an unsigned word.
fn sign_extended_word(value: Word, k: usize) -> (r: Word)
    requires
        1 <= k <= 32,
    ensures
        r == sign_extend(value, k as u32),
{
    proof {
        let x = sign_extend(value, k as u32);
        assert((x as i32) as u32 == x) by (bit_vector);
    }
    sext_field(value, k) as Word
}

/// A machine: one memory and one register file, owned for its whole life.
pub struct Emulator {
    pub regs: Registers,
    pub mem: Memory,
}

impl Emulator {
    /// The register file keeps slot zero at zero.
    pub open spec fn wf(&self) -> bool {
        self.regs.wf()
    }

    /// The word at `address` in memory, little-endian.
    pub open spec fn word_at(&self, address: u32) -> u32 {
        read_le(self.mem@, address as nat, 4) as u32
    }

    /// The register file after one step from this state, or why the step fails.
    pub open spec fn step_outcome(&self) -> Result<Seq<u32>, StepError> {
        let regs = self.regs@;
        let pc = regs[32];
        let next_pc = offset_address(pc, 4);
        match access_fault(self.mem@.len(), pc as nat, 4, true) {
            Some(e) => Err(StepError::Decode(DecodeError::MemoryError(e))),
            None => {
                let w = self.word_at(pc);
                if is_lui(w) {
                    Ok(reg_write(reg_write(regs, rd_of(w), w & 0xffff_f000u32), 32, next_pc))
                } else if is_load(w) {
                    let f = funct3_of(w);
                    let n = load_width(f);
                    let address = offset_address(regs[rs1_of(w) as int], imm12_of(w));
                    match access_fault(self.mem@.len(), address as nat, n, false) {
                        Some(e) => Err(StepError::Load(e)),
                        None => Ok(
                            reg_write(
                                reg_write(
                                    regs,
                                    rd_of(w),
                                    extend_loaded(read_le(self.mem@, address as nat, n), n, f < 4),
                                ),
                                32,
                                next_pc,
                            ),
                        ),
                    }
                } else {
                    Err(StepError::Decode(DecodeError::Illegal))
                }
            },
        }
    }

    /// A machine over `mem` with every register zero.
    pub fn new(mem: Memory) -> (r: Self)
        ensures
            r.wf(),
            r.regs@ == Seq::new(33, |i: int| 0u32),
            r.mem@ == mem@,
    {
        Emulator { regs: Registers::default(), mem }
    }

    /// Fetches the word at `ip`, which must be 4-aligned, and decodes it.
    pub fn decode(&self, ip: Word) -> (r: Result<Instruction, DecodeError>)
        ensures
            match access_fault(self.mem@.len(), ip as nat, 4, true) {
                Some(e) => r == Err::<Instruction, DecodeError>(DecodeError::MemoryError(e)),
                None => {
                    let w = self.word_at(ip);
                    if is_lui(w) || is_load(w) {
                        r matches Ok(ins) && decodes_to(w, ins.op) && ins.num_words == 1
                    } else {
                        r == Err::<Instruction, DecodeError>(DecodeError::Illegal)
                    }
                },
            },
            r matches Ok(ins) ==> match ins.op {
                Op::Lui(u) => u.wf(),
                Op::Lb(i) | Op::Lh(i) | Op::Lw(i) | Op::Lbu(i) | Op::Lhu(i) => i.wf(),
                _ => true,
            },
    {
        let first_word: Word = match self.mem.load32_aligned(ip) {
            Ok(w) => w,
            Err(e) => return Err(DecodeError::from(e)),
        };
        let first_bits = first_word & 0b1111111;
        let num_words: usize = 1;
        let op = if first_bits == 0b0110111 {
            Op::Lui(UType::from(first_word))
        } else if first_bits == 0b0000011 {
            let operands = IType::from(first_word);
            if operands.funct3 == 0b000 {
                Op::Lb(operands)
            } else if operands.funct3 == 0b001 {
                Op::Lh(operands)
            } else if operands.funct3 == 0b010 {
                Op::Lw(operands)
            } else if operands.funct3 == 0b100 {
                Op::Lbu(operands)
            } else if operands.funct3 == 0b101 {
                Op::Lhu(operands)
            } else {
                return Err(DecodeError::Illegal);
            }
        } else {
            return Err(DecodeError::Illegal);
        };
        Ok(Instruction { op, num_words })
    }

    /// Memory-ordering hook; with a single hart there is nothing to order.
    pub fn smp_noop(&self) {
    }

    /// Effective address of a load or store: register `rs1` plus the
    /// sign-extended immediate, wrapping modulo `2^32`.
    pub fn compute_address_load_store(&self, p: &IType) -> (r: Word)
        requires
            self.wf(),
            p.wf(),
        ensures
            r == offset_address(
                self.regs@[p.rs1 as int],
                sign_extend(p.imm@.0, 12) as i32 as int,
            ),
    {
        let source_address = self.regs.load(p.rs1);
        let offset = p.imm.sext();
        source_address.wrapping_add_signed(offset)
    }

    /// One fetch-decode-execute cycle: runs the instruction at the program
    /// counter and advances the counter past it. Where the instruction cannot
    /// be decoded or its load faults, the machine is left unchanged and the
    /// cause is returned.
    pub fn step(&mut self) -> (r: Result<(), StepError>)
        requires
            old(self).wf(),
        ensures
            final(self).wf(),
            final(self).mem@ == old(self).mem@,
            match old(self).step_outcome() {
                Ok(regs) => r is Ok && final(self).regs@ == regs,
                Err(e) => r == Err::<(), StepError>(e) && final(self).regs@ == old(self).regs@,
            },
    {
        let ip = self.regs.load(Registers::PC_INDEX);
        let ins = match self.decode(ip) {
            Ok(ins) => ins,
            Err(e) => return Err(StepError::Decode(e)),
        };
        let next_ip = ip.wrapping_add((ins.num_words * 4) as Word);
        match ins.op {
            Op::Lui(p) => {
                self.regs.store(p.rd, p.imm.zext());
            },
            Op::Lb(p) => {
                let computed_address = self.compute_address_load_store(&p);
                let value = match self.mem.load8(computed_address) {
                    Ok(v) => v,
                    Err(e) => return Err(StepError::Load(e)),
                };
                proof {
                    crate::memory::lemma_read_one_byte(self.mem@, computed_address as nat);
                }
                self.regs.store(p.rd, sign_extended_word(value as Word, 8));
            },
            Op::Lh(p) => {
                let computed_address = self.compute_address_load_store(&p);
                let value = match self.mem.load16_unaligned(computed_address) {
                    Ok(v) => v,
                    Err(e) => return Err(StepError::Load(e)),
                };
                self.regs.store(p.rd, sign_extended_word(value as Word, 16));
            },
            Op::Lw(p) => {
                let computed_address = self.compute_address_load_store(&p);
                let value = match self.mem.load32_unaligned(computed_address) {
                    Ok(v) => v,
                    Err(e) => return Err(StepError::Load(e)),
                };
                self.regs.store(p.rd, value);
            },
            Op::Lbu(p) => {
                let computed_address = self.compute_address_load_store(&p);
                let value = match self.mem.load8(computed_address) {
                    Ok(v) => v,
                    Err(e) => return Err(StepError::Load(e)),
                };
                proof {
                    crate::memory::lemma_read_one_byte(self.mem@, computed_address as nat);
                }
                self.regs.store(p.rd, value as Word);
            },
            Op::Lhu(p) => {
                let computed_address = self.compute_address_load_store(&p);
                let value = match self.mem.load16_unaligned(computed_address) {
                    Ok(v) => v,
                    Err(e) => return Err(StepError::Load(e)),
                };
                self.regs.store(p.rd, value as Word);
            },
            Op::Fence | Op::FenceI => self.smp_noop(),
            // decode yields no other instruction yet
            _ => {},
        }
        self.regs.store(Registers::PC_INDEX, next_ip);
        Ok(())
    }
}

} // verus!
