use vstd::prelude::*;

use crate::encodings::{IType, UType};

verus! {

/// The instructions of the 32-bit base integer ISA; those that carry no
/// operands are not executed yet.
pub enum Op {
    Lui(UType),
    Auipc,
    Jal,
    Jalr,
    Beq,
    Bne,
    Blt,
    Bge,
    Bltu,
    Bgeu,
    Lb(IType),
    Lh(IType),
    Lw(IType),
    Lbu(IType),
    Lhu(IType),
    Sb,
    Sh,
    Sw,
    Addi,
    Slti,
    Sltiu,
    Xori,
    Ori,
    Andi,
    Slli,
    Srli,
    Srai,
    Add,
    Sub,
    Sll,
    Slt,
    Sltu,
    Xor,
    Srl,
    Sra,
    Or,
    And,
    Fence,
    FenceI,
    Ecall,
    Ebreak,
    Csrrw,
    Csrrs,
    Csrrc,
    Csrrwi,
    Csrrsi,
    Csrrci,
}

/// A decoded instruction and the number of 32-bit words it occupies.
pub struct Instruction {
    pub op: Op,
    pub num_words: usize,
}

} // verus!
