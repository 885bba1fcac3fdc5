use vstd::prelude::*;

use crate::bitutil::{bits_of, extract_bits, FieldBuilder};
use crate::types::{EncodedInstruction, RegIndex};

verus! {

/// Destination register field, bits 11..7.
pub open spec fn rd_of(encoded: u32) -> u8 {
    bits_of(encoded, 7, 11) as u8
}

/// First source register field, bits 19..15.
pub open spec fn rs1_of(encoded: u32) -> u8 {
    bits_of(encoded, 15, 19) as u8
}

/// Second source register field, bits 24..20.
pub open spec fn rs2_of(encoded: u32) -> u8 {
    bits_of(encoded, 20, 24) as u8
}

/// Secondary function field, bits 14..12.
pub open spec fn funct3_of(encoded: u32) -> u8 {
    bits_of(encoded, 12, 14) as u8
}

/// A five-bit field is below 32.
proof fn lemma_reg_field_fits(encoded: u32, start: u32)
    requires
        start <= 27,
    ensures
        bits_of(encoded, start, (start + 4) as u32) < 32,
{
    assert((encoded >> start) & (0xffff_ffffu32 >> ((32 - 5) as u32)) < 32) by (bit_vector);
}

/// The destination register of `encoded`.
pub fn decode_rd(encoded: EncodedInstruction) -> (r: RegIndex)
    ensures
        r == rd_of(encoded),
        r < 32,
{
    proof {
        lemma_reg_field_fits(encoded, 7);
    }
    extract_bits(encoded, 7, 11) as RegIndex
}

/// The first source register of `encoded`.
pub fn decode_rs1(encoded: EncodedInstruction) -> (r: RegIndex)
    ensures
        r == rs1_of(encoded),
        r < 32,
{
    proof {
        lemma_reg_field_fits(encoded, 15);
    }
    extract_bits(encoded, 15, 19) as RegIndex
}

/// The second source register of `encoded`.
pub fn decode_rs2(encoded: EncodedInstruction) -> (r: RegIndex)
    ensures
        r == rs2_of(encoded),
        r < 32,
{
    proof {
        lemma_reg_field_fits(encoded, 20);
    }
    extract_bits(encoded, 20, 24) as RegIndex
}

/// The secondary function code of `encoded`.
fn decode_funct3(encoded: EncodedInstruction) -> (r: u8)
    ensures
        r == funct3_of(encoded),
        r < 8,
{
    assert((encoded >> 12u32) & (0xffff_ffffu32 >> 29u32) < 8) by (bit_vector);
    extract_bits(encoded, 12, 14) as u8
}

/// Operands of a register-register instruction.
pub struct RType {
    pub rd: RegIndex,
    pub funct3: u8,
    pub rs1: RegIndex,
    pub rs2: RegIndex,
    pub funct7: u8,
}

impl RType {
    /// The fields are those of `encoded`.
    pub open spec fn decodes(&self, encoded: u32) -> bool {
        &&& self.rd == rd_of(encoded)
        &&& self.funct3 == funct3_of(encoded)
        &&& self.rs1 == rs1_of(encoded)
        &&& self.rs2 == rs2_of(encoded)
        &&& self.funct7 == bits_of(encoded, 25, 31) as u8
    }

    /// The operands that `encoded` holds in this shape.
    pub fn from(encoded: EncodedInstruction) -> (r: Self)
        ensures
            r.decodes(encoded),
            r.rd < 32 && r.rs1 < 32 && r.rs2 < 32,
    {
        RType {
            rd: decode_rd(encoded),
            funct3: decode_funct3(encoded),
            rs1: decode_rs1(encoded),
            rs2: decode_rs2(encoded),
            funct7: {
                assert((encoded >> 25u32) & (0xffff_ffffu32 >> 25u32) < 128) by (bit_vector);
                extract_bits(encoded, 25, 31) as u8
            },
        }
    }
}

/// Operands of an instruction with a 12-bit signed immediate.
pub struct IType {
    pub rd: RegIndex,
    pub funct3: u8,
    pub rs1: RegIndex,
    pub imm: FieldBuilder,
}

impl IType {
    /// Register indices name general-purpose registers and the immediate
    /// is twelve bits wide.
    pub open spec fn wf(&self) -> bool {
        &&& self.rd < 32
        &&& self.rs1 < 32
        &&& self.imm@.1 == 12
    }

    /// The fields are those of `encoded`.
    pub open spec fn decodes(&self, encoded: u32) -> bool {
        &&& self.rd == rd_of(encoded)
        &&& self.funct3 == funct3_of(encoded)
        &&& self.rs1 == rs1_of(encoded)
        &&& self.imm@ == (bits_of(encoded, 20, 31), 12nat)
    }

    /// The operands that `encoded` holds in this shape.
    pub fn from(encoded: EncodedInstruction) -> (r: Self)
        ensures
            r.decodes(encoded),
            r.wf(),
    {
        let imm = FieldBuilder::default().add_bits(encoded, 20, 31);
        proof {
            let field = bits_of(encoded, 20, 31);
            assert(0u32 | (field << 0u32) == field) by (bit_vector);
        }
        IType { rd: decode_rd(encoded), funct3: decode_funct3(encoded), rs1: decode_rs1(encoded), imm }
    }
}

/// Operands of an instruction with a 20-bit upper immediate.
pub struct UType {
    pub rd: RegIndex,
    pub imm: FieldBuilder,
}

impl UType {
    /// The destination names a general-purpose register and the immediate
    /// covers the whole word.
    pub open spec fn wf(&self) -> bool {
        &&& self.rd < 32
        &&& self.imm@.1 == 32
    }

    /// The fields are those of `encoded`: the immediate is its upper twenty
    /// bits in place, the low twelve zero.
    pub open spec fn decodes(&self, encoded: u32) -> bool {
        &&& self.rd == rd_of(encoded)
        &&& self.imm@ == (encoded & 0xffff_f000u32, 32nat)
    }

    /// The operands that `encoded` holds in this shape.
    pub fn from(encoded: EncodedInstruction) -> (r: Self)
        ensures
            r.decodes(encoded),
            r.wf(),
    {
        let imm = FieldBuilder::default().skip_bits(12).add_bits(encoded, 12, 31);
        proof {
            assert(0u32 | (((encoded >> 12u32) & (0xffff_ffffu32 >> 12u32)) << 12u32) == encoded
                & 0xffff_f000u32) by (bit_vector);
        }
        UType { rd: decode_rd(encoded), imm }
    }
}

} // verus!
