use vstd::prelude::*;

verus! {

/// A raw 32-bit instruction word, read only through the extraction functions.
pub type EncodedInstruction = u32;

/// A machine word of the 32-bit base integer ISA.
pub type Word = u32;

/// A machine word read as a two's-complement value.
pub type SignedWord = i32;

/// Index of a slot in the register file.
pub type RegIndex = u8;

} // verus!
