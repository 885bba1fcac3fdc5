use vstd::prelude::*;

use crate::types::{RegIndex, Word};

verus! {

/// The register file seen as a sequence: `s` after writing `value` to slot
/// `index`, where writes to slot zero are discarded.
pub open spec fn reg_write(s: Seq<u32>, index: u8, value: u32) -> Seq<u32> {
    if index == 0 {
        s
    } else {
        s.update(index as int, value)
    }
}

/// Thirty-two general-purpose registers and the program counter.
#[derive(Debug)]
pub struct Registers {
    words: [Word; 33],
}

impl View for Registers {
    type V = Seq<u32>;

    closed spec fn view(&self) -> Seq<u32> {
        self.words@
    }
}

impl Default for Registers {
    fn default() -> (r: Self)
        ensures
            r.wf(),
            r@ == Seq::new(33, |i: int| 0u32),
    {
        let r = Registers { words: [0; 33] };
        assert(r@ =~= Seq::new(33, |i: int| 0u32));
        r
    }
}

impl Registers {
    /// Index of the program-counter slot.
    pub const PC_INDEX: RegIndex = 32;

    /// Thirty-three slots, of which slot zero reads zero.
    pub open spec fn wf(&self) -> bool {
        &&& self@.len() == 33
        &&& self@[0] == 0
    }

    /// The word in slot `index`.
    pub fn load(&self, index: RegIndex) -> (r: Word)
        requires
            self.wf(),
            index <= 32,
        ensures
            r == self@[index as int],
    {
        self.words[index as usize]
    }

    /// Writes `value` to slot `index`; a write to slot zero is discarded.
    pub fn store(&mut self, index: RegIndex, value: Word)
        requires
            old(self).wf(),
            index <= 32,
        ensures
            final(self).wf(),
            final(self)@ == reg_write(old(self)@, index, value),
    {
        if index == 0 {
            return ;
        }
        self.words[index as usize] = value;
    }
}

/// Slot zero reads zero whatever was written to it, and any other
/// general-purpose register reads back what was last written to it.
pub proof fn lemma_store_then_load(s: Seq<u32>, index: u8, value: u32)
    requires
        s.len() == 33,
        s[0] == 0,
        index < 32,
    ensures
        reg_write(s, index, value).len() == 33,
        reg_write(s, index, value)[0] == 0,
        index == 0 ==> reg_write(s, index, value)[index as int] == 0,
        index != 0 ==> reg_write(s, index, value)[index as int] == value,
{
}

} // verus!
