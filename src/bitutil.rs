use vstd::prelude::*;

use crate::types::{EncodedInstruction, SignedWord};

verus! {

/// The `n` lowest bits set, for `n <= 32`.
pub open spec fn low_mask(n: u32) -> u32 {
    if n == 0 {
        0
    } else {
        0xffff_ffffu32 >> ((32 - n) as u32)
    }
}

/// Bits `start..=end` of `word`, right-justified.
pub open spec fn bits_of(word: u32, start: u32, end: u32) -> u32 {
    (word >> start) & low_mask((end - start + 1) as u32)
}

/// The low `k` bits of `value` read as a two's-complement number and
/// sign-extended to the full 32-bit word.
pub open spec fn sign_extend(value: u32, k: u32) -> u32 {
    if k >= 32 {
        value
    } else if (value >> ((k - 1) as u32)) & 1 == 1 {
        value | !low_mask(k)
    } else {
        value & low_mask(k)
    }
}

/// Unsigned value of the inclusive bit range `[start_bit, end_bit]` of `encoded`.
pub fn extract_bits(encoded: EncodedInstruction, start_bit: usize, end_bit: usize) -> (r:
    EncodedInstruction)
    requires
        start_bit <= end_bit < 32,
    ensures
        r == bits_of(encoded, start_bit as u32, end_bit as u32),
{
    let s = start_bit as u32;
    let e = end_bit as u32;
    let num_bits: u32 = e - s + 1;
    (encoded >> s) & (0xffff_ffffu32 >> (32 - num_bits))
}

/// The low `field_size` bits of `value` as a two's-complement number,
/// sign-extended to a full signed word.
pub fn sext_field(value: EncodedInstruction, field_size: usize) -> (r: SignedWord)
    requires
        1 <= field_size <= 32,
    ensures
        r == sign_extend(value, field_size as u32) as i32,
{
    let k = field_size as u32;
    let extended: u32 = if k >= 32 {
        value
    } else {
        let mask: u32 = 0xffff_ffffu32 >> (32 - k);
        if (value >> (k - 1)) & 1 == 1 {
            value | !mask
        } else {
            value & mask
        }
    };
    extended as i32
}

/// Extracting bits `start..=end` is shifting right by `start` and masking
/// with `2^(end - start + 1) - 1`.
pub proof fn lemma_extract_is_shift_and_mask(word: u32, start: u32, end: u32)
    requires
        start <= end < 32,
    ensures
        bits_of(word, start, end) as u64 == ((word as u64) >> (start as u64)) & (((1u64 << ((
        end - start + 1) as u64)) - 1) as u64),
{
    assert(((word >> start) & (0xffff_ffffu32 >> ((32 - (end - start + 1)) as u32))) as u64
        == ((word as u64) >> (start as u64)) & (((1u64 << ((end - start + 1) as u64)) - 1) as u64))
        by (bit_vector)
        requires
            start <= end < 32,
    ;
}

/// Sign-extending a field that has already been sign-extended at the same
/// width changes nothing.
pub proof fn lemma_sign_extend_idempotent(value: u32, k: u32)
    requires
        1 <= k <= 32,
    ensures
        sign_extend(sign_extend(value, k), k) == sign_extend(value, k),
{
    if k < 32 {
        let m = 0xffff_ffffu32 >> ((32 - k) as u32);
        let t = (k - 1) as u32;
        assert((value >> t) & 1 == 1 ==> ((value | !m) >> t) & 1 == 1) by (bit_vector)
            requires
                1 <= k < 32,
                t == k - 1,
                m == 0xffff_ffffu32 >> ((32 - k) as u32),
        ;
        assert((value >> t) & 1 != 1 ==> ((value & m) >> t) & 1 != 1) by (bit_vector)
            requires
                1 <= k < 32,
                t == k - 1,
                m == 0xffff_ffffu32 >> ((32 - k) as u32),
        ;
        assert((value | !m) | !m == value | !m) by (bit_vector);
        assert((value & m) & m == value & m) by (bit_vector);
    }
}

/// Accumulates an immediate from successive bit ranges of instruction words,
/// placing each range just above the bits gathered so far.
pub struct FieldBuilder {
    value: EncodedInstruction,
    bit_count: usize,
}

impl View for FieldBuilder {
    /// The bits gathered so far and how many bit positions they cover.
    type V = (u32, nat);

    closed spec fn view(&self) -> (u32, nat) {
        (self.value, self.bit_count as nat)
    }
}

impl Default for FieldBuilder {
    fn default() -> (r: Self)
        ensures
            r@ == (0u32, 0nat),
    {
        FieldBuilder { value: 0, bit_count: 0 }
    }
}

impl FieldBuilder {
    /// The builder covers no more positions than a word has.
    pub open spec fn wf(&self) -> bool {
        self@.1 <= 32
    }

    /// ORs bits `start_bit..=end_bit` of `encoded` in at the current offset and
    /// advances the offset by the width of the range.
    pub fn add_bits(self, encoded: EncodedInstruction, start_bit: usize, end_bit: usize) -> (r:
        Self)
        requires
            self.wf(),
            start_bit <= end_bit < 32,
            self@.1 + (end_bit - start_bit + 1) <= 32,
        ensures
            r.wf(),
            r@.0 == self@.0 | (bits_of(encoded, start_bit as u32, end_bit as u32) << (
            self@.1 as u32)),
            r@.1 == self@.1 + (end_bit - start_bit + 1),
    {
        let mut b = self;
        b.value = b.value | (extract_bits(encoded, start_bit, end_bit) << (b.bit_count as u32));
        b.skip_bits(end_bit - start_bit + 1)
    }

    /// Advances the offset by `count` positions, leaving them zero.
    pub fn skip_bits(self, count: usize) -> (r: Self)
        requires
            self.wf(),
            self@.1 + count <= 32,
        ensures
            r.wf(),
            r@ == (self@.0, (self@.1 + count) as nat),
    {
        let mut b = self;
        b.bit_count = b.bit_count + count;
        b
    }

    /// The gathered bits as an unsigned value.
    pub fn zext(&self) -> (r: u32)
        ensures
            r == self@.0,
    {
        self.value
    }

    /// The gathered bits sign-extended from the total width gathered.
    pub fn sext(&self) -> (r: i32)
        requires
            1 <= self@.1 <= 32,
        ensures
            r == sign_extend(self@.0, self@.1 as u32) as i32,
    {
        sext_field(self.value, self.bit_count)
    }
}

} // verus!
