use vstd::prelude::*;

use crate::types::Word;

verus! {

/// Why a memory access failed.
#[derive(Debug, Clone, Copy, PartialEq, Eq, Structural)]
pub enum MemoryError {
    /// The address is not a multiple of the access width.
    Unaligned,
    /// A byte of the access lies at or beyond the end of memory.
    Unmapped,
}

/// `256` to the power `n`: the number of values that `n` bytes hold.
pub open spec fn byte_range(n: nat) -> nat
    decreases n,
{
    if n == 0 {
        1
    } else {
        256 * byte_range((n - 1) as nat)
    }
}

/// The number that `bytes` encode, least significant byte first.
pub open spec fn le_value(bytes: Seq<u8>) -> nat
    decreases bytes.len(),
{
    if bytes.len() == 0 {
        0
    } else {
        bytes[0] as nat + 256 * le_value(bytes.subrange(1, bytes.len() as int))
    }
}

/// The `n` low bytes of `v`, least significant first.
pub open spec fn le_bytes(v: nat, n: nat) -> Seq<u8>
    decreases n,
{
    if n == 0 {
        Seq::empty()
    } else {
        seq![(v % 256) as u8] + le_bytes(v / 256, (n - 1) as nat)
    }
}

/// The fault, if any, of an access of `n` bytes at `address` in a memory of
/// `size` bytes; alignment is checked first, and only when `aligned` asks.
pub open spec fn access_fault(size: nat, address: nat, n: nat, aligned: bool) -> Option<
    MemoryError,
> {
    if aligned && address % n != 0 {
        Some(MemoryError::Unaligned)
    } else if address + n > size {
        Some(MemoryError::Unmapped)
    } else {
        None
    }
}

/// The value of the `n` bytes at `address`, little-endian.
pub open spec fn read_le(mem: Seq<u8>, address: nat, n: nat) -> nat {
    le_value(mem.subrange(address as int, (address + n) as int))
}

/// `mem` with the `n` bytes at `address` replaced by the low bytes of `v`.
pub open spec fn write_le(mem: Seq<u8>, address: nat, n: nat, v: nat) -> Seq<u8> {
    mem.subrange(0, address as int) + le_bytes(v, n) + mem.subrange(
        (address + n) as int,
        mem.len() as int,
    )
}

proof fn lemma_le_value_bound(bytes: Seq<u8>)
    ensures
        le_value(bytes) < byte_range(bytes.len()),
    decreases bytes.len(),
{
    if bytes.len() > 0 {
        lemma_le_value_bound(bytes.subrange(1, bytes.len() as int));
    }
}

proof fn lemma_le_bytes_len(v: nat, n: nat)
    ensures
        le_bytes(v, n).len() == n,
    decreases n,
{
    if n > 0 {
        lemma_le_bytes_len(v / 256, (n - 1) as nat);
    }
}

proof fn lemma_le_value_of_bytes(v: nat, n: nat)
    requires
        v < byte_range(n),
    ensures
        le_value(le_bytes(v, n)) == v,
    decreases n,
{
    if n > 0 {
        let rest = le_bytes(v / 256, (n - 1) as nat);
        lemma_le_bytes_len(v / 256, (n - 1) as nat);
        lemma_le_value_of_bytes(v / 256, (n - 1) as nat);
        let s = le_bytes(v, n);
        assert(s.subrange(1, s.len() as int) =~= rest);
    }
}

proof fn lemma_byte_ranges()
    ensures
        byte_range(1) == 0x100,
        byte_range(2) == 0x1_0000,
        byte_range(4) == 0x1_0000_0000,
        byte_range(8) == 0x1_0000_0000_0000_0000,
{
    reveal_with_fuel(byte_range, 9);
}

/// Storing a value that fits in `n` bytes and loading the same bytes back
/// gives the value.
pub proof fn lemma_store_load_round_trip(mem: Seq<u8>, address: nat, n: nat, v: nat)
    requires
        address + n <= mem.len(),
        v < byte_range(n),
    ensures
        write_le(mem, address, n, v).len() == mem.len(),
        read_le(write_le(mem, address, n, v), address, n) == v,
{
    lemma_le_bytes_len(v, n);
    let w = write_le(mem, address, n, v);
    assert(w.subrange(address as int, (address + n) as int) =~= le_bytes(v, n));
    lemma_le_value_of_bytes(v, n);
}

/// A one-byte little-endian value is the byte itself.
pub proof fn lemma_read_one_byte(mem: Seq<u8>, address: nat)
    requires
        address < mem.len(),
    ensures
        read_le(mem, address, 1) == mem[address as int],
{
    let s = mem.subrange(address as int, (address + 1) as int);
    assert(s.subrange(1, 1) =~= Seq::<u8>::empty());
    assert(le_value(s.subrange(1, 1)) == 0);
}

/// Byte address `j` lies at or beyond the end of a memory of `size` bytes.
pub open spec fn lies_beyond(size: nat, j: nat) -> bool {
    j >= size
}

/// A checked access succeeds, in range, exactly at multiples of its width; an
/// unchecked access never fails for alignment.
pub proof fn lemma_alignment(size: nat, address: nat, n: nat)
    requires
        n > 0,
        address + n <= size,
    ensures
        access_fault(size, address, n, true) is None <==> address % n == 0,
        access_fault(size, address, n, false) != Some(MemoryError::Unaligned),
{
}

/// An access of `n` bytes at `address` fails as unmapped exactly when one of
/// its bytes lies at or beyond the end of memory (for a checked access, once
/// it is aligned).
pub proof fn lemma_unmapped_iff_byte_out_of_range(size: nat, address: nat, n: nat)
    requires
        n > 0,
    ensures
        access_fault(size, address, n, false) == Some(MemoryError::Unmapped) <==> exists|j: nat|
            address <= j < address + n && #[trigger] lies_beyond(size, j),
        address % n == 0 ==> access_fault(size, address, n, true) == access_fault(
            size,
            address,
            n,
            false,
        ),
{
    if address + n > size {
        let last = (address + n - 1) as nat;
        assert(address <= last && last < address + n && lies_beyond(size, last));
    }
}

/// A flat, fixed-size, byte-addressable memory.
pub struct Memory {
    data: Vec<u8>,
}

impl View for Memory {
    type V = Seq<u8>;

    closed spec fn view(&self) -> Seq<u8> {
        self.data@
    }
}

impl Memory {
    /// A memory of `size` bytes, all zero.
    pub fn with_size(size: usize) -> (r: Self)
        ensures
            r@ == Seq::new(size as nat, |i: int| 0u8),
    {
        let mut data: Vec<u8> = Vec::with_capacity(size);
        let mut i: usize = 0;
        while i < size
            invariant
                i <= size,
                data@ == Seq::new(i as nat, |j: int| 0u8),
            decreases size - i,
        {
            data.push(0);
            i = i + 1;
        }
        Memory { data }
    }

    /// The number of bytes of memory.
    pub fn size(&self) -> (r: usize)
        ensures
            r == self@.len(),
    {
        self.data.len()
    }

    /// Reads the byte at `address`.
    pub fn load8(&self, address: Word) -> (r: Result<u8, MemoryError>)
        ensures
            address < self@.len() ==> r == Ok::<u8, MemoryError>(self@[address as int]),
            address >= self@.len() ==> r == Err::<u8, MemoryError>(MemoryError::Unmapped),
    {
        if (address as u64) < (self.data.len() as u64) {
            Ok(self.data[address as usize])
        } else {
            Err(MemoryError::Unmapped)
        }
    }

    /// Writes the byte at `address`; an address beyond the end leaves memory
    /// unchanged.
    pub fn store8(&mut self, address: Word, value: u8) -> (r: Result<(), MemoryError>)
        ensures
            address < old(self)@.len() ==> r is Ok && final(self)@ == old(self)@.update(
                address as int,
                value,
            ),
            address >= old(self)@.len() ==> r == Err::<(), MemoryError>(MemoryError::Unmapped)
                && final(self)@ == old(self)@,
    {
        if (address as u64) < (self.data.len() as u64) {
            self.data.set(address as usize, value);
            Ok(())
        } else {
            Err(MemoryError::Unmapped)
        }
    }

    /// Reads 2 bytes at `address`, little-endian, at any alignment.
    pub fn load16_unaligned(&self, address: Word) -> (r: Result<u16, MemoryError>)
        ensures
            match access_fault(self@.len(), address as nat, 2, false) {
                Some(e) => r == Err::<u16, MemoryError>(e),
                None => r matches Ok(v) && v as nat == read_le(self@, address as nat, 2),
            },
    {
        proof {
            lemma_byte_ranges();
        }
        match self.load_le(address, 2, false) {
            Ok(v) => Ok(v as u16),
            Err(e) => Err(e),
        }
    }

    /// Reads 2 bytes at `address`, little-endian, failing if `address` is not a multiple of 2.
    pub fn load16_aligned(&self, address: Word) -> (r: Result<u16, MemoryError>)
        ensures
            match access_fault(self@.len(), address as nat, 2, true) {
                Some(e) => r == Err::<u16, MemoryError>(e),
                None => r matches Ok(v) && v as nat == read_le(self@, address as nat, 2),
            },
    {
        proof {
            lemma_byte_ranges();
        }
        match self.load_le(address, 2, true) {
            Ok(v) => Ok(v as u16),
            Err(e) => Err(e),
        }
    }

    /// Writes `value` as 2 bytes at `address`, little-endian, at any alignment;
    /// on a fault memory is left unchanged.
    pub fn store16_unaligned(&mut self, address: Word, value: u16) -> (r: Result<(), MemoryError>)
        ensures
            match access_fault(old(self)@.len(), address as nat, 2, false) {
                Some(e) => r == Err::<(), MemoryError>(e) && final(self)@ == old(self)@,
                None => r is Ok && final(self)@ == write_le(
                    old(self)@,
                    address as nat,
                    2,
                    value as nat,
                ),
            },
    {
        self.store_le(address, value as u64, 2, false)
    }

    /// Writes `value` as 2 bytes at `address`, little-endian, failing if `address` is not a multiple of 2;
    /// on a fault memory is left unchanged.
    pub fn store16_aligned(&mut self, address: Word, value: u16) -> (r: Result<(), MemoryError>)
        ensures
            match access_fault(old(self)@.len(), address as nat, 2, true) {
                Some(e) => r == Err::<(), MemoryError>(e) && final(self)@ == old(self)@,
                None => r is Ok && final(self)@ == write_le(
                    old(self)@,
                    address as nat,
                    2,
                    value as nat,
                ),
            },
    {
        self.store_le(address, value as u64, 2, true)
    }

    /// Reads 4 bytes at `address`, little-endian, at any alignment.
    pub fn load32_unaligned(&self, address: Word) -> (r: Result<u32, MemoryError>)
        ensures
            match access_fault(self@.len(), address as nat, 4, false) {
                Some(e) => r == Err::<u32, MemoryError>(e),
                None => r matches Ok(v) && v as nat == read_le(self@, address as nat, 4),
            },
    {
        proof {
            lemma_byte_ranges();
        }
        match self.load_le(address, 4, false) {
            Ok(v) => Ok(v as u32),
            Err(e) => Err(e),
        }
    }

    /// Reads 4 bytes at `address`, little-endian, failing if `address` is not a multiple of 4.
    pub fn load32_aligned(&self, address: Word) -> (r: Result<u32, MemoryError>)
        ensures
            match access_fault(self@.len(), address as nat, 4, true) {
                Some(e) => r == Err::<u32, MemoryError>(e),
                None => r matches Ok(v) && v as nat == read_le(self@, address as nat, 4),
            },
    {
        proof {
            lemma_byte_ranges();
        }
        match self.load_le(address, 4, true) {
            Ok(v) => Ok(v as u32),
            Err(e) => Err(e),
        }
    }

    /// Writes `value` as 4 bytes at `address`, little-endian, at any alignment;
    /// on a fault memory is left unchanged.
    pub fn store32_unaligned(&mut self, address: Word, value: u32) -> (r: Result<(), MemoryError>)
        ensures
            match access_fault(old(self)@.len(), address as nat, 4, false) {
                Some(e) => r == Err::<(), MemoryError>(e) && final(self)@ == old(self)@,
                None => r is Ok && final(self)@ == write_le(
                    old(self)@,
                    address as nat,
                    4,
                    value as nat,
                ),
            },
    {
        self.store_le(address, value as u64, 4, false)
    }

    /// Writes `value` as 4 bytes at `address`, little-endian, failing if `address` is not a multiple of 4;
    /// on a fault memory is left unchanged.
    pub fn store32_aligned(&mut self, address: Word, value: u32) -> (r: Result<(), MemoryError>)
        ensures
            match access_fault(old(self)@.len(), address as nat, 4, true) {
                Some(e) => r == Err::<(), MemoryError>(e) && final(self)@ == old(self)@,
                None => r is Ok && final(self)@ == write_le(
                    old(self)@,
                    address as nat,
                    4,
                    value as nat,
                ),
            },
    {
        self.store_le(address, value as u64, 4, true)
    }

    /// Reads 8 bytes at `address`, little-endian, at any alignment.
    pub fn load64_unaligned(&self, address: Word) -> (r: Result<u64, MemoryError>)
        ensures
            match access_fault(self@.len(), address as nat, 8, false) {
                Some(e) => r == Err::<u64, MemoryError>(e),
                None => r matches Ok(v) && v as nat == read_le(self@, address as nat, 8),
            },
    {
        proof {
            lemma_byte_ranges();
        }
        match self.load_le(address, 8, false) {
            Ok(v) => Ok(v),
            Err(e) => Err(e),
        }
    }

    /// Reads 8 bytes at `address`, little-endian, failing if `address` is not a multiple of 8.
    pub fn load64_aligned(&self, address: Word) -> (r: Result<u64, MemoryError>)
        ensures
            match access_fault(self@.len(), address as nat, 8, true) {
                Some(e) => r == Err::<u64, MemoryError>(e),
                None => r matches Ok(v) && v as nat == read_le(self@, address as nat, 8),
            },
    {
        proof {
            lemma_byte_ranges();
        }
        match self.load_le(address, 8, true) {
            Ok(v) => Ok(v),
            Err(e) => Err(e),
        }
    }

    /// Writes `value` as 8 bytes at `address`, little-endian, at any alignment;
    /// on a fault memory is left unchanged.
    pub fn store64_unaligned(&mut self, address: Word, value: u64) -> (r: Result<(), MemoryError>)
        ensures
            match access_fault(old(self)@.len(), address as nat, 8, false) {
                Some(e) => r == Err::<(), MemoryError>(e) && final(self)@ == old(self)@,
                None => r is Ok && final(self)@ == write_le(
                    old(self)@,
                    address as nat,
                    8,
                    value as nat,
                ),
            },
    {
        self.store_le(address, value, 8, false)
    }

    /// Writes `value` as 8 bytes at `address`, little-endian, failing if `address` is not a multiple of 8;
    /// on a fault memory is left unchanged.
    pub fn store64_aligned(&mut self, address: Word, value: u64) -> (r: Result<(), MemoryError>)
        ensures
            match access_fault(old(self)@.len(), address as nat, 8, true) {
                Some(e) => r == Err::<(), MemoryError>(e) && final(self)@ == old(self)@,
                None => r is Ok && final(self)@ == write_le(
                    old(self)@,
                    address as nat,
                    8,
                    value as nat,
                ),
            },
    {
        self.store_le(address, value, 8, true)
    }

    /// Copies `image` into memory from address zero, byte by byte. An image
    /// longer than memory, or than the 32-bit address space, is refused as
    /// unmapped and memory is left unchanged.
    pub fn load_image(&mut self, image: &[u8]) -> (r: Result<(), MemoryError>)
        ensures
            image@.len() <= old(self)@.len() && image@.len() <= 0x1_0000_0000 ==> r is Ok
                && final(self)@ == image@ + old(self)@.subrange(
                image@.len() as int,
                old(self)@.len() as int,
            ),
            !(image@.len() <= old(self)@.len() && image@.len() <= 0x1_0000_0000) ==> r == Err::<
                (),
                MemoryError,
            >(MemoryError::Unmapped) && final(self)@ == old(self)@,
    {
        let n = image.len();
        if n > self.data.len() || (n as u64) > 0x1_0000_0000u64 {
            return Err(MemoryError::Unmapped);
        }
        let ghost before = self@;
        let mut i: usize = 0;
        while i < n
            invariant
                i <= n,
                n == image@.len(),
                n <= before.len(),
                n <= 0x1_0000_0000,
                self@.len() == before.len(),
                forall|j: int| 0 <= j < i ==> self@[j] == image@[j],
                forall|j: int| i <= j < before.len() ==> self@[j] == before[j],
            decreases n - i,
        {
            let stored = self.store8(i as Word, image[i]);
            assert(stored is Ok);
            i = i + 1;
        }
        assert(self@ =~= image@ + before.subrange(n as int, before.len() as int));
        Ok(())
    }

    /// The fault of an access of `n` bytes at `address`, if any.
    fn check_access(&self, address: Word, n: usize, aligned: bool) -> (r: Option<MemoryError>)
        requires
            n == 1 || n == 2 || n == 4 || n == 8,
        ensures
            r == access_fault(self@.len(), address as nat, n as nat, aligned),
    {
        if aligned && address % (n as u32) != 0 {
            return Some(MemoryError::Unaligned);
        }
        if (address as u64) + (n as u64) > (self.data.len() as u64) {
            return Some(MemoryError::Unmapped);
        }
        None
    }

    /// Reads `n` bytes at `address` as a little-endian number.
    fn load_le(&self, address: Word, n: usize, aligned: bool) -> (r: Result<u64, MemoryError>)
        requires
            n == 1 || n == 2 || n == 4 || n == 8,
        ensures
            match access_fault(self@.len(), address as nat, n as nat, aligned) {
                Some(e) => r == Err::<u64, MemoryError>(e),
                None => r matches Ok(v) && v as nat == read_le(self@, address as nat, n as nat),
            },
            r matches Ok(v) ==> v < byte_range(n as nat),
    {
        if let Some(e) = self.check_access(address, n, aligned) {
            return Err(e);
        }
        let base = address as usize;
        let len = self.data.len();
        let mut elem: u64 = 0;
        let mut i: usize = n;
        proof {
            lemma_byte_ranges();
        }
        while i > 0
            invariant
                i <= n <= 8,
                base + n <= self@.len(),
                base == address,
                len == self@.len(),
                elem == le_value(self@.subrange(base + i, base + n)),
                elem < byte_range((n - i) as nat),
                byte_range(8) == 0x1_0000_0000_0000_0000,
            decreases i,
        {
            i = i - 1;
            let byte = self.data[base + i];
            proof {
                let s = self@.subrange(base + i, base + n);
                assert(s.subrange(1, s.len() as int) =~= self@.subrange(base + i + 1, base + n));
                assert(byte_range((n - i) as nat) == 256 * byte_range((n - i - 1) as nat));
                lemma_le_value_bound(s);
                assert(byte_range((n - i) as nat) <= byte_range(8)) by {
                    lemma_byte_range_mono((n - i) as nat, 8);
                }
            }
            elem = elem * 256 + byte as u64;
        }
        proof {
            lemma_le_value_bound(self@.subrange(base as int, base + n));
        }
        Ok(elem)
    }

    /// Writes the `n` low bytes of `value` at `address`, least significant
    /// first; on a fault memory is left unchanged.
    fn store_le(&mut self, address: Word, value: u64, n: usize, aligned: bool) -> (r: Result<
        (),
        MemoryError,
    >)
        requires
            n == 1 || n == 2 || n == 4 || n == 8,
        ensures
            match access_fault(old(self)@.len(), address as nat, n as nat, aligned) {
                Some(e) => r == Err::<(), MemoryError>(e) && final(self)@ == old(self)@,
                None => r is Ok && final(self)@ == write_le(
                    old(self)@,
                    address as nat,
                    n as nat,
                    value as nat,
                ),
            },
    {
        if let Some(e) = self.check_access(address, n, aligned) {
            return Err(e);
        }
        let base = address as usize;
        let ghost before = self@;
        let len = self.data.len();
        let mut v: u64 = value;
        let mut i: usize = 0;
        proof {
            lemma_le_bytes_len(value as nat, n as nat);
        }
        while i < n
            invariant
                i <= n <= 8,
                base == address,
                base + n <= before.len(),
                self@.len() == before.len(),
                len == before.len(),
                le_bytes(value as nat, n as nat) =~= self@.subrange(base as int, base + i)
                    + le_bytes(v as nat, (n - i) as nat),
                forall|j: int| 0 <= j < base ==> self@[j] == before[j],
                forall|j: int| base + n <= j < before.len() ==> self@[j] == before[j],
            decreases n - i,
        {
            let ghost prev = self@;
            let ghost v0 = v;
            self.data.set(base + i, (v % 256) as u8);
            v = v / 256;
            i = i + 1;
            proof {
                assert(self@.subrange(base as int, base + i) =~= prev.subrange(
                    base as int,
                    base + i - 1,
                ).push((v0 % 256) as u8));
                assert(le_bytes(v0 as nat, (n - i + 1) as nat) =~= seq![(v0 % 256) as u8]
                    + le_bytes(v as nat, (n - i) as nat));
            }
        }
        proof {
            assert(self@ =~= write_le(before, address as nat, n as nat, value as nat));
        }
        Ok(())
    }
}

proof fn lemma_byte_range_mono(a: nat, b: nat)
    requires
        a <= b,
    ensures
        byte_range(a) <= byte_range(b),
    decreases b,
{
    if a < b {
        lemma_byte_range_mono(a, (b - 1) as nat);
    }
}

} // verus!
