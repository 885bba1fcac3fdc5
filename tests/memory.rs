use rv::memory::{Memory, MemoryError};

#[test]
pub fn test_le_loads() {
    let mut mem = Memory::with_size(64);
    mem.store8(0x00, 0xAB).unwrap();
    mem.store8(0x01, 0xCD).unwrap();
    mem.store8(0x02, 0xEF).unwrap();
    mem.store8(0x03, 0x01).unwrap();
    mem.store8(0x04, 0x23).unwrap();
    mem.store8(0x05, 0x45).unwrap();
    mem.store8(0x06, 0x67).unwrap();
    mem.store8(0x07, 0x89).unwrap();
    assert_eq!(mem.load16_unaligned(0x00).unwrap(), 0xCDAB);
    assert_eq!(mem.load32_unaligned(0x00).unwrap(), 0x01EFCDAB);
    assert_eq!(mem.load64_unaligned(0x00).unwrap(), 0x8967452301EFCDAB);
}

#[test]
pub fn test_le_stores() {
    let mut mem = Memory::with_size(64);

    mem.store16_unaligned(0x10, 0xCAFE).unwrap();
    assert_eq!(mem.load8(0x10).unwrap(), 0xFE);

    mem.store32_unaligned(0x20, 0xCAFE1337).unwrap();
    assert_eq!(mem.load32_unaligned(0x20).unwrap(), 0xCAFE1337);

    mem.store64_unaligned(0x30, 0xCAFE1337DEADBEEF).unwrap();
    assert_eq!(mem.load64_unaligned(0x30).unwrap(), 0xCAFE1337DEADBEEF);
}

#[test]
pub fn test_align16_check() {
    let mem = Memory::with_size(64);

    assert!(mem.load16_aligned(0x00).is_ok());
    assert!(mem.load16_aligned(0x01).is_err());
    assert!(mem.load16_aligned(0x02).is_ok());

    assert!(mem.load16_unaligned(0x01).is_ok());
}

#[test]
pub fn test_align32_check() {
    let mem = Memory::with_size(64);

    assert!(mem.load32_aligned(0x00).is_ok());
    assert!(mem.load32_aligned(0x01).is_err());
    assert!(mem.load32_aligned(0x02).is_err());
    assert!(mem.load32_aligned(0x03).is_err());
    assert!(mem.load32_aligned(0x04).is_ok());
    assert!(mem.load32_aligned(0x05).is_err());
}

#[test]
pub fn test_align64_check() {
    let mem = Memory::with_size(64);

    assert!(mem.load64_aligned(0x00).is_ok());
    assert!(mem.load64_aligned(0x01).is_err());
    assert!(mem.load64_aligned(0x02).is_err());
    assert!(mem.load64_aligned(0x03).is_err());
    assert!(mem.load64_aligned(0x08).is_ok());
    assert!(mem.load64_aligned(0x09).is_err());
}

#[test]
pub fn test_unmapped_check() {
    let mem = Memory::with_size(0x10);

    assert!(mem.load16_unaligned(0x00).is_ok());
    assert!(mem.load16_unaligned(0x0E).is_ok());
    assert!(mem.load16_unaligned(0x0F).is_err());
}

#[test]
fn round_trip_every_width() {
    let mut mem = Memory::with_size(32);
    mem.store8(3, 0x5A).unwrap();
    assert_eq!(mem.load8(3), Ok(0x5A));
    mem.store16_aligned(6, 0xBEEF).unwrap();
    assert_eq!(mem.load16_aligned(6), Ok(0xBEEF));
    mem.store32_aligned(8, 0x1234_5678).unwrap();
    assert_eq!(mem.load32_aligned(8), Ok(0x1234_5678));
    mem.store64_aligned(16, 0x0102_0304_0506_0708).unwrap();
    assert_eq!(mem.load64_aligned(16), Ok(0x0102_0304_0506_0708));
    mem.store32_unaligned(25, 0xA1B2_C3D4).unwrap();
    assert_eq!(mem.load32_unaligned(25), Ok(0xA1B2_C3D4));
    assert_eq!(mem.load8(25), Ok(0xD4));
    assert_eq!(mem.load8(28), Ok(0xA1));
}

#[test]
fn alignment_reported_before_range() {
    let mem = Memory::with_size(4);
    assert_eq!(mem.load32_aligned(6), Err(MemoryError::Unaligned));
    assert_eq!(mem.load32_aligned(4), Err(MemoryError::Unmapped));
    assert_eq!(mem.load32_unaligned(1), Err(MemoryError::Unmapped));
    assert_eq!(mem.load16_unaligned(1), Ok(0));
}

#[test]
fn store_bounds_leave_memory_unchanged() {
    let mut mem = Memory::with_size(8);
    assert_eq!(mem.store64_unaligned(1, u64::MAX), Err(MemoryError::Unmapped));
    assert_eq!(mem.store32_unaligned(5, u32::MAX), Err(MemoryError::Unmapped));
    assert_eq!(mem.store16_aligned(3, 1), Err(MemoryError::Unaligned));
    assert_eq!(mem.store8(8, 1), Err(MemoryError::Unmapped));
    assert_eq!(mem.load64_aligned(0), Ok(0));
    assert_eq!(mem.store32_unaligned(4, u32::MAX), Ok(()));
    assert_eq!(mem.store32_unaligned(u32::MAX, 1), Err(MemoryError::Unmapped));
    assert_eq!(mem.load64_aligned(0), Ok(0xFFFF_FFFF_0000_0000));
}

#[test]
fn empty_memory_maps_nothing() {
    let mem = Memory::with_size(0);
    assert_eq!(mem.size(), 0);
    assert_eq!(mem.load8(0), Err(MemoryError::Unmapped));
}

#[test]
fn image_loads_from_address_zero() {
    let mut mem = Memory::with_size(8);
    mem.store8(7, 0x99).unwrap();
    assert_eq!(mem.load_image(&[0x37, 0xF1, 0xEE, 0x0B]), Ok(()));
    assert_eq!(mem.load32_aligned(0), Ok(0x0BEE_F137));
    assert_eq!(mem.load8(7), Ok(0x99));
    assert_eq!(mem.load_image(&[1; 9]), Err(MemoryError::Unmapped));
    assert_eq!(mem.load32_aligned(0), Ok(0x0BEE_F137));
    assert_eq!(mem.load_image(&[]), Ok(()));
}
