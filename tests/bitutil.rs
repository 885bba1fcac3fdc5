use rv::bitutil::{extract_bits, sext_field, FieldBuilder};

#[test]
fn test_extract_bits() {
    assert_eq!(extract_bits(0b110101001, 3, 5), 0b101);
}

#[test]
fn test_builder() {
    let simple_test = FieldBuilder::default().skip_bits(2).add_bits(0b11101111, 3, 5);

    assert_eq!(simple_test.zext(), 0b10100);
    assert_eq!(simple_test.sext(), 0b11110100u8 as i8 as i32);
}

#[test]
fn extract_bits_matches_shift_and_mask() {
    let w: u32 = 0xDEAD_BEEF;
    for s in 0..32usize {
        for e in s..32usize {
            let mask: u64 = (1u64 << (e - s + 1)) - 1;
            let expected = ((w as u64 >> s) & mask) as u32;
            assert_eq!(extract_bits(w, s, e), expected);
        }
    }
    assert_eq!(extract_bits(w, 0, 31), w);
    assert_eq!(extract_bits(w, 31, 31), 1);
}

#[test]
fn sext_field_examples() {
    assert_eq!(sext_field(0b11110100, 8), -12);
    assert_eq!(sext_field(0b01110100, 8), 0b01110100);
    assert_eq!(sext_field(0xFFFF_FF00 | 0x7F, 8), 0x7F);
    assert_eq!(sext_field(0x800, 12), -2048);
    assert_eq!(sext_field(0x8000_0000, 32), i32::MIN);
    assert_eq!(sext_field(1, 1), -1);
}

#[test]
fn sext_field_is_idempotent() {
    for &v in &[0u32, 1, 0x7F, 0x80, 0xF4, 0xFFFF_FFFF, 0x1234_5678] {
        for k in 1..=32usize {
            let once = sext_field(v, k);
            assert_eq!(sext_field(once as u32, k), once);
        }
    }
}

#[test]
fn builder_sext_of_full_field() {
    let b = FieldBuilder::default().add_bits(0xFFF0_0000, 20, 31);
    assert_eq!(b.zext(), 0xFFF);
    assert_eq!(b.sext(), -1);
    let u = FieldBuilder::default().skip_bits(12).add_bits(0x0BEE_F137, 12, 31);
    assert_eq!(u.zext(), 0x0BEE_F000);
}
