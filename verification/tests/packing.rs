use tixml2svd::pack::{pack, PackError};

#[test]
fn pack_places_low_field() {
    assert_eq!(pack(0, 4, 0x5, 8), Ok(0x5));
}

#[test]
fn pack_places_high_field() {
    assert_eq!(pack(4, 4, 0xA, 8), Ok(0xA0));
}

#[test]
fn pack_detects_field_too_wide() {
    // end + width = 10 > 8
    assert_eq!(pack(6, 4, 1, 8), Err(PackError::FieldTooWide));
}

#[test]
fn pack_detects_reset_value_overflow() {
    // 0x1F << 4 needs 9 bits in an 8-bit register
    assert_eq!(pack(4, 4, 0x1F, 8), Err(PackError::ResetValueOverflow));
}

#[test]
fn pack_fills_whole_64_bit_register() {
    assert_eq!(pack(0, 64, u64::MAX, 64), Ok(u64::MAX));
}

#[test]
fn pack_places_top_bit() {
    assert_eq!(pack(63, 1, 1, 64), Ok(1u64 << 63));
}

#[test]
fn pack_rejects_overflow_at_top_bit() {
    assert_eq!(pack(63, 1, 2, 64), Err(PackError::ResetValueOverflow));
}

#[test]
fn pack_zero_value_always_fits() {
    assert_eq!(pack(7, 1, 0, 8), Ok(0));
}
