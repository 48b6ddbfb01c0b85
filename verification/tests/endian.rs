use fit::endian::{u16_from_be, u16_from_le, u32_from_le};

#[test]
fn little_endian_u16() {
    assert_eq!(u16_from_le(0x34, 0x12), 0x1234);
    assert_eq!(u16_from_le(0xFF, 0xFF), 0xFFFF);
    assert_eq!(u16_from_le(99, 8), 2147);
}

#[test]
fn big_endian_u16() {
    assert_eq!(u16_from_be(0x12, 0x34), 0x1234);
    assert_eq!(u16_from_be(0xFF, 0xFF), 0xFFFF);
    assert_eq!(u16_from_be(0, 1), 1);
}

#[test]
fn little_endian_u32() {
    assert_eq!(u32_from_le(0x78, 0x56, 0x34, 0x12), 0x12345678);
    assert_eq!(u32_from_le(0xFF, 0xFF, 0xFF, 0xFF), 0xFFFF_FFFF);
    assert_eq!(u32_from_le(128, 111, 1, 0), 94080);
}
