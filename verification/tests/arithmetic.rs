#[test]
fn lib_arithmetic() {
    assert_eq!((0xffffffffffffffff_u64 >> 32) as u32, 0xffffffff_u32);
    assert_eq!(0x12345678cafe1337_u64 as u32, 0xcafe1337_u32);
}

#[test]
fn test_arithmetic() {
    assert_eq!((0xffffffffffffffff_u64 >> 32) as u32, 0xffffffff_u32);
    assert_eq!(0x12345678cafe1337_u64 as u32, 0xcafe1337_u32);
}
