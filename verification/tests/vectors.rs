use philox::vectors::{parse_test_vector, split_test_vectors};
use philox::{Philox, Philox4x32_10};

#[test]
fn lib_test_parse_test_vector() {
    /*
    Test vectors contain first the counter, then the key, then the result.
    */
    let s = "philox4x32 10 243f6a88 85a308d3 13198a2e 03707344 a4093822 299f31d0 d16cfe09 94fdcceb 5001e420 24126ea1";
    let v = parse_test_vector(s);
    assert_eq!(v.0.as_slice(), &[0xa4093822, 0x299f31d0]);
}

#[test]
fn test_test_parse_test_vector() {
    /*
    Test vectors contain first the counter, then the key, then the result.
    */
    let s = "philox4x32 10 243f6a88 85a308d3 13198a2e 03707344 a4093822 299f31d0 d16cfe09 94fdcceb 5001e420 24126ea1";
    let v = parse_test_vector(s);
    assert_eq!(v.0.as_slice(), &[0xa4093822, 0x299f31d0]);
}

#[test]
fn check_test_vectors_array_u32() {
    for v in &split_test_vectors() {
        let v = parse_test_vector(v);
        let mut ph = Philox::from_key(v.0).set_ctr(v.1);
        let r = ph.next();
        assert_eq!(r.as_slice(), v.2.as_slice());
    }
}

#[test]
fn check_test_vectors_bytes() {
    for v in &split_test_vectors() {
        let v = parse_test_vector(v);
        let mut ph = Philox::from_key(v.0).set_ctr(v.1);
        let r = ph.next_bytes();
        let r = [
            u32::from_le_bytes([r[0], r[1], r[2], r[3]]),
            u32::from_le_bytes([r[4], r[5], r[6], r[7]]),
            u32::from_le_bytes([r[8], r[9], r[10], r[11]]),
            u32::from_le_bytes([r[12], r[13], r[14], r[15]]),
        ];
        assert_eq!(&r, v.2.as_slice());
    }
}

#[test]
fn check_test_vectors() {
    let vectors = split_test_vectors();
    for v in &vectors {
        let v = parse_test_vector(v);
        let mut ph = Philox4x32_10::from_key(v.0).set_ctr(v.1);
        let r = ph.next();
        assert_eq!(r.as_slice(), v.2.as_slice());
    }
}
