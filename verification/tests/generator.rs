use philox::{generate, mulhilo, Philox};

const REF_OUT_ZERO: [u32; 4] = [0x6627e8d5, 0xe169c58d, 0xbc57ac4c, 0x9b00dbd8];
const REF_OUT_ONES: [u32; 4] = [0x408f276d, 0x41c83b0e, 0xa20bc7c6, 0x6d5451fd];
const REF_OUT_PI: [u32; 4] = [0xd16cfe09, 0x94fdcceb, 0x5001e420, 0x24126ea1];

#[test]
fn reference_vectors_direct() {
    assert_eq!(generate([0, 0], [0, 0, 0, 0], 10), REF_OUT_ZERO);
    assert_eq!(
        generate(
            [0xffffffff, 0xffffffff],
            [0xffffffff, 0xffffffff, 0xffffffff, 0xffffffff],
            10
        ),
        REF_OUT_ONES
    );
    assert_eq!(
        generate(
            [0xa4093822, 0x299f31d0],
            [0x243f6a88, 0x85a308d3, 0x13198a2e, 0x03707344],
            10
        ),
        REF_OUT_PI
    );
}

#[test]
fn stateless_stateful_equivalence() {
    let key = [0xa4093822, 0x299f31d0];
    let ctr = [0x243f6a88, 0x85a308d3, 0x13198a2e, 0x03707344];
    let mut ph = Philox::from_key(key).set_ctr(ctr);
    assert_eq!(ph.next(), generate(key, ctr, 10));
    let key = Philox::key_default();
    let mut ph = Philox::from_key(key);
    assert_eq!(ph.next(), generate(key, [0, 0, 0, 0], 10));
}

#[test]
fn generate_is_deterministic() {
    let key = [2, 6];
    let ctr = [7, 0, 41, 0];
    assert_eq!(generate(key, ctr, 10), generate(key, ctr, 10));
    let mut a = Philox::from_key(key).set_ctr(ctr);
    let mut b = Philox::from_key(key).set_ctr(ctr);
    assert_eq!(a.next(), b.next());
}

#[test]
fn counter_increment_carries() {
    let mut ph = Philox::from_key([0, 0]).set_ctr([0xffffffff, 0, 0, 0]);
    ph.next();
    assert_eq!(ph.ctr().0, [0, 1, 0, 0]);
}

#[test]
fn counter_increment_wraps() {
    let mut ph =
        Philox::from_key([0, 0]).set_ctr([0xffffffff, 0xffffffff, 0xffffffff, 0xffffffff]);
    ph.next();
    assert_eq!(ph.ctr().0, [0, 0, 0, 0]);
}

#[test]
fn counter_increment_plain() {
    let mut ph = Philox::from_key([0, 0]).set_ctr([5, 6, 7, 8]);
    ph.next();
    assert_eq!(ph.ctr().0, [6, 6, 7, 8]);
}

#[test]
fn sequential_stream_equivalence() {
    let key = [1, 2];
    let mut ph = Philox::from_key(key).set_ctr([9, 0, 0, 0]);
    for i in 0..4u32 {
        assert_eq!(ph.next(), generate(key, [9 + i, 0, 0, 0], 10));
    }
    assert_eq!(ph.ctr().0, [13, 0, 0, 0]);
}

#[test]
fn next_bytes_little_endian() {
    let key = [0xa4093822, 0x299f31d0];
    let ctr = [0x243f6a88, 0x85a308d3, 0x13198a2e, 0x03707344];
    let mut a = Philox::from_key(key).set_ctr(ctr);
    let mut b = Philox::from_key(key).set_ctr(ctr);
    let bytes = a.next_bytes();
    let words = b.next();
    let mut manual = [0u8; 16];
    for (i, w) in words.iter().enumerate() {
        manual[4 * i] = (w & 0xff) as u8;
        manual[4 * i + 1] = ((w >> 8) & 0xff) as u8;
        manual[4 * i + 2] = ((w >> 16) & 0xff) as u8;
        manual[4 * i + 3] = ((w >> 24) & 0xff) as u8;
    }
    assert_eq!(bytes, manual);
    // Round-trip the bytes back into words and compare to the word output.
    let decoded = [
        u32::from_le_bytes([bytes[0], bytes[1], bytes[2], bytes[3]]),
        u32::from_le_bytes([bytes[4], bytes[5], bytes[6], bytes[7]]),
        u32::from_le_bytes([bytes[8], bytes[9], bytes[10], bytes[11]]),
        u32::from_le_bytes([bytes[12], bytes[13], bytes[14], bytes[15]]),
    ];
    assert_eq!(decoded, words);
}

#[test]
fn avalanche_single_bit_flips() {
    let base_key = [0u32, 0];
    let base_ctr = [0u32, 0, 0, 0];
    let base = generate(base_key, base_ctr, 10);
    for word in 0..6usize {
        for bit in 0..32u32 {
            let mut key = base_key;
            let mut ctr = base_ctr;
            if word < 2 {
                key[word] ^= 1 << bit;
            } else {
                ctr[word - 2] ^= 1 << bit;
            }
            assert_ne!(generate(key, ctr, 10), base);
        }
    }
}

#[test]
fn round_count_is_configurable() {
    let key = [3, 9];
    let ctr = [1, 2, 3, 4];
    let mut ph = Philox::from_key(key).set_ctr(ctr).set_rounds(7);
    assert_eq!(ph.next(), generate(key, ctr, 7));
    // The standard stream needs the standard round count.
    assert_ne!(generate(key, ctr, 7), generate(key, ctr, 10));
}

#[test]
fn key_default_is_zero() {
    assert_eq!(Philox::key_default(), [0, 0]);
}

#[test]
fn mulhilo_splits_product() {
    let r = mulhilo(0xD2511F53, 0xffffffff);
    let p = 0xD2511F53u64 * 0xffffffffu64;
    assert_eq!(r.0, (p >> 32) as u32);
    assert_eq!(r.1, p as u32);
    let r = mulhilo(2, 3);
    assert_eq!(r.0, 0);
    assert_eq!(r.1, 6);
}
