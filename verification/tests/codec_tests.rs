use eth_logs::codec::Address;
use eth_logs::codec::CodecError;
use eth_logs::codec::WI256;
use eth_logs::codec::WU256;
use eth_logs::codec::Wu128;
use eth_logs::codec::decode_address;
use eth_logs::codec::decode_wi256;
use eth_logs::codec::decode_wu128;
use eth_logs::codec::decode_wu256;
use eth_logs::codec::encode_address;
use eth_logs::codec::encode_u64_be;
use eth_logs::codec::encode_wi256;
use eth_logs::codec::encode_wu128;
use eth_logs::codec::encode_wu256;

#[test]
fn round_trip_address_zero() {
    let a = Address { bytes: vec![0u8; 20] };
    let b = encode_address(&a);
    assert_eq!(b.len(), 20);
    let d = decode_address(&b).unwrap();
    assert_eq!(d.bytes, a.bytes);
}

#[test]
fn round_trip_address_mid() {
    let bytes: Vec<u8> = (1u8..=20u8).collect();
    let a = Address { bytes: bytes.clone() };
    let b = encode_address(&a);
    assert_eq!(b, bytes);
    let d = decode_address(&b).unwrap();
    assert_eq!(d.bytes, bytes);
}

#[test]
fn round_trip_wu128() {
    for v in [0u128, u128::MAX, 0x0123_4567_89ab_cdef_0123_4567_89ab_cdefu128] {
        let b = encode_wu128(&Wu128(v));
        assert_eq!(b.len(), 16);
        let d = decode_wu128(&b).unwrap();
        assert_eq!(d.0, v);
    }
}

#[test]
fn round_trip_wu256() {
    let zero = WU256 { l0: 0, l1: 0, l2: 0, l3: 0 };
    let max = WU256 { l0: u64::MAX, l1: u64::MAX, l2: u64::MAX, l3: u64::MAX };
    let mid = WU256 { l0: 0x0102030405060708, l1: 9, l2: 10, l3: 11 };
    for v in [zero, max, mid] {
        let b = encode_wu256(&v);
        assert_eq!(b.len(), 32);
        let d = decode_wu256(&b).unwrap();
        assert_eq!(d, v);
    }
}

#[test]
fn round_trip_wi256() {
    let zero = WI256 { l0: 0, l1: 0, l2: 0, l3: 0 };
    // Most positive value: 0x7fff...ffff.
    let max = WI256 { l0: u64::MAX, l1: u64::MAX, l2: u64::MAX, l3: 0x7fff_ffff_ffff_ffff };
    // Most negative value: 0x8000...0000.
    let min = WI256 { l0: 0, l1: 0, l2: 0, l3: 0x8000_0000_0000_0000 };
    // Minus one: all bits set.
    let neg_one = WI256 { l0: u64::MAX, l1: u64::MAX, l2: u64::MAX, l3: u64::MAX };
    let mid = WI256 { l0: 42, l1: 0, l2: 7, l3: 1 };
    for v in [zero, max, min, neg_one, mid] {
        let b = encode_wi256(&v);
        assert_eq!(b.len(), 32);
        let d = decode_wi256(&b).unwrap();
        assert_eq!(d, v);
    }
}

#[test]
fn exact_bytes_wu128() {
    let b = encode_wu128(&Wu128(0x0102));
    let mut expected = vec![0u8; 14];
    expected.push(1);
    expected.push(2);
    assert_eq!(b, expected);
}

#[test]
fn exact_bytes_u64() {
    let b = encode_u64_be(0x0102030405060708);
    assert_eq!(b, vec![1, 2, 3, 4, 5, 6, 7, 8]);
}

#[test]
fn exact_bytes_wu256() {
    let v = WU256 { l0: 1, l1: 0, l2: 0, l3: 0 };
    let b = encode_wu256(&v);
    let mut expected = vec![0u8; 31];
    expected.push(1);
    assert_eq!(b, expected);
}

#[test]
fn exact_bytes_wi256_minus_one() {
    let v = WI256 { l0: u64::MAX, l1: u64::MAX, l2: u64::MAX, l3: u64::MAX };
    let b = encode_wi256(&v);
    assert_eq!(b, vec![0xffu8; 32]);
}

#[test]
fn undersized_buffer_address() {
    for n in [0usize, 19, 21] {
        let r = decode_address(&vec![0u8; n]);
        assert_eq!(r.unwrap_err(), CodecError::InvalidLength { expected: 20, got: n });
    }
}

#[test]
fn undersized_buffer_wu128() {
    for n in [0usize, 15, 17] {
        let r = decode_wu128(&vec![0u8; n]);
        assert_eq!(r.unwrap_err(), CodecError::InvalidLength { expected: 16, got: n });
    }
}

#[test]
fn undersized_buffer_wu256() {
    for n in [0usize, 31, 33] {
        let r = decode_wu256(&vec![0u8; n]);
        assert_eq!(r.unwrap_err(), CodecError::InvalidLength { expected: 32, got: n });
    }
}

#[test]
fn undersized_buffer_wi256() {
    for n in [0usize, 31, 33] {
        let r = decode_wi256(&vec![0u8; n]);
        assert_eq!(r.unwrap_err(), CodecError::InvalidLength { expected: 32, got: n });
    }
}
