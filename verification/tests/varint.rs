use transformable::utils::decode_varint;
use transformable::utils::encode_varint;
use transformable::utils::encoded_len_varint;
use transformable::utils::DecodeVarintError;
use transformable::utils::EncodeVarintError;

fn check(value: u64, encoded: &[u8]) {
    let mut expected = [0u8; 16];

    let a = encode_varint(value, &mut expected).unwrap();
    assert_eq!(&expected[..a], encoded);
    assert_eq!(a, encoded.len());

    let roundtrip = decode_varint(&expected[..a]).unwrap();
    assert_eq!(roundtrip.1, value);
    assert_eq!(roundtrip.0, encoded.len());
}

#[test]
fn roundtrip_u64() {
    check(2u64.pow(0) - 1, &[0x00]);
    check(2u64.pow(0), &[0x01]);

    check(2u64.pow(7) - 1, &[0x7F]);
    check(2u64.pow(7), &[0x80, 0x01]);
    check(300u64, &[0xAC, 0x02]);

    check(2u64.pow(14) - 1, &[0xFF, 0x7F]);
    check(2u64.pow(14), &[0x80, 0x80, 0x01]);

    check(2u64.pow(21) - 1, &[0xFF, 0xFF, 0x7F]);
    check(2u64.pow(21), &[0x80, 0x80, 0x80, 0x01]);

    check(2u64.pow(28) - 1, &[0xFF, 0xFF, 0xFF, 0x7F]);
    check(2u64.pow(28), &[0x80, 0x80, 0x80, 0x80, 0x01]);

    check(2u64.pow(35) - 1, &[0xFF, 0xFF, 0xFF, 0xFF, 0x7F]);
    check(2u64.pow(35), &[0x80, 0x80, 0x80, 0x80, 0x80, 0x01]);

    check(2u64.pow(42) - 1, &[0xFF, 0xFF, 0xFF, 0xFF, 0xFF, 0x7F]);
    check(2u64.pow(42), &[0x80, 0x80, 0x80, 0x80, 0x80, 0x80, 0x01]);

    check(
        2u64.pow(49) - 1,
        &[0xFF, 0xFF, 0xFF, 0xFF, 0xFF, 0xFF, 0x7F],
    );
    check(
        2u64.pow(49),
        &[0x80, 0x80, 0x80, 0x80, 0x80, 0x80, 0x80, 0x01],
    );

    check(
        2u64.pow(56) - 1,
        &[0xFF, 0xFF, 0xFF, 0xFF, 0xFF, 0xFF, 0xFF, 0x7F],
    );
    check(
        2u64.pow(56),
        &[0x80, 0x80, 0x80, 0x80, 0x80, 0x80, 0x80, 0x80, 0x01],
    );

    check(
        2u64.pow(63) - 1,
        &[0xFF, 0xFF, 0xFF, 0xFF, 0xFF, 0xFF, 0xFF, 0xFF, 0x7F],
    );
    check(
        2u64.pow(63),
        &[0x80, 0x80, 0x80, 0x80, 0x80, 0x80, 0x80, 0x80, 0x80, 0x01],
    );

    check(
        u64::MAX,
        &[0xFF, 0xFF, 0xFF, 0xFF, 0xFF, 0xFF, 0xFF, 0xFF, 0xFF, 0x01],
    );
}

#[test]
fn test_large_number_encode_decode() {
    let mut buffer = [0u8; 10];
    let value = 30000u64;
    let encoded_len = encode_varint(value, &mut buffer).unwrap();
    let (bytes_read, decoded) = decode_varint(&buffer).unwrap();
    assert_eq!(value, decoded);
    assert_eq!(bytes_read, encoded_len);
}

#[test]
fn test_buffer_too_small_error() {
    let mut buffer = [0u8; 1]; // Intentionally small buffer
    match encode_varint(u64::MAX, &mut buffer) {
        Err(EncodeVarintError::BufferTooSmall) => (),
        _ => panic!("Expected BufferTooSmall error"),
    }
}

#[test]
fn test_decode_overflow_error() {
    let buffer = [0x80u8; 11]; // More than 10 bytes
    match decode_varint(&buffer) {
        Err(DecodeVarintError::Overflow) => (),
        _ => panic!("Expected Overflow error"),
    }
}

#[test]
fn varint_lengths_at_the_group_boundaries() {
    assert_eq!(encoded_len_varint(0), 1);
    assert_eq!(encoded_len_varint(127), 1);
    assert_eq!(encoded_len_varint(128), 2);
    assert_eq!(encoded_len_varint(16383), 2);
    assert_eq!(encoded_len_varint(16384), 3);
    assert_eq!(encoded_len_varint((1u64 << 63) - 1), 9);
    assert_eq!(encoded_len_varint(1u64 << 63), 10);
    assert_eq!(encoded_len_varint(u64::MAX), 10);
}

#[test]
fn varint_of_300_is_two_bytes() {
    let mut buf = [0u8; 2];
    assert_eq!(encode_varint(300, &mut buf), Ok(2));
    assert_eq!(buf, [0xAC, 0x02]);
    assert_eq!(decode_varint(&[0xAC, 0x02]), Ok((2, 300)));
}

#[test]
fn varint_of_the_largest_value_ends_in_a_byte_of_at_most_one() {
    let mut buf = [0u8; 10];
    let n = encode_varint(u64::MAX, &mut buf).unwrap();
    assert_eq!(n, 10);
    assert!(buf[9] <= 1);
    assert_eq!(decode_varint(&buf), Ok((10, u64::MAX)));
}

#[test]
fn varint_decode_leaves_what_follows_alone() {
    assert_eq!(decode_varint(&[0x7F, 0xFF, 0xFF]), Ok((1, 127)));
    assert_eq!(decode_varint(&[0x80, 0x01, 0x80]), Ok((2, 128)));
}

#[test]
fn varint_decode_of_a_source_that_ends_early() {
    assert_eq!(decode_varint(&[]), Err(DecodeVarintError::NotEnoughBytes));
    assert_eq!(decode_varint(&[0x80]), Err(DecodeVarintError::NotEnoughBytes));
    assert_eq!(
        decode_varint(&[0xFF; 9]),
        Err(DecodeVarintError::NotEnoughBytes)
    );
}

#[test]
fn varint_decode_of_a_tenth_byte_that_is_too_large() {
    let mut src = [0x80u8; 10];
    src[9] = 0x02;
    assert_eq!(decode_varint(&src), Err(DecodeVarintError::Overflow));
    src[9] = 0x01;
    assert_eq!(decode_varint(&src), Ok((10, 1u64 << 63)));
    src[9] = 0x80;
    assert_eq!(decode_varint(&src), Err(DecodeVarintError::Overflow));
}

#[test]
fn varint_encode_into_a_short_buffer_writes_nothing() {
    let mut buf = [0xEEu8; 2];
    assert_eq!(
        encode_varint(1 << 14, &mut buf),
        Err(EncodeVarintError::BufferTooSmall)
    );
    assert_eq!(buf, [0xEE, 0xEE]);
    let mut none: [u8; 0] = [];
    assert_eq!(
        encode_varint(0, &mut none),
        Err(EncodeVarintError::BufferTooSmall)
    );
}

#[test]
fn varint_encode_leaves_the_rest_of_the_buffer_alone() {
    let mut buf = [0xEEu8; 4];
    assert_eq!(encode_varint(300, &mut buf), Ok(2));
    assert_eq!(buf, [0xAC, 0x02, 0xEE, 0xEE]);
}

#[test]
fn varint_round_trip_of_random_values() {
    for _ in 0..200 {
        let value: u64 = rand::random();
        let shift: u32 = rand::random::<u32>() % 64;
        let value = value >> shift;
        let mut buf = [0u8; 10];
        let n = encode_varint(value, &mut buf).unwrap();
        assert_eq!(n, encoded_len_varint(value));
        assert_eq!(decode_varint(&buf[..n]), Ok((n, value)));
    }
}
