use transformable::NumberTransformError;
use transformable::Transformable;

fn round_trip<T>(value: T, wire: &[u8])
where
    T: Transformable<Error = NumberTransformError> + PartialEq + std::fmt::Debug + Copy,
{
    assert!(value.has_wire_form());
    assert_eq!(value.encoded_len(), wire.len());
    let mut buf = vec![0xEEu8; wire.len() + 3];
    assert_eq!(value.encode(&mut buf), Ok(wire.len()));
    assert_eq!(&buf[..wire.len()], wire);
    assert_eq!(&buf[wire.len()..], &[0xEE, 0xEE, 0xEE]);
    assert_eq!(T::decode(&buf), Ok((wire.len(), value)));
    assert_eq!(value.encode_to_vec().unwrap(), wire);

    let mut short = vec![0xEEu8; wire.len() - 1];
    assert_eq!(
        value.encode(&mut short),
        Err(NumberTransformError::EncodeBufferTooSmall)
    );
    assert!(short.iter().all(|b| *b == 0xEE));
    assert_eq!(
        T::decode(&wire[..wire.len() - 1]),
        Err(NumberTransformError::NotEnoughBytes)
    );
}

fn random_round_trip<T>(value: T)
where
    T: Transformable<Error = NumberTransformError> + PartialEq + std::fmt::Debug + Copy,
{
    let mut buf = vec![0; value.encoded_len()];
    value.encode(&mut buf).unwrap();
    let (readed, decoded) = T::decode(&buf).unwrap();
    assert_eq!(readed, buf.len());
    assert_eq!(decoded, value);
}

#[test]
fn test_u8_transformable() {
    round_trip(0xA5u8, &[0xA5]);
    random_round_trip(rand::random::<u8>());
}

#[test]
fn test_u16_transformable() {
    round_trip(0x0102u16, &[1, 2]);
    random_round_trip(rand::random::<u16>());
}

#[test]
fn test_u32_transformable() {
    round_trip(0x0102_0304u32, &[1, 2, 3, 4]);
    round_trip(u32::MAX, &[0xFF; 4]);
    random_round_trip(rand::random::<u32>());
}

#[test]
fn test_u64_transformable() {
    round_trip(0x0102_0304_0506_0708u64, &[1, 2, 3, 4, 5, 6, 7, 8]);
    random_round_trip(rand::random::<u64>());
}

#[test]
fn test_u128_transformable() {
    round_trip(
        0x0102_0304_0506_0708_090A_0B0C_0D0E_0F10u128,
        &[1, 2, 3, 4, 5, 6, 7, 8, 9, 10, 11, 12, 13, 14, 15, 16],
    );
    round_trip(u128::MAX, &[0xFF; 16]);
    random_round_trip(rand::random::<u128>());
}

#[test]
fn test_i8_transformable() {
    round_trip(-1i8, &[0xFF]);
    round_trip(i8::MIN, &[0x80]);
    round_trip(5i8, &[5]);
    random_round_trip(rand::random::<i8>());
}

#[test]
fn test_i16_transformable() {
    round_trip(-2i16, &[0xFF, 0xFE]);
    round_trip(i16::MIN, &[0x80, 0x00]);
    random_round_trip(rand::random::<i16>());
}

#[test]
fn test_i32_transformable() {
    round_trip(-2i32, &[0xFF, 0xFF, 0xFF, 0xFE]);
    round_trip(0x0102_0304i32, &[1, 2, 3, 4]);
    random_round_trip(rand::random::<i32>());
}

#[test]
fn test_i64_transformable() {
    round_trip(-2i64, &[0xFF, 0xFF, 0xFF, 0xFF, 0xFF, 0xFF, 0xFF, 0xFE]);
    round_trip(i64::MIN, &[0x80, 0, 0, 0, 0, 0, 0, 0]);
    random_round_trip(rand::random::<i64>());
}

#[test]
fn test_i128_transformable() {
    round_trip(-2i128, &[
        0xFF, 0xFF, 0xFF, 0xFF, 0xFF, 0xFF, 0xFF, 0xFF, 0xFF, 0xFF, 0xFF, 0xFF, 0xFF, 0xFF, 0xFF,
        0xFE,
    ]);
    round_trip(i128::MAX, &[
        0x7F, 0xFF, 0xFF, 0xFF, 0xFF, 0xFF, 0xFF, 0xFF, 0xFF, 0xFF, 0xFF, 0xFF, 0xFF, 0xFF, 0xFF,
        0xFF,
    ]);
    random_round_trip(rand::random::<i128>());
}

#[test]
fn decode_of_a_number_reads_no_more_than_its_width() {
    assert_eq!(u16::decode(&[1, 2, 3, 4]), Ok((2, 0x0102)));
    assert_eq!(u8::decode(&[9, 8]), Ok((1, 9)));
}
