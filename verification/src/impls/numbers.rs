//! Integers of every width, in network byte order.
use crate::impls::be_bytes;
use crate::impls::be_value;
use crate::impls::copy_into;
use crate::impls::lemma_be_bytes_len;
use crate::impls::lemma_be_limits;
use crate::impls::lemma_be_round_trip;
use crate::impls::lemma_be_value_bound;
use crate::impls::i128_from_network_endian;
use crate::impls::i128_to_network_endian;
use crate::impls::i16_from_network_endian;
use crate::impls::i16_to_network_endian;
use crate::impls::i32_from_network_endian;
use crate::impls::i32_to_network_endian;
use crate::impls::i64_from_network_endian;
use crate::impls::i64_to_network_endian;
use crate::impls::u128_from_network_endian;
use crate::impls::u128_to_network_endian;
use crate::impls::u16_from_network_endian;
use crate::impls::u16_to_network_endian;
use crate::impls::u32_from_network_endian;
use crate::impls::u32_to_network_endian;
use crate::impls::u64_from_network_endian;
use crate::impls::u64_to_network_endian;
use crate::Transformable;
use vstd::prelude::*;

verus! {

/// Error type for transformable numbers.
#[derive(Debug, Clone, Copy, PartialEq, Eq, Structural)]
pub enum NumberTransformError {
    /// Returned when the buffer is too small to encode.
    EncodeBufferTooSmall,
    /// Returned when there is not enough bytes to decode.
    NotEnoughBytes,
}

/// A byte travels as itself.
impl Transformable for u8 {
    type Error = NumberTransformError;

    type Value = u8;

    open spec fn value(&self) -> u8 {
        *self
    }

    open spec fn has_wire(value: u8) -> bool {
        true
    }

    open spec fn wire(value: u8) -> Seq<u8> {
        seq![value]
    }

    open spec fn parse(src: Seq<u8>) -> Option<(nat, u8)> {
        if src.len() < 1 {
            None
        } else {
            Some((1, src[0]))
        }
    }

    open spec fn decode_failure(src: Seq<u8>, error: NumberTransformError) -> bool {
        error == NumberTransformError::NotEnoughBytes
    }

    open spec fn encode_failure(error: NumberTransformError) -> bool {
        error == NumberTransformError::EncodeBufferTooSmall
    }

    proof fn lemma_round_trip(value: u8, rest: Seq<u8>) {
    }

    fn has_wire_form(&self) -> (b: bool) {
        true
    }

    fn encode(&self, dst: &mut [u8]) -> (r: Result<usize, NumberTransformError>) {
        let encoded_len = self.encoded_len();
        if dst.len() < encoded_len {
            assert(Self::encode_failure(NumberTransformError::EncodeBufferTooSmall));
            return Err(NumberTransformError::EncodeBufferTooSmall);
        }
        let bytes = [*self];
        copy_into(dst, 0, &bytes);
        proof {
            assert(bytes@ == seq![*self]);
            assert(dst@ == Self::wire(*self) + old(dst)@.skip(1));
        }
        Ok(1)
    }

    fn encoded_len(&self) -> (n: usize) {
        1
    }

    fn decode(src: &[u8]) -> (r: Result<(usize, u8), NumberTransformError>) {
        if src.len() < 1 {
            return Err(NumberTransformError::NotEnoughBytes);
        }
        Ok((1, src[0]))
    }
}

/// A signed byte travels as the byte with the same bits.
impl Transformable for i8 {
    type Error = NumberTransformError;

    type Value = i8;

    open spec fn value(&self) -> i8 {
        *self
    }

    open spec fn has_wire(value: i8) -> bool {
        true
    }

    open spec fn wire(value: i8) -> Seq<u8> {
        seq![value as u8]
    }

    open spec fn parse(src: Seq<u8>) -> Option<(nat, i8)> {
        if src.len() < 1 {
            None
        } else {
            Some((1, src[0] as i8))
        }
    }

    open spec fn decode_failure(src: Seq<u8>, error: NumberTransformError) -> bool {
        error == NumberTransformError::NotEnoughBytes
    }

    open spec fn encode_failure(error: NumberTransformError) -> bool {
        error == NumberTransformError::EncodeBufferTooSmall
    }

    proof fn lemma_round_trip(value: i8, rest: Seq<u8>) {
        assert((value as u8) as i8 == value) by (bit_vector);
    }

    fn has_wire_form(&self) -> (b: bool) {
        true
    }

    fn encode(&self, dst: &mut [u8]) -> (r: Result<usize, NumberTransformError>) {
        let encoded_len = self.encoded_len();
        if dst.len() < encoded_len {
            assert(Self::encode_failure(NumberTransformError::EncodeBufferTooSmall));
            return Err(NumberTransformError::EncodeBufferTooSmall);
        }
        let bytes = [#[verifier::truncate] (*self as u8)];
        copy_into(dst, 0, &bytes);
        proof {
            assert(bytes@ == seq![#[verifier::truncate] (*self as u8)]);
            assert(dst@ == Self::wire(*self) + old(dst)@.skip(1));
        }
        Ok(1)
    }

    fn encoded_len(&self) -> (n: usize) {
        1
    }

    fn decode(src: &[u8]) -> (r: Result<(usize, i8), NumberTransformError>) {
        if src.len() < 1 {
            return Err(NumberTransformError::NotEnoughBytes);
        }
        Ok((1, #[verifier::truncate] (src[0] as i8)))
    }
}

/// A `u16` travels as its two bytes, the most significant first.
impl Transformable for u16 {
    type Error = NumberTransformError;

    type Value = u16;

    open spec fn value(&self) -> u16 {
        *self
    }

    open spec fn has_wire(value: u16) -> bool {
        true
    }

    open spec fn wire(value: u16) -> Seq<u8> {
        be_bytes(value as nat, 2)
    }

    open spec fn parse(src: Seq<u8>) -> Option<(nat, u16)> {
        if src.len() < 2 {
            None
        } else {
            Some((2, be_value(src.take(2)) as u16))
        }
    }

    open spec fn decode_failure(src: Seq<u8>, error: NumberTransformError) -> bool {
        error == NumberTransformError::NotEnoughBytes
    }

    open spec fn encode_failure(error: NumberTransformError) -> bool {
        error == NumberTransformError::EncodeBufferTooSmall
    }

    proof fn lemma_round_trip(value: u16, rest: Seq<u8>) {
        lemma_be_limits();
        lemma_be_round_trip(value as nat, 2, rest);
    }

    fn has_wire_form(&self) -> (b: bool) {
        true
    }

    fn encode(&self, dst: &mut [u8]) -> (r: Result<usize, NumberTransformError>) {
        let encoded_len = self.encoded_len();
        if dst.len() < encoded_len {
            assert(Self::encode_failure(NumberTransformError::EncodeBufferTooSmall));
            return Err(NumberTransformError::EncodeBufferTooSmall);
        }
        let bytes = u16_to_network_endian(*self);
        copy_into(dst, 0, &bytes);
        proof {
            assert(dst@ == Self::wire(*self) + old(dst)@.skip(2));
        }
        Ok(2)
    }

    fn encoded_len(&self) -> (n: usize) {
        proof {
            lemma_be_bytes_len(*self as nat, 2);
        }
        2
    }

    fn decode(src: &[u8]) -> (r: Result<(usize, u16), NumberTransformError>) {
        if src.len() < 2 {
            return Err(NumberTransformError::NotEnoughBytes);
        }
        let id = u16_from_network_endian(src);
        proof {
            lemma_be_limits();
            lemma_be_value_bound(src@.take(2));
        }
        Ok((2, id))
    }
}

/// A `u32` travels as its four bytes, the most significant first.
impl Transformable for u32 {
    type Error = NumberTransformError;

    type Value = u32;

    open spec fn value(&self) -> u32 {
        *self
    }

    open spec fn has_wire(value: u32) -> bool {
        true
    }

    open spec fn wire(value: u32) -> Seq<u8> {
        be_bytes(value as nat, 4)
    }

    open spec fn parse(src: Seq<u8>) -> Option<(nat, u32)> {
        if src.len() < 4 {
            None
        } else {
            Some((4, be_value(src.take(4)) as u32))
        }
    }

    open spec fn decode_failure(src: Seq<u8>, error: NumberTransformError) -> bool {
        error == NumberTransformError::NotEnoughBytes
    }

    open spec fn encode_failure(error: NumberTransformError) -> bool {
        error == NumberTransformError::EncodeBufferTooSmall
    }

    proof fn lemma_round_trip(value: u32, rest: Seq<u8>) {
        lemma_be_limits();
        lemma_be_round_trip(value as nat, 4, rest);
    }

    fn has_wire_form(&self) -> (b: bool) {
        true
    }

    fn encode(&self, dst: &mut [u8]) -> (r: Result<usize, NumberTransformError>) {
        let encoded_len = self.encoded_len();
        if dst.len() < encoded_len {
            assert(Self::encode_failure(NumberTransformError::EncodeBufferTooSmall));
            return Err(NumberTransformError::EncodeBufferTooSmall);
        }
        let bytes = u32_to_network_endian(*self);
        copy_into(dst, 0, &bytes);
        proof {
            assert(dst@ == Self::wire(*self) + old(dst)@.skip(4));
        }
        Ok(4)
    }

    fn encoded_len(&self) -> (n: usize) {
        proof {
            lemma_be_bytes_len(*self as nat, 4);
        }
        4
    }

    fn decode(src: &[u8]) -> (r: Result<(usize, u32), NumberTransformError>) {
        if src.len() < 4 {
            return Err(NumberTransformError::NotEnoughBytes);
        }
        let id = u32_from_network_endian(src);
        proof {
            lemma_be_limits();
            lemma_be_value_bound(src@.take(4));
        }
        Ok((4, id))
    }
}

/// A `u64` travels as its eight bytes, the most significant first.
impl Transformable for u64 {
    type Error = NumberTransformError;

    type Value = u64;

    open spec fn value(&self) -> u64 {
        *self
    }

    open spec fn has_wire(value: u64) -> bool {
        true
    }

    open spec fn wire(value: u64) -> Seq<u8> {
        be_bytes(value as nat, 8)
    }

    open spec fn parse(src: Seq<u8>) -> Option<(nat, u64)> {
        if src.len() < 8 {
            None
        } else {
            Some((8, be_value(src.take(8)) as u64))
        }
    }

    open spec fn decode_failure(src: Seq<u8>, error: NumberTransformError) -> bool {
        error == NumberTransformError::NotEnoughBytes
    }

    open spec fn encode_failure(error: NumberTransformError) -> bool {
        error == NumberTransformError::EncodeBufferTooSmall
    }

    proof fn lemma_round_trip(value: u64, rest: Seq<u8>) {
        lemma_be_limits();
        lemma_be_round_trip(value as nat, 8, rest);
    }

    fn has_wire_form(&self) -> (b: bool) {
        true
    }

    fn encode(&self, dst: &mut [u8]) -> (r: Result<usize, NumberTransformError>) {
        let encoded_len = self.encoded_len();
        if dst.len() < encoded_len {
            assert(Self::encode_failure(NumberTransformError::EncodeBufferTooSmall));
            return Err(NumberTransformError::EncodeBufferTooSmall);
        }
        let bytes = u64_to_network_endian(*self);
        copy_into(dst, 0, &bytes);
        proof {
            assert(dst@ == Self::wire(*self) + old(dst)@.skip(8));
        }
        Ok(8)
    }

    fn encoded_len(&self) -> (n: usize) {
        proof {
            lemma_be_bytes_len(*self as nat, 8);
        }
        8
    }

    fn decode(src: &[u8]) -> (r: Result<(usize, u64), NumberTransformError>) {
        if src.len() < 8 {
            return Err(NumberTransformError::NotEnoughBytes);
        }
        let id = u64_from_network_endian(src);
        proof {
            lemma_be_limits();
            lemma_be_value_bound(src@.take(8));
        }
        Ok((8, id))
    }
}

/// A `u128` travels as its sixteen bytes, the most significant first.
impl Transformable for u128 {
    type Error = NumberTransformError;

    type Value = u128;

    open spec fn value(&self) -> u128 {
        *self
    }

    open spec fn has_wire(value: u128) -> bool {
        true
    }

    open spec fn wire(value: u128) -> Seq<u8> {
        be_bytes(value as nat, 16)
    }

    open spec fn parse(src: Seq<u8>) -> Option<(nat, u128)> {
        if src.len() < 16 {
            None
        } else {
            Some((16, be_value(src.take(16)) as u128))
        }
    }

    open spec fn decode_failure(src: Seq<u8>, error: NumberTransformError) -> bool {
        error == NumberTransformError::NotEnoughBytes
    }

    open spec fn encode_failure(error: NumberTransformError) -> bool {
        error == NumberTransformError::EncodeBufferTooSmall
    }

    proof fn lemma_round_trip(value: u128, rest: Seq<u8>) {
        lemma_be_limits();
        lemma_be_round_trip(value as nat, 16, rest);
    }

    fn has_wire_form(&self) -> (b: bool) {
        true
    }

    fn encode(&self, dst: &mut [u8]) -> (r: Result<usize, NumberTransformError>) {
        let encoded_len = self.encoded_len();
        if dst.len() < encoded_len {
            assert(Self::encode_failure(NumberTransformError::EncodeBufferTooSmall));
            return Err(NumberTransformError::EncodeBufferTooSmall);
        }
        let bytes = u128_to_network_endian(*self);
        copy_into(dst, 0, &bytes);
        proof {
            assert(dst@ == Self::wire(*self) + old(dst)@.skip(16));
        }
        Ok(16)
    }

    fn encoded_len(&self) -> (n: usize) {
        proof {
            lemma_be_bytes_len(*self as nat, 16);
        }
        16
    }

    fn decode(src: &[u8]) -> (r: Result<(usize, u128), NumberTransformError>) {
        if src.len() < 16 {
            return Err(NumberTransformError::NotEnoughBytes);
        }
        let id = u128_from_network_endian(src);
        proof {
            lemma_be_limits();
            lemma_be_value_bound(src@.take(16));
        }
        Ok((16, id))
    }
}

/// An `i16` travels as the two bytes of its two's complement, the most
/// significant first.
impl Transformable for i16 {
    type Error = NumberTransformError;

    type Value = i16;

    open spec fn value(&self) -> i16 {
        *self
    }

    open spec fn has_wire(value: i16) -> bool {
        true
    }

    open spec fn wire(value: i16) -> Seq<u8> {
        be_bytes((value as u16) as nat, 2)
    }

    open spec fn parse(src: Seq<u8>) -> Option<(nat, i16)> {
        if src.len() < 2 {
            None
        } else {
            Some((2, be_value(src.take(2)) as i16))
        }
    }

    open spec fn decode_failure(src: Seq<u8>, error: NumberTransformError) -> bool {
        error == NumberTransformError::NotEnoughBytes
    }

    open spec fn encode_failure(error: NumberTransformError) -> bool {
        error == NumberTransformError::EncodeBufferTooSmall
    }

    proof fn lemma_round_trip(value: i16, rest: Seq<u8>) {
        lemma_be_limits();
        lemma_be_round_trip((value as u16) as nat, 2, rest);
        assert((value as u16) as i16 == value) by (bit_vector);
    }

    fn has_wire_form(&self) -> (b: bool) {
        true
    }

    fn encode(&self, dst: &mut [u8]) -> (r: Result<usize, NumberTransformError>) {
        let encoded_len = self.encoded_len();
        if dst.len() < encoded_len {
            assert(Self::encode_failure(NumberTransformError::EncodeBufferTooSmall));
            return Err(NumberTransformError::EncodeBufferTooSmall);
        }
        let bytes = i16_to_network_endian(*self);
        copy_into(dst, 0, &bytes);
        proof {
            assert(dst@ == Self::wire(*self) + old(dst)@.skip(2));
        }
        Ok(2)
    }

    fn encoded_len(&self) -> (n: usize) {
        proof {
            lemma_be_bytes_len((*self as u16) as nat, 2);
        }
        2
    }

    fn decode(src: &[u8]) -> (r: Result<(usize, i16), NumberTransformError>) {
        if src.len() < 2 {
            return Err(NumberTransformError::NotEnoughBytes);
        }
        let id = i16_from_network_endian(src);
        proof {
            lemma_be_limits();
            lemma_be_value_bound(src@.take(2));
        }
        Ok((2, id))
    }
}

/// An `i32` travels as the four bytes of its two's complement, the most
/// significant first.
impl Transformable for i32 {
    type Error = NumberTransformError;

    type Value = i32;

    open spec fn value(&self) -> i32 {
        *self
    }

    open spec fn has_wire(value: i32) -> bool {
        true
    }

    open spec fn wire(value: i32) -> Seq<u8> {
        be_bytes((value as u32) as nat, 4)
    }

    open spec fn parse(src: Seq<u8>) -> Option<(nat, i32)> {
        if src.len() < 4 {
            None
        } else {
            Some((4, be_value(src.take(4)) as i32))
        }
    }

    open spec fn decode_failure(src: Seq<u8>, error: NumberTransformError) -> bool {
        error == NumberTransformError::NotEnoughBytes
    }

    open spec fn encode_failure(error: NumberTransformError) -> bool {
        error == NumberTransformError::EncodeBufferTooSmall
    }

    proof fn lemma_round_trip(value: i32, rest: Seq<u8>) {
        lemma_be_limits();
        lemma_be_round_trip((value as u32) as nat, 4, rest);
        assert((value as u32) as i32 == value) by (bit_vector);
    }

    fn has_wire_form(&self) -> (b: bool) {
        true
    }

    fn encode(&self, dst: &mut [u8]) -> (r: Result<usize, NumberTransformError>) {
        let encoded_len = self.encoded_len();
        if dst.len() < encoded_len {
            assert(Self::encode_failure(NumberTransformError::EncodeBufferTooSmall));
            return Err(NumberTransformError::EncodeBufferTooSmall);
        }
        let bytes = i32_to_network_endian(*self);
        copy_into(dst, 0, &bytes);
        proof {
            assert(dst@ == Self::wire(*self) + old(dst)@.skip(4));
        }
        Ok(4)
    }

    fn encoded_len(&self) -> (n: usize) {
        proof {
            lemma_be_bytes_len((*self as u32) as nat, 4);
        }
        4
    }

    fn decode(src: &[u8]) -> (r: Result<(usize, i32), NumberTransformError>) {
        if src.len() < 4 {
            return Err(NumberTransformError::NotEnoughBytes);
        }
        let id = i32_from_network_endian(src);
        proof {
            lemma_be_limits();
            lemma_be_value_bound(src@.take(4));
        }
        Ok((4, id))
    }
}

/// An `i64` travels as the eight bytes of its two's complement, the most
/// significant first.
impl Transformable for i64 {
    type Error = NumberTransformError;

    type Value = i64;

    open spec fn value(&self) -> i64 {
        *self
    }

    open spec fn has_wire(value: i64) -> bool {
        true
    }

    open spec fn wire(value: i64) -> Seq<u8> {
        be_bytes((value as u64) as nat, 8)
    }

    open spec fn parse(src: Seq<u8>) -> Option<(nat, i64)> {
        if src.len() < 8 {
            None
        } else {
            Some((8, be_value(src.take(8)) as i64))
        }
    }

    open spec fn decode_failure(src: Seq<u8>, error: NumberTransformError) -> bool {
        error == NumberTransformError::NotEnoughBytes
    }

    open spec fn encode_failure(error: NumberTransformError) -> bool {
        error == NumberTransformError::EncodeBufferTooSmall
    }

    proof fn lemma_round_trip(value: i64, rest: Seq<u8>) {
        lemma_be_limits();
        lemma_be_round_trip((value as u64) as nat, 8, rest);
        assert((value as u64) as i64 == value) by (bit_vector);
    }

    fn has_wire_form(&self) -> (b: bool) {
        true
    }

    fn encode(&self, dst: &mut [u8]) -> (r: Result<usize, NumberTransformError>) {
        let encoded_len = self.encoded_len();
        if dst.len() < encoded_len {
            assert(Self::encode_failure(NumberTransformError::EncodeBufferTooSmall));
            return Err(NumberTransformError::EncodeBufferTooSmall);
        }
        let bytes = i64_to_network_endian(*self);
        copy_into(dst, 0, &bytes);
        proof {
            assert(dst@ == Self::wire(*self) + old(dst)@.skip(8));
        }
        Ok(8)
    }

    fn encoded_len(&self) -> (n: usize) {
        proof {
            lemma_be_bytes_len((*self as u64) as nat, 8);
        }
        8
    }

    fn decode(src: &[u8]) -> (r: Result<(usize, i64), NumberTransformError>) {
        if src.len() < 8 {
            return Err(NumberTransformError::NotEnoughBytes);
        }
        let id = i64_from_network_endian(src);
        proof {
            lemma_be_limits();
            lemma_be_value_bound(src@.take(8));
        }
        Ok((8, id))
    }
}

/// An `i128` travels as the sixteen bytes of its two's complement, the most
/// significant first.
impl Transformable for i128 {
    type Error = NumberTransformError;

    type Value = i128;

    open spec fn value(&self) -> i128 {
        *self
    }

    open spec fn has_wire(value: i128) -> bool {
        true
    }

    open spec fn wire(value: i128) -> Seq<u8> {
        be_bytes((value as u128) as nat, 16)
    }

    open spec fn parse(src: Seq<u8>) -> Option<(nat, i128)> {
        if src.len() < 16 {
            None
        } else {
            Some((16, be_value(src.take(16)) as i128))
        }
    }

    open spec fn decode_failure(src: Seq<u8>, error: NumberTransformError) -> bool {
        error == NumberTransformError::NotEnoughBytes
    }

    open spec fn encode_failure(error: NumberTransformError) -> bool {
        error == NumberTransformError::EncodeBufferTooSmall
    }

    proof fn lemma_round_trip(value: i128, rest: Seq<u8>) {
        lemma_be_limits();
        lemma_be_round_trip((value as u128) as nat, 16, rest);
        assert((value as u128) as i128 == value) by (bit_vector);
    }

    fn has_wire_form(&self) -> (b: bool) {
        true
    }

    fn encode(&self, dst: &mut [u8]) -> (r: Result<usize, NumberTransformError>) {
        let encoded_len = self.encoded_len();
        if dst.len() < encoded_len {
            assert(Self::encode_failure(NumberTransformError::EncodeBufferTooSmall));
            return Err(NumberTransformError::EncodeBufferTooSmall);
        }
        let bytes = i128_to_network_endian(*self);
        copy_into(dst, 0, &bytes);
        proof {
            assert(dst@ == Self::wire(*self) + old(dst)@.skip(16));
        }
        Ok(16)
    }

    fn encoded_len(&self) -> (n: usize) {
        proof {
            lemma_be_bytes_len((*self as u128) as nat, 16);
        }
        16
    }

    fn decode(src: &[u8]) -> (r: Result<(usize, i128), NumberTransformError>) {
        if src.len() < 16 {
            return Err(NumberTransformError::NotEnoughBytes);
        }
        let id = i128_from_network_endian(src);
        proof {
            lemma_be_limits();
            lemma_be_value_bound(src@.take(16));
        }
        Ok((16, id))
    }
}

} // verus!
