//! Byte strings of any length, which travel as frames.
use crate::impls::decode_bytes;
use crate::impls::encode_bytes;
use crate::impls::encoded_bytes_len;
use crate::impls::frame;
use crate::impls::frame_fits;
use crate::impls::lemma_frame_round_trip;
use crate::impls::parse_frame;
use crate::impls::BytesTransformError;
use crate::Transformable;
use std::sync::Arc;
use vstd::prelude::*;

verus! {

/// Tells whether a payload of `len` bytes can be framed.
pub(crate) fn frame_fits_len(len: usize) -> (b: bool)
    ensures
        b == (len <= u32::MAX && crate::impls::MESSAGE_SIZE_LEN + len <= usize::MAX),
{
    len <= usize::MAX - crate::impls::MESSAGE_SIZE_LEN && (len as u64) <= (u32::MAX as u64)
}

/// A vector of bytes travels as the frame of its bytes.
impl Transformable for Vec<u8> {
    type Error = BytesTransformError;

    type Value = Seq<u8>;

    open spec fn value(&self) -> Seq<u8> {
        self@
    }

    open spec fn has_wire(value: Seq<u8>) -> bool {
        frame_fits(value)
    }

    open spec fn wire(value: Seq<u8>) -> Seq<u8> {
        frame(value)
    }

    open spec fn parse(src: Seq<u8>) -> Option<(nat, Seq<u8>)> {
        parse_frame(src)
    }

    open spec fn decode_failure(src: Seq<u8>, error: BytesTransformError) -> bool {
        error == BytesTransformError::NotEnoughBytes
    }

    open spec fn encode_failure(error: BytesTransformError) -> bool {
        error == BytesTransformError::EncodeBufferTooSmall
    }

    proof fn lemma_round_trip(value: Seq<u8>, rest: Seq<u8>) {
        lemma_frame_round_trip(value, rest);
    }

    fn has_wire_form(&self) -> (b: bool) {
        frame_fits_len(self.len())
    }

    fn encode(&self, dst: &mut [u8]) -> (r: Result<usize, BytesTransformError>) {
        match encode_bytes(self.as_slice(), dst) {
            Ok(n) => Ok(n),
            Err(_) => {
                assert(Self::encode_failure(BytesTransformError::EncodeBufferTooSmall));
                Err(BytesTransformError::EncodeBufferTooSmall)
            },
        }
    }

    fn encoded_len(&self) -> (n: usize) {
        encoded_bytes_len(self.as_slice())
    }

    fn decode(src: &[u8]) -> (r: Result<(usize, Vec<u8>), BytesTransformError>) {
        match decode_bytes(src) {
            Ok((readed, b)) => Ok((readed, b)),
            Err(_) => Err(BytesTransformError::NotEnoughBytes),
        }
    }
}

/// `Box::<[u8]>::from` of a vector: a boxed slice with the bytes of the
/// vector.
#[verifier::external_body]
pub(crate) fn boxed_slice_of(bytes: Vec<u8>) -> (r: Box<[u8]>)
    ensures
        r@ == bytes@,
{
    Box::from(bytes)
}

/// `Arc::<[u8]>::from` of a vector: a shared slice with the bytes of the
/// vector.
#[verifier::external_body]
pub(crate) fn shared_slice_of(bytes: Vec<u8>) -> (r: Arc<[u8]>)
    ensures
        (*r)@ == bytes@,
{
    Arc::from(bytes)
}

/// A boxed slice of bytes travels as the frame of its bytes.
impl Transformable for Box<[u8]> {
    type Error = BytesTransformError;

    type Value = Seq<u8>;

    open spec fn value(&self) -> Seq<u8> {
        self@
    }

    open spec fn has_wire(value: Seq<u8>) -> bool {
        frame_fits(value)
    }

    open spec fn wire(value: Seq<u8>) -> Seq<u8> {
        frame(value)
    }

    open spec fn parse(src: Seq<u8>) -> Option<(nat, Seq<u8>)> {
        parse_frame(src)
    }

    open spec fn decode_failure(src: Seq<u8>, error: BytesTransformError) -> bool {
        error == BytesTransformError::NotEnoughBytes
    }

    open spec fn encode_failure(error: BytesTransformError) -> bool {
        error == BytesTransformError::EncodeBufferTooSmall
    }

    proof fn lemma_round_trip(value: Seq<u8>, rest: Seq<u8>) {
        lemma_frame_round_trip(value, rest);
    }

    fn has_wire_form(&self) -> (b: bool) {
        let src: &[u8] = &**self;
        frame_fits_len(src.len())
    }

    fn encode(&self, dst: &mut [u8]) -> (r: Result<usize, BytesTransformError>) {
        let src: &[u8] = &**self;
        match encode_bytes(src, dst) {
            Ok(n) => Ok(n),
            Err(_) => {
                assert(Self::encode_failure(BytesTransformError::EncodeBufferTooSmall));
                Err(BytesTransformError::EncodeBufferTooSmall)
            },
        }
    }

    fn encoded_len(&self) -> (n: usize) {
        let src: &[u8] = &**self;
        encoded_bytes_len(src)
    }

    fn decode(src: &[u8]) -> (r: Result<(usize, Box<[u8]>), BytesTransformError>) {
        match decode_bytes(src) {
            Ok((readed, b)) => Ok((readed, boxed_slice_of(b))),
            Err(_) => Err(BytesTransformError::NotEnoughBytes),
        }
    }
}

/// A shared slice of bytes travels as the frame of its bytes.
impl Transformable for Arc<[u8]> {
    type Error = BytesTransformError;

    type Value = Seq<u8>;

    open spec fn value(&self) -> Seq<u8> {
        (**self)@
    }

    open spec fn has_wire(value: Seq<u8>) -> bool {
        frame_fits(value)
    }

    open spec fn wire(value: Seq<u8>) -> Seq<u8> {
        frame(value)
    }

    open spec fn parse(src: Seq<u8>) -> Option<(nat, Seq<u8>)> {
        parse_frame(src)
    }

    open spec fn decode_failure(src: Seq<u8>, error: BytesTransformError) -> bool {
        error == BytesTransformError::NotEnoughBytes
    }

    open spec fn encode_failure(error: BytesTransformError) -> bool {
        error == BytesTransformError::EncodeBufferTooSmall
    }

    proof fn lemma_round_trip(value: Seq<u8>, rest: Seq<u8>) {
        lemma_frame_round_trip(value, rest);
    }

    fn has_wire_form(&self) -> (b: bool) {
        let src: &[u8] = &**self;
        frame_fits_len(src.len())
    }

    fn encode(&self, dst: &mut [u8]) -> (r: Result<usize, BytesTransformError>) {
        let src: &[u8] = &**self;
        match encode_bytes(src, dst) {
            Ok(n) => Ok(n),
            Err(_) => {
                assert(Self::encode_failure(BytesTransformError::EncodeBufferTooSmall));
                Err(BytesTransformError::EncodeBufferTooSmall)
            },
        }
    }

    fn encoded_len(&self) -> (n: usize) {
        let src: &[u8] = &**self;
        encoded_bytes_len(src)
    }

    fn decode(src: &[u8]) -> (r: Result<(usize, Arc<[u8]>), BytesTransformError>) {
        match decode_bytes(src) {
            Ok((readed, b)) => Ok((readed, shared_slice_of(b))),
            Err(_) => Err(BytesTransformError::NotEnoughBytes),
        }
    }
}

} // verus!
