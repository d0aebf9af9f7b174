//! Text, which travels as the frame of its UTF-8 bytes.
use crate::impls::bytes::frame_fits_len;
use crate::impls::decode_bytes;
use crate::impls::encode_bytes;
use crate::impls::encoded_bytes_len;
use crate::impls::frame;
use crate::impls::frame_fits;
use crate::impls::lemma_frame_round_trip;
use crate::impls::parse_frame;
use crate::Transformable;
use smol_str::SmolStr;
use std::sync::Arc;
use vstd::prelude::*;
use vstd::utf8::decode_utf8;
use vstd::utf8::encode_utf8;
use vstd::utf8::encode_utf8_decode_utf8;
use vstd::utf8::encode_utf8_valid_utf8;
use vstd::utf8::valid_utf8;

verus! {

/// What `core::str::from_utf8` reports of bytes that are no UTF-8.
#[verifier::external_type_specification]
#[verifier::external_body]
pub struct ExUtf8Error(core::str::Utf8Error);

/// A string type of the `smol_str` crate, which keeps short texts inline.
#[verifier::external_type_specification]
#[verifier::external_body]
pub struct ExSmolStr(SmolStr);

/// The characters that a `SmolStr` holds.
pub uninterp spec fn smol_str_chars(s: SmolStr) -> Seq<char>;

/// `core::str::from_utf8`: it accepts exactly the byte sequences that are
/// valid UTF-8, and the text it returns has those bytes.
#[verifier::external_body]
pub(crate) fn str_from_utf8(bytes: &[u8]) -> (r: Result<&str, core::str::Utf8Error>)
    ensures
        r is Ok <==> valid_utf8(bytes@),
        r matches Ok(s) ==> encode_utf8(s@) == bytes@,
{
    core::str::from_utf8(bytes)
}

/// `SmolStr::as_str`: the text that the value holds.
#[verifier::external_body]
pub(crate) fn smol_str_as_str(s: &SmolStr) -> (r: &str)
    ensures
        r@ == smol_str_chars(*s),
{
    s.as_str()
}

/// `SmolStr::new`: a value that holds the text given.
#[verifier::external_body]
pub(crate) fn smol_str_new(text: &str) -> (r: SmolStr)
    ensures
        smol_str_chars(r) == text@,
{
    SmolStr::new(text)
}

/// `Box::<str>::from` of a text: a boxed text with the same characters.
#[verifier::external_body]
pub(crate) fn boxed_str_of(text: &str) -> (r: Box<str>)
    ensures
        r@ == text@,
{
    Box::from(text)
}

/// `Arc::<str>::from` of a text: a shared text with the same characters.
#[verifier::external_body]
pub(crate) fn shared_str_of(text: &str) -> (r: Arc<str>)
    ensures
        (*r)@ == text@,
{
    Arc::from(text)
}

/// The error type for errors that get returned when encoding or decoding str based structs fails.
#[derive(Debug)]
pub enum StringTransformError {
    /// Returned when the buffer is too small to encode.
    EncodeBufferTooSmall,
    /// Returned when the decoding meet corruption.
    NotEnoughBytes,
    /// Returned when the decoding meet utf8 error.
    Utf8Error(core::str::Utf8Error),
}

/// The wire form of a text: the frame of its UTF-8 bytes.
pub open spec fn text_wire(text: Seq<char>) -> Seq<u8> {
    frame(encode_utf8(text))
}

/// The text at the front of a source: the length of its frame and its
/// characters, or `None` where the frame is cut off or its payload is no
/// UTF-8.
pub open spec fn parse_text(src: Seq<u8>) -> Option<(nat, Seq<char>)> {
    match parse_frame(src) {
        Some((n, payload)) => if valid_utf8(payload) {
            Some((n, decode_utf8(payload)))
        } else {
            None
        },
        None => None,
    }
}

/// Whether `error` is what a source without a text reports: a frame that is
/// cut off is short of bytes, a whole frame with a payload that is no UTF-8
/// has the error of the validation.
pub open spec fn text_failure(src: Seq<u8>, error: StringTransformError) -> bool {
    match error {
        StringTransformError::EncodeBufferTooSmall => false,
        StringTransformError::NotEnoughBytes => parse_frame(src) is None,
        StringTransformError::Utf8Error(_) => parse_frame(src) matches Some((_, payload))
            && !valid_utf8(payload),
    }
}

/// The frame of a text, followed by anything, is read back as the text.
pub proof fn lemma_text_round_trip(text: Seq<char>, rest: Seq<u8>)
    requires
        frame_fits(encode_utf8(text)),
    ensures
        parse_text(text_wire(text) + rest) == Some((text_wire(text).len(), text)),
{
    lemma_frame_round_trip(encode_utf8(text), rest);
    encode_utf8_valid_utf8(text);
    encode_utf8_decode_utf8(text);
}

/// A string travels as the frame of its UTF-8 bytes.
impl Transformable for String {
    type Error = StringTransformError;

    type Value = Seq<char>;

    open spec fn value(&self) -> Seq<char> {
        self@
    }

    open spec fn has_wire(value: Seq<char>) -> bool {
        frame_fits(encode_utf8(value))
    }

    open spec fn wire(value: Seq<char>) -> Seq<u8> {
        text_wire(value)
    }

    open spec fn parse(src: Seq<u8>) -> Option<(nat, Seq<char>)> {
        parse_text(src)
    }

    open spec fn decode_failure(src: Seq<u8>, error: StringTransformError) -> bool {
        text_failure(src, error)
    }

    open spec fn encode_failure(error: StringTransformError) -> bool {
        error is EncodeBufferTooSmall
    }

    proof fn lemma_round_trip(value: Seq<char>, rest: Seq<u8>) {
        lemma_text_round_trip(value, rest);
    }

    fn has_wire_form(&self) -> (b: bool) {
        frame_fits_len(self.as_str().as_bytes().len())
    }

    fn encode(&self, dst: &mut [u8]) -> (r: Result<usize, StringTransformError>) {
        let src: &str = self.as_str();
        match encode_bytes(src.as_bytes(), dst) {
            Ok(n) => Ok(n),
            Err(_) => {
                assert(Self::encode_failure(StringTransformError::EncodeBufferTooSmall));
                Err(StringTransformError::EncodeBufferTooSmall)
            },
        }
    }

    fn encoded_len(&self) -> (n: usize) {
        let src: &str = self.as_str();
        encoded_bytes_len(src.as_bytes())
    }

    fn decode(src: &[u8]) -> (r: Result<(usize, String), StringTransformError>) {
        match decode_bytes(src) {
            Err(_) => Err(StringTransformError::NotEnoughBytes),
            Ok((readed, bytes)) => match str_from_utf8(bytes.as_slice()) {
                Ok(s) => {
                    proof {
                        encode_utf8_decode_utf8(s@);
                    }
                    Ok((readed, s.to_owned()))
                },
                Err(err) => Err(StringTransformError::Utf8Error(err)),
            },
        }
    }
}

/// A boxed text travels as the frame of its UTF-8 bytes.
impl Transformable for Box<str> {
    type Error = StringTransformError;

    type Value = Seq<char>;

    open spec fn value(&self) -> Seq<char> {
        self@
    }

    open spec fn has_wire(value: Seq<char>) -> bool {
        frame_fits(encode_utf8(value))
    }

    open spec fn wire(value: Seq<char>) -> Seq<u8> {
        text_wire(value)
    }

    open spec fn parse(src: Seq<u8>) -> Option<(nat, Seq<char>)> {
        parse_text(src)
    }

    open spec fn decode_failure(src: Seq<u8>, error: StringTransformError) -> bool {
        text_failure(src, error)
    }

    open spec fn encode_failure(error: StringTransformError) -> bool {
        error is EncodeBufferTooSmall
    }

    proof fn lemma_round_trip(value: Seq<char>, rest: Seq<u8>) {
        lemma_text_round_trip(value, rest);
    }

    fn has_wire_form(&self) -> (b: bool) {
        let src: &str = &**self;
        frame_fits_len(src.as_bytes().len())
    }

    fn encode(&self, dst: &mut [u8]) -> (r: Result<usize, StringTransformError>) {
        let src: &str = &**self;
        match encode_bytes(src.as_bytes(), dst) {
            Ok(n) => Ok(n),
            Err(_) => {
                assert(Self::encode_failure(StringTransformError::EncodeBufferTooSmall));
                Err(StringTransformError::EncodeBufferTooSmall)
            },
        }
    }

    fn encoded_len(&self) -> (n: usize) {
        let src: &str = &**self;
        encoded_bytes_len(src.as_bytes())
    }

    fn decode(src: &[u8]) -> (r: Result<(usize, Box<str>), StringTransformError>) {
        match decode_bytes(src) {
            Err(_) => Err(StringTransformError::NotEnoughBytes),
            Ok((readed, bytes)) => match str_from_utf8(bytes.as_slice()) {
                Ok(s) => {
                    proof {
                        encode_utf8_decode_utf8(s@);
                    }
                    Ok((readed, boxed_str_of(s)))
                },
                Err(err) => Err(StringTransformError::Utf8Error(err)),
            },
        }
    }
}

/// A shared text travels as the frame of its UTF-8 bytes.
impl Transformable for Arc<str> {
    type Error = StringTransformError;

    type Value = Seq<char>;

    open spec fn value(&self) -> Seq<char> {
        (**self)@
    }

    open spec fn has_wire(value: Seq<char>) -> bool {
        frame_fits(encode_utf8(value))
    }

    open spec fn wire(value: Seq<char>) -> Seq<u8> {
        text_wire(value)
    }

    open spec fn parse(src: Seq<u8>) -> Option<(nat, Seq<char>)> {
        parse_text(src)
    }

    open spec fn decode_failure(src: Seq<u8>, error: StringTransformError) -> bool {
        text_failure(src, error)
    }

    open spec fn encode_failure(error: StringTransformError) -> bool {
        error is EncodeBufferTooSmall
    }

    proof fn lemma_round_trip(value: Seq<char>, rest: Seq<u8>) {
        lemma_text_round_trip(value, rest);
    }

    fn has_wire_form(&self) -> (b: bool) {
        let src: &str = &**self;
        frame_fits_len(src.as_bytes().len())
    }

    fn encode(&self, dst: &mut [u8]) -> (r: Result<usize, StringTransformError>) {
        let src: &str = &**self;
        match encode_bytes(src.as_bytes(), dst) {
            Ok(n) => Ok(n),
            Err(_) => {
                assert(Self::encode_failure(StringTransformError::EncodeBufferTooSmall));
                Err(StringTransformError::EncodeBufferTooSmall)
            },
        }
    }

    fn encoded_len(&self) -> (n: usize) {
        let src: &str = &**self;
        encoded_bytes_len(src.as_bytes())
    }

    fn decode(src: &[u8]) -> (r: Result<(usize, Arc<str>), StringTransformError>) {
        match decode_bytes(src) {
            Err(_) => Err(StringTransformError::NotEnoughBytes),
            Ok((readed, bytes)) => match str_from_utf8(bytes.as_slice()) {
                Ok(s) => {
                    proof {
                        encode_utf8_decode_utf8(s@);
                    }
                    Ok((readed, shared_str_of(s)))
                },
                Err(err) => Err(StringTransformError::Utf8Error(err)),
            },
        }
    }
}

/// A `SmolStr` travels as the frame of its UTF-8 bytes.
impl Transformable for SmolStr {
    type Error = StringTransformError;

    type Value = Seq<char>;

    open spec fn value(&self) -> Seq<char> {
        smol_str_chars(*self)
    }

    open spec fn has_wire(value: Seq<char>) -> bool {
        frame_fits(encode_utf8(value))
    }

    open spec fn wire(value: Seq<char>) -> Seq<u8> {
        text_wire(value)
    }

    open spec fn parse(src: Seq<u8>) -> Option<(nat, Seq<char>)> {
        parse_text(src)
    }

    open spec fn decode_failure(src: Seq<u8>, error: StringTransformError) -> bool {
        text_failure(src, error)
    }

    open spec fn encode_failure(error: StringTransformError) -> bool {
        error is EncodeBufferTooSmall
    }

    proof fn lemma_round_trip(value: Seq<char>, rest: Seq<u8>) {
        lemma_text_round_trip(value, rest);
    }

    fn has_wire_form(&self) -> (b: bool) {
        frame_fits_len(smol_str_as_str(self).as_bytes().len())
    }

    fn encode(&self, dst: &mut [u8]) -> (r: Result<usize, StringTransformError>) {
        let src: &str = smol_str_as_str(self);
        match encode_bytes(src.as_bytes(), dst) {
            Ok(n) => Ok(n),
            Err(_) => {
                assert(Self::encode_failure(StringTransformError::EncodeBufferTooSmall));
                Err(StringTransformError::EncodeBufferTooSmall)
            },
        }
    }

    fn encoded_len(&self) -> (n: usize) {
        let src: &str = smol_str_as_str(self);
        encoded_bytes_len(src.as_bytes())
    }

    fn decode(src: &[u8]) -> (r: Result<(usize, SmolStr), StringTransformError>) {
        match decode_bytes(src) {
            Err(_) => Err(StringTransformError::NotEnoughBytes),
            Ok((readed, bytes)) => match str_from_utf8(bytes.as_slice()) {
                Ok(s) => {
                    proof {
                        encode_utf8_decode_utf8(s@);
                    }
                    Ok((readed, smol_str_new(s)))
                },
                Err(err) => Err(StringTransformError::Utf8Error(err)),
            },
        }
    }
}

} // verus!
