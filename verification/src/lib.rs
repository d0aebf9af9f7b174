//! Conversion of values to and from their byte form on the wire.
//!
//! Every type that can travel implements [`Transformable`]: it says how many
//! bytes a value takes, writes them to the front of a buffer and reads a
//! value back from the front of a source. What the bytes are is stated once
//! for each type, as a function from values to byte sequences, and reading is
//! proved to undo writing.
use vstd::prelude::*;

pub mod buffer;
pub mod impls;
pub mod utils;

pub use impls::instant::ClockAnchor;
pub use impls::instant::Instant;
pub use impls::instant::InstantTransformError;
pub use impls::net::ip_addr::IpAddr;
pub use impls::net::ip_addr::IpAddrStep;
pub use impls::net::ip_addr::IpAddrTransformError;
pub use impls::net::AddrTransformError;
pub use impls::net::Ipv4Addr;
pub use impls::net::Ipv6Addr;
pub use impls::net::SocketAddrV4;
pub use impls::net::SocketAddrV6;
pub use impls::numbers::NumberTransformError;
pub use impls::string::StringTransformError;
pub use impls::system_time::SystemTime;
pub use impls::system_time::SystemTimeTransformError;
pub use impls::time::Duration;
pub use impls::time::DurationTransformError;
pub use impls::BytesTransformError;

verus! {

/// The type can transform its representation between structured and byte form.
pub trait Transformable: Sized {
    /// The error type returned when encoding or decoding fails.
    type Error;

    /// What a value of the type is, as a mathematical object.
    type Value;

    /// The mathematical object that `self` stands for.
    spec fn value(&self) -> Self::Value;

    /// Whether a value has a byte form at all.
    spec fn has_wire(value: Self::Value) -> bool;

    /// The bytes that stand for a value on the wire.
    spec fn wire(value: Self::Value) -> Seq<u8>;

    /// What the front of a source decodes to: how many bytes the value takes
    /// and the value, or `None` where the source holds none.
    spec fn parse(src: Seq<u8>) -> Option<(nat, Self::Value)>;

    /// Whether `error` is what decoding `src`, a source without a value,
    /// reports.
    spec fn decode_failure(src: Seq<u8>, error: Self::Error) -> bool;

    /// Whether `error` is what encoding into a buffer that is too short
    /// reports.
    spec fn encode_failure(error: Self::Error) -> bool;

    /// Reading undoes writing: the bytes of a value, followed by anything,
    /// decode to the number of those bytes and to the value.
    proof fn lemma_round_trip(value: Self::Value, rest: Seq<u8>)
        requires
            Self::has_wire(value),
        ensures
            Self::parse(Self::wire(value) + rest) == Some((Self::wire(value).len(), value)),
    ;

    /// Tells whether the value has a byte form, which the other methods ask
    /// of it.
    fn has_wire_form(&self) -> (b: bool)
        ensures
            b == Self::has_wire(self.value()),
    ;

    /// Encodes the value into the given buffer for transmission.
    ///
    /// Returns the number of bytes written to the buffer. The bytes go to the
    /// front of the buffer and the rest of it stays as it was; a buffer that
    /// cannot hold them all is left untouched.
    fn encode(&self, dst: &mut [u8]) -> (r: Result<usize, Self::Error>)
        requires
            Self::has_wire(self.value()),
        ensures
            final(dst)@.len() == old(dst)@.len(),
            r is Ok <==> Self::wire(self.value()).len() <= old(dst)@.len(),
            r matches Ok(n) ==> n == Self::wire(self.value()).len() && final(dst)@ == Self::wire(
                self.value(),
            ) + old(dst)@.skip(n as int),
            r matches Err(e) ==> Self::encode_failure(e) && final(dst)@ == old(dst)@,
    ;

    /// Returns the encoded length of the value.
    /// This is used to pre-allocate a buffer for encoding.
    fn encoded_len(&self) -> (n: usize)
        requires
            Self::has_wire(self.value()),
        ensures
            n == Self::wire(self.value()).len(),
    ;

    /// Decodes the value from the given buffer received over the wire.
    ///
    /// Returns the number of bytes read from the buffer and the struct. The
    /// bytes read are at the front of the buffer; what follows them plays no
    /// part.
    fn decode(src: &[u8]) -> (r: Result<(usize, Self), Self::Error>)
        ensures
            match r {
                Ok((n, v)) => n <= src@.len() && Self::parse(src@) == Some((n as nat, v.value())),
                Err(e) => Self::parse(src@) is None && Self::decode_failure(src@, e),
            },
    ;

    /// Encodes the value into the given buffer as [`Self::encode`] does, for
    /// a caller that does not know whether the value has a byte form: where
    /// it has none, nothing is written and `None` is returned.
    fn try_encode(&self, dst: &mut [u8]) -> (r: Option<Result<usize, Self::Error>>)
        ensures
            final(dst)@.len() == old(dst)@.len(),
            r is Some <==> Self::has_wire(self.value()),
            r is None ==> final(dst)@ == old(dst)@,
            r matches Some(Ok(n)) ==> n == Self::wire(self.value()).len() && n <= old(dst)@.len()
                && final(dst)@ == Self::wire(self.value()) + old(dst)@.skip(n as int),
            r matches Some(Err(e)) ==> Self::encode_failure(e) && old(dst)@.len() < Self::wire(
                self.value(),
            ).len() && final(dst)@ == old(dst)@,
    {
        if self.has_wire_form() {
            Some(self.encode(dst))
        } else {
            None
        }
    }

    /// Encodes the value into a vec for transmission.
    fn encode_to_vec(&self) -> (r: Result<Vec<u8>, Self::Error>)
        requires
            Self::has_wire(self.value()),
        ensures
            r matches Ok(bytes) && bytes@ == Self::wire(self.value()),
    {
        let mut buf = vec![0u8; self.encoded_len()];
        match self.encode(&mut buf) {
            Ok(_) => Ok(buf),
            Err(e) => Err(e),
        }
    }
}

} // verus!
