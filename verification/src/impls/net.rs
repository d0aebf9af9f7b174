//! Network addresses whose family is known from context: the octets of the
//! address, and for a socket address the port after them in network byte
//! order.
use crate::impls::be_bytes;
use crate::impls::be_value;
use crate::impls::copy_into;
use crate::impls::lemma_be_bytes_len;
use crate::impls::lemma_be_limits;
use crate::impls::lemma_be_round_trip;
use crate::impls::lemma_be_value_bound;
use crate::impls::u16_from_network_endian;
use crate::impls::u16_to_network_endian;
use crate::impls::BytesTransformError;
use crate::Transformable;
use vstd::prelude::*;
use vstd::slice::slice_subrange;

pub mod ip_addr;

verus! {

/// The number of octets of an IPv4 address.
pub const ADDR_V4_ENCODED_SIZE: usize = 4;

/// The number of octets of an IPv6 address.
pub const ADDR_V6_ENCODED_SIZE: usize = 16;

/// The number of bytes of a port.
pub const PORT_SIZE: usize = 2;

/// The error type for errors that get returned when encoding or decoding fails.
#[derive(Debug, Clone, Copy, PartialEq, Eq, Structural)]
pub enum AddrTransformError {
    /// Returned when the buffer is too small to encode.
    EncodeBufferTooSmall,
    /// Returned when the bytes are corrupted.
    Corrupted,
}

impl AddrTransformError {
    /// The address error that stands for an error of the byte array codec.
    pub fn from_bytes_error(err: BytesTransformError) -> (r: Self)
        ensures
            r == match err {
                BytesTransformError::EncodeBufferTooSmall => AddrTransformError::EncodeBufferTooSmall,
                BytesTransformError::NotEnoughBytes => AddrTransformError::Corrupted,
            },
    {
        match err {
            BytesTransformError::EncodeBufferTooSmall => Self::EncodeBufferTooSmall,
            BytesTransformError::NotEnoughBytes => Self::Corrupted,
        }
    }
}

/// An IPv4 address: four octets.
#[derive(Debug, Clone, Copy, PartialEq, Eq)]
pub struct Ipv4Addr {
    /// The octets, the first one first.
    pub octets: [u8; 4],
}

/// An IPv6 address: sixteen octets.
#[derive(Debug, Clone, Copy, PartialEq, Eq)]
pub struct Ipv6Addr {
    /// The octets, the first one first.
    pub octets: [u8; 16],
}

/// An IPv4 address with a port.
#[derive(Debug, Clone, Copy, PartialEq, Eq)]
pub struct SocketAddrV4 {
    /// The address.
    pub ip: Ipv4Addr,
    /// The port.
    pub port: u16,
}

/// An IPv6 address with a port.
#[derive(Debug, Clone, Copy, PartialEq, Eq)]
pub struct SocketAddrV6 {
    /// The address.
    pub ip: Ipv6Addr,
    /// The port.
    pub port: u16,
}

impl Ipv4Addr {
    /// The address `a.b.c.d`.
    pub fn new(a: u8, b: u8, c: u8, d: u8) -> (r: Self)
        ensures
            r.octets@ == seq![a, b, c, d],
    {
        let octets = [a, b, c, d];
        proof {
            assert(octets@ == seq![a, b, c, d]);
        }
        Ipv4Addr { octets }
    }

    /// The four octets of the address.
    pub fn octets(&self) -> (r: [u8; 4])
        ensures
            r == self.octets,
    {
        self.octets
    }
}

impl Ipv6Addr {
    /// The address with the octets given.
    pub fn new(octets: [u8; 16]) -> (r: Self)
        ensures
            r.octets == octets,
    {
        Ipv6Addr { octets }
    }

    /// The sixteen octets of the address.
    pub fn octets(&self) -> (r: [u8; 16])
        ensures
            r == self.octets,
    {
        self.octets
    }
}

impl SocketAddrV4 {
    /// The socket address of `ip` and `port`.
    pub fn new(ip: Ipv4Addr, port: u16) -> (r: Self)
        ensures
            r == (SocketAddrV4 { ip, port }),
    {
        SocketAddrV4 { ip, port }
    }

    /// The address.
    pub fn ip(&self) -> (r: Ipv4Addr)
        ensures
            r == self.ip,
    {
        self.ip
    }

    /// The port.
    pub fn port(&self) -> (r: u16)
        ensures
            r == self.port,
    {
        self.port
    }
}

impl SocketAddrV6 {
    /// The socket address of `ip` and `port`.
    pub fn new(ip: Ipv6Addr, port: u16) -> (r: Self)
        ensures
            r == (SocketAddrV6 { ip, port }),
    {
        SocketAddrV6 { ip, port }
    }

    /// The address.
    pub fn ip(&self) -> (r: Ipv6Addr)
        ensures
            r == self.ip,
    {
        self.ip
    }

    /// The port.
    pub fn port(&self) -> (r: u16)
        ensures
            r == self.port,
    {
        self.port
    }
}

/// The wire form of a socket address: its octets and then its port, the
/// most significant byte first.
pub open spec fn socket_wire(octets: Seq<u8>, port: u16) -> Seq<u8> {
    octets + be_bytes(port as nat, 2)
}

/// The socket address at the front of a source, for a family of `size`
/// octets: the number of bytes, the octets and the port, or `None` where the
/// source is shorter than the address.
pub open spec fn parse_socket(src: Seq<u8>, size: nat) -> Option<(nat, (Seq<u8>, u16))> {
    if src.len() < size + PORT_SIZE {
        None
    } else {
        Some(
            (
                size + PORT_SIZE as nat,
                (src.take(size as int), be_value(src.subrange(size as int, size as int + 2)) as u16),
            ),
        )
    }
}

/// The wire form of a socket address, followed by anything, is read back as
/// the address.
pub proof fn lemma_socket_round_trip(octets: Seq<u8>, port: u16, rest: Seq<u8>)
    ensures
        socket_wire(octets, port).len() == octets.len() + PORT_SIZE,
        parse_socket(socket_wire(octets, port) + rest, octets.len()) == Some(
            (socket_wire(octets, port).len(), (octets, port)),
        ),
{
    lemma_be_limits();
    lemma_be_round_trip(port as nat, 2, rest);
    let src = socket_wire(octets, port) + rest;
    let size = octets.len() as int;
    assert(src.take(size) == octets);
    assert(src.subrange(size, size + 2) == be_bytes(port as nat, 2));
}

/// Writes octets and port to the front of `dst`. A buffer that cannot hold
/// them is refused and left untouched.
fn encode_socket(octets: &[u8], port: u16, dst: &mut [u8]) -> (r: Result<usize, AddrTransformError>)
    requires
        octets@.len() + PORT_SIZE <= usize::MAX,
    ensures
        final(dst)@.len() == old(dst)@.len(),
        r is Ok <==> socket_wire(octets@, port).len() <= old(dst)@.len(),
        r matches Ok(n) ==> n == socket_wire(octets@, port).len() && final(dst)@ == socket_wire(
            octets@,
            port,
        ) + old(dst)@.skip(n as int),
        r matches Err(e) ==> e == AddrTransformError::EncodeBufferTooSmall && final(dst)@ == old(
            dst,
        )@,
{
    proof {
        lemma_be_bytes_len(port as nat, 2);
    }
    let encoded_len = octets.len() + PORT_SIZE;
    if dst.len() < encoded_len {
        return Err(AddrTransformError::EncodeBufferTooSmall);
    }
    let ghost before = dst@;
    copy_into(dst, 0, octets);
    let port_bytes = u16_to_network_endian(port);
    copy_into(dst, octets.len(), &port_bytes);
    proof {
        assert(dst@ == socket_wire(octets@, port) + before.skip(encoded_len as int));
    }
    Ok(encoded_len)
}

/// Reads the port behind `size` octets at the front of `src`.
fn decode_port(src: &[u8], size: usize) -> (port: u16)
    requires
        size + PORT_SIZE <= src@.len(),
    ensures
        port == be_value(src@.subrange(size as int, size + 2)) as u16,
{
    let len = src.len();
    assert(size + PORT_SIZE <= len);
    let bytes = slice_subrange(src, size, size + PORT_SIZE);
    proof {
        lemma_be_limits();
        assert(bytes@.take(2) == bytes@);
        lemma_be_value_bound(bytes@);
    }
    u16_from_network_endian(bytes)
}

/// An IPv4 address travels as its four octets.
impl Transformable for Ipv4Addr {
    type Error = AddrTransformError;

    type Value = Seq<u8>;

    open spec fn value(&self) -> Seq<u8> {
        self.octets@
    }

    open spec fn has_wire(value: Seq<u8>) -> bool {
        value.len() == ADDR_V4_ENCODED_SIZE
    }

    open spec fn wire(value: Seq<u8>) -> Seq<u8> {
        value
    }

    open spec fn parse(src: Seq<u8>) -> Option<(nat, Seq<u8>)> {
        <[u8; 4] as Transformable>::parse(src)
    }

    open spec fn decode_failure(src: Seq<u8>, error: AddrTransformError) -> bool {
        error == AddrTransformError::Corrupted
    }

    open spec fn encode_failure(error: AddrTransformError) -> bool {
        error == AddrTransformError::EncodeBufferTooSmall
    }

    proof fn lemma_round_trip(value: Seq<u8>, rest: Seq<u8>) {
        <[u8; 4] as Transformable>::lemma_round_trip(value, rest);
    }

    fn has_wire_form(&self) -> (b: bool) {
        true
    }

    fn encode(&self, dst: &mut [u8]) -> (r: Result<usize, AddrTransformError>) {
        match self.octets.encode(dst) {
            Ok(n) => Ok(n),
            Err(e) => {
                assert(Self::encode_failure(AddrTransformError::EncodeBufferTooSmall));
                assert(<[u8; 4] as Transformable>::encode_failure(e));
                Err(AddrTransformError::from_bytes_error(e))
            },
        }
    }

    fn encoded_len(&self) -> (n: usize) {
        ADDR_V4_ENCODED_SIZE
    }

    fn decode(src: &[u8]) -> (r: Result<(usize, Ipv4Addr), AddrTransformError>) {
        match <[u8; 4]>::decode(src) {
            Ok((len, octets)) => Ok((len, Ipv4Addr { octets })),
            Err(e) => {
                assert(<[u8; 4] as Transformable>::decode_failure(src@, e));
                Err(AddrTransformError::from_bytes_error(e))
            },
        }
    }
}

/// An IPv6 address travels as its sixteen octets.
impl Transformable for Ipv6Addr {
    type Error = AddrTransformError;

    type Value = Seq<u8>;

    open spec fn value(&self) -> Seq<u8> {
        self.octets@
    }

    open spec fn has_wire(value: Seq<u8>) -> bool {
        value.len() == ADDR_V6_ENCODED_SIZE
    }

    open spec fn wire(value: Seq<u8>) -> Seq<u8> {
        value
    }

    open spec fn parse(src: Seq<u8>) -> Option<(nat, Seq<u8>)> {
        <[u8; 16] as Transformable>::parse(src)
    }

    open spec fn decode_failure(src: Seq<u8>, error: AddrTransformError) -> bool {
        error == AddrTransformError::Corrupted
    }

    open spec fn encode_failure(error: AddrTransformError) -> bool {
        error == AddrTransformError::EncodeBufferTooSmall
    }

    proof fn lemma_round_trip(value: Seq<u8>, rest: Seq<u8>) {
        <[u8; 16] as Transformable>::lemma_round_trip(value, rest);
    }

    fn has_wire_form(&self) -> (b: bool) {
        true
    }

    fn encode(&self, dst: &mut [u8]) -> (r: Result<usize, AddrTransformError>) {
        match self.octets.encode(dst) {
            Ok(n) => Ok(n),
            Err(e) => {
                assert(Self::encode_failure(AddrTransformError::EncodeBufferTooSmall));
                assert(<[u8; 16] as Transformable>::encode_failure(e));
                Err(AddrTransformError::from_bytes_error(e))
            },
        }
    }

    fn encoded_len(&self) -> (n: usize) {
        ADDR_V6_ENCODED_SIZE
    }

    fn decode(src: &[u8]) -> (r: Result<(usize, Ipv6Addr), AddrTransformError>) {
        match <[u8; 16]>::decode(src) {
            Ok((len, octets)) => Ok((len, Ipv6Addr { octets })),
            Err(e) => {
                assert(<[u8; 16] as Transformable>::decode_failure(src@, e));
                Err(AddrTransformError::from_bytes_error(e))
            },
        }
    }
}

/// An IPv4 socket address travels as its four octets and then its port.
impl Transformable for SocketAddrV4 {
    type Error = AddrTransformError;

    type Value = (Seq<u8>, u16);

    open spec fn value(&self) -> (Seq<u8>, u16) {
        (self.ip.octets@, self.port)
    }

    open spec fn has_wire(value: (Seq<u8>, u16)) -> bool {
        value.0.len() == ADDR_V4_ENCODED_SIZE
    }

    open spec fn wire(value: (Seq<u8>, u16)) -> Seq<u8> {
        socket_wire(value.0, value.1)
    }

    open spec fn parse(src: Seq<u8>) -> Option<(nat, (Seq<u8>, u16))> {
        parse_socket(src, 4)
    }

    open spec fn decode_failure(src: Seq<u8>, error: AddrTransformError) -> bool {
        error == AddrTransformError::Corrupted
    }

    open spec fn encode_failure(error: AddrTransformError) -> bool {
        error == AddrTransformError::EncodeBufferTooSmall
    }

    proof fn lemma_round_trip(value: (Seq<u8>, u16), rest: Seq<u8>) {
        lemma_socket_round_trip(value.0, value.1, rest);
    }

    fn has_wire_form(&self) -> (b: bool) {
        true
    }

    fn encode(&self, dst: &mut [u8]) -> (r: Result<usize, AddrTransformError>) {
        assert(Self::encode_failure(AddrTransformError::EncodeBufferTooSmall));
        encode_socket(self.ip.octets.as_slice(), self.port, dst)
    }

    fn encoded_len(&self) -> (n: usize) {
        proof {
            lemma_be_bytes_len(self.port as nat, 2);
        }
        ADDR_V4_ENCODED_SIZE + PORT_SIZE
    }

    fn decode(src: &[u8]) -> (r: Result<(usize, SocketAddrV4), AddrTransformError>) {
        if src.len() < ADDR_V4_ENCODED_SIZE + PORT_SIZE {
            return Err(AddrTransformError::Corrupted);
        }
        match <[u8; 4]>::decode(src) {
            Ok((_, octets)) => {
                let port = decode_port(src, ADDR_V4_ENCODED_SIZE);
                Ok((ADDR_V4_ENCODED_SIZE + PORT_SIZE, SocketAddrV4::new(Ipv4Addr { octets }, port)))
            },
            Err(_) => Err(AddrTransformError::Corrupted),
        }
    }
}

/// An IPv6 socket address travels as its sixteen octets and then its port.
impl Transformable for SocketAddrV6 {
    type Error = AddrTransformError;

    type Value = (Seq<u8>, u16);

    open spec fn value(&self) -> (Seq<u8>, u16) {
        (self.ip.octets@, self.port)
    }

    open spec fn has_wire(value: (Seq<u8>, u16)) -> bool {
        value.0.len() == ADDR_V6_ENCODED_SIZE
    }

    open spec fn wire(value: (Seq<u8>, u16)) -> Seq<u8> {
        socket_wire(value.0, value.1)
    }

    open spec fn parse(src: Seq<u8>) -> Option<(nat, (Seq<u8>, u16))> {
        parse_socket(src, 16)
    }

    open spec fn decode_failure(src: Seq<u8>, error: AddrTransformError) -> bool {
        error == AddrTransformError::Corrupted
    }

    open spec fn encode_failure(error: AddrTransformError) -> bool {
        error == AddrTransformError::EncodeBufferTooSmall
    }

    proof fn lemma_round_trip(value: (Seq<u8>, u16), rest: Seq<u8>) {
        lemma_socket_round_trip(value.0, value.1, rest);
    }

    fn has_wire_form(&self) -> (b: bool) {
        true
    }

    fn encode(&self, dst: &mut [u8]) -> (r: Result<usize, AddrTransformError>) {
        assert(Self::encode_failure(AddrTransformError::EncodeBufferTooSmall));
        encode_socket(self.ip.octets.as_slice(), self.port, dst)
    }

    fn encoded_len(&self) -> (n: usize) {
        proof {
            lemma_be_bytes_len(self.port as nat, 2);
        }
        ADDR_V6_ENCODED_SIZE + PORT_SIZE
    }

    fn decode(src: &[u8]) -> (r: Result<(usize, SocketAddrV6), AddrTransformError>) {
        if src.len() < ADDR_V6_ENCODED_SIZE + PORT_SIZE {
            return Err(AddrTransformError::Corrupted);
        }
        match <[u8; 16]>::decode(src) {
            Ok((_, octets)) => {
                let port = decode_port(src, ADDR_V6_ENCODED_SIZE);
                Ok((ADDR_V6_ENCODED_SIZE + PORT_SIZE, SocketAddrV6::new(Ipv6Addr { octets }, port)))
            },
            Err(_) => Err(AddrTransformError::Corrupted),
        }
    }
}

} // verus!
