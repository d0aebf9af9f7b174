//! Addresses that say of which family they are: a tag byte in front of the
//! octets.
use crate::impls::copy_into;
use crate::impls::net::Ipv4Addr;
use crate::impls::net::Ipv6Addr;
use crate::Transformable;
use vstd::prelude::*;
use vstd::slice::slice_subrange;

verus! {

/// The tag of an IPv4 address.
pub const V4_TAG: u8 = 4;

/// The tag of an IPv6 address.
pub const V6_TAG: u8 = 6;

/// The number of bytes of the tag.
pub const TAG_SIZE: usize = 1;

/// The number of octets of an IPv4 address.
pub const V4_SIZE: usize = 4;

/// The number of octets of an IPv6 address.
pub const V6_SIZE: usize = 16;

/// The number of bytes of a tagged IPv4 address, the shortest there is.
pub const MIN_ENCODED_LEN: usize = 5;

/// The number of bytes of a tagged IPv6 address.
pub const V6_ENCODED_LEN: usize = 17;

/// An address of either family.
#[derive(Debug, Clone, Copy, PartialEq, Eq)]
pub enum IpAddr {
    /// An IPv4 address.
    V4(Ipv4Addr),
    /// An IPv6 address.
    V6(Ipv6Addr),
}

/// The wire error type for [`IpAddr`].
#[derive(Debug, Clone, Copy, PartialEq, Eq)]
pub enum IpAddrTransformError {
    /// Returned when the buffer is too small to encode the [`IpAddr`].
    EncodeBufferTooSmall,
    /// Returned when the address family is unknown.
    UnknownAddressFamily(u8),
    /// Returned when the address is corrupted.
    Corrupted(&'static str),
}

/// The number of octets that follow a tag, or `None` for a tag of no family.
pub open spec fn octets_of_tag(tag: u8) -> Option<nat> {
    if tag == V4_TAG {
        Some(V4_SIZE as nat)
    } else if tag == V6_TAG {
        Some(V6_SIZE as nat)
    } else {
        None
    }
}

/// The tagged address at the front of a source: the number of bytes, the tag
/// and the octets, or `None` where the source is empty, the tag is of no
/// family or the octets are not all there.
pub open spec fn parse_tagged(src: Seq<u8>) -> Option<(nat, (u8, Seq<u8>))> {
    if src.len() == 0 {
        None
    } else {
        match octets_of_tag(src[0]) {
            Some(size) => if src.len() < TAG_SIZE + size {
                None
            } else {
                Some((TAG_SIZE as nat + size, (src[0], src.subrange(1, 1 + size as int))))
            },
            None => None,
        }
    }
}

/// Whether `error` is what a source without a tagged address reports: a tag
/// of no family is named, and a source that ends before the octets do is
/// corrupted, with a reason that says which family fell short.
pub open spec fn tagged_failure(src: Seq<u8>, error: IpAddrTransformError) -> bool {
    match error {
        IpAddrTransformError::EncodeBufferTooSmall => false,
        IpAddrTransformError::UnknownAddressFamily(tag) => src.len() > 0 && src[0] == tag
            && octets_of_tag(tag) is None,
        IpAddrTransformError::Corrupted(reason) => if src.len() == 0 {
            reason@ == "corrupted address"@
        } else if src[0] == V4_TAG {
            src.len() < MIN_ENCODED_LEN && reason@ == "corrupted socket v4 address"@
        } else {
            src[0] == V6_TAG && src.len() < V6_ENCODED_LEN && reason@
                == "corrupted socket v6 address"@
        },
    }
}

/// What to do next with a stream, once the shortest frame has been read
/// from it.
#[derive(Debug, Clone, Copy, PartialEq, Eq)]
pub enum IpAddrStep {
    /// The frame was a whole address: the bytes it took and the address.
    Done(usize, IpAddr),
    /// The address is longer: so many more bytes are to be read.
    More(usize),
}

impl IpAddr {
    /// Decides on the shortest frame, the first read from a stream, whether
    /// it holds a whole address. Only a frame with the tag of the longer
    /// family asks for more bytes, so that the stream of a peer that sends
    /// the shorter one is never asked for bytes that will not come.
    pub fn decode_min_frame(buf: &[u8; 5]) -> (r: Result<IpAddrStep, IpAddrTransformError>)
        ensures
            match r {
                Ok(IpAddrStep::Done(n, addr)) => buf@[0] == V4_TAG && Self::parse(buf@) == Some(
                    (n as nat, addr.value()),
                ),
                Ok(IpAddrStep::More(n)) => buf@[0] == V6_TAG && n == V6_ENCODED_LEN
                    - MIN_ENCODED_LEN,
                Err(e) => octets_of_tag(buf@[0]) is None && e
                    == IpAddrTransformError::UnknownAddressFamily(buf@[0]),
            },
    {
        let tag = buf[0];
        if tag == V4_TAG {
            let ip = Ipv4Addr::new(buf[1], buf[2], buf[3], buf[4]);
            proof {
                assert(buf@.subrange(1, 5) == ip.octets@);
            }
            Ok(IpAddrStep::Done(MIN_ENCODED_LEN, IpAddr::V4(ip)))
        } else if tag == V6_TAG {
            Ok(IpAddrStep::More(V6_ENCODED_LEN - MIN_ENCODED_LEN))
        } else {
            Err(IpAddrTransformError::UnknownAddressFamily(tag))
        }
    }

    /// Decodes the address of which `first` is the shortest frame and
    /// `remaining` the bytes read after it: what decoding the two in a row
    /// gives.
    pub fn decode_with_remaining(first: &[u8; 5], remaining: &[u8; 12]) -> (r: Result<
        (usize, IpAddr),
        IpAddrTransformError,
    >)
        ensures
            match r {
                Ok((n, addr)) => Self::parse(first@ + remaining@) == Some((n as nat, addr.value())),
                Err(e) => Self::parse(first@ + remaining@) is None && Self::decode_failure(
                    first@ + remaining@,
                    e,
                ),
            },
    {
        let mut buf = [0u8; 17];
        copy_into(&mut buf, 0, first.as_slice());
        copy_into(&mut buf, MIN_ENCODED_LEN, remaining.as_slice());
        proof {
            assert(buf@ == first@ + remaining@);
        }
        Self::decode(buf.as_slice())
    }
}

/// An address of either family travels as the tag of its family and then
/// its octets.
impl Transformable for IpAddr {
    type Error = IpAddrTransformError;

    type Value = (u8, Seq<u8>);

    open spec fn value(&self) -> (u8, Seq<u8>) {
        match self {
            IpAddr::V4(addr) => (V4_TAG, addr.octets@),
            IpAddr::V6(addr) => (V6_TAG, addr.octets@),
        }
    }

    open spec fn has_wire(value: (u8, Seq<u8>)) -> bool {
        octets_of_tag(value.0) == Some(value.1.len())
    }

    open spec fn wire(value: (u8, Seq<u8>)) -> Seq<u8> {
        seq![value.0] + value.1
    }

    open spec fn parse(src: Seq<u8>) -> Option<(nat, (u8, Seq<u8>))> {
        parse_tagged(src)
    }

    open spec fn decode_failure(src: Seq<u8>, error: IpAddrTransformError) -> bool {
        tagged_failure(src, error)
    }

    open spec fn encode_failure(error: IpAddrTransformError) -> bool {
        error == IpAddrTransformError::EncodeBufferTooSmall
    }

    proof fn lemma_round_trip(value: (u8, Seq<u8>), rest: Seq<u8>) {
        let src = Self::wire(value) + rest;
        assert(src[0] == value.0);
        assert(src.subrange(1, 1 + value.1.len() as int) == value.1);
    }

    fn has_wire_form(&self) -> (b: bool) {
        true
    }

    fn encode(&self, dst: &mut [u8]) -> (r: Result<usize, IpAddrTransformError>) {
        let encoded_len = self.encoded_len();
        if dst.len() < encoded_len {
            assert(Self::encode_failure(IpAddrTransformError::EncodeBufferTooSmall));
            return Err(IpAddrTransformError::EncodeBufferTooSmall);
        }
        let ghost before = dst@;
        match self {
            IpAddr::V4(addr) => {
                dst[0] = V4_TAG;
                copy_into(dst, TAG_SIZE, addr.octets.as_slice());
            },
            IpAddr::V6(addr) => {
                dst[0] = V6_TAG;
                copy_into(dst, TAG_SIZE, addr.octets.as_slice());
            },
        }
        proof {
            assert(dst@ == Self::wire(self.value()) + before.skip(encoded_len as int));
        }
        Ok(encoded_len)
    }

    fn encoded_len(&self) -> (n: usize) {
        TAG_SIZE + match self {
            IpAddr::V4(_) => V4_SIZE,
            IpAddr::V6(_) => V6_SIZE,
        }
    }

    fn decode(src: &[u8]) -> (r: Result<(usize, IpAddr), IpAddrTransformError>) {
        if src.len() == 0 {
            return Err(IpAddrTransformError::Corrupted("corrupted address"));
        }
        let tag = src[0];
        if tag == V4_TAG {
            if src.len() < MIN_ENCODED_LEN {
                return Err(IpAddrTransformError::Corrupted("corrupted socket v4 address"));
            }
            let ip = Ipv4Addr::new(src[1], src[2], src[3], src[4]);
            proof {
                assert(src@.subrange(1, 5) == ip.octets@);
            }
            Ok((MIN_ENCODED_LEN, IpAddr::V4(ip)))
        } else if tag == V6_TAG {
            if src.len() < V6_ENCODED_LEN {
                return Err(IpAddrTransformError::Corrupted("corrupted socket v6 address"));
            }
            let ghost octets = src@.subrange(1, 17);
            match <[u8; 16]>::decode(slice_subrange(src, TAG_SIZE, V6_ENCODED_LEN)) {
                Ok((_, buf)) => {
                    proof {
                        assert(octets.take(16) == octets);
                    }
                    Ok((V6_ENCODED_LEN, IpAddr::V6(Ipv6Addr::new(buf))))
                },
                Err(_) => Err(IpAddrTransformError::Corrupted("corrupted socket v6 address")),
            }
        } else {
            Err(IpAddrTransformError::UnknownAddressFamily(tag))
        }
    }
}

} // verus!
