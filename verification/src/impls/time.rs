//! Spans of time and points in time: seconds in eight bytes and nanoseconds
//! in four, both in network byte order.
use crate::impls::be_bytes;
use crate::impls::be_value;
use crate::impls::copy_into;
use crate::impls::lemma_be_bytes_len;
use crate::impls::lemma_be_limits;
use crate::impls::lemma_be_round_trip;
use crate::impls::lemma_be_value_bound;
use crate::impls::u32_from_network_endian;
use crate::impls::u32_to_network_endian;
use crate::impls::u64_from_network_endian;
use crate::impls::u64_to_network_endian;
use crate::Transformable;
use vstd::prelude::*;
use vstd::slice::slice_subrange;

verus! {

/// The number of nanoseconds in a second.
pub const NANOS_PER_SEC: u32 = 1_000_000_000;

/// The number of bytes of a span of time on the wire.
pub const ENCODED_LEN: usize = 12;

/// The longest span that a [`Duration`] holds, in nanoseconds: the most
/// seconds of 64 bits, and one nanosecond less than a second more.
pub open spec fn max_duration_nanos() -> nat {
    (u64::MAX as nat) * (NANOS_PER_SEC as nat) + (NANOS_PER_SEC as nat - 1) as nat
}

/// Error returned by [`Duration`] when transforming.
#[derive(Debug, Clone, Copy, PartialEq, Eq, Hash, Structural)]
pub enum DurationTransformError {
    /// The buffer is too small to encode the value.
    EncodeBufferTooSmall,
    /// Corrupted binary data.
    Corrupted,
}

/// A span of time: whole seconds and the nanoseconds of a second begun.
#[derive(Debug, Clone, Copy, PartialEq, Eq, Hash)]
pub struct Duration {
    secs: u64,
    nanos: u32,
}

impl Duration {
    #[verifier::type_invariant]
    spec fn wf(self) -> bool {
        self.nanos < NANOS_PER_SEC
    }

    /// The span in nanoseconds.
    pub closed spec fn total_nanos(self) -> nat {
        (self.secs as nat) * (NANOS_PER_SEC as nat) + self.nanos as nat
    }

    /// The span of `secs` seconds and `nanos` nanoseconds. Nanoseconds that
    /// make up whole seconds are carried over to the seconds, which must not
    /// overflow by that.
    pub fn new(secs: u64, nanos: u32) -> (r: Self)
        requires
            secs * NANOS_PER_SEC + nanos <= max_duration_nanos(),
        ensures
            r.total_nanos() == secs * NANOS_PER_SEC + nanos,
    {
        let carry: u64 = (nanos / NANOS_PER_SEC) as u64;
        Duration { secs: secs + carry, nanos: nanos % NANOS_PER_SEC }
    }

    /// The span of `secs` seconds and `nanos` nanoseconds, or `None` where
    /// the seconds overflow once the nanoseconds are carried over.
    pub fn checked_new(secs: u64, nanos: u32) -> (r: Option<Self>)
        ensures
            r is Some <==> secs * NANOS_PER_SEC + nanos <= max_duration_nanos(),
            r matches Some(d) ==> d.total_nanos() == secs * NANOS_PER_SEC + nanos,
    {
        let carry: u64 = (nanos / NANOS_PER_SEC) as u64;
        match secs.checked_add(carry) {
            Some(secs) => Some(Duration { secs, nanos: nanos % NANOS_PER_SEC }),
            None => None,
        }
    }

    /// The span of so many nanoseconds, or `None` where that is longer than
    /// the longest span.
    pub fn checked_from_nanos(nanos: u128) -> (r: Option<Self>)
        ensures
            r is Some <==> nanos <= max_duration_nanos(),
            r matches Some(d) ==> d.total_nanos() == nanos,
    {
        let per_sec: u128 = NANOS_PER_SEC as u128;
        let secs: u128 = nanos / per_sec;
        if secs > u64::MAX as u128 {
            None
        } else {
            Some(Duration { secs: secs as u64, nanos: (nanos % per_sec) as u32 })
        }
    }

    /// The span in nanoseconds.
    pub fn as_nanos(&self) -> (r: u128)
        ensures
            r == self.total_nanos(),
            r <= max_duration_nanos(),
    {
        proof {
            use_type_invariant(self);
        }
        (self.secs as u128) * (NANOS_PER_SEC as u128) + (self.nanos as u128)
    }

    /// The whole seconds of the span.
    pub fn as_secs(&self) -> (r: u64)
        ensures
            r == self.total_nanos() / (NANOS_PER_SEC as nat),
    {
        proof {
            use_type_invariant(self);
        }
        self.secs
    }

    /// The nanoseconds of the second that the span has begun.
    pub fn subsec_nanos(&self) -> (r: u32)
        ensures
            r == self.total_nanos() % (NANOS_PER_SEC as nat),
    {
        proof {
            use_type_invariant(self);
        }
        self.nanos
    }
}

/// The wire form of a span of so many nanoseconds: its whole seconds in
/// eight bytes, then the nanoseconds left over in four.
pub open spec fn duration_wire(nanos: nat) -> Seq<u8> {
    be_bytes(nanos / (NANOS_PER_SEC as nat), 8) + be_bytes(nanos % (NANOS_PER_SEC as nat), 4)
}

/// The span that the first twelve bytes of a source spell, in nanoseconds,
/// or `None` where the source is shorter or the span is longer than the
/// longest.
pub open spec fn parse_duration(src: Seq<u8>) -> Option<(nat, nat)> {
    if src.len() < ENCODED_LEN {
        None
    } else {
        let nanos = be_value(src.take(8)) * (NANOS_PER_SEC as nat) + be_value(src.subrange(8, 12));
        if nanos > max_duration_nanos() {
            None
        } else {
            Some((ENCODED_LEN as nat, nanos))
        }
    }
}

/// The wire form of a span has twelve bytes.
pub proof fn lemma_duration_wire_len(nanos: nat)
    ensures
        duration_wire(nanos).len() == ENCODED_LEN,
{
    lemma_be_bytes_len(nanos / (NANOS_PER_SEC as nat), 8);
    lemma_be_bytes_len(nanos % (NANOS_PER_SEC as nat), 4);
}

/// The wire form of a span, followed by anything, is read back as the span.
pub proof fn lemma_duration_round_trip(nanos: nat, rest: Seq<u8>)
    requires
        nanos <= max_duration_nanos(),
    ensures
        parse_duration(duration_wire(nanos) + rest) == Some((duration_wire(nanos).len(), nanos)),
{
    let secs = nanos / (NANOS_PER_SEC as nat);
    let sub = nanos % (NANOS_PER_SEC as nat);
    lemma_be_limits();
    lemma_be_round_trip(secs, 8, be_bytes(sub, 4) + rest);
    lemma_be_round_trip(sub, 4, rest);
    let src = duration_wire(nanos) + rest;
    assert(src == be_bytes(secs, 8) + (be_bytes(sub, 4) + rest));
    assert(src.subrange(8, 12) == be_bytes(sub, 4));
}

/// The twelve bytes of a span.
pub fn encode_duration_unchecked(dur: Duration) -> (buf: [u8; 12])
    ensures
        buf@ == duration_wire(dur.total_nanos()),
{
    let secs = u64_to_network_endian(dur.as_secs());
    let nanos = u32_to_network_endian(dur.subsec_nanos());
    let buf = [
        secs[0],
        secs[1],
        secs[2],
        secs[3],
        secs[4],
        secs[5],
        secs[6],
        secs[7],
        nanos[0],
        nanos[1],
        nanos[2],
        nanos[3],
    ];
    proof {
        lemma_duration_wire_len(dur.total_nanos());
        lemma_be_bytes_len(dur.total_nanos() / (NANOS_PER_SEC as nat), 8);
        assert(buf@ == secs@ + nanos@);
    }
    buf
}

/// The span that the first twelve bytes of `src` spell, with the number of
/// bytes read, or `None` where it is longer than the longest span.
pub fn decode_duration_unchecked(src: &[u8]) -> (r: Option<(usize, Duration)>)
    requires
        src@.len() >= ENCODED_LEN,
    ensures
        match r {
            Some((n, dur)) => parse_duration(src@) == Some((n as nat, dur.total_nanos())),
            None => parse_duration(src@) is None,
        },
{
    let len = src.len();
    let secs = u64_from_network_endian(src);
    let tail = slice_subrange(src, 8, ENCODED_LEN);
    let nanos = u32_from_network_endian(tail);
    proof {
        lemma_be_limits();
        lemma_be_value_bound(src@.take(8));
        assert(tail@.take(4) == tail@);
        lemma_be_value_bound(tail@);
    }
    match Duration::checked_new(secs, nanos) {
        Some(dur) => Some((ENCODED_LEN, dur)),
        None => None,
    }
}

/// A span of time travels as twelve bytes: its whole seconds in eight and
/// the nanoseconds left over in four.
impl Transformable for Duration {
    type Error = DurationTransformError;

    type Value = nat;

    open spec fn value(&self) -> nat {
        self.total_nanos()
    }

    open spec fn has_wire(value: nat) -> bool {
        value <= max_duration_nanos()
    }

    open spec fn wire(value: nat) -> Seq<u8> {
        duration_wire(value)
    }

    open spec fn parse(src: Seq<u8>) -> Option<(nat, nat)> {
        parse_duration(src)
    }

    open spec fn decode_failure(src: Seq<u8>, error: DurationTransformError) -> bool {
        error == DurationTransformError::Corrupted
    }

    open spec fn encode_failure(error: DurationTransformError) -> bool {
        error == DurationTransformError::EncodeBufferTooSmall
    }

    proof fn lemma_round_trip(value: nat, rest: Seq<u8>) {
        lemma_duration_round_trip(value, rest);
    }

    fn has_wire_form(&self) -> (b: bool) {
        proof {
            use_type_invariant(self);
        }
        true
    }

    fn encode(&self, dst: &mut [u8]) -> (r: Result<usize, DurationTransformError>) {
        proof {
            lemma_duration_wire_len(self.total_nanos());
        }
        if dst.len() < ENCODED_LEN {
            assert(Self::encode_failure(DurationTransformError::EncodeBufferTooSmall));
            return Err(DurationTransformError::EncodeBufferTooSmall);
        }
        let buf = encode_duration_unchecked(*self);
        copy_into(dst, 0, &buf);
        proof {
            assert(dst@ == duration_wire(self.total_nanos()) + old(dst)@.skip(ENCODED_LEN as int));
        }
        Ok(ENCODED_LEN)
    }

    fn encoded_len(&self) -> (n: usize) {
        proof {
            lemma_duration_wire_len(self.total_nanos());
        }
        ENCODED_LEN
    }

    fn decode(src: &[u8]) -> (r: Result<(usize, Duration), DurationTransformError>) {
        if src.len() < ENCODED_LEN {
            return Err(DurationTransformError::Corrupted);
        }
        match decode_duration_unchecked(src) {
            Some(decoded) => Ok(decoded),
            None => Err(DurationTransformError::Corrupted),
        }
    }
}

} // verus!
