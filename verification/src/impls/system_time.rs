//! Points in time by the wall clock, as the span since the Unix epoch.
use crate::impls::time::duration_wire;
use crate::impls::time::lemma_duration_round_trip;
use crate::impls::time::lemma_duration_wire_len;
use crate::impls::time::max_duration_nanos;
use crate::impls::time::parse_duration;
use crate::impls::time::Duration;
use crate::impls::time::ENCODED_LEN;
use crate::Transformable;
use vstd::prelude::*;

verus! {

/// Error returned by [`SystemTime`] when transforming.
#[derive(Debug, Clone, Copy, PartialEq, Eq)]
pub enum SystemTimeTransformError {
    /// The buffer is too small to encode the value.
    EncodeBufferTooSmall,
    /// Corrupted binary data.
    Corrupted,
    /// Invalid system time: it lies before the epoch, by the span given.
    InvalidSystemTime(Duration),
}

/// A point in time at or after the Unix epoch.
#[derive(Debug, Clone, Copy, PartialEq, Eq, Hash)]
pub struct SystemTime {
    /// The span from the epoch to the point in time.
    pub since_epoch: Duration,
}

impl SystemTime {
    /// The point in time that lies `since_epoch` after the epoch.
    pub fn new(since_epoch: Duration) -> (r: Self)
        ensures
            r.since_epoch == since_epoch,
    {
        SystemTime { since_epoch }
    }

    /// The point in time that lies `offset` before the epoch or after it.
    /// Time before the epoch has no wire form and is refused, with the span
    /// by which it comes too early.
    pub fn from_epoch_offset(before: bool, offset: Duration) -> (r: Result<
        Self,
        SystemTimeTransformError,
    >)
        ensures
            match r {
                Ok(t) => (!before || offset.total_nanos() == 0) && t.since_epoch == offset,
                Err(e) => before && offset.total_nanos() > 0 && e
                    == SystemTimeTransformError::InvalidSystemTime(offset),
            },
    {
        if before && offset.as_nanos() > 0 {
            Err(SystemTimeTransformError::InvalidSystemTime(offset))
        } else {
            Ok(SystemTime { since_epoch: offset })
        }
    }

    /// The span from the epoch to the point in time.
    pub fn duration_since_epoch(&self) -> (r: Duration)
        ensures
            r == self.since_epoch,
    {
        self.since_epoch
    }
}

/// A point in time travels as the span from the epoch to it.
impl Transformable for SystemTime {
    type Error = SystemTimeTransformError;

    type Value = nat;

    open spec fn value(&self) -> nat {
        self.since_epoch.total_nanos()
    }

    open spec fn has_wire(value: nat) -> bool {
        value <= max_duration_nanos()
    }

    open spec fn wire(value: nat) -> Seq<u8> {
        duration_wire(value)
    }

    open spec fn parse(src: Seq<u8>) -> Option<(nat, nat)> {
        parse_duration(src)
    }

    open spec fn decode_failure(src: Seq<u8>, error: SystemTimeTransformError) -> bool {
        error == SystemTimeTransformError::Corrupted
    }

    open spec fn encode_failure(error: SystemTimeTransformError) -> bool {
        error == SystemTimeTransformError::EncodeBufferTooSmall
    }

    proof fn lemma_round_trip(value: nat, rest: Seq<u8>) {
        lemma_duration_round_trip(value, rest);
    }

    fn has_wire_form(&self) -> (b: bool) {
        self.since_epoch.has_wire_form()
    }

    fn encode(&self, dst: &mut [u8]) -> (r: Result<usize, SystemTimeTransformError>) {
        match self.since_epoch.encode(dst) {
            Ok(n) => Ok(n),
            Err(_) => {
                assert(Self::encode_failure(SystemTimeTransformError::EncodeBufferTooSmall));
                Err(SystemTimeTransformError::EncodeBufferTooSmall)
            },
        }
    }

    fn encoded_len(&self) -> (n: usize) {
        proof {
            lemma_duration_wire_len(self.since_epoch.total_nanos());
        }
        ENCODED_LEN
    }

    fn decode(src: &[u8]) -> (r: Result<(usize, SystemTime), SystemTimeTransformError>) {
        match Duration::decode(src) {
            Ok((readed, dur)) => Ok((readed, SystemTime { since_epoch: dur })),
            Err(_) => Err(SystemTimeTransformError::Corrupted),
        }
    }
}

} // verus!
