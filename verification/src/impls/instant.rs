//! Readings of the monotonic clock, which mean nothing outside the process
//! that took them. On the wire such a reading travels as the time of the
//! wall clock at which it was taken, worked out from an anchor: one reading
//! of each clock, taken together.
use crate::impls::copy_into;
use crate::impls::system_time::SystemTime;
use crate::impls::time::decode_duration_unchecked;
use crate::impls::time::duration_wire;
use crate::impls::time::encode_duration_unchecked;
use crate::impls::time::lemma_duration_round_trip;
use crate::impls::time::lemma_duration_wire_len;
use crate::impls::time::max_duration_nanos;
use crate::impls::time::parse_duration;
use crate::impls::time::Duration;
use crate::impls::time::ENCODED_LEN;
use vstd::prelude::*;

verus! {

/// Error returned by [`Instant`] when transforming.
#[derive(Debug, Clone, Copy, PartialEq, Eq, Structural)]
pub enum InstantTransformError {
    /// The buffer is too small to encode the value.
    EncodeBufferTooSmall,
    /// NotEnoughBytes binary data.
    NotEnoughBytes,
    /// Invalid system time.
    InvalidSystemTime,
}

/// A reading of the monotonic clock: nanoseconds from an origin that the
/// process has chosen, before it or after it.
#[derive(Debug, Clone, Copy, PartialEq, Eq, Hash, Structural)]
pub struct Instant {
    /// The nanoseconds from the origin to the reading.
    pub nanos: i128,
}

/// One reading of the wall clock and one of the monotonic clock, taken
/// together: what ties the two clocks to each other.
#[derive(Debug, Clone, Copy, PartialEq, Eq)]
pub struct ClockAnchor {
    /// The reading of the wall clock.
    pub wall: SystemTime,
    /// The reading of the monotonic clock.
    pub monotonic: Instant,
}

/// The time of the wall clock at which `instant` was taken, in nanoseconds
/// since the epoch: as far from the anchor's wall clock reading as `instant`
/// is from its monotonic one. It is negative for a time before the epoch.
pub open spec fn portable_nanos(anchor: ClockAnchor, instant: Instant) -> int {
    anchor.wall.since_epoch.total_nanos() + (instant.nanos - anchor.monotonic.nanos)
}

/// The reading of the monotonic clock at the time that lies `since_epoch`
/// nanoseconds after the epoch: as far from the anchor's monotonic reading
/// as that time is from its wall clock one.
pub open spec fn local_nanos(anchor: ClockAnchor, since_epoch: nat) -> int {
    anchor.monotonic.nanos + (since_epoch - anchor.wall.since_epoch.total_nanos())
}

/// The wire form of a reading under an anchor: that of its time by the wall
/// clock.
pub open spec fn instant_wire(anchor: ClockAnchor, instant: Instant) -> Seq<u8> {
    duration_wire(portable_nanos(anchor, instant) as nat)
}

/// Whether a reading has a wire form under an anchor: its time by the wall
/// clock is not before the epoch and not beyond the longest span after it.
pub open spec fn instant_has_wire(anchor: ClockAnchor, instant: Instant) -> bool {
    0 <= portable_nanos(anchor, instant) <= max_duration_nanos()
}

/// The reading that the front of a source decodes to under an anchor, with
/// the number of bytes it takes, or `None` where the source holds no time or
/// the reading is out of the range of the clock.
pub open spec fn parse_instant(anchor: ClockAnchor, src: Seq<u8>) -> Option<(nat, Instant)> {
    match parse_duration(src) {
        Some((n, since_epoch)) => {
            let nanos = local_nanos(anchor, since_epoch);
            if i128::MIN <= nanos <= i128::MAX {
                Some((n, Instant { nanos: nanos as i128 }))
            } else {
                None
            }
        },
        None => None,
    }
}

/// Under one anchor a reading that is written is read back unchanged: the
/// bytes of a reading that has a wire form, followed by anything, decode to
/// the number of those bytes and to the reading.
pub proof fn lemma_instant_round_trip(anchor: ClockAnchor, instant: Instant, rest: Seq<u8>)
    requires
        instant_has_wire(anchor, instant),
    ensures
        local_nanos(anchor, portable_nanos(anchor, instant) as nat) == instant.nanos,
        parse_instant(anchor, instant_wire(anchor, instant) + rest) == Some(
            (instant_wire(anchor, instant).len(), instant),
        ),
{
    lemma_duration_round_trip(portable_nanos(anchor, instant) as nat, rest);
}

/// Sets the anchor of a process up, once: the first readings handed in are
/// kept in `slot` and returned, then and at every later call, whatever
/// readings those calls bring.
pub fn init(slot: &mut Option<ClockAnchor>, wall_now: SystemTime, now: Instant) -> (anchor:
    ClockAnchor)
    ensures
        *final(slot) == Some(anchor),
        match *old(slot) {
            Some(first) => anchor == first,
            None => anchor == (ClockAnchor { wall: wall_now, monotonic: now }),
        },
{
    match *slot {
        Some(first) => first,
        None => {
            let anchor = ClockAnchor { wall: wall_now, monotonic: now };
            *slot = Some(anchor);
            anchor
        },
    }
}

/// The time of the wall clock at which `instant` was taken, as the span
/// since the epoch. A time before the epoch, or one too far after it for a
/// span, is refused.
pub fn encode_instant_to_duration(anchor: &ClockAnchor, instant: Instant) -> (r: Result<
    Duration,
    InstantTransformError,
>)
    ensures
        r is Ok <==> instant_has_wire(*anchor, instant),
        r matches Ok(dur) ==> dur.total_nanos() == portable_nanos(*anchor, instant),
        r matches Err(e) ==> e == InstantTransformError::InvalidSystemTime,
{
    let wall: i128 = anchor.wall.since_epoch.as_nanos() as i128;
    match instant.nanos.checked_sub(anchor.monotonic.nanos) {
        None => Err(InstantTransformError::InvalidSystemTime),
        Some(offset) => match wall.checked_add(offset) {
            None => Err(InstantTransformError::InvalidSystemTime),
            Some(since_epoch) => {
                if since_epoch < 0 {
                    Err(InstantTransformError::InvalidSystemTime)
                } else {
                    match Duration::checked_from_nanos(since_epoch as u128) {
                        Some(dur) => Ok(dur),
                        None => Err(InstantTransformError::InvalidSystemTime),
                    }
                }
            },
        },
    }
}

/// The reading of the monotonic clock at the time that lies `duration`
/// after the epoch. One that is out of the range of the clock is refused.
pub fn decode_instant_from_duration(anchor: &ClockAnchor, duration: Duration) -> (r: Result<
    Instant,
    InstantTransformError,
>)
    ensures
        r is Ok <==> i128::MIN <= local_nanos(*anchor, duration.total_nanos()) <= i128::MAX,
        r matches Ok(instant) ==> instant.nanos == local_nanos(*anchor, duration.total_nanos()),
        r matches Err(e) ==> e == InstantTransformError::InvalidSystemTime,
{
    let since_epoch: i128 = duration.as_nanos() as i128;
    let wall: i128 = anchor.wall.since_epoch.as_nanos() as i128;
    let offset: i128 = since_epoch - wall;
    match anchor.monotonic.nanos.checked_add(offset) {
        Some(nanos) => Ok(Instant { nanos }),
        None => Err(InstantTransformError::InvalidSystemTime),
    }
}

impl Instant {
    /// Encodes the reading into the given buffer, as its time by the wall
    /// clock under `anchor`.
    ///
    /// Returns the number of bytes written to the buffer. The bytes go to the
    /// front of the buffer and the rest of it stays as it was. A buffer that
    /// cannot hold them is refused, and in a buffer that can a reading
    /// without a wire form is; either way the buffer is left untouched.
    pub fn encode(&self, anchor: &ClockAnchor, dst: &mut [u8]) -> (r: Result<
        usize,
        InstantTransformError,
    >)
        ensures
            final(dst)@.len() == old(dst)@.len(),
            r is Ok <==> ENCODED_LEN <= old(dst)@.len() && instant_has_wire(*anchor, *self),
            r matches Ok(n) ==> n == ENCODED_LEN && final(dst)@ == instant_wire(*anchor, *self)
                + old(dst)@.skip(n as int),
            r matches Err(e) ==> final(dst)@ == old(dst)@ && e == if old(dst)@.len()
                < ENCODED_LEN {
                InstantTransformError::EncodeBufferTooSmall
            } else {
                InstantTransformError::InvalidSystemTime
            },
    {
        if dst.len() < self.encoded_len() {
            return Err(InstantTransformError::EncodeBufferTooSmall);
        }
        match encode_instant_to_duration(anchor, *self) {
            Ok(dur) => {
                let buf = encode_duration_unchecked(dur);
                copy_into(dst, 0, &buf);
                proof {
                    lemma_duration_wire_len(dur.total_nanos());
                    assert(dst@ == instant_wire(*anchor, *self) + old(dst)@.skip(
                        ENCODED_LEN as int,
                    ));
                }
                Ok(ENCODED_LEN)
            },
            Err(e) => Err(e),
        }
    }

    /// Returns the encoded length of the value.
    pub fn encoded_len(&self) -> (n: usize)
        ensures
            n == ENCODED_LEN,
    {
        ENCODED_LEN
    }

    /// Decodes the reading at the front of the given buffer, under `anchor`.
    ///
    /// Returns the number of bytes read from the buffer and the reading. A
    /// buffer of less than twelve bytes is short of bytes; twelve bytes that
    /// spell no span, or a time out of the range of the clock, are an invalid
    /// time.
    pub fn decode(anchor: &ClockAnchor, src: &[u8]) -> (r: Result<
        (usize, Instant),
        InstantTransformError,
    >)
        ensures
            match r {
                Ok((n, instant)) => parse_instant(*anchor, src@) == Some((n as nat, instant)),
                Err(e) => parse_instant(*anchor, src@) is None && e == if src@.len()
                    < ENCODED_LEN {
                    InstantTransformError::NotEnoughBytes
                } else {
                    InstantTransformError::InvalidSystemTime
                },
            },
    {
        if src.len() < ENCODED_LEN {
            return Err(InstantTransformError::NotEnoughBytes);
        }
        match decode_duration_unchecked(src) {
            Some((readed, dur)) => match decode_instant_from_duration(anchor, dur) {
                Ok(instant) => Ok((readed, instant)),
                Err(e) => Err(e),
            },
            None => Err(InstantTransformError::InvalidSystemTime),
        }
    }
}

} // verus!
