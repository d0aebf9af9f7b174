use transformable::impls::instant::decode_instant_from_duration;
use transformable::impls::instant::encode_instant_to_duration;
use transformable::impls::instant::init;
use transformable::impls::time::decode_duration_unchecked;
use transformable::impls::time::encode_duration_unchecked;
use transformable::ClockAnchor;
use transformable::Duration;
use transformable::DurationTransformError;
use transformable::Instant;
use transformable::InstantTransformError;
use transformable::SystemTime;
use transformable::SystemTimeTransformError;
use transformable::Transformable;

#[test]
fn test_duration_transformable() {
    let val = Duration::new(10, 1080);
    assert!(val.has_wire_form());
    assert_eq!(val.encoded_len(), 12);
    let mut buf = [0xEEu8; 14];
    assert_eq!(val.encode(&mut buf), Ok(12));
    assert_eq!(
        buf,
        [0, 0, 0, 0, 0, 0, 0, 10, 0, 0, 0x04, 0x38, 0xEE, 0xEE]
    );
    assert_eq!(Duration::decode(&buf), Ok((12, val)));
    assert_eq!(encode_duration_unchecked(val), buf[..12]);
    assert_eq!(decode_duration_unchecked(&buf), Some((12, val)));
}

#[test]
fn duration_carries_whole_seconds_over() {
    let val = Duration::new(1, 2_500_000_000);
    assert_eq!(val.as_secs(), 3);
    assert_eq!(val.subsec_nanos(), 500_000_000);
    assert_eq!(val.as_nanos(), 3_500_000_000);
    assert_eq!(Duration::checked_new(1, 2_500_000_000), Some(val));
    assert_eq!(Duration::checked_new(u64::MAX, 999_999_999).map(|d| d.as_secs()), Some(u64::MAX));
    assert_eq!(Duration::checked_new(u64::MAX, 1_000_000_000), None);
    assert_eq!(Duration::checked_from_nanos(3_500_000_000), Some(val));
    assert_eq!(
        Duration::checked_from_nanos(u64::MAX as u128 * 1_000_000_000 + 1_000_000_000),
        None
    );
}

#[test]
fn duration_of_a_source_that_is_too_short() {
    assert_eq!(
        Duration::decode(&[0; 11]),
        Err(DurationTransformError::Corrupted)
    );
    assert_eq!(
        SystemTime::decode(&[0; 11]),
        Err(SystemTimeTransformError::Corrupted)
    );
}

#[test]
fn duration_of_nanoseconds_that_make_whole_seconds() {
    let src = [0, 0, 0, 0, 0, 0, 0, 1, 0x77, 0x35, 0x94, 0x00];
    assert_eq!(Duration::decode(&src), Ok((12, Duration::new(3, 0))));
    let src = [0xFF, 0xFF, 0xFF, 0xFF, 0xFF, 0xFF, 0xFF, 0xFF, 0x3B, 0x9A, 0xCA, 0x00];
    assert_eq!(Duration::decode(&src), Err(DurationTransformError::Corrupted));
    let src = [0xFF, 0xFF, 0xFF, 0xFF, 0xFF, 0xFF, 0xFF, 0xFF, 0x3B, 0x9A, 0xC9, 0xFF];
    assert_eq!(
        Duration::decode(&src),
        Ok((12, Duration::new(u64::MAX, 999_999_999)))
    );
}

#[test]
fn duration_into_a_short_buffer_writes_nothing() {
    let val = Duration::new(10, 1080);
    let mut short = [0xEEu8; 11];
    assert_eq!(
        val.encode(&mut short),
        Err(DurationTransformError::EncodeBufferTooSmall)
    );
    assert_eq!(short, [0xEE; 11]);
}

#[test]
fn test_systemtime_transformable() {
    let val = SystemTime::new(Duration::new(1_700_000_000, 123_456_789));
    assert!(val.has_wire_form());
    assert_eq!(val.encoded_len(), 12);
    let mut buf = [0u8; 12];
    assert_eq!(val.encode(&mut buf), Ok(12));
    assert_eq!(buf, [0, 0, 0, 0, 0x65, 0x53, 0xF1, 0x00, 0x07, 0x5B, 0xCD, 0x15]);
    assert_eq!(SystemTime::decode(&buf), Ok((12, val)));
    assert_eq!(val.duration_since_epoch(), Duration::new(1_700_000_000, 123_456_789));
    let mut short = [0xEEu8; 11];
    assert_eq!(
        val.encode(&mut short),
        Err(SystemTimeTransformError::EncodeBufferTooSmall)
    );
    assert_eq!(short, [0xEE; 11]);
}

#[test]
fn system_time_before_the_epoch_is_refused() {
    let offset = Duration::new(5, 0);
    assert_eq!(
        SystemTime::from_epoch_offset(false, offset),
        Ok(SystemTime::new(offset))
    );
    assert_eq!(
        SystemTime::from_epoch_offset(true, offset),
        Err(SystemTimeTransformError::InvalidSystemTime(offset))
    );
    assert_eq!(
        SystemTime::from_epoch_offset(true, Duration::new(0, 0)),
        Ok(SystemTime::new(Duration::new(0, 0)))
    );
}

fn anchor() -> ClockAnchor {
    ClockAnchor {
        wall: SystemTime::new(Duration::new(1_700_000_000, 500)),
        monotonic: Instant { nanos: 1_000_000 },
    }
}

#[test]
fn test_instant_transformable() {
    let anchor = anchor();
    let val = Instant { nanos: 11_000_000 };
    assert_eq!(val.encoded_len(), 12);
    let mut buf = [0u8; 12];
    assert_eq!(val.encode(&anchor, &mut buf), Ok(12));
    assert_eq!(
        Duration::decode(&buf),
        Ok((12, Duration::new(1_700_000_000, 10_000_500)))
    );
    assert_eq!(Instant::decode(&anchor, &buf), Ok((12, val)));
}

#[test]
fn instant_before_the_anchor_is_earlier_by_the_wall_clock() {
    let anchor = anchor();
    let val = Instant { nanos: -2_000_000_000 };
    assert_eq!(
        encode_instant_to_duration(&anchor, val),
        Ok(Duration::new(1_699_999_997, 999_000_500))
    );
    assert_eq!(
        decode_instant_from_duration(&anchor, Duration::new(1_699_999_997, 999_000_500)),
        Ok(val)
    );
    assert_eq!(
        encode_instant_to_duration(&anchor, anchor.monotonic),
        Ok(anchor.wall.duration_since_epoch())
    );
}

#[test]
fn instant_without_a_time_by_the_wall_clock_is_refused() {
    let anchor = ClockAnchor {
        wall: SystemTime::new(Duration::new(1, 0)),
        monotonic: Instant { nanos: 0 },
    };
    let too_early = Instant { nanos: -1_000_000_001 };
    assert_eq!(
        encode_instant_to_duration(&anchor, too_early),
        Err(InstantTransformError::InvalidSystemTime)
    );
    let mut buf = [0xEEu8; 12];
    assert_eq!(
        too_early.encode(&anchor, &mut buf),
        Err(InstantTransformError::InvalidSystemTime)
    );
    assert_eq!(buf, [0xEE; 12]);
    assert_eq!(
        encode_instant_to_duration(&anchor, Instant { nanos: -1_000_000_000 }),
        Ok(Duration::new(0, 0))
    );
    assert_eq!(
        encode_instant_to_duration(&anchor, Instant { nanos: i128::MIN }),
        Err(InstantTransformError::InvalidSystemTime)
    );
    assert_eq!(
        encode_instant_to_duration(&anchor, Instant { nanos: i128::MAX }),
        Err(InstantTransformError::InvalidSystemTime)
    );
    let late = ClockAnchor {
        wall: SystemTime::new(Duration::new(0, 0)),
        monotonic: Instant { nanos: i128::MAX },
    };
    assert_eq!(
        decode_instant_from_duration(&late, Duration::new(0, 1)),
        Err(InstantTransformError::InvalidSystemTime)
    );
    assert_eq!(
        decode_instant_from_duration(&late, Duration::new(0, 0)),
        Ok(Instant { nanos: i128::MAX })
    );
}

#[test]
fn instant_of_a_short_buffer_or_source() {
    let anchor = anchor();
    let val = Instant { nanos: 5 };
    let mut short = [0xEEu8; 11];
    assert_eq!(
        val.encode(&anchor, &mut short),
        Err(InstantTransformError::EncodeBufferTooSmall)
    );
    assert_eq!(short, [0xEE; 11]);
    assert_eq!(
        Instant::decode(&anchor, &short),
        Err(InstantTransformError::NotEnoughBytes)
    );
    let overflowing = [0xFF, 0xFF, 0xFF, 0xFF, 0xFF, 0xFF, 0xFF, 0xFF, 0x3B, 0x9A, 0xCA, 0x00];
    assert_eq!(
        Instant::decode(&anchor, &overflowing),
        Err(InstantTransformError::InvalidSystemTime)
    );
}

#[test]
fn anchor_is_set_up_once() {
    let mut slot = None;
    let first = init(
        &mut slot,
        SystemTime::new(Duration::new(100, 0)),
        Instant { nanos: 7 },
    );
    assert_eq!(first.wall, SystemTime::new(Duration::new(100, 0)));
    assert_eq!(first.monotonic, Instant { nanos: 7 });
    assert_eq!(slot, Some(first));
    let second = init(
        &mut slot,
        SystemTime::new(Duration::new(200, 0)),
        Instant { nanos: 9 },
    );
    assert_eq!(second, first);
    assert_eq!(slot, Some(first));
}
