//! The wire forms of the types that the library knows, and what they share:
//! integers in network byte order and frames with a length in front.
use byteorder::{ByteOrder, NetworkEndian};
use vstd::prelude::*;
use vstd::slice::slice_subrange;
use vstd::slice::slice_to_vec;

pub mod bytes;
pub mod bytes_array;
pub mod net;
pub mod numbers;
pub mod string;
// The span of time comes first: the other two are built on it.
pub mod time;
pub mod system_time;
pub mod instant;

verus! {

/// The number of bytes of the length in front of a frame.
pub const MESSAGE_SIZE_LEN: usize = 4;

/// The `width` bytes that stand for `value` in network byte order, the most
/// significant byte first.
pub open spec fn be_bytes(value: nat, width: nat) -> Seq<u8>
    decreases width,
{
    if width == 0 {
        Seq::empty()
    } else {
        be_bytes(value / 256, (width - 1) as nat).push((value % 256) as u8)
    }
}

/// The number that `bytes` spell in network byte order.
pub open spec fn be_value(bytes: Seq<u8>) -> nat
    decreases bytes.len(),
{
    if bytes.len() == 0 {
        0
    } else {
        256 * be_value(bytes.drop_last()) + bytes.last() as nat
    }
}

/// 256 to the power `width`: one more than the largest number of `width` bytes.
pub open spec fn be_limit(width: nat) -> nat
    decreases width,
{
    if width == 0 {
        1
    } else {
        256 * be_limit((width - 1) as nat)
    }
}

/// The limits of the widths that the integer types have.
pub proof fn lemma_be_limits()
    ensures
        be_limit(1) == 0x100,
        be_limit(2) == 0x1_0000,
        be_limit(4) == 0x1_0000_0000,
        be_limit(8) == 0x1_0000_0000_0000_0000,
        be_limit(16) == 0x1_0000_0000_0000_0000_0000_0000_0000_0000,
{
    reveal_with_fuel(be_limit, 17);
}

/// `be_bytes` has `width` bytes.
pub proof fn lemma_be_bytes_len(value: nat, width: nat)
    ensures
        be_bytes(value, width).len() == width,
    decreases width,
{
    if width > 0 {
        lemma_be_bytes_len(value / 256, (width - 1) as nat);
    }
}

/// The number that bytes spell is below the limit of their count.
pub proof fn lemma_be_value_bound(bytes: Seq<u8>)
    ensures
        be_value(bytes) < be_limit(bytes.len()),
    decreases bytes.len(),
{
    if bytes.len() > 0 {
        lemma_be_value_bound(bytes.drop_last());
    }
}

/// A number that fits in `width` bytes is read back from its bytes, whatever
/// follows them.
pub proof fn lemma_be_round_trip(value: nat, width: nat, rest: Seq<u8>)
    requires
        value < be_limit(width),
    ensures
        be_bytes(value, width).len() == width,
        (be_bytes(value, width) + rest).take(width as int) == be_bytes(value, width),
        be_value(be_bytes(value, width)) == value,
    decreases width,
{
    lemma_be_bytes_len(value, width);
    if width > 0 {
        let front = be_bytes(value / 256, (width - 1) as nat);
        lemma_be_round_trip(value / 256, (width - 1) as nat, rest);
        assert(be_bytes(value, width).drop_last() == front);
    }
}

/// Copies `src` into `dst` from index `at` on and leaves the rest of `dst`
/// alone.
pub(crate) fn copy_into(dst: &mut [u8], at: usize, src: &[u8])
    requires
        at + src@.len() <= old(dst)@.len(),
    ensures
        final(dst)@ == old(dst)@.take(at as int) + src@ + old(dst)@.skip(at + src@.len()),
{
    let ghost before = dst@;
    let total = dst.len();
    let mut i: usize = 0;
    while i < src.len()
        invariant
            i <= src@.len(),
            at + src@.len() <= dst@.len(),
            dst@.len() == before.len() == total,
            dst@.take(at as int) == before.take(at as int),
            dst@.subrange(at as int, at + i) == src@.take(i as int),
            dst@.skip(at + i) == before.skip(at + i),
        decreases src@.len() - i,
    {
        let ghost prev = dst@;
        dst[at + i] = src[i];
        proof {
            assert(dst@.take(at as int) == prev.take(at as int));
            assert(dst@.subrange(at as int, at + i + 1) == prev.subrange(at as int, at + i).push(
                src@[i as int],
            ));
            assert(src@.take(i + 1) == src@.take(i as int).push(src@[i as int]));
            assert(dst@.skip(at + i + 1) == prev.skip(at + i).skip(1));
            assert(before.skip(at + i + 1) == before.skip(at + i).skip(1));
        }
        i = i + 1;
    }
    proof {
        assert(src@.take(src@.len() as int) == src@);
        assert(dst@ == dst@.take(at as int) + dst@.subrange(at as int, at + i) + dst@.skip(at + i));
    }
}

/// `byteorder::NetworkEndian::write_u16`, on a buffer of two bytes: the
/// bytes of `value`, the most significant first.
#[verifier::external_body]
pub(crate) fn u16_to_network_endian(value: u16) -> (out: [u8; 2])
    ensures
        out@ == be_bytes(value as nat, 2),
{
    let mut buf = [0u8; 2];
    NetworkEndian::write_u16(&mut buf, value);
    buf
}

/// `byteorder::NetworkEndian::read_u16`: the number that the first two
/// bytes of `src` spell, the most significant first. It panics on a shorter
/// source.
#[verifier::external_body]
pub(crate) fn u16_from_network_endian(src: &[u8]) -> (value: u16)
    requires
        src@.len() >= 2,
    ensures
        value == be_value(src@.take(2)),
{
    NetworkEndian::read_u16(src)
}

/// `byteorder::NetworkEndian::write_i16`, on a buffer of two bytes: the
/// bytes of `value` in two's complement, the most significant first.
#[verifier::external_body]
pub(crate) fn i16_to_network_endian(value: i16) -> (out: [u8; 2])
    ensures
        out@ == be_bytes((value as u16) as nat, 2),
{
    let mut buf = [0u8; 2];
    NetworkEndian::write_i16(&mut buf, value);
    buf
}

/// `byteorder::NetworkEndian::read_i16`: the number that the first two
/// bytes of `src` spell in two's complement, the most significant first. It
/// panics on a shorter source.
#[verifier::external_body]
pub(crate) fn i16_from_network_endian(src: &[u8]) -> (value: i16)
    requires
        src@.len() >= 2,
    ensures
        value == be_value(src@.take(2)) as i16,
{
    NetworkEndian::read_i16(src)
}

/// `byteorder::NetworkEndian::write_u32`, on a buffer of four bytes: the
/// bytes of `value`, the most significant first.
#[verifier::external_body]
pub(crate) fn u32_to_network_endian(value: u32) -> (out: [u8; 4])
    ensures
        out@ == be_bytes(value as nat, 4),
{
    let mut buf = [0u8; 4];
    NetworkEndian::write_u32(&mut buf, value);
    buf
}

/// `byteorder::NetworkEndian::read_u32`: the number that the first four
/// bytes of `src` spell, the most significant first. It panics on a shorter
/// source.
#[verifier::external_body]
pub(crate) fn u32_from_network_endian(src: &[u8]) -> (value: u32)
    requires
        src@.len() >= 4,
    ensures
        value == be_value(src@.take(4)),
{
    NetworkEndian::read_u32(src)
}

/// `byteorder::NetworkEndian::write_i32`, on a buffer of four bytes: the
/// bytes of `value` in two's complement, the most significant first.
#[verifier::external_body]
pub(crate) fn i32_to_network_endian(value: i32) -> (out: [u8; 4])
    ensures
        out@ == be_bytes((value as u32) as nat, 4),
{
    let mut buf = [0u8; 4];
    NetworkEndian::write_i32(&mut buf, value);
    buf
}

/// `byteorder::NetworkEndian::read_i32`: the number that the first four
/// bytes of `src` spell in two's complement, the most significant first. It
/// panics on a shorter source.
#[verifier::external_body]
pub(crate) fn i32_from_network_endian(src: &[u8]) -> (value: i32)
    requires
        src@.len() >= 4,
    ensures
        value == be_value(src@.take(4)) as i32,
{
    NetworkEndian::read_i32(src)
}

/// `byteorder::NetworkEndian::write_u64`, on a buffer of eight bytes: the
/// bytes of `value`, the most significant first.
#[verifier::external_body]
pub(crate) fn u64_to_network_endian(value: u64) -> (out: [u8; 8])
    ensures
        out@ == be_bytes(value as nat, 8),
{
    let mut buf = [0u8; 8];
    NetworkEndian::write_u64(&mut buf, value);
    buf
}

/// `byteorder::NetworkEndian::read_u64`: the number that the first eight
/// bytes of `src` spell, the most significant first. It panics on a shorter
/// source.
#[verifier::external_body]
pub(crate) fn u64_from_network_endian(src: &[u8]) -> (value: u64)
    requires
        src@.len() >= 8,
    ensures
        value == be_value(src@.take(8)),
{
    NetworkEndian::read_u64(src)
}

/// `byteorder::NetworkEndian::write_i64`, on a buffer of eight bytes: the
/// bytes of `value` in two's complement, the most significant first.
#[verifier::external_body]
pub(crate) fn i64_to_network_endian(value: i64) -> (out: [u8; 8])
    ensures
        out@ == be_bytes((value as u64) as nat, 8),
{
    let mut buf = [0u8; 8];
    NetworkEndian::write_i64(&mut buf, value);
    buf
}

/// `byteorder::NetworkEndian::read_i64`: the number that the first eight
/// bytes of `src` spell in two's complement, the most significant first. It
/// panics on a shorter source.
#[verifier::external_body]
pub(crate) fn i64_from_network_endian(src: &[u8]) -> (value: i64)
    requires
        src@.len() >= 8,
    ensures
        value == be_value(src@.take(8)) as i64,
{
    NetworkEndian::read_i64(src)
}

/// `byteorder::NetworkEndian::write_u128`, on a buffer of sixteen bytes: the
/// bytes of `value`, the most significant first.
#[verifier::external_body]
pub(crate) fn u128_to_network_endian(value: u128) -> (out: [u8; 16])
    ensures
        out@ == be_bytes(value as nat, 16),
{
    let mut buf = [0u8; 16];
    NetworkEndian::write_u128(&mut buf, value);
    buf
}

/// `byteorder::NetworkEndian::read_u128`: the number that the first sixteen
/// bytes of `src` spell, the most significant first. It panics on a shorter
/// source.
#[verifier::external_body]
pub(crate) fn u128_from_network_endian(src: &[u8]) -> (value: u128)
    requires
        src@.len() >= 16,
    ensures
        value == be_value(src@.take(16)),
{
    NetworkEndian::read_u128(src)
}

/// `byteorder::NetworkEndian::write_i128`, on a buffer of sixteen bytes: the
/// bytes of `value` in two's complement, the most significant first.
#[verifier::external_body]
pub(crate) fn i128_to_network_endian(value: i128) -> (out: [u8; 16])
    ensures
        out@ == be_bytes((value as u128) as nat, 16),
{
    let mut buf = [0u8; 16];
    NetworkEndian::write_i128(&mut buf, value);
    buf
}

/// `byteorder::NetworkEndian::read_i128`: the number that the first sixteen
/// bytes of `src` spell in two's complement, the most significant first. It
/// panics on a shorter source.
#[verifier::external_body]
pub(crate) fn i128_from_network_endian(src: &[u8]) -> (value: i128)
    requires
        src@.len() >= 16,
    ensures
        value == be_value(src@.take(16)) as i128,
{
    NetworkEndian::read_i128(src)
}

/// The error type for errors that get returned when encoding or decoding fails.
#[derive(Debug, Clone, Copy, PartialEq, Eq, Structural)]
pub enum BytesTransformError {
    /// Returned when the buffer is too small to encode.
    EncodeBufferTooSmall,
    /// Returned when the bytes are corrupted.
    NotEnoughBytes,
}

/// The frame of a payload: its length in four bytes, the most significant
/// first, and then the payload.
pub open spec fn frame(payload: Seq<u8>) -> Seq<u8> {
    be_bytes(payload.len(), 4) + payload
}

/// Whether a payload can be framed: its length fits the four bytes in front
/// of it, and the length of the whole frame fits a `usize`.
pub open spec fn frame_fits(payload: Seq<u8>) -> bool {
    payload.len() <= u32::MAX && MESSAGE_SIZE_LEN + payload.len() <= usize::MAX
}

/// The frame at the front of a source: the length of the frame and its
/// payload, or `None` where the source is cut off inside the length or inside
/// the payload.
pub open spec fn parse_frame(src: Seq<u8>) -> Option<(nat, Seq<u8>)> {
    if src.len() < MESSAGE_SIZE_LEN {
        None
    } else {
        let len = be_value(src.take(4));
        if len > src.len() - MESSAGE_SIZE_LEN {
            None
        } else {
            Some((MESSAGE_SIZE_LEN as nat + len, src.subrange(4, 4 + len as int)))
        }
    }
}

/// A frame has four bytes more than its payload.
pub proof fn lemma_frame_len(payload: Seq<u8>)
    ensures
        frame(payload).len() == MESSAGE_SIZE_LEN + payload.len(),
{
    lemma_be_bytes_len(payload.len(), 4);
}

/// The frame of a payload, followed by anything, is read back as the length
/// of the frame and the payload.
pub proof fn lemma_frame_round_trip(payload: Seq<u8>, rest: Seq<u8>)
    requires
        payload.len() <= u32::MAX,
    ensures
        parse_frame(frame(payload) + rest) == Some((frame(payload).len(), payload)),
{
    lemma_be_limits();
    lemma_be_round_trip(payload.len(), 4, payload + rest);
    let src = frame(payload) + rest;
    assert(src == be_bytes(payload.len(), 4) + (payload + rest));
    assert(src.subrange(4, 4 + payload.len() as int) == payload);
}

/// The length of the frame of `src`.
pub fn encoded_bytes_len(src: &[u8]) -> (n: usize)
    requires
        frame_fits(src@),
    ensures
        n == frame(src@).len(),
{
    proof {
        lemma_frame_len(src@);
    }
    MESSAGE_SIZE_LEN + src.len()
}

/// Writes the frame of `src` to the front of `dst` and returns its length.
/// A buffer that cannot hold the frame is refused and left untouched.
pub fn encode_bytes(src: &[u8], dst: &mut [u8]) -> (r: Result<usize, ()>)
    requires
        frame_fits(src@),
    ensures
        final(dst)@.len() == old(dst)@.len(),
        match r {
            Ok(n) => {
                &&& n == frame(src@).len()
                &&& n <= old(dst)@.len()
                &&& final(dst)@ == frame(src@) + old(dst)@.skip(n as int)
            },
            Err(_) => old(dst)@.len() < frame(src@).len() && final(dst)@ == old(dst)@,
        },
{
    let encoded_len = encoded_bytes_len(src);
    if dst.len() < encoded_len {
        return Err(());
    }
    let ghost before = dst@;
    let src_len = src.len();
    let header = u32_to_network_endian(src_len as u32);
    copy_into(dst, 0, &header);
    copy_into(dst, MESSAGE_SIZE_LEN, src);
    proof {
        lemma_be_bytes_len(src@.len(), 4);
        assert(dst@ == frame(src@) + before.skip(encoded_len as int));
    }
    Ok(MESSAGE_SIZE_LEN + src_len)
}

/// Reads the frame at the front of `src`: the length of the frame and a copy
/// of its payload. A source that is cut off inside the frame is refused.
pub fn decode_bytes(src: &[u8]) -> (r: Result<(usize, Vec<u8>), ()>)
    ensures
        match r {
            Ok((n, payload)) => parse_frame(src@) == Some((n as nat, payload@)),
            Err(_) => parse_frame(src@) is None,
        },
{
    let len = src.len();
    if len < MESSAGE_SIZE_LEN {
        return Err(());
    }
    let data_len = u32_from_network_endian(src) as usize;
    if data_len > len - MESSAGE_SIZE_LEN {
        return Err(());
    }
    let total_len = MESSAGE_SIZE_LEN + data_len;
    let payload = slice_to_vec(slice_subrange(src, MESSAGE_SIZE_LEN, total_len));
    Ok((total_len, payload))
}

} // verus!
