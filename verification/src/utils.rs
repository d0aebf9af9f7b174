//! Variable-length integers: seven value bits to a byte, least significant
//! group first, the high bit of a byte telling that another byte follows.
use vstd::prelude::*;

verus! {

/// The most bytes that a 64-bit value takes.
pub const MAX_VARINT_LEN: usize = 10;

/// The bytes that stand for `value`: one byte per group of seven bits, the
/// least significant group first, every byte but the last with its high bit
/// set.
pub open spec fn varint_bytes(value: nat) -> Seq<u8>
    decreases value,
{
    if value < 128 {
        seq![value as u8]
    } else {
        seq![(value % 128 + 128) as u8] + varint_bytes(value / 128)
    }
}

/// The number of bytes of `varint_bytes(value)`, by the range in which a
/// 64-bit value lies.
pub open spec fn varint_len(value: nat) -> nat {
    if value < 0x80 {
        1
    } else if value < 0x4000 {
        2
    } else if value < 0x20_0000 {
        3
    } else if value < 0x1000_0000 {
        4
    } else if value < 0x8_0000_0000 {
        5
    } else if value < 0x400_0000_0000 {
        6
    } else if value < 0x2_0000_0000_0000 {
        7
    } else if value < 0x100_0000_0000_0000 {
        8
    } else if value < 0x8000_0000_0000_0000 {
        9
    } else {
        10
    }
}

/// `varint_bytes` has one byte for every seven bits of the value.
pub proof fn lemma_varint_len(value: nat)
    requires
        value <= u64::MAX,
    ensures
        varint_bytes(value).len() == varint_len(value),
        1 <= varint_len(value) <= MAX_VARINT_LEN,
    decreases value,
{
    if value >= 128 {
        lemma_varint_len(value / 128);
    }
}

/// Returns the encoded length of the value in LEB128 variable length format.
/// The returned value will be between 1 and 10, inclusive.
pub fn encoded_len_varint(value: u64) -> (n: usize)
    ensures
        n == varint_bytes(value as nat).len(),
        1 <= n <= MAX_VARINT_LEN,
{
    let low_set: u64 = value | 1;
    let zeros: u32 = low_set.leading_zeros();
    proof {
        lemma_varint_len(value as nat);
        vstd::std_specs::bits::axiom_u64_leading_zeros(low_set);
        assert(low_set != 0) by (bit_vector)
            requires
                low_set == value | 1,
        ;
        let top: u64 = (63 - zeros) as u64;
        let above: u64 = (64 - zeros) as u64;
        assert(zeros ^ 63 <= 63 && ((zeros ^ 63) * 9 + 73) / 64 == varint_len(value as nat))
            by (bit_vector)
            requires
                zeros <= 63,
                top == 63 - zeros,
                above == 64 - zeros,
                low_set == value | 1,
                (low_set >> top) & 1 != 0,
                low_set >> above == 0,
        ;
    }
    (((zeros ^ 63) * 9 + 73) / 64) as usize
}

/// Encoding varint error.
#[derive(Debug, Clone, Copy, PartialEq, Eq, Hash, Structural)]
pub enum EncodeVarintError {
    /// The buffer did not have enough space to encode the value.
    BufferTooSmall,
}

/// Encodes an integer value into LEB128 variable length format, and writes it to the buffer.
///
/// The bytes go to the front of the buffer and the rest of it stays as it
/// was. A buffer that cannot hold them all is left untouched.
pub fn encode_varint(x: u64, buf: &mut [u8]) -> (r: Result<usize, EncodeVarintError>)
    ensures
        final(buf)@.len() == old(buf)@.len(),
        match r {
            Ok(n) => {
                &&& n == varint_bytes(x as nat).len()
                &&& n <= old(buf)@.len()
                &&& final(buf)@ == varint_bytes(x as nat) + old(buf)@.skip(n as int)
            },
            Err(e) => {
                &&& e == EncodeVarintError::BufferTooSmall
                &&& old(buf)@.len() < varint_bytes(x as nat).len()
                &&& final(buf)@ == old(buf)@
            },
        },
{
    let n = encoded_len_varint(x);
    if buf.len() < n {
        return Err(EncodeVarintError::BufferTooSmall);
    }
    let ghost before = buf@;
    let mut rest: u64 = x;
    let mut i: usize = 0;
    while rest >= 0x80
        invariant
            buf@.len() == before.len(),
            n <= before.len(),
            i + varint_bytes(rest as nat).len() == n,
            buf@.take(i as int) + varint_bytes(rest as nat) == varint_bytes(x as nat),
            buf@.skip(n as int) == before.skip(n as int),
        decreases rest,
    {
        let low: u8 = #[verifier::truncate] (rest as u8) | 0x80;
        proof {
            assert(low == (rest % 128 + 128) as u8 && rest >> 7 == rest / 128) by (bit_vector)
                requires
                    low == (rest as u8) | 0x80,
            ;
            assert(rest / 128 < rest);
        }
        let ghost done = buf@.take(i as int);
        buf[i] = low;
        proof {
            assert(buf@.take(i as int + 1) == done.push(low));
            assert(done.push(low) + varint_bytes((rest / 128) as nat) == done + varint_bytes(
                rest as nat,
            ));
        }
        rest = rest >> 7;
        i = i + 1;
    }
    let ghost done = buf@.take(i as int);
    buf[i] = rest as u8;
    proof {
        assert(buf@.take(n as int) == done.push(rest as u8));
        assert(done.push(rest as u8) == done + varint_bytes(rest as nat));
        assert(buf@ == buf@.take(n as int) + buf@.skip(n as int));
    }
    Ok(i + 1)
}

/// Decoding varint error.
#[derive(Debug, Clone, Copy, PartialEq, Eq, Hash, Structural)]
pub enum DecodeVarintError {
    /// The buffer did not contain a valid LEB128 encoding.
    Overflow,
    /// The buffer did not contain enough bytes to decode a value.
    NotEnoughBytes,
}

/// How many bytes at the front of `src` carry the continuation flag: the
/// index of the first byte without it, or the length of `src` if every byte
/// has it.
pub open spec fn varint_continued(src: Seq<u8>) -> nat
    decreases src.len(),
{
    if src.len() == 0 || src[0] < 0x80 {
        0
    } else {
        1 + varint_continued(src.skip(1))
    }
}

/// The number that the first `n` bytes of `src` spell: the low seven bits of
/// each, the first byte least significant.
pub open spec fn varint_value(src: Seq<u8>, n: nat) -> nat
    decreases n,
{
    if n == 0 {
        0
    } else {
        (src[0] % 128) as nat + 128 * varint_value(src.skip(1), (n - 1) as nat)
    }
}

/// What a source decodes to: the number of bytes read and the value, or the
/// reason why there is none.
///
/// A value ends at the first byte without the continuation flag. Ten bytes
/// with the flag are too many for 64 bits, and so is a tenth byte above 1; a
/// source that ends before the value does is too short.
pub open spec fn parse_varint(src: Seq<u8>) -> Result<(nat, nat), DecodeVarintError> {
    let last = varint_continued(src);
    if last >= MAX_VARINT_LEN {
        Err(DecodeVarintError::Overflow)
    } else if last >= src.len() {
        Err(DecodeVarintError::NotEnoughBytes)
    } else if last == MAX_VARINT_LEN - 1 && src[last as int] > 1 {
        Err(DecodeVarintError::Overflow)
    } else {
        Ok((last + 1, varint_value(src, last + 1)))
    }
}

/// 128 to the power `n`: the weight of the group at index `n`.
pub open spec fn group_weight(n: nat) -> nat
    decreases n,
{
    if n == 0 {
        1
    } else {
        128 * group_weight((n - 1) as nat)
    }
}

proof fn lemma_continued_step(src: Seq<u8>, n: nat)
    requires
        n < src.len(),
        forall|j: int| 0 <= j < n ==> src[j] >= 0x80,
    ensures
        src[n as int] >= 0x80 ==> varint_continued(src) >= n + 1,
        src[n as int] < 0x80 ==> varint_continued(src) == n,
    decreases n,
{
    if n > 0 {
        let tail = src.skip(1);
        assert forall|j: int| 0 <= j < n - 1 implies tail[j] >= 0x80 by {
            assert(tail[j] == src[j + 1]);
        }
        lemma_continued_step(tail, (n - 1) as nat);
    }
}

proof fn lemma_continued_all(src: Seq<u8>)
    requires
        forall|j: int| 0 <= j < src.len() ==> src[j] >= 0x80,
    ensures
        varint_continued(src) == src.len(),
    decreases src.len(),
{
    if src.len() > 0 {
        let tail = src.skip(1);
        assert forall|j: int| 0 <= j < tail.len() implies tail[j] >= 0x80 by {
            assert(tail[j] == src[j + 1]);
        }
        lemma_continued_all(tail);
    }
}

proof fn lemma_value_step(src: Seq<u8>, n: nat)
    requires
        n < src.len(),
    ensures
        varint_value(src, n + 1) == varint_value(src, n) + (src[n as int] % 128) * group_weight(n),
    decreases n,
{
    let tail = src.skip(1);
    let g = (src[n as int] % 128) as nat;
    assert(varint_value(src, n + 1) == (src[0] % 128) as nat + 128 * varint_value(tail, n));
    if n == 0 {
        assert(varint_value(tail, 0) == 0);
        assert(group_weight(0) == 1);
        assert(g * 1 == g);
    } else {
        lemma_value_step(tail, (n - 1) as nat);
        assert(tail[n - 1] == src[n as int]);
        let a = varint_value(tail, (n - 1) as nat);
        let w = group_weight((n - 1) as nat);
        assert(varint_value(tail, n) == a + g * w);
        assert(varint_value(src, n) == (src[0] % 128) as nat + 128 * a);
        assert(group_weight(n) == 128 * w);
        assert(128 * (a + g * w) == 128 * a + g * (128 * w)) by (nonlinear_arith);
    }
}

/// Decodes a value from LEB128 variable length format.
///
/// Returns the number of bytes read and the decoded value as `u64` if
/// successful. Returns [`DecodeVarintError`] if the buffer did not contain a
/// valid LEB128 encoding or did not contain enough bytes to decode a value.
pub fn decode_varint(buf: &[u8]) -> (r: Result<(usize, u64), DecodeVarintError>)
    ensures
        match r {
            Ok((n, v)) => parse_varint(buf@) == Ok::<(nat, nat), DecodeVarintError>(
                (n as nat, v as nat),
            ),
            Err(e) => parse_varint(buf@) == Err::<(nat, nat), DecodeVarintError>(e),
        },
{
    let mut x: u64 = 0;
    let mut s: u32 = 0;
    let mut i: usize = 0;
    let ghost mut weight: u64 = 1;
    proof {
        assert(1u64 << 0u32 == 1) by (bit_vector);
    }
    loop
        invariant
            i <= MAX_VARINT_LEN,
            s == 7 * i,
            forall|j: int| 0 <= j < i && j < buf@.len() ==> buf@[j] >= 0x80,
            i < MAX_VARINT_LEN ==> i <= buf@.len(),
            i < MAX_VARINT_LEN ==> x == varint_value(buf@, i as nat),
            i < MAX_VARINT_LEN ==> weight == group_weight(i as nat),
            i < MAX_VARINT_LEN ==> weight == 1u64 << s,
            i < MAX_VARINT_LEN ==> x < weight,
            i == MAX_VARINT_LEN ==> buf@.len() >= MAX_VARINT_LEN,
        decreases MAX_VARINT_LEN - i,
    {
        if i == MAX_VARINT_LEN {
            proof {
                lemma_continued_step(buf@, 9);
            }
            return Err(DecodeVarintError::Overflow);
        }
        if i >= buf.len() {
            proof {
                lemma_continued_all(buf@);
            }
            return Err(DecodeVarintError::NotEnoughBytes);
        }
        let b = buf[i];
        proof {
            lemma_continued_step(buf@, i as nat);
            lemma_value_step(buf@, i as nat);
        }
        if b < 0x80 {
            if i == MAX_VARINT_LEN - 1 && b > 1 {
                return Err(DecodeVarintError::Overflow);
            }
            let wide: u64 = b as u64;
            proof {
                assert((x | wide << s) == x + wide * weight) by (bit_vector)
                    requires
                        x < weight,
                        weight == 1u64 << s,
                        s <= 56 || s == 63,
                        wide < 128,
                        s == 63 ==> wide <= 1,
                ;
                assert(wide == b % 128);
            }
            return Ok((i + 1, x | wide << s));
        }
        let group: u64 = (b & 0x7f) as u64;
        proof {
            assert(group == b % 128) by (bit_vector)
                requires
                    group == (b & 0x7f) as u64,
            ;
            if i < MAX_VARINT_LEN - 1 {
                assert((x | group << s) == x + group * weight && x + group * weight < weight * 128
                    && weight * 128 == 1u64 << ((s + 7) as u32)) by (bit_vector)
                    requires
                        x < weight,
                        weight == 1u64 << s,
                        s <= 56,
                        group < 128,
                ;
                weight = (weight * 128) as u64;
            }
        }
        x = x | group << s;
        s = s + 7;
        i = i + 1;
    }
}

proof fn lemma_top_group(value: nat, k: nat)
    requires
        value < 2 * group_weight(k),
    ensures
        varint_bytes(value).len() <= k + 1,
        varint_bytes(value).len() == k + 1 ==> varint_bytes(value)[k as int] <= 1,
    decreases k,
{
    if k > 0 && value >= 128 {
        lemma_top_group(value / 128, (k - 1) as nat);
    }
}

proof fn lemma_parse_own_bytes(value: nat, rest: Seq<u8>)
    ensures
        varint_continued(varint_bytes(value) + rest) == varint_bytes(value).len() - 1,
        varint_value(varint_bytes(value) + rest, varint_bytes(value).len()) == value,
    decreases value,
{
    let src = varint_bytes(value) + rest;
    if value < 128 {
        assert(src[0] == value);
        assert(varint_value(src.skip(1), 0) == 0);
    } else {
        lemma_parse_own_bytes(value / 128, rest);
        assert(src.skip(1) == varint_bytes(value / 128) + rest);
        assert(src[0] == value % 128 + 128);
    }
}

/// A value that was encoded is decoded again, whatever follows its bytes:
/// the bytes of `value`, read back, give the number of those bytes and
/// `value` itself.
pub proof fn lemma_varint_round_trip(value: u64, rest: Seq<u8>)
    ensures
        parse_varint(varint_bytes(value as nat) + rest) == Ok::<(nat, nat), DecodeVarintError>(
            (varint_bytes(value as nat).len(), value as nat),
        ),
{
    lemma_varint_len(value as nat);
    lemma_parse_own_bytes(value as nat, rest);
    assert(group_weight(9) == 0x8000_0000_0000_0000) by {
        reveal_with_fuel(group_weight, 10);
    }
    lemma_top_group(value as nat, 9);
}

} // verus!
