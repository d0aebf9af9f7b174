//! Byte arrays of a fixed length, which travel as they are.
use crate::impls::copy_into;
use crate::impls::BytesTransformError;
use crate::Transformable;
use vstd::prelude::*;

verus! {

/// An array of `N` bytes travels as those bytes, with nothing added.
impl<const N: usize> Transformable for [u8; N] {
    type Error = BytesTransformError;

    type Value = Seq<u8>;

    open spec fn value(&self) -> Seq<u8> {
        self@
    }

    open spec fn has_wire(value: Seq<u8>) -> bool {
        value.len() == N
    }

    open spec fn wire(value: Seq<u8>) -> Seq<u8> {
        value
    }

    open spec fn parse(src: Seq<u8>) -> Option<(nat, Seq<u8>)> {
        if src.len() < N {
            None
        } else {
            Some((N as nat, src.take(N as int)))
        }
    }

    open spec fn decode_failure(src: Seq<u8>, error: BytesTransformError) -> bool {
        error == BytesTransformError::NotEnoughBytes
    }

    open spec fn encode_failure(error: BytesTransformError) -> bool {
        error == BytesTransformError::EncodeBufferTooSmall
    }

    proof fn lemma_round_trip(value: Seq<u8>, rest: Seq<u8>) {
        assert((value + rest).take(N as int) == value);
    }

    fn has_wire_form(&self) -> (b: bool) {
        true
    }

    fn encode(&self, dst: &mut [u8]) -> (r: Result<usize, BytesTransformError>) {
        if dst.len() < N {
            assert(Self::encode_failure(BytesTransformError::EncodeBufferTooSmall));
            return Err(BytesTransformError::EncodeBufferTooSmall);
        }
        copy_into(dst, 0, self.as_slice());
        proof {
            assert(dst@ == self@ + old(dst)@.skip(N as int));
        }
        Ok(N)
    }

    fn encoded_len(&self) -> (n: usize) {
        N
    }

    fn decode(src: &[u8]) -> (r: Result<(usize, [u8; N]), BytesTransformError>) {
        let len = src.len();
        if len < N {
            return Err(BytesTransformError::NotEnoughBytes);
        }
        let mut buf = [0u8; N];
        let mut i: usize = 0;
        while i < N
            invariant
                i <= N <= src@.len(),
                buf@.take(i as int) == src@.take(i as int),
            decreases N - i,
        {
            let ghost prev = buf@;
            buf[i] = src[i];
            proof {
                assert(buf@.take(i + 1) == prev.take(i as int).push(src@[i as int]));
                assert(src@.take(i + 1) == src@.take(i as int).push(src@[i as int]));
            }
            i = i + 1;
        }
        proof {
            assert(buf@.take(N as int) == buf@);
        }
        Ok((N, buf))
    }
}

} // verus!
