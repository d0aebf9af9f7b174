//! The buffers in which a frame is put together before it is handed to a
//! stream, or after it was read from one. A frame of up to
//! [`MAX_INLINED_BYTES`] bytes lies in an array inside the buffer; a longer
//! one lies on the heap, in a vector of exactly its length.
use crate::impls::be_value;
use crate::impls::copy_into;
use crate::impls::encode_bytes;
use crate::impls::frame;
use crate::impls::frame_fits;
use crate::impls::lemma_be_limits;
use crate::impls::lemma_be_value_bound;
use crate::impls::lemma_frame_len;
use crate::impls::u32_from_network_endian;
use crate::impls::MESSAGE_SIZE_LEN;
use crate::Transformable;
use vstd::prelude::*;

verus! {

/// The longest frame that is kept inline.
pub const MAX_INLINED_BYTES: usize = 256;

/// A buffer that holds one frame.
#[derive(Debug)]
pub enum FrameBuffer {
    /// A frame of `len` bytes at the front of an array, or one that fills the
    /// array where `len` is more than the array has.
    Inline {
        /// The array.
        bytes: [u8; 256],
        /// The number of bytes of the frame.
        len: usize,
    },
    /// A frame that fills a vector.
    Heap(Vec<u8>),
}

impl View for FrameBuffer {
    type V = Seq<u8>;

    /// The bytes of the frame.
    open spec fn view(&self) -> Seq<u8> {
        match self {
            FrameBuffer::Inline { bytes, len } => if *len <= MAX_INLINED_BYTES {
                bytes@.take(*len as int)
            } else {
                bytes@
            },
            FrameBuffer::Heap(bytes) => bytes@,
        }
    }
}

impl FrameBuffer {
    /// A buffer for a frame of `len` bytes, all of them zero.
    pub fn zeroed(len: usize) -> (r: Self)
        ensures
            r@.len() == len,
            forall|i: int| 0 <= i < len ==> r@[i] == 0,
            r is Inline <==> len <= MAX_INLINED_BYTES,
    {
        if len <= MAX_INLINED_BYTES {
            FrameBuffer::Inline { bytes: [0u8; 256], len }
        } else {
            FrameBuffer::Heap(vec![0u8; len])
        }
    }

    /// Tells whether the frame lies inline, without an allocation.
    pub fn is_inline(&self) -> (b: bool)
        ensures
            b == (self is Inline),
    {
        match self {
            FrameBuffer::Inline { .. } => true,
            FrameBuffer::Heap(_) => false,
        }
    }

    /// The bytes of the frame.
    pub fn as_slice(&self) -> (r: &[u8])
        ensures
            r@ == self@,
    {
        match self {
            FrameBuffer::Inline { bytes, len } => {
                let end = if *len <= MAX_INLINED_BYTES {
                    *len
                } else {
                    MAX_INLINED_BYTES
                };
                vstd::slice::slice_subrange(bytes.as_slice(), 0, end)
            },
            FrameBuffer::Heap(bytes) => bytes.as_slice(),
        }
    }

    /// The bytes of the frame, to be written to. Whatever is written, the
    /// buffer stays of its kind and holds what the slice holds in the end.
    pub fn as_mut_slice(&mut self) -> (r: &mut [u8])
        ensures
            r@ == old(self)@,
            final(r)@.len() == r@.len() ==> {
                &&& final(self)@ == final(r)@
                &&& (*final(self) is Inline <==> *old(self) is Inline)
            },
    {
        match self {
            FrameBuffer::Inline { bytes, len } => {
                let end = if *len <= MAX_INLINED_BYTES {
                    *len
                } else {
                    MAX_INLINED_BYTES
                };
                let (front, _) = bytes.split_at_mut(end);
                front
            },
            FrameBuffer::Heap(bytes) => bytes.as_mut_slice(),
        }
    }

    /// The number of bytes that the length in front of the frame takes:
    /// four, or all that there are where the frame is shorter.
    pub open spec fn header_len(&self) -> int {
        if self@.len() < MESSAGE_SIZE_LEN {
            self@.len() as int
        } else {
            MESSAGE_SIZE_LEN as int
        }
    }

    /// The bytes of the frame behind the length in front of it: the part
    /// that a stream fills in once the length has been read. Whatever is
    /// written, the length in front stays as it was.
    pub fn payload_mut(&mut self) -> (r: &mut [u8])
        ensures
            r@ == old(self)@.skip(old(self).header_len()),
            final(r)@.len() == r@.len() ==> {
                &&& final(self)@ == old(self)@.take(old(self).header_len()) + final(r)@
                &&& (*final(self) is Inline <==> *old(self) is Inline)
            },
    {
        let whole = self.as_mut_slice();
        let at = if whole.len() < MESSAGE_SIZE_LEN {
            whole.len()
        } else {
            MESSAGE_SIZE_LEN
        };
        let (_, payload) = whole.split_at_mut(at);
        payload
    }

    /// The buffer for the frame of which `header` is the length, as read
    /// from a stream: as long as the header and the payload that it
    /// announces, with the header in place and zeros behind it. `None` where
    /// a frame of that length is more than the machine can address.
    pub fn for_header(header: &[u8; 4]) -> (r: Option<Self>)
        ensures
            match r {
                Some(buf) => {
                    &&& buf@.len() == MESSAGE_SIZE_LEN + be_value(header@)
                    &&& buf@.take(MESSAGE_SIZE_LEN as int) == header@
                    &&& forall|i: int| MESSAGE_SIZE_LEN <= i < buf@.len() ==> buf@[i] == 0
                    &&& (buf is Inline <==> MESSAGE_SIZE_LEN + be_value(header@)
                        <= MAX_INLINED_BYTES)
                },
                None => MESSAGE_SIZE_LEN + be_value(header@) > usize::MAX,
            },
    {
        let msg_len = frame_payload_len(header);
        if msg_len > usize::MAX - MESSAGE_SIZE_LEN {
            return None;
        }
        let mut buf = FrameBuffer::zeroed(MESSAGE_SIZE_LEN + msg_len);
        let whole = buf.as_mut_slice();
        copy_into(whole, 0, header.as_slice());
        proof {
            assert(buf@.take(MESSAGE_SIZE_LEN as int) == header@);
        }
        Some(buf)
    }
}

/// The length of the payload that `header`, the length in front of a frame,
/// announces.
pub fn frame_payload_len(header: &[u8; 4]) -> (len: usize)
    ensures
        len == be_value(header@),
{
    proof {
        lemma_be_limits();
        lemma_be_value_bound(header@);
        assert(header@.take(4) == header@);
    }
    u32_from_network_endian(header.as_slice()) as usize
}

/// Encodes the value into a buffer of its own, ready to be written to a
/// stream in one piece: inline where the bytes are at most
/// [`MAX_INLINED_BYTES`], on the heap where they are more. The bytes are the
/// same either way.
pub fn encode_to_buffer<T: Transformable>(value: &T) -> (r: Result<FrameBuffer, T::Error>)
    requires
        T::has_wire(value.value()),
    ensures
        r matches Ok(buf) && buf@ == T::wire(value.value()) && (buf is Inline <==> T::wire(
            value.value(),
        ).len() <= MAX_INLINED_BYTES),
{
    let encoded_len = value.encoded_len();
    if encoded_len <= MAX_INLINED_BYTES {
        let mut buf = [0u8; 256];
        match value.encode(&mut buf) {
            Ok(_) => {
                proof {
                    assert(buf@.take(encoded_len as int) == T::wire(value.value()));
                }
                Ok(FrameBuffer::Inline { bytes: buf, len: encoded_len })
            },
            Err(e) => Err(e),
        }
    } else {
        let mut buf = vec![0u8; encoded_len];
        match value.encode(&mut buf) {
            Ok(_) => Ok(FrameBuffer::Heap(buf)),
            Err(e) => Err(e),
        }
    }
}

/// Frames a payload in a buffer of its own, ready to be written to a stream
/// in one piece: inline where the frame has at most [`MAX_INLINED_BYTES`]
/// bytes, on the heap where it has more. The bytes are the same either way.
pub fn encode_bytes_to_buffer(src: &[u8]) -> (buf: FrameBuffer)
    requires
        frame_fits(src@),
    ensures
        buf@ == frame(src@),
        buf is Inline <==> frame(src@).len() <= MAX_INLINED_BYTES,
{
    proof {
        lemma_frame_len(src@);
    }
    let mut buf = FrameBuffer::zeroed(MESSAGE_SIZE_LEN + src.len());
    let whole = buf.as_mut_slice();
    let _ = encode_bytes(src, whole);
    buf
}

} // verus!
