use transformable::buffer::encode_bytes_to_buffer;
use transformable::buffer::encode_to_buffer;
use transformable::buffer::frame_payload_len;
use transformable::buffer::FrameBuffer;
use transformable::buffer::MAX_INLINED_BYTES;
use transformable::Transformable;

#[test]
fn frame_of_256_bytes_is_inline_and_one_of_257_is_not() {
    let at = vec![3u8; 252];
    let above = vec![3u8; 253];
    let inline = encode_to_buffer(&at).unwrap();
    let heap = encode_to_buffer(&above).unwrap();
    assert!(inline.is_inline());
    assert!(!heap.is_inline());
    assert_eq!(inline.as_slice().len(), MAX_INLINED_BYTES);
    assert_eq!(heap.as_slice().len(), MAX_INLINED_BYTES + 1);
    assert_eq!(inline.as_slice(), at.encode_to_vec().unwrap());
    assert_eq!(heap.as_slice(), above.encode_to_vec().unwrap());
    assert_eq!(&heap.as_slice()[..4], &[0, 0, 0, 253]);
    assert_eq!(&heap.as_slice()[4..], &above[..]);
}

#[test]
fn frame_buffer_of_a_payload() {
    let buf = encode_bytes_to_buffer(b"hello world");
    assert!(buf.is_inline());
    assert_eq!(buf.as_slice(), b"\x00\x00\x00\x0bhello world");
    let long = vec![9u8; 300];
    let buf = encode_bytes_to_buffer(&long);
    assert!(!buf.is_inline());
    assert_eq!(buf.as_slice(), long.encode_to_vec().unwrap());
    let at = vec![9u8; 252];
    assert!(encode_bytes_to_buffer(&at).is_inline());
}

#[test]
fn frame_buffer_of_a_number() {
    let buf = encode_to_buffer(&0x0102_0304u32).unwrap();
    assert!(buf.is_inline());
    assert_eq!(buf.as_slice(), &[1, 2, 3, 4]);
}

#[test]
fn frame_buffer_for_a_header_is_filled_by_the_stream() {
    let header = [0u8, 0, 0, 11];
    assert_eq!(frame_payload_len(&header), 11);
    let mut buf = FrameBuffer::for_header(&header).unwrap();
    assert!(buf.is_inline());
    assert_eq!(buf.as_slice(), &[0, 0, 0, 11, 0, 0, 0, 0, 0, 0, 0, 0, 0, 0, 0]);
    buf.payload_mut().copy_from_slice(b"hello world");
    assert_eq!(
        Vec::<u8>::decode(buf.as_slice()),
        Ok((15, b"hello world".to_vec()))
    );
    assert_eq!(
        String::decode(buf.as_slice()).unwrap(),
        (15, String::from("hello world"))
    );
}

#[test]
fn frame_buffer_for_a_header_at_the_threshold() {
    let mut at = FrameBuffer::for_header(&[0, 0, 0, 252]).unwrap();
    assert!(at.is_inline());
    assert_eq!(at.as_slice().len(), 256);
    assert_eq!(at.payload_mut().len(), 252);
    let mut above = FrameBuffer::for_header(&[0, 0, 0, 253]).unwrap();
    assert!(!above.is_inline());
    assert_eq!(above.as_slice().len(), 257);
    assert_eq!(above.payload_mut().len(), 253);
    above.as_mut_slice()[256] = 7;
    assert_eq!(above.as_slice()[256], 7);
    assert_eq!(&above.as_slice()[..4], &[0, 0, 0, 253]);
    let empty = FrameBuffer::for_header(&[0, 0, 0, 0]).unwrap();
    assert_eq!(empty.as_slice(), &[0, 0, 0, 0]);
}

#[test]
fn frame_buffer_of_zeros() {
    let buf = FrameBuffer::zeroed(3);
    assert!(buf.is_inline());
    assert_eq!(buf.as_slice(), &[0, 0, 0]);
    let buf = FrameBuffer::zeroed(1000);
    assert!(!buf.is_inline());
    assert_eq!(buf.as_slice(), &[0u8; 1000][..]);
}

#[test]
fn frame_buffer_with_a_length_beyond_its_array() {
    let mut buf = FrameBuffer::Inline {
        bytes: [5u8; 256],
        len: 1000,
    };
    assert_eq!(buf.as_slice().len(), 256);
    assert_eq!(buf.as_mut_slice().len(), 256);
    assert_eq!(buf.payload_mut().len(), 252);
}

#[test]
fn frame_buffer_too_short_for_a_length() {
    let mut buf = FrameBuffer::zeroed(2);
    assert_eq!(buf.as_slice(), &[0, 0]);
    assert_eq!(buf.payload_mut().len(), 0);
    let mut buf = FrameBuffer::zeroed(4);
    assert_eq!(buf.payload_mut().len(), 0);
    let mut buf = FrameBuffer::zeroed(5);
    buf.payload_mut()[0] = 9;
    assert_eq!(buf.as_slice(), &[0, 0, 0, 0, 9]);
}
