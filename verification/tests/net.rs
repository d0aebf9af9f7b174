use transformable::AddrTransformError;
use transformable::BytesTransformError;
use transformable::IpAddr;
use transformable::IpAddrStep;
use transformable::IpAddrTransformError;
use transformable::Ipv4Addr;
use transformable::Ipv6Addr;
use transformable::SocketAddrV4;
use transformable::SocketAddrV6;
use transformable::Transformable;

fn v6_loopback() -> Ipv6Addr {
    Ipv6Addr::new([0, 0, 0, 0, 0, 0, 0, 0, 0, 0, 0, 0, 0, 0, 0, 1])
}

#[test]
fn test_socket_addr_v4_transformable() {
    let val = SocketAddrV4::new(Ipv4Addr::new(127, 0, 0, 1), 8080);
    assert_eq!(val.encoded_len(), 6);
    let mut buf = [0xEEu8; 8];
    assert_eq!(val.encode(&mut buf), Ok(6));
    assert_eq!(buf, [127, 0, 0, 1, 0x1F, 0x90, 0xEE, 0xEE]);
    assert_eq!(SocketAddrV4::decode(&buf), Ok((6, val)));
    assert_eq!(val.ip().octets(), [127, 0, 0, 1]);
    assert_eq!(val.port(), 8080);
}

#[test]
fn test_socket_addr_v6_transformable() {
    let val = SocketAddrV6::new(v6_loopback(), 8080);
    assert_eq!(val.encoded_len(), 18);
    let mut buf = [0xEEu8; 18];
    assert_eq!(val.encode(&mut buf), Ok(18));
    assert_eq!(&buf[..16], &v6_loopback().octets());
    assert_eq!(&buf[16..], &[0x1F, 0x90]);
    assert_eq!(SocketAddrV6::decode(&buf), Ok((18, val)));
    assert_eq!(val.ip(), v6_loopback());
    assert_eq!(val.port(), 8080);
}

#[test]
fn socket_addr_of_a_source_that_is_too_short() {
    assert_eq!(
        SocketAddrV4::decode(&[127, 0, 0, 1, 0x1F]),
        Err(AddrTransformError::Corrupted)
    );
    assert_eq!(
        SocketAddrV6::decode(&[0; 17]),
        Err(AddrTransformError::Corrupted)
    );
    assert_eq!(
        Ipv4Addr::decode(&[127, 0, 0]),
        Err(AddrTransformError::Corrupted)
    );
    assert_eq!(
        Ipv6Addr::decode(&[0; 15]),
        Err(AddrTransformError::Corrupted)
    );
}

#[test]
fn socket_addr_into_a_short_buffer_writes_nothing() {
    let val = SocketAddrV4::new(Ipv4Addr::new(127, 0, 0, 1), 8080);
    let mut short = [0xEEu8; 5];
    assert_eq!(
        val.encode(&mut short),
        Err(AddrTransformError::EncodeBufferTooSmall)
    );
    assert_eq!(short, [0xEE; 5]);
    let val = SocketAddrV6::new(v6_loopback(), 1);
    let mut short = [0xEEu8; 17];
    assert_eq!(
        val.encode(&mut short),
        Err(AddrTransformError::EncodeBufferTooSmall)
    );
    assert_eq!(short, [0xEE; 17]);
}

#[test]
fn test_ipv4_addr_transformable() {
    let val = Ipv4Addr::new(192, 168, 1, 20);
    assert_eq!(val.encoded_len(), 4);
    let mut buf = [0xEEu8; 5];
    assert_eq!(val.encode(&mut buf), Ok(4));
    assert_eq!(buf, [192, 168, 1, 20, 0xEE]);
    assert_eq!(Ipv4Addr::decode(&buf), Ok((4, val)));
    let mut short = [0xEEu8; 3];
    assert_eq!(
        val.encode(&mut short),
        Err(AddrTransformError::EncodeBufferTooSmall)
    );
    assert_eq!(short, [0xEE; 3]);
}

#[test]
fn test_ipv6_addr_transformable() {
    let val = v6_loopback();
    assert_eq!(val.encoded_len(), 16);
    let mut buf = [0xEEu8; 16];
    assert_eq!(val.encode(&mut buf), Ok(16));
    assert_eq!(buf, val.octets());
    assert_eq!(Ipv6Addr::decode(&buf), Ok((16, val)));
}

#[test]
fn addr_error_of_a_bytes_error() {
    assert_eq!(
        AddrTransformError::from_bytes_error(BytesTransformError::EncodeBufferTooSmall),
        AddrTransformError::EncodeBufferTooSmall
    );
    assert_eq!(
        AddrTransformError::from_bytes_error(BytesTransformError::NotEnoughBytes),
        AddrTransformError::Corrupted
    );
}

#[test]
fn test_ip_addr_v4_transformable() {
    let val = IpAddr::V4(Ipv4Addr::new(127, 0, 0, 1));
    assert_eq!(val.encoded_len(), 5);
    let mut buf = [0xEEu8; 5];
    assert_eq!(val.encode(&mut buf), Ok(5));
    assert_eq!(buf, [4, 127, 0, 0, 1]);
    assert_eq!(IpAddr::decode(&buf), Ok((5, val)));
    assert_eq!(val.encode_to_vec().unwrap(), vec![4, 127, 0, 0, 1]);
}

#[test]
fn test_ip_addr_v6_transformable() {
    let val = IpAddr::V6(v6_loopback());
    assert_eq!(val.encoded_len(), 17);
    let mut buf = [0xEEu8; 19];
    assert_eq!(val.encode(&mut buf), Ok(17));
    assert_eq!(buf[0], 6);
    assert_eq!(&buf[1..17], &v6_loopback().octets());
    assert_eq!(&buf[17..], &[0xEE, 0xEE]);
    assert_eq!(IpAddr::decode(&buf), Ok((17, val)));
}

#[test]
fn ip_addr_of_an_unknown_family() {
    assert_eq!(
        IpAddr::decode(&[5, 1, 2, 3, 4]),
        Err(IpAddrTransformError::UnknownAddressFamily(5))
    );
    assert_eq!(
        IpAddr::decode(&[0]),
        Err(IpAddrTransformError::UnknownAddressFamily(0))
    );
}

#[test]
fn ip_addr_of_a_source_that_is_too_short() {
    assert_eq!(
        IpAddr::decode(&[4, 127, 0, 0]),
        Err(IpAddrTransformError::Corrupted("corrupted socket v4 address"))
    );
    assert_eq!(
        IpAddr::decode(&[6, 0, 0, 0, 0, 0, 0, 0, 0, 0, 0, 0, 0, 0, 0, 0]),
        Err(IpAddrTransformError::Corrupted("corrupted socket v6 address"))
    );
    assert_eq!(
        IpAddr::decode(&[]),
        Err(IpAddrTransformError::Corrupted("corrupted address"))
    );
}

#[test]
fn ip_addr_into_a_short_buffer_writes_nothing() {
    let val = IpAddr::V4(Ipv4Addr::new(127, 0, 0, 1));
    let mut short = [0xEEu8; 4];
    assert_eq!(
        val.encode(&mut short),
        Err(IpAddrTransformError::EncodeBufferTooSmall)
    );
    assert_eq!(short, [0xEE; 4]);
    let val = IpAddr::V6(v6_loopback());
    let mut short = [0xEEu8; 16];
    assert_eq!(
        val.encode(&mut short),
        Err(IpAddrTransformError::EncodeBufferTooSmall)
    );
    assert_eq!(short, [0xEE; 16]);
}

#[test]
fn ip_addr_from_a_stream_reads_the_shortest_frame_first() {
    let v4 = IpAddr::V4(Ipv4Addr::new(10, 0, 0, 7));
    assert_eq!(
        IpAddr::decode_min_frame(&[4, 10, 0, 0, 7]),
        Ok(IpAddrStep::Done(5, v4))
    );
    assert_eq!(
        IpAddr::decode_min_frame(&[6, 0, 0, 0, 0]),
        Ok(IpAddrStep::More(12))
    );
    assert_eq!(
        IpAddr::decode_min_frame(&[9, 0, 0, 0, 0]),
        Err(IpAddrTransformError::UnknownAddressFamily(9))
    );
}

#[test]
fn ip_addr_from_a_stream_joins_the_two_reads() {
    let val = IpAddr::V6(Ipv6Addr::new([
        1, 2, 3, 4, 5, 6, 7, 8, 9, 10, 11, 12, 13, 14, 15, 16,
    ]));
    let first = [6, 1, 2, 3, 4];
    let remaining = [5, 6, 7, 8, 9, 10, 11, 12, 13, 14, 15, 16];
    assert_eq!(
        IpAddr::decode_with_remaining(&first, &remaining),
        Ok((17, val))
    );
    let mut whole = Vec::new();
    whole.extend_from_slice(&first);
    whole.extend_from_slice(&remaining);
    assert_eq!(IpAddr::decode(&whole), Ok((17, val)));
}

#[test]
fn ip_addr_from_a_stream_of_an_unknown_family() {
    assert_eq!(
        IpAddr::decode_with_remaining(&[5, 1, 2, 3, 4], &[0; 12]),
        Err(IpAddrTransformError::UnknownAddressFamily(5))
    );
    let v4 = IpAddr::V4(Ipv4Addr::new(1, 2, 3, 4));
    assert_eq!(
        IpAddr::decode_with_remaining(&[4, 1, 2, 3, 4], &[0; 12]),
        Ok((5, v4))
    );
}
