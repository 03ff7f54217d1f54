use ibv::conn::{peer_end_point, peer_recv_mr, Error};
use ibv::mr::RemoteMR;
use ibv::qp::EndPoint;

fn sample_gid() -> [u8; 16] {
    [0xfe, 0x80, 0, 0, 0, 0, 0, 0, 0x02, 0x1b, 0x21, 0xff, 0xfe, 0x9a, 0x3c, 0x01]
}

#[test]
fn end_point_round_trip() {
    let e = EndPoint::new(0x0012_3456, 0x00ab, sample_gid());
    let bytes = e.to_bytes();
    assert_eq!(bytes.len(), 22);
    assert_eq!(EndPoint::from_bytes(&bytes), e);
}

#[test]
fn end_point_layout() {
    let e = EndPoint::new(0x0403_0201, 0x0605, sample_gid());
    let bytes = e.to_bytes();
    assert_eq!(&bytes[..16], &sample_gid()[..]);
    assert_eq!(&bytes[16..], &[1, 2, 3, 4, 5, 6]);
}

#[test]
fn end_point_matches_bincode() {
    let e = EndPoint::new(77, 9, sample_gid());
    let reference = bincode::serialize(&(sample_gid(), 77u32, 9u16)).unwrap();
    assert_eq!(e.to_bytes(), reference);
}

#[test]
fn end_point_from_longer_input() {
    let e = EndPoint::new(5, 6, sample_gid());
    let mut bytes = e.to_bytes();
    bytes.extend_from_slice(&[9, 9, 9]);
    assert_eq!(EndPoint::from_bytes(&bytes), e);
}

#[test]
fn remote_mr_round_trip() {
    let m = RemoteMR::new(0x7f00_1234_5678_9abc, 16 * 1024 * 1024, 0xdead_beef);
    let bytes = m.serialize();
    assert_eq!(bytes.len(), 16);
    assert_eq!(RemoteMR::deserialize(bytes), m);
}

#[test]
fn remote_mr_layout_and_bincode() {
    let m = RemoteMR::new(0x0807_0605_0403_0201, 0x0c0b_0a09, 0x100f_0e0d);
    let bytes = m.serialize();
    let expected: Vec<u8> = (1u8..=16).collect();
    assert_eq!(bytes, expected);
    let reference = bincode::serialize(&(m.addr, m.length, m.rkey)).unwrap();
    assert_eq!(bytes, reference);
}

#[test]
fn handshake_fails_on_short_endpoint() {
    let e = EndPoint::new(1, 2, sample_gid());
    let bytes = e.to_bytes();
    assert_eq!(peer_end_point(&bytes[..10]), Err(Error::HandshakeFailed));
    assert_eq!(peer_end_point(&[]), Err(Error::HandshakeFailed));
    assert_eq!(peer_end_point(&bytes), Ok(e));
}

#[test]
fn handshake_fails_on_short_or_bad_region() {
    let m = RemoteMR::new(0x1000, 4096, 3);
    let bytes = m.serialize();
    assert_eq!(peer_recv_mr(bytes[..15].to_vec()), Err(Error::HandshakeFailed));
    assert_eq!(peer_recv_mr(bytes), Ok(m));
    let wrapping = RemoteMR::new(u64::MAX - 10, 4096, 3);
    assert_eq!(peer_recv_mr(wrapping.serialize()), Err(Error::HandshakeFailed));
}
