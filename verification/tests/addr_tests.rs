use mpquic::addr::SocketAddress;
use mpquic::bytes::{append, copy_range, has_at};
use mpquic::packet::{PacketHeader, PacketType};
use mpquic::scheduler::PathStats;

#[test]
fn address_gives_octets_and_port() {
    let a = SocketAddress::V4 { octets: [192, 0, 2, 7], port: 4433 };
    assert_eq!(a.ip(), vec![192, 0, 2, 7]);
    assert_eq!(a.port(), 4433);
    let mut octets = [0u8; 16];
    octets[15] = 1;
    let b = SocketAddress::V6 { octets, port: 443, flowinfo: 3, scope_id: 9 };
    assert_eq!(b.ip(), octets.to_vec());
    assert_eq!(b.port(), 443);
}

#[test]
fn path_is_named_by_its_addresses() {
    let local = SocketAddress::V4 { octets: [10, 0, 0, 1], port: 1 };
    let peer = SocketAddress::V4 { octets: [10, 0, 0, 2], port: 2 };
    let p = PathStats {
        local_addr: local,
        peer_addr: peer,
        rtt: 0,
        sent_bytes: 0,
        recv_bytes: 0,
        cwnd: 0,
        bytes_in_flight: 0,
    };
    assert_eq!(p.path(), (local, peer));
}

#[test]
fn only_initial_headers_are_initial() {
    let mut hdr = PacketHeader {
        ty: PacketType::Initial,
        version: 1,
        dcid: Vec::new(),
        scid: Vec::new(),
        token: None,
    };
    assert!(hdr.initial());
    for ty in [
        PacketType::Retry,
        PacketType::Handshake,
        PacketType::ZeroRTT,
        PacketType::VersionNegotiation,
        PacketType::Short,
    ] {
        hdr.ty = ty;
        assert!(!hdr.initial());
    }
}

#[test]
fn bytes_are_appended_and_copied() {
    let mut v = vec![1u8, 2];
    append(&mut v, &[3, 4, 5]);
    assert_eq!(v, vec![1, 2, 3, 4, 5]);
    append(&mut v, &[]);
    assert_eq!(v, vec![1, 2, 3, 4, 5]);
    assert_eq!(copy_range(&v, 1, 4), vec![2, 3, 4]);
    assert_eq!(copy_range(&v, 5, 5), Vec::<u8>::new());
    assert_eq!(copy_range(&v, 0, 5), v);
}

#[test]
fn bytes_are_matched_in_place() {
    let hay = b"GET /index";
    assert!(has_at(hay, 0, b"GET "));
    assert!(has_at(hay, 4, b"/index"));
    assert!(has_at(hay, 10, b""));
    assert!(has_at(hay, 0, b""));
    assert!(!has_at(hay, 5, b"/index"));
    assert!(!has_at(hay, 11, b""));
    assert!(!has_at(hay, 1, b"GET "));
    assert!(!has_at(hay, usize::MAX, b"x"));
    assert!(!has_at(b"", 0, b"x"));
}
