use mpquic::addr::SocketAddress;
use mpquic::packet::{PacketHeader, PacketType};
use mpquic::token::{marker_bytes, mint_token, validate_token};

fn v4(a: u8, b: u8, c: u8, d: u8, port: u16) -> SocketAddress {
    SocketAddress::V4 { octets: [a, b, c, d], port }
}

fn v6(last: u8, port: u16) -> SocketAddress {
    let mut octets = [0u8; 16];
    octets[0] = 0x20;
    octets[1] = 0x01;
    octets[15] = last;
    SocketAddress::V6 { octets, port, flowinfo: 0, scope_id: 0 }
}

fn initial(dcid: &[u8]) -> PacketHeader {
    PacketHeader {
        ty: PacketType::Initial,
        version: 1,
        dcid: dcid.to_vec(),
        scid: vec![9, 9],
        token: Some(Vec::new()),
    }
}

#[test]
fn marker_spells_quiche() {
    assert_eq!(&marker_bytes()[..], b"quiche");
}

#[test]
fn minted_token_is_marker_address_and_id() {
    let token = mint_token(&initial(&[0xaa, 0xbb, 0xcc]), &v4(192, 0, 2, 7, 4433));
    assert_eq!(token, vec![b'q', b'u', b'i', b'c', b'h', b'e', 192, 0, 2, 7, 0xaa, 0xbb, 0xcc]);
}

#[test]
fn minted_token_for_ipv6_holds_sixteen_octets() {
    let peer = v6(5, 1);
    let token = mint_token(&initial(&[1, 2]), &peer);
    assert_eq!(token.len(), 6 + 16 + 2);
    assert_eq!(&token[6..22], &peer.ip()[..]);
    assert_eq!(&token[22..], &[1, 2]);
}

#[test]
fn token_round_trip_returns_the_connection_id() {
    let dcid: Vec<u8> = (0u8..20).collect();
    for peer in [v4(10, 0, 0, 1, 1), v4(255, 255, 255, 255, 65535), v6(1, 443)] {
        let token = mint_token(&initial(&dcid), &peer);
        assert_eq!(validate_token(&peer, &token), Some(dcid.clone()));
    }
}

#[test]
fn token_round_trip_with_empty_connection_id() {
    let peer = v4(10, 0, 0, 1, 1);
    let token = mint_token(&initial(&[]), &peer);
    assert_eq!(validate_token(&peer, &token), Some(Vec::new()));
}

#[test]
fn token_ignores_the_port() {
    let token = mint_token(&initial(&[7, 7, 7]), &v4(10, 0, 0, 1, 1000));
    assert_eq!(validate_token(&v4(10, 0, 0, 1, 2000), &token), Some(vec![7, 7, 7]));
}

#[test]
fn token_fails_for_another_address() {
    let token = mint_token(&initial(&[7, 7, 7]), &v4(10, 0, 0, 1, 1000));
    assert_eq!(validate_token(&v4(10, 0, 0, 2, 1000), &token), None);
    let token = mint_token(&initial(&[7, 7, 7]), &v6(1, 1000));
    assert_eq!(validate_token(&v6(2, 1000), &token), None);
}

#[test]
fn token_fails_when_cut_inside_marker_or_address() {
    let peer = v4(10, 0, 0, 1, 1000);
    let token = mint_token(&initial(&[7, 7, 7]), &peer);
    for keep in 0..10 {
        assert_eq!(validate_token(&peer, &token[..keep]), None);
    }
}

#[test]
fn token_cut_later_yields_a_shorter_id() {
    let peer = v4(10, 0, 0, 1, 1000);
    let token = mint_token(&initial(&[7, 8, 9]), &peer);
    assert_eq!(validate_token(&peer, &token[..10]), Some(Vec::new()));
    assert_eq!(validate_token(&peer, &token[..12]), Some(vec![7, 8]));
}

#[test]
fn token_fails_on_wrong_marker() {
    let peer = v4(10, 0, 0, 1, 1000);
    let mut token = mint_token(&initial(&[7, 8, 9]), &peer);
    token[0] = b'Q';
    assert_eq!(validate_token(&peer, &token), None);
    assert_eq!(validate_token(&peer, b"quich"), None);
    assert_eq!(validate_token(&peer, b""), None);
}

#[test]
fn ipv4_token_can_pass_for_an_ipv6_peer_whose_octets_it_spells() {
    let first = v4(0x20, 0x01, 0, 0, 1);
    let mut dcid = vec![0u8; 12];
    dcid[11] = 5;
    dcid.extend_from_slice(&[0xee, 0xff]);
    let token = mint_token(&initial(&dcid), &first);
    assert_eq!(validate_token(&v6(5, 1), &token), Some(vec![0xee, 0xff]));
}
