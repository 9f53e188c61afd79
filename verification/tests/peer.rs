use caetun::packet::{HandshakeInit, HandshakeResponse, Packet, PacketData};
use caetun::peer::{Action, Endpoint, HandshakeState, Peer, PeerName, SockAddr};

fn addr(octets: [u8; 4], port: u16) -> SockAddr {
    SockAddr {
        ip: u32::from_be_bytes(octets),
        port,
    }
}

fn ipv4_packet(src: [u8; 4], dst: [u8; 4], payload: &[u8]) -> Vec<u8> {
    let total = (20 + payload.len()) as u16;
    let mut packet = vec![0x45, 0];
    packet.extend_from_slice(&total.to_be_bytes());
    packet.extend_from_slice(&[0, 0, 0, 0, 64, 17, 0, 0]);
    packet.extend_from_slice(&src);
    packet.extend_from_slice(&dst);
    packet.extend_from_slice(payload);
    packet
}

fn client() -> Peer<u32> {
    Peer::new(Endpoint {
        addr: Some(addr([198, 51, 100, 2], 19988)),
        conn: None,
    })
}

#[test]
fn client_side_sequence() {
    let mut peer = client();
    peer.set_local_idx(3);
    assert_eq!(peer.handshake_state(), HandshakeState::Initial);
    let name = PeerName::new("srv").unwrap();

    let mut buf = [0u8; 1504];
    let action = peer.initiate_handshake(name.as_ref(), &mut buf);
    let sent = match action {
        Action::WriteToNetwork(3, bytes) => bytes.to_vec(),
        other => panic!("unexpected action {:?}", other),
    };
    assert_eq!(
        Packet::parse_from(&sent),
        Ok(Packet::HandshakeInit(HandshakeInit {
            sender_name: name.as_ref(),
            assigned_idx: 3,
        }))
    );
    assert_eq!(peer.handshake_state(), HandshakeState::HandshakeSent);

    let mut buf = [0u8; 1504];
    let action = peer.handle_incoming_packet(
        Packet::HandshakeResponse(HandshakeResponse {
            assigned_idx: 42,
            sender_idx: 3,
        }),
        &mut buf,
    );
    assert_eq!(action, Action::WriteToNetwork(3, &[3, 42, 0, 0, 0]));
    assert_eq!(
        peer.handshake_state(),
        HandshakeState::Connected { remote_idx: 42 }
    );
}

#[test]
fn first_frame_after_a_response_has_no_payload() {
    let mut peer = client();
    let name = PeerName::new("a").unwrap();
    let mut buf = [0u8; 105];
    peer.initiate_handshake(name.as_ref(), &mut buf);
    let mut buf = [0u8; 5];
    let action = peer.handle_incoming_packet(
        Packet::HandshakeResponse(HandshakeResponse {
            assigned_idx: 0x0a0b_0c0d,
            sender_idx: 77,
        }),
        &mut buf,
    );
    let bytes = match action {
        Action::WriteToNetwork(0, bytes) => bytes,
        other => panic!("unexpected action {:?}", other),
    };
    assert_eq!(
        Packet::parse_from(bytes),
        Ok(Packet::Data(PacketData {
            sender_idx: 0x0a0b_0c0d,
            data: &[],
        }))
    );
}

#[test]
fn no_handshake_without_an_address() {
    let mut peer: Peer<u32> = Peer::default();
    let name = PeerName::new("srv").unwrap();
    let mut buf = [0u8; 0];
    assert_eq!(
        peer.initiate_handshake(name.as_ref(), &mut buf),
        Action::Nothing
    );
    assert_eq!(peer.handshake_state(), HandshakeState::Initial);
}

#[test]
fn handshake_is_started_once() {
    let mut peer = client();
    let name = PeerName::new("srv").unwrap();
    let mut buf = [0u8; 105];
    assert!(matches!(
        peer.initiate_handshake(name.as_ref(), &mut buf),
        Action::WriteToNetwork(0, _)
    ));
    let mut buf = [0u8; 0];
    assert_eq!(
        peer.initiate_handshake(name.as_ref(), &mut buf),
        Action::Nothing
    );
    assert_eq!(peer.handshake_state(), HandshakeState::HandshakeSent);
}

#[test]
fn server_side_sequence() {
    let mut peer: Peer<u32> = Peer::default();
    peer.set_local_idx(7);
    peer.add_allowed_ip(u32::from_be_bytes([10, 0, 0, 9]), 24);
    let name = PeerName::new("client").unwrap();

    let mut buf = [0u8; 9];
    let action = peer.handle_incoming_packet(
        Packet::HandshakeInit(HandshakeInit {
            sender_name: name.as_ref(),
            assigned_idx: 11,
        }),
        &mut buf,
    );
    assert_eq!(
        action,
        Action::WriteToNetwork(7, &[2, 7, 0, 0, 0, 11, 0, 0, 0])
    );
    assert_eq!(
        peer.handshake_state(),
        HandshakeState::HandshakeReceived { remote_idx: 11 }
    );

    let inside = ipv4_packet([10, 0, 0, 5], [10, 0, 1, 1], b"hello");
    let mut buf = [0u8; 0];
    let action = peer.handle_incoming_packet(
        Packet::Data(PacketData {
            sender_idx: 7,
            data: &inside,
        }),
        &mut buf,
    );
    assert_eq!(
        action,
        Action::WriteToTun(7, &inside, u32::from_be_bytes([10, 0, 0, 5]))
    );
    assert_eq!(
        peer.handshake_state(),
        HandshakeState::Connected { remote_idx: 11 }
    );
    assert!(peer.is_allowed_ip(u32::from_be_bytes([10, 0, 0, 5])));

    let outside = ipv4_packet([10, 0, 9, 5], [10, 0, 1, 1], b"hello");
    let mut buf = [0u8; 0];
    let action = peer.handle_incoming_packet(
        Packet::Data(PacketData {
            sender_idx: 7,
            data: &outside,
        }),
        &mut buf,
    );
    assert_eq!(
        action,
        Action::WriteToTun(7, &outside, u32::from_be_bytes([10, 0, 9, 5]))
    );
    assert!(!peer.is_allowed_ip(u32::from_be_bytes([10, 0, 9, 5])));
}

#[test]
fn initiation_is_ignored_while_a_response_is_awaited() {
    let mut left = client();
    let mut right = client();
    let left_name = PeerName::new("left").unwrap();
    let right_name = PeerName::new("right").unwrap();
    let mut buf = [0u8; 105];
    left.initiate_handshake(right_name.as_ref(), &mut buf);
    let mut buf = [0u8; 105];
    right.initiate_handshake(left_name.as_ref(), &mut buf);

    let mut buf = [0u8; 0];
    let action = left.handle_incoming_packet(
        Packet::HandshakeInit(HandshakeInit {
            sender_name: left_name.as_ref(),
            assigned_idx: 1,
        }),
        &mut buf,
    );
    assert_eq!(action, Action::Nothing);
    assert_eq!(left.handshake_state(), HandshakeState::HandshakeSent);
    let mut buf = [0u8; 0];
    let action = right.handle_incoming_packet(
        Packet::HandshakeInit(HandshakeInit {
            sender_name: right_name.as_ref(),
            assigned_idx: 1,
        }),
        &mut buf,
    );
    assert_eq!(action, Action::Nothing);
    assert_eq!(right.handshake_state(), HandshakeState::HandshakeSent);
}

#[test]
fn initiation_is_ignored_while_first_data_is_awaited() {
    let mut peer: Peer<u32> = Peer::default();
    let name = PeerName::new("client").unwrap();
    let mut buf = [0u8; 9];
    peer.handle_incoming_packet(
        Packet::HandshakeInit(HandshakeInit {
            sender_name: name.as_ref(),
            assigned_idx: 11,
        }),
        &mut buf,
    );
    let mut buf = [0u8; 0];
    let action = peer.handle_incoming_packet(
        Packet::HandshakeInit(HandshakeInit {
            sender_name: name.as_ref(),
            assigned_idx: 12,
        }),
        &mut buf,
    );
    assert_eq!(action, Action::Nothing);
    assert_eq!(
        peer.handshake_state(),
        HandshakeState::HandshakeReceived { remote_idx: 11 }
    );
}

#[test]
fn a_connected_peer_answers_a_new_initiation() {
    let mut peer = client();
    let name = PeerName::new("srv").unwrap();
    let mut buf = [0u8; 105];
    peer.initiate_handshake(name.as_ref(), &mut buf);
    let mut buf = [0u8; 5];
    peer.handle_incoming_packet(
        Packet::HandshakeResponse(HandshakeResponse {
            assigned_idx: 42,
            sender_idx: 0,
        }),
        &mut buf,
    );
    let mut buf = [0u8; 9];
    let action = peer.handle_incoming_packet(
        Packet::HandshakeInit(HandshakeInit {
            sender_name: name.as_ref(),
            assigned_idx: 5,
        }),
        &mut buf,
    );
    assert_eq!(
        action,
        Action::WriteToNetwork(0, &[2, 0, 0, 0, 0, 5, 0, 0, 0])
    );
    assert_eq!(
        peer.handshake_state(),
        HandshakeState::HandshakeReceived { remote_idx: 5 }
    );
}

#[test]
fn response_and_data_are_ignored_out_of_turn() {
    let mut peer: Peer<u32> = Peer::default();
    let packet = ipv4_packet([10, 0, 0, 5], [10, 0, 1, 1], b"");
    let mut buf = [0u8; 0];
    assert_eq!(
        peer.handle_incoming_packet(
            Packet::HandshakeResponse(HandshakeResponse {
                assigned_idx: 1,
                sender_idx: 2,
            }),
            &mut buf,
        ),
        Action::Nothing
    );
    let mut buf = [0u8; 0];
    assert_eq!(
        peer.handle_incoming_packet(
            Packet::Data(PacketData {
                sender_idx: 0,
                data: &packet,
            }),
            &mut buf,
        ),
        Action::Nothing
    );
    let mut buf = [0u8; 0];
    assert_eq!(
        peer.handle_incoming_packet(Packet::Empty, &mut buf),
        Action::Nothing
    );
    assert_eq!(peer.handshake_state(), HandshakeState::Initial);
}

#[test]
fn data_that_is_not_ipv4_completes_the_handshake_and_is_dropped() {
    let mut peer: Peer<u32> = Peer::default();
    let name = PeerName::new("client").unwrap();
    let mut buf = [0u8; 9];
    peer.handle_incoming_packet(
        Packet::HandshakeInit(HandshakeInit {
            sender_name: name.as_ref(),
            assigned_idx: 11,
        }),
        &mut buf,
    );
    let mut buf = [0u8; 0];
    let action = peer.handle_incoming_packet(
        Packet::Data(PacketData {
            sender_idx: 0,
            data: &[],
        }),
        &mut buf,
    );
    assert_eq!(action, Action::Nothing);
    assert_eq!(
        peer.handshake_state(),
        HandshakeState::Connected { remote_idx: 11 }
    );

    let mut ipv6 = ipv4_packet([10, 0, 0, 5], [10, 0, 1, 1], b"x");
    ipv6[0] = 0x65;
    let mut short_header = ipv4_packet([10, 0, 0, 5], [10, 0, 1, 1], b"x");
    short_header[0] = 0x44;
    let mut long_header = ipv4_packet([10, 0, 0, 5], [10, 0, 1, 1], b"x");
    long_header[0] = 0x46;
    let truncated = ipv4_packet([10, 0, 0, 5], [10, 0, 1, 1], b"")[..19].to_vec();
    for data in [ipv6, short_header, long_header, truncated] {
        let mut buf = [0u8; 0];
        let action = peer.handle_incoming_packet(
            Packet::Data(PacketData {
                sender_idx: 0,
                data: &data,
            }),
            &mut buf,
        );
        assert_eq!(action, Action::Nothing);
    }
}

#[test]
fn header_with_options_is_read_when_it_is_all_there() {
    let mut peer: Peer<u32> = Peer::default();
    let name = PeerName::new("client").unwrap();
    let mut buf = [0u8; 9];
    peer.handle_incoming_packet(
        Packet::HandshakeInit(HandshakeInit {
            sender_name: name.as_ref(),
            assigned_idx: 11,
        }),
        &mut buf,
    );
    let mut data = ipv4_packet([172, 16, 0, 1], [10, 0, 1, 1], &[0, 0, 0, 0]);
    data[0] = 0x46;
    let mut buf = [0u8; 0];
    let action = peer.handle_incoming_packet(
        Packet::Data(PacketData {
            sender_idx: 0,
            data: &data,
        }),
        &mut buf,
    );
    assert_eq!(
        action,
        Action::WriteToTun(0, &data, u32::from_be_bytes([172, 16, 0, 1]))
    );
}

#[test]
fn encapsulate_needs_a_complete_handshake() {
    let mut peer = client();
    let packet = ipv4_packet([10, 0, 0, 5], [10, 0, 1, 1], b"ping");
    let mut buf = [0u8; 0];
    assert_eq!(peer.encapsulate(&packet, &mut buf), Action::Nothing);

    let name = PeerName::new("srv").unwrap();
    let mut buf = [0u8; 105];
    peer.initiate_handshake(name.as_ref(), &mut buf);
    let mut buf = [0u8; 0];
    assert_eq!(peer.encapsulate(&packet, &mut buf), Action::Nothing);

    let mut buf = [0u8; 5];
    peer.handle_incoming_packet(
        Packet::HandshakeResponse(HandshakeResponse {
            assigned_idx: 9,
            sender_idx: 0,
        }),
        &mut buf,
    );
    let mut buf = [0u8; 64];
    let action = peer.encapsulate(&packet, &mut buf);
    let mut expected = vec![3, 9, 0, 0, 0];
    expected.extend_from_slice(&packet);
    assert_eq!(action, Action::WriteToNetwork(0, &expected));
    assert_eq!(
        peer.handshake_state(),
        HandshakeState::Connected { remote_idx: 9 }
    );
}

#[test]
fn set_endpoint_twice_with_one_address() {
    let mut peer: Peer<u32> = Peer::default();
    let a = addr([203, 0, 113, 5], 40000);
    assert_eq!(peer.set_endpoint(a), (true, None));
    peer.connect_endpoint(17);
    assert_eq!(peer.endpoint().addr, Some(a));
    assert_eq!(peer.endpoint().conn, Some(17));
    assert_eq!(peer.set_endpoint(a), (false, None));
    assert_eq!(peer.endpoint().addr, Some(a));
    assert_eq!(peer.endpoint().conn, Some(17));
}

#[test]
fn a_new_address_hands_out_the_old_socket() {
    let mut peer: Peer<u32> = Peer::default();
    let a = addr([203, 0, 113, 5], 40000);
    let b = addr([203, 0, 113, 5], 40001);
    peer.set_endpoint(a);
    peer.connect_endpoint(17);
    assert_eq!(peer.set_endpoint(b), (true, Some(17)));
    assert_eq!(peer.endpoint().addr, Some(b));
    assert_eq!(peer.endpoint().conn, None);
}

#[test]
fn allowed_networks_of_a_peer() {
    let mut peer: Peer<u32> = Peer::default();
    assert!(!peer.is_allowed_ip(u32::from_be_bytes([10, 0, 0, 1])));
    peer.add_allowed_ip(u32::from_be_bytes([10, 0, 0, 77]), 24);
    peer.add_allowed_ip(u32::from_be_bytes([192, 168, 1, 1]), 32);
    assert!(peer.is_allowed_ip(u32::from_be_bytes([10, 0, 0, 1])));
    assert!(peer.is_allowed_ip(u32::from_be_bytes([10, 0, 0, 255])));
    assert!(!peer.is_allowed_ip(u32::from_be_bytes([10, 0, 1, 0])));
    assert!(peer.is_allowed_ip(u32::from_be_bytes([192, 168, 1, 1])));
    assert!(!peer.is_allowed_ip(u32::from_be_bytes([192, 168, 1, 2])));
    assert_eq!(peer.allowed_ips().iter().len(), 2);
    assert_eq!(peer.local_idx(), 0);
}

#[test]
fn configured_peer() {
    let peer: Peer<u32> = Peer::configured(
        Some(addr([198, 51, 100, 2], 19988)),
        &[(u32::from_be_bytes([10, 1, 2, 3]), 16)],
    );
    assert_eq!(peer.endpoint().addr, Some(addr([198, 51, 100, 2], 19988)));
    assert_eq!(peer.endpoint().conn, None);
    assert_eq!(peer.handshake_state(), HandshakeState::Initial);
    assert!(peer.is_allowed_ip(u32::from_be_bytes([10, 1, 200, 200])));
    assert!(!peer.is_allowed_ip(u32::from_be_bytes([10, 2, 0, 0])));
}
