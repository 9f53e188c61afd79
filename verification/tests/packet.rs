use caetun::packet::{
    HandshakeInit, HandshakeResponse, PackeParseError, Packet, PacketData, HANDSHAKE_INIT_SIZE,
};
use caetun::peer::PeerName;

#[test]
fn test_handshake_init() {
    let slice = [0u8; 100];

    let handshake_init = HandshakeInit {
        sender_name: PeerName::from(slice.as_slice()),
        assigned_idx: 9,
    };
    let mut dst = [0u8; 1024];
    let n = handshake_init.format(&mut dst);
    assert_eq!(HANDSHAKE_INIT_SIZE, n);

    let packet = Packet::parse_from(&dst[..n]).unwrap();
    assert_eq!(Packet::HandshakeInit(handshake_init), packet);
}

#[test]
fn test_packet_data() {
    let data = PacketData {
        sender_idx: 8,
        data: &[1, 2, 3, 4],
    };

    let mut dst = [0u8; 1024];
    let n = data.format(&mut dst);
    assert_eq!(5 + 4, n);

    let packet = Packet::parse_from(&dst[..n]).unwrap();
    assert_eq!(Packet::Data(data), packet);
}

#[test]
fn handshake_init_wire_bytes() {
    let name = [0u8; 100];
    let init = HandshakeInit {
        sender_name: PeerName::from(name.as_slice()),
        assigned_idx: 9,
    };
    let mut dst = [0xaau8; 200];
    let n = init.format(&mut dst);
    assert_eq!(n, 105);
    assert_eq!(dst[0], 0x01);
    assert_eq!(&dst[1..5], &[9, 0, 0, 0]);
    assert_eq!(&dst[5..105], &[0u8; 100][..]);
    assert_eq!(&dst[105..], &[0xaau8; 95][..]);
}

#[test]
fn data_wire_bytes() {
    let data = PacketData {
        sender_idx: 8,
        data: &[1, 2, 3, 4],
    };
    let mut dst = [0u8; 16];
    let n = data.format(&mut dst);
    assert_eq!(&dst[..n], &[3, 8, 0, 0, 0, 1, 2, 3, 4]);
}

#[test]
fn handshake_response_round_trip() {
    let response = HandshakeResponse {
        assigned_idx: 0x0102_0304,
        sender_idx: 0xfffe_fdfc,
    };
    let mut dst = [0u8; 9];
    let n = response.format(&mut dst);
    assert_eq!(n, 9);
    assert_eq!(dst, [2, 4, 3, 2, 1, 0xfc, 0xfd, 0xfe, 0xff]);
    assert_eq!(
        Packet::parse_from(&dst),
        Ok(Packet::HandshakeResponse(response))
    );
}

#[test]
fn empty_datagram_is_the_empty_frame() {
    assert_eq!(Packet::parse_from(&[]), Ok(Packet::Empty));
}

#[test]
fn data_frame_with_empty_payload() {
    let data = PacketData {
        sender_idx: 42,
        data: &[],
    };
    let mut dst = [0u8; 5];
    let n = data.format(&mut dst);
    assert_eq!(n, 5);
    assert_eq!(dst, [3, 42, 0, 0, 0]);
    assert_eq!(Packet::parse_from(&dst), Ok(Packet::Data(data)));
}

#[test]
fn unknown_tag_is_rejected_before_the_length() {
    assert_eq!(
        Packet::parse_from(&[0]),
        Err(PackeParseError::InvalidPacketType(0))
    );
    assert_eq!(
        Packet::parse_from(&[4, 0, 0, 0, 0, 0, 0, 0, 0]),
        Err(PackeParseError::InvalidPacketType(4))
    );
    assert_eq!(
        Packet::parse_from(&[255]),
        Err(PackeParseError::InvalidPacketType(255))
    );
}

#[test]
fn wrong_length_is_a_protocol_error() {
    assert_eq!(
        Packet::parse_from(&[1u8; 104]),
        Err(PackeParseError::ProtocolErr)
    );
    assert_eq!(
        Packet::parse_from(&[1u8; 106]),
        Err(PackeParseError::ProtocolErr)
    );
    assert_eq!(
        Packet::parse_from(&[2u8; 8]),
        Err(PackeParseError::ProtocolErr)
    );
    assert_eq!(
        Packet::parse_from(&[2u8; 10]),
        Err(PackeParseError::ProtocolErr)
    );
    assert_eq!(
        Packet::parse_from(&[3u8; 4]),
        Err(PackeParseError::ProtocolErr)
    );
    assert_eq!(Packet::parse_from(&[3]), Err(PackeParseError::ProtocolErr));
}

#[test]
fn peer_name_is_zero_padded() {
    let name = PeerName::new("srv").unwrap();
    let bytes = name.as_ref().as_slice().to_vec();
    assert_eq!(bytes.len(), 100);
    assert_eq!(&bytes[..3], b"srv");
    assert_eq!(&bytes[3..], &[0u8; 97][..]);
    assert_eq!(PeerName::max_len(), 100);
}

#[test]
fn peer_name_of_a_hundred_bytes_fits_and_one_more_does_not() {
    let fits = "a".repeat(100);
    let name = PeerName::new(&fits).unwrap();
    assert_eq!(name.as_ref().as_slice(), fits.as_bytes());
    let long = "a".repeat(101);
    let err = PeerName::new(&long).unwrap_err();
    assert_eq!(err.name, long);
}
