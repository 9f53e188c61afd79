use caetun::conf::{
    parse_allowed_ips, parse_cidr, parse_endpoint, parse_ipv4, parse_u8, Conf, ConfError,
    InterfaceConf, PeerConf, Section, DEFAULT_LISTEN_PORT,
};
use caetun::peer::SockAddr;
use ip_network::{IpNetworkError, IpNetworkParseError};

fn ip(octets: [u8; 4]) -> u32 {
    u32::from_be_bytes(octets)
}

fn interface(name: &str, address: &str, listen_port: Option<u16>) -> Section {
    Section::Interface {
        Name: name.to_string(),
        Address: address.to_string(),
        ListenPort: listen_port,
    }
}

fn peer(name: &str, endpoint: Option<&str>, allowed_ips: Option<&str>) -> Section {
    Section::Peer {
        Name: name.to_string(),
        Endpoint: endpoint.map(|s| s.to_string()),
        AllowedIPs: allowed_ips.map(|s| s.to_string()),
    }
}

#[test]
fn test_parse_config() {
    let input = vec![
        interface("server", "192.0.2.2/24", Some(19988)),
        peer("client1", None, None),
        peer("client2", None, Some("192.0.2.1/24")),
    ];

    let conf = Conf::parse_from(&input).unwrap();
    assert_eq!(
        Conf {
            interface: InterfaceConf {
                name: "server".into(),
                address: (ip([192, 0, 2, 2]), 24),
                listen_port: 19988
            },
            peers: vec![
                PeerConf {
                    name: "client1".into(),
                    endpoint: None,
                    allowed_ips: vec![],
                },
                PeerConf {
                    name: "client2".into(),
                    endpoint: None,
                    allowed_ips: vec![(ip([192, 0, 2, 0]), 24)],
                }
            ],
        },
        conf
    );
}

#[test]
fn listen_port_defaults() {
    let conf = Conf::parse_from(&[interface("a", "10.0.0.1/8", None)]).unwrap();
    assert_eq!(conf.interface.listen_port, 19988);
    assert_eq!(DEFAULT_LISTEN_PORT, 19988);
    assert_eq!(Conf::DEFAULT_LISTEN_PORT, 19988);
    assert_eq!(conf.interface.address, (ip([10, 0, 0, 1]), 8));
    assert!(conf.peers.is_empty());
}

#[test]
fn interface_may_follow_the_peers() {
    let conf = Conf::parse_from(&[
        peer("p", Some("198.51.100.2:19988"), Some("10.0.0.0/24,10.0.1.7/24")),
        interface("a", "  10.0.0.1/8\t", Some(1)),
    ])
    .unwrap();
    assert_eq!(conf.interface.address, (ip([10, 0, 0, 1]), 8));
    assert_eq!(conf.interface.listen_port, 1);
    assert_eq!(
        conf.peers,
        vec![PeerConf {
            name: "p".into(),
            endpoint: Some(SockAddr {
                ip: ip([198, 51, 100, 2]),
                port: 19988
            }),
            allowed_ips: vec![(ip([10, 0, 0, 0]), 24), (ip([10, 0, 1, 0]), 24)],
        }]
    );
}

#[test]
fn interface_sections_are_counted() {
    assert_eq!(Conf::parse_from(&[]), Err(ConfError::MissingInterface));
    assert_eq!(
        Conf::parse_from(&[peer("p", None, None)]),
        Err(ConfError::MissingInterface)
    );
    assert_eq!(
        Conf::parse_from(&[
            interface("a", "10.0.0.1/8", None),
            peer("p", None, None),
            interface("b", "10.0.0.2/8", None),
        ]),
        Err(ConfError::ExtraInterface)
    );
}

#[test]
fn the_first_error_ends_the_reading() {
    assert_eq!(
        Conf::parse_from(&[
            interface("a", "10.0.0.1", None),
            interface("b", "10.0.0.2/8", None),
        ]),
        Err(ConfError::IpFormat(
            "Invalid CIDR format: {cidr}".to_string()
        ))
    );
    assert_eq!(
        Conf::parse_from(&[
            interface("a", "10.0.0.1/8", None),
            peer("p", None, Some("10.0.0.0/33")),
            interface("b", "10.0.0.2/8", None),
        ]),
        Err(ConfError::IpNetworkParseError(
            IpNetworkParseError::IpNetworkError(IpNetworkError::NetmaskError(33))
        ))
    );
}

#[test]
fn interface_address_errors() {
    let message = |text: &str| match parse_cidr(text) {
        Err(ConfError::IpFormat(message)) => message,
        other => panic!("unexpected result {:?}", other),
    };
    assert_eq!(message("10.0.0.1"), "Invalid CIDR format: {cidr}");
    assert_eq!(message(""), "Invalid CIDR format: {cidr}");
    assert_eq!(message("10.0.0/8"), "Invalid IP address: {cidr}");
    assert_eq!(message("/8"), "Invalid IP address: {cidr}");
    assert_eq!(message("10.0.0.256/8"), "Invalid IP address: {cidr}");
    assert_eq!(message("10.0.0.1/"), "Invalid subnet mask: {cidr}");
    assert_eq!(message("10.0.0.1/8/9"), "Invalid subnet mask: {cidr}");
    assert_eq!(message("10.0.0.1/256"), "Invalid subnet mask: {cidr}");
    assert_eq!(message("10.0.0.1/-1"), "Invalid subnet mask: {cidr}");
    assert_eq!(
        message("10.0.0.1/33"),
        "Subnet mask must be in the range 0-32: {cidr}"
    );
    assert_eq!(
        message("10.0.0.1/255"),
        "Subnet mask must be in the range 0-32: {cidr}"
    );
}

#[test]
fn interface_address_is_kept_as_written() {
    assert_eq!(parse_cidr("192.0.2.2/24"), Ok((ip([192, 0, 2, 2]), 24)));
    assert_eq!(parse_cidr("0.0.0.0/0"), Ok((0, 0)));
    assert_eq!(
        parse_cidr("255.255.255.255/32"),
        Ok((u32::MAX, 32))
    );
    assert_eq!(parse_cidr("10.0.0.1/+8"), Ok((ip([10, 0, 0, 1]), 8)));
    assert_eq!(parse_cidr("10.0.0.1/008"), Ok((ip([10, 0, 0, 1]), 8)));
}

#[test]
fn dotted_addresses() {
    assert_eq!(parse_ipv4("127.0.0.1"), Some(ip([127, 0, 0, 1])));
    assert_eq!(parse_ipv4("0.0.0.0"), Some(0));
    assert_eq!(parse_ipv4("255.255.255.255"), Some(u32::MAX));
    assert_eq!(parse_ipv4("1.2.3.4"), Some(0x0102_0304));
    for text in [
        "",
        "1",
        "1.2.3",
        "1.2.3.",
        ".1.2.3",
        "1..2.3",
        "1.2.3.4.5",
        "1.2.3.4.",
        "01.2.3.4",
        "1.2.3.04",
        "1.2.3.00",
        "256.0.0.0",
        "1.2.3.1000",
        "1.2.3.4 ",
        " 1.2.3.4",
        "1.2.3.+4",
        "1.2.3.-4",
        "a.b.c.d",
        "1.2.3.4/5",
        "١.٢.٣.٤",
    ] {
        assert_eq!(parse_ipv4(text), None, "{:?}", text);
    }
}

#[test]
fn numbers_up_to_255() {
    assert_eq!(parse_u8("0"), Some(0));
    assert_eq!(parse_u8("255"), Some(255));
    assert_eq!(parse_u8("+7"), Some(7));
    assert_eq!(parse_u8("007"), Some(7));
    assert_eq!(parse_u8("+000000000000000000000000000000255"), Some(255));
    for text in ["", "+", "-", "-0", "256", "1000", "99999999999999999999", "1 ", "++1", "1+", "٣"] {
        assert_eq!(parse_u8(text), None, "{:?}", text);
    }
}

#[test]
fn endpoints() {
    assert_eq!(
        parse_endpoint("198.51.100.2:19988"),
        Some(SockAddr {
            ip: ip([198, 51, 100, 2]),
            port: 19988
        })
    );
    assert_eq!(
        parse_endpoint("0.0.0.0:0"),
        Some(SockAddr { ip: 0, port: 0 })
    );
    assert_eq!(
        parse_endpoint("1.2.3.4:65535"),
        Some(SockAddr {
            ip: 0x0102_0304,
            port: 65535
        })
    );
    assert_eq!(
        parse_endpoint("1.2.3.4:00080"),
        Some(SockAddr {
            ip: 0x0102_0304,
            port: 80
        })
    );
    for text in [
        "",
        "1.2.3.4",
        "1.2.3.4:",
        ":80",
        "1.2.3.4:65536",
        "1.2.3.4:+80",
        "1.2.3.4:80:90",
        "1.2.3:80",
        "example.org:80",
        "[::1]:80",
        "1.2.3.4: 80",
    ] {
        assert_eq!(parse_endpoint(text), None, "{:?}", text);
    }
}

#[test]
fn an_endpoint_that_cannot_be_read_counts_as_none() {
    let conf = Conf::parse_from(&[
        interface("a", "10.0.0.1/8", None),
        peer("p", Some("example.org:80"), None),
    ])
    .unwrap();
    assert_eq!(conf.peers[0].endpoint, None);
}

#[test]
fn lists_of_allowed_networks() {
    assert_eq!(parse_allowed_ips(""), Ok(vec![]));
    assert_eq!(parse_allowed_ips(" , ,\t,"), Ok(vec![]));
    assert_eq!(
        parse_allowed_ips("192.0.2.1/24"),
        Ok(vec![(ip([192, 0, 2, 0]), 24)])
    );
    assert_eq!(
        parse_allowed_ips(" 10.1.2.3/8 ,, 10.1.2.3/32,\u{a0}0.0.0.0/0\u{3000}"),
        Ok(vec![
            (ip([10, 0, 0, 0]), 8),
            (ip([10, 1, 2, 3]), 32),
            (0, 0)
        ])
    );
    assert_eq!(
        parse_allowed_ips("10.0.0.0/8,10.0.0.0"),
        Err(ConfError::IpNetworkParseError(
            IpNetworkParseError::InvalidFormatError
        ))
    );
    assert_eq!(
        parse_allowed_ips("10.0.0/8"),
        Err(ConfError::IpNetworkParseError(
            IpNetworkParseError::AddrParseError
        ))
    );
    assert_eq!(
        parse_allowed_ips("10.0.0.0/x, 10.0.0/8"),
        Err(ConfError::IpNetworkParseError(
            IpNetworkParseError::InvalidNetmaskFormat
        ))
    );
    assert_eq!(
        parse_allowed_ips("10.0.0.0 /8"),
        Err(ConfError::IpNetworkParseError(
            IpNetworkParseError::AddrParseError
        ))
    );
}

#[test]
fn configuration_records_are_copied_whole() {
    let peer = PeerConf {
        name: "p".into(),
        endpoint: Some(SockAddr { ip: 1, port: 2 }),
        allowed_ips: vec![(3, 4), (5, 6)],
    };
    assert_eq!(peer.clone(), peer);
    let interface = InterfaceConf {
        name: "i".into(),
        address: (7, 8),
        listen_port: 9,
    };
    assert_eq!(interface.clone(), interface);
}

#[test]
fn addresses_are_read_as_the_standard_library_reads_them() {
    let texts = [
        "", "0.0.0.0", "1.2.3.4", "255.255.255.255", "256.1.1.1", "1.2.3", "1.2.3.4.5",
        "01.1.1.1", "1.1.1.01", "0.0.0.00", "1.2.3.4 ", " 1.2.3.4", "1.2.3.4\n", "1,2,3,4",
        "1.2.3.-4", "1.2.3.+4", "1.2..4", ".1.2.3.4", "1.2.3.4.", "999.1.1.1", "1.2.3.0004",
        "0x1.2.3.4", "1.2.3.4/8", "127.1", "1.2.3.a", "192.168.100.200", "10.0.0.010",
        "000.0.0.0", "0.0.0.0.0", "1.2.3.4:80", "१.२.३.४", "1.2.3.４",
    ];
    for text in texts {
        let expected = ip_network::Ipv4Network::from_str_truncate(&format!("{}/32", text))
            .ok()
            .map(|network| u32::from(network.network_address()));
        assert_eq!(parse_ipv4(text), expected, "{:?}", text);
    }
    let texts = [
        "", "0", "8", "32", "255", "256", "+8", "-8", "+", "-", "++8", "+-8", "08", "0008",
        "+008", "8 ", " 8", "8a", "a", "0x8", "1e1", "99999999999999999999", "٨",
        "00000000000000000000000000000000000000255", "000000000000000000000000000000000000256",
    ];
    for text in texts {
        assert_eq!(parse_u8(text), text.parse::<u8>().ok(), "{:?}", text);
    }
    let texts = [
        "", "192.0.2.1/24", " 192.0.2.1/24", "192.0.2.1/24 ", "192.0.2.1/33", "192.0.2.1/+24",
        "192.0.2.1", "192.0.2/24", "/24", "192.0.2.1/", "192.0.2.1/24/1", "0.0.0.0/0",
        "255.255.255.255/32", "010.0.0.1/8", "10.0.0.1/008",
    ];
    for text in texts {
        let expected = if text.trim().is_empty() {
            Ok(vec![])
        } else {
            ip_network::Ipv4Network::from_str_truncate(text.trim())
                .map(|network| vec![(u32::from(network.network_address()), network.netmask())])
                .map_err(ConfError::IpNetworkParseError)
        };
        assert_eq!(parse_allowed_ips(text), expected, "{:?}", text);
    }
}

#[test]
fn white_space_is_trimmed_as_the_standard_library_trims_it() {
    for code in 0u32..0x3100 {
        let Some(c) = char::from_u32(code) else {
            continue;
        };
        assert_eq!(caetun::text::is_space(c), c.is_whitespace(), "{:?}", c);
        let text = format!("{}a{}b{}", c, c, c);
        assert_eq!(caetun::text::trim(&text), text.trim(), "{:?}", c);
    }
    assert_eq!(caetun::text::trim(""), "");
    assert_eq!(caetun::text::trim(" \t "), "");
    assert_eq!(caetun::text::trim("  a b  "), "a b");
    assert_eq!(caetun::text::split_once("a=b=c", '='), Some(("a", "b=c")));
    assert_eq!(caetun::text::split_once("abc", '='), None);
    assert_eq!(caetun::text::split_once("=", '='), Some(("", "")));
    assert_eq!(caetun::text::parse_decimal("65535", 65535), Some(65535));
    assert_eq!(caetun::text::parse_decimal("65536", 65535), None);
}
