//! The configuration: one interface and any number of peers, made from the
//! sections of a configuration file whose values are still text.

use crate::allowed_ip::{net_canonical, IpAddress};
use crate::peer::SockAddr;
use crate::text::lemma_split_shortens;
use crate::text::{decimal_up_to, parse_decimal, split_first, split_once, trim, trimmed};
use ip_network::{IpNetworkParseError, Ipv4Network};
use vstd::prelude::*;
use vstd::string::StrSliceExecFns;

verus! {

/// The port to listen on where the configuration names none.
pub const DEFAULT_LISTEN_PORT: u16 = 19988;

/// Longest prefix of an IPv4 network.
pub const MAX_PREFIX: u8 = 32;

/// `ip_network::IpNetworkParseError`, taken as it is: the reason why a
/// text is no network, carried along and never looked into.
#[verifier::external_type_specification]
#[verifier::external_body]
pub struct ExIpNetworkParseError(IpNetworkParseError);

/// Why a configuration is refused.
#[derive(Debug, PartialEq)]
pub enum ConfError {
    /// The interface's address is not `<ipv4>/<prefix>`; the text says in
    /// which part.
    IpFormat(String),
    /// An entry of a peer's allowed networks is no network.
    IpNetworkParseError(IpNetworkParseError),
    /// There is more than one interface section.
    ExtraInterface,
    /// There is no interface section.
    MissingInterface,
}

/// A [`ConfError`] as a mathematical value.
pub enum ConfErrorView {
    IpFormat(Seq<char>),
    IpNetworkParseError,
    ExtraInterface,
    MissingInterface,
}

impl View for ConfError {
    type V = ConfErrorView;

    open spec fn view(&self) -> ConfErrorView {
        match self {
            ConfError::IpFormat(text) => ConfErrorView::IpFormat(text@),
            ConfError::IpNetworkParseError(_) => ConfErrorView::IpNetworkParseError,
            ConfError::ExtraInterface => ConfErrorView::ExtraInterface,
            ConfError::MissingInterface => ConfErrorView::MissingInterface,
        }
    }
}

/// A configuration: the local interface and the peers, in the order of
/// their sections.
#[derive(Debug, PartialEq)]
pub struct Conf {
    pub interface: InterfaceConf,
    pub peers: Vec<PeerConf>,
}

/// The local interface: the device's name, its address with the prefix of
/// its network, and the port it listens on.
#[derive(Debug, PartialEq)]
pub struct InterfaceConf {
    pub name: String,
    pub address: (u32, u8),
    pub listen_port: u16,
}

/// A peer: its name, where it is reached if that is known beforehand, and
/// the networks it may send from.
#[derive(Debug, PartialEq)]
pub struct PeerConf {
    pub name: String,
    pub endpoint: Option<SockAddr>,
    pub allowed_ips: Vec<(u32, u8)>,
}

/// A section of the configuration file as it was read, its values still
/// text.
#[derive(Debug, Eq, PartialEq)]
#[allow(non_snake_case)]
pub enum Section {
    Interface { Name: String, Address: String, ListenPort: Option<u16> },
    Peer { Name: String, Endpoint: Option<String>, AllowedIPs: Option<String> },
}

/// An [`InterfaceConf`] as a mathematical value.
pub struct InterfaceView {
    pub name: Seq<char>,
    pub address: (u32, u8),
    pub listen_port: u16,
}

/// A [`PeerConf`] as a mathematical value.
pub struct PeerView {
    pub name: Seq<char>,
    pub endpoint: Option<SockAddr>,
    pub allowed_ips: Seq<(u32, u8)>,
}

/// A [`Conf`] as a mathematical value.
pub struct ConfView {
    pub interface: InterfaceView,
    pub peers: Seq<PeerView>,
}

/// A [`Section`] as a mathematical value.
pub enum SectionView {
    Interface { name: Seq<char>, address: Seq<char>, listen_port: Option<u16> },
    Peer { name: Seq<char>, endpoint: Option<Seq<char>>, allowed_ips: Option<Seq<char>> },
}

impl View for InterfaceConf {
    type V = InterfaceView;

    open spec fn view(&self) -> InterfaceView {
        InterfaceView { name: self.name@, address: self.address, listen_port: self.listen_port }
    }
}

impl View for PeerConf {
    type V = PeerView;

    open spec fn view(&self) -> PeerView {
        PeerView { name: self.name@, endpoint: self.endpoint, allowed_ips: self.allowed_ips@ }
    }
}

impl View for Conf {
    type V = ConfView;

    open spec fn view(&self) -> ConfView {
        ConfView {
            interface: self.interface@,
            peers: Seq::new(self.peers@.len(), |i: int| self.peers@[i]@),
        }
    }
}

impl View for Section {
    type V = SectionView;

    open spec fn view(&self) -> SectionView {
        match self {
            Section::Interface { Name, Address, ListenPort } => SectionView::Interface {
                name: Name@,
                address: Address@,
                listen_port: *ListenPort,
            },
            Section::Peer { Name, Endpoint, AllowedIPs } => SectionView::Peer {
                name: Name@,
                endpoint: match Endpoint {
                    Some(text) => Some(text@),
                    None => None,
                },
                allowed_ips: match AllowedIPs {
                    Some(text) => Some(text@),
                    None => None,
                },
            },
        }
    }
}

impl Clone for InterfaceConf {
    fn clone(&self) -> (copy: Self)
        ensures
            copy@ == self@,
    {
        InterfaceConf {
            name: self.name.clone(),
            address: (self.address.0, self.address.1),
            listen_port: self.listen_port,
        }
    }
}

impl Clone for PeerConf {
    fn clone(&self) -> (copy: Self)
        ensures
            copy@ == self@,
    {
        let mut allowed_ips: Vec<(u32, u8)> = Vec::new();
        let n = self.allowed_ips.len();
        let mut i: usize = 0;
        while i < n
            invariant
                i <= n,
                n == self.allowed_ips@.len(),
                allowed_ips@ == self.allowed_ips@.take(i as int),
            decreases n - i,
        {
            let (ip, cidr) = self.allowed_ips[i];
            allowed_ips.push((ip, cidr));
            proof {
                assert(allowed_ips@ =~= self.allowed_ips@.take(i + 1));
            }
            i += 1;
        }
        proof {
            assert(self.allowed_ips@.take(n as int) =~= self.allowed_ips@);
        }
        PeerConf { name: self.name.clone(), endpoint: self.endpoint, allowed_ips }
    }
}

/// The byte that `s` writes as a part of a dotted address: one to three
/// digits, no zero before another digit, and no more than 255.
pub open spec fn octet_of(s: Seq<char>) -> Option<nat> {
    if 1 <= s.len() <= 3 && (s.len() > 1 ==> s[0] != '0') {
        decimal_up_to(s, 255)
    } else {
        None
    }
}

/// The IPv4 address that `s` writes: four such bytes with a dot between one
/// and the next, and nothing else.
pub open spec fn ipv4_of(s: Seq<char>) -> Option<u32> {
    match split_first(s, '.') {
        Some((a, after_a)) => match split_first(after_a, '.') {
            Some((b, after_b)) => match split_first(after_b, '.') {
                Some((c, d)) => match (octet_of(a), octet_of(b), octet_of(c), octet_of(d)) {
                    (Some(a), Some(b), Some(c), Some(d)) => Some(
                        (a * 16777216 + b * 65536 + c * 256 + d) as u32,
                    ),
                    _ => None,
                },
                None => None,
            },
            None => None,
        },
        None => None,
    }
}

/// The number up to 255 that `s` writes: digits, after a plus sign or
/// without one.
pub open spec fn u8_of(s: Seq<char>) -> Option<u8> {
    let digits = if s.len() > 0 && s[0] == '+' {
        s.skip(1)
    } else {
        s
    };
    match decimal_up_to(digits, 255) {
        Some(value) => Some(value as u8),
        None => None,
    }
}

/// The address and port that `s` writes: an IPv4 address, a colon, and a
/// port up to 65535 in digits.
pub open spec fn socket_addr_of(s: Seq<char>) -> Option<SockAddr> {
    match split_first(s, ':') {
        Some((ip, port)) => match (ipv4_of(ip), decimal_up_to(port, 65535)) {
            (Some(ip), Some(port)) => Some(SockAddr { ip, port: port as u16 }),
            _ => None,
        },
        None => None,
    }
}

/// The address and prefix length that `s` writes as `<ipv4>/<prefix>`, cut
/// at the first slash, or the message that says which part is wrong. The
/// address is kept as written, host bits and all.
pub open spec fn cidr_of(s: Seq<char>) -> Result<(u32, u8), Seq<char>> {
    match split_first(s, '/') {
        None => Err("Invalid CIDR format: {cidr}"@),
        Some((ip, subnet)) => match ipv4_of(ip) {
            None => Err("Invalid IP address: {cidr}"@),
            Some(ip) => match u8_of(subnet) {
                None => Err("Invalid subnet mask: {cidr}"@),
                Some(subnet) => if subnet > MAX_PREFIX {
                    Err("Subnet mask must be in the range 0-32: {cidr}"@)
                } else {
                    Ok((ip, subnet))
                },
            },
        },
    }
}

/// The network that `text` writes as `<ipv4>/<prefix>`, host bits cleared,
/// as `Ipv4Network::from_str_truncate` reads it; nothing where it reads
/// none.
pub uninterp spec fn ipv4_network_of(text: Seq<char>) -> Option<(u32, u8)>;

/// `Ipv4Network::from_str_truncate`, then `network_address` and `netmask`:
/// the network that `text` names. The prefix of a network is 32 at most
/// and its host bits are zero.
#[verifier::external_body]
fn parse_network(text: &str) -> (r: Result<(u32, u8), IpNetworkParseError>)
    ensures
        r is Ok <==> ipv4_network_of(text@) is Some,
        r matches Ok(net) ==> ipv4_network_of(text@) == Some(net) && net_canonical(
            (IpAddress::V4(net.0), net.1),
        ),
{
    let network = Ipv4Network::from_str_truncate(text)?;
    Ok((u32::from(network.network_address()), network.netmask()))
}

/// The networks that the list `s` names: its parts between commas, white
/// space around them dropped and empty parts passed over, each read as a
/// network. Nothing where a part is no network.
pub open spec fn allowed_ips_of(s: Seq<char>) -> Option<Seq<(u32, u8)>>
    decreases s.len(),
{
    match split_first(s, ',') {
        None => item_then(trimmed(s), Some(Seq::empty())),
        Some((head, rest)) => item_then(trimmed(head), allowed_ips_of(rest)),
    }
}

/// The networks of a list that starts with the part `item` and goes on
/// with the networks `rest`.
pub open spec fn item_then(item: Seq<char>, rest: Option<Seq<(u32, u8)>>) -> Option<
    Seq<(u32, u8)>,
> {
    if item.len() == 0 {
        rest
    } else {
        match (ipv4_network_of(item), rest) {
            (Some(net), Some(rest)) => Some(seq![net] + rest),
            _ => None,
        }
    }
}

/// Reads a part of a dotted address.
fn parse_octet(s: &str) -> (r: Option<u32>)
    ensures
        match octet_of(s@) {
            Some(value) => r == Some(value as u32),
            None => r is None,
        },
{
    let n = s.unicode_len();
    if n < 1 || n > 3 {
        return None;
    }
    if n > 1 && s.get_char(0) == '0' {
        return None;
    }
    parse_decimal(s, 255)
}

/// Reads an IPv4 address in dotted notation.
pub fn parse_ipv4(s: &str) -> (r: Option<u32>)
    ensures
        r == ipv4_of(s@),
{
    let (a, rest) = match split_once(s, '.') {
        Some(parts) => parts,
        None => {
            return None;
        },
    };
    let (b, rest) = match split_once(rest, '.') {
        Some(parts) => parts,
        None => {
            return None;
        },
    };
    let (c, d) = match split_once(rest, '.') {
        Some(parts) => parts,
        None => {
            return None;
        },
    };
    match (parse_octet(a), parse_octet(b), parse_octet(c), parse_octet(d)) {
        (Some(a), Some(b), Some(c), Some(d)) => Some(a * 16777216 + b * 65536 + c * 256 + d),
        _ => None,
    }
}

/// Reads a number up to 255, with or without a plus sign before it.
pub fn parse_u8(s: &str) -> (r: Option<u8>)
    ensures
        r == u8_of(s@),
{
    let n = s.unicode_len();
    let digits = if n > 0 && s.get_char(0) == '+' {
        s.substring_char(1, n)
    } else {
        s
    };
    match parse_decimal(digits, 255) {
        Some(value) => Some(value as u8),
        None => None,
    }
}

/// Reads `<ipv4>:<port>`.
pub fn parse_endpoint(s: &str) -> (r: Option<SockAddr>)
    ensures
        r == socket_addr_of(s@),
{
    let (ip, port) = match split_once(s, ':') {
        Some(parts) => parts,
        None => {
            return None;
        },
    };
    match (parse_ipv4(ip), parse_decimal(port, 65535)) {
        (Some(ip), Some(port)) => Some(SockAddr { ip, port: port as u16 }),
        _ => None,
    }
}

/// Reads `<ipv4>/<prefix>` with a prefix of 32 at most. The address is
/// returned as written.
pub fn parse_cidr(cidr: &str) -> (r: Result<(u32, u8), ConfError>)
    ensures
        match cidr_of(cidr@) {
            Ok(address) => r == Ok::<(u32, u8), ConfError>(address),
            Err(message) => r is Err && r->Err_0@ == ConfErrorView::IpFormat(message),
        },
{
    let (ip_str, subnet_str) = match split_once(cidr, '/') {
        Some(parts) => parts,
        None => {
            return Err(ConfError::IpFormat("Invalid CIDR format: {cidr}".to_owned()));
        },
    };
    let ip = match parse_ipv4(ip_str) {
        Some(ip) => ip,
        None => {
            return Err(ConfError::IpFormat("Invalid IP address: {cidr}".to_owned()));
        },
    };
    let subnet = match parse_u8(subnet_str) {
        Some(subnet) => subnet,
        None => {
            return Err(ConfError::IpFormat("Invalid subnet mask: {cidr}".to_owned()));
        },
    };
    if subnet > MAX_PREFIX {
        return Err(
            ConfError::IpFormat("Subnet mask must be in the range 0-32: {cidr}".to_owned()),
        );
    }
    Ok((ip, subnet))
}

/// Reads a list of networks separated by commas.
pub fn parse_allowed_ips(text: &str) -> (r: Result<Vec<(u32, u8)>, ConfError>)
    ensures
        match allowed_ips_of(text@) {
            Some(networks) => r matches Ok(list) && list@ == networks,
            None => r is Err && r->Err_0@ == ConfErrorView::IpNetworkParseError,
        },
        r matches Ok(list) ==> forall|i: int|
            0 <= i < list@.len() ==> net_canonical(
                (IpAddress::V4((#[trigger] list@[i]).0), list@[i].1),
            ),
{
    let mut out: Vec<(u32, u8)> = Vec::new();
    let mut rest: &str = text;
    loop
        invariant
            allowed_ips_of(text@) == match allowed_ips_of(rest@) {
                Some(more) => Some(out@ + more),
                None => None,
            },
            forall|i: int|
                0 <= i < out@.len() ==> net_canonical(
                    (IpAddress::V4((#[trigger] out@[i]).0), out@[i].1),
                ),
        decreases rest@.len(),
    {
        proof {
            lemma_split_shortens(rest@, ',');
        }
        let (head, tail) = match split_once(rest, ',') {
            Some((head, tail)) => (head, Some(tail)),
            None => (rest, None),
        };
        let item = trim(head);
        if item.unicode_len() > 0 {
            match parse_network(item) {
                Ok(net) => {
                    let ghost before = out@;
                    out.push(net);
                    proof {
                        match tail {
                            Some(t) => {
                                if let Some(more) = allowed_ips_of(t@) {
                                    assert(out@ + more =~= before + (seq![net] + more));
                                }
                            },
                            None => {
                                assert(out@ + Seq::<(u32, u8)>::empty() =~= before + (seq![net]
                                    + Seq::<(u32, u8)>::empty()));
                            },
                        }
                    }
                },
                Err(e) => {
                    return Err(ConfError::IpNetworkParseError(e));
                },
            }
        }
        match tail {
            Some(t) => {
                rest = t;
            },
            None => {
                proof {
                    assert(out@ + Seq::<(u32, u8)>::empty() =~= out@);
                }
                return Ok(out);
            },
        }
    }
}

/// The port that a section names, or the default.
pub open spec fn port_or_default(listen_port: Option<u16>) -> u16 {
    match listen_port {
        Some(port) => port,
        None => DEFAULT_LISTEN_PORT,
    }
}

/// The text of a value that may be missing: empty where it is.
pub open spec fn text_or_empty(text: Option<Seq<char>>) -> Seq<char> {
    match text {
        Some(text) => text,
        None => Seq::empty(),
    }
}

/// The endpoint that a peer section names: none where the value is
/// missing, and none where it is not `<ipv4>:<port>`.
pub open spec fn endpoint_of(text: Option<Seq<char>>) -> Option<SockAddr> {
    match text {
        Some(text) => socket_addr_of(text),
        None => None,
    }
}

/// The configuration that `sections` make when read in turn after an
/// interface and peers were already found, or the first error met.
///
/// A peer section adds a peer; its allowed networks must all be networks.
/// The interface section gives the interface; its address, white space
/// around it dropped, must be `<ipv4>/<prefix>`, and there is exactly one
/// such section.
pub open spec fn conf_from(
    sections: Seq<SectionView>,
    interface: Option<InterfaceView>,
    peers: Seq<PeerView>,
) -> Result<ConfView, ConfErrorView>
    decreases sections.len(),
{
    if sections.len() == 0 {
        match interface {
            Some(interface) => Ok(ConfView { interface, peers }),
            None => Err(ConfErrorView::MissingInterface),
        }
    } else {
        match sections[0] {
            SectionView::Peer { name, endpoint, allowed_ips } => match allowed_ips_of(
                text_or_empty(allowed_ips),
            ) {
                None => Err(ConfErrorView::IpNetworkParseError),
                Some(networks) => conf_from(
                    sections.skip(1),
                    interface,
                    peers.push(
                        PeerView { name, endpoint: endpoint_of(endpoint), allowed_ips: networks },
                    ),
                ),
            },
            SectionView::Interface { name, address, listen_port } => if interface is None {
                match cidr_of(trimmed(address)) {
                    Err(message) => Err(ConfErrorView::IpFormat(message)),
                    Ok(address) => conf_from(
                        sections.skip(1),
                        Some(
                            InterfaceView {
                                name,
                                address,
                                listen_port: port_or_default(listen_port),
                            },
                        ),
                        peers,
                    ),
                }
            } else {
                Err(ConfErrorView::ExtraInterface)
            },
        }
    }
}

/// The configuration that `sections` make, or why they make none.
pub open spec fn conf_of(sections: Seq<SectionView>) -> Result<ConfView, ConfErrorView> {
    conf_from(sections, None, Seq::empty())
}

/// The sections as mathematical values.
pub open spec fn section_views(sections: Seq<Section>) -> Seq<SectionView> {
    Seq::new(sections.len(), |i: int| sections[i]@)
}

/// The peers as mathematical values.
pub open spec fn peer_views(peers: Seq<PeerConf>) -> Seq<PeerView> {
    Seq::new(peers.len(), |i: int| peers[i]@)
}

impl ConfView {
    /// Every prefix in the configuration is 32 at most.
    pub open spec fn prefixes_fit(self) -> bool {
        &&& self.interface.address.1 <= MAX_PREFIX
        &&& forall|i: int, j: int|
            0 <= i < self.peers.len() && 0 <= j < self.peers[i].allowed_ips.len() ==> (
            #[trigger] self.peers[i].allowed_ips[j]).1 <= MAX_PREFIX
    }

    /// Every allowed network is written with its host bits zero.
    pub open spec fn networks_canonical(self) -> bool {
        forall|i: int, j: int|
            0 <= i < self.peers.len() && 0 <= j < self.peers[i].allowed_ips.len()
                ==> net_canonical(
                (
                    IpAddress::V4((#[trigger] self.peers[i].allowed_ips[j]).0),
                    self.peers[i].allowed_ips[j].1,
                ),
            )
    }
}

impl Conf {
    /// The port to listen on where the configuration names none.
    pub const DEFAULT_LISTEN_PORT: u16 = 19988;

    /// Makes a configuration of the sections of a configuration file.
    ///
    /// The sections are taken in turn and the first error ends the
    /// reading. An endpoint that cannot be read counts as none given.
    pub fn parse_from(sections: &[Section]) -> (r: Result<Conf, ConfError>)
        ensures
            match conf_of(section_views(sections@)) {
                Ok(conf) => r matches Ok(made) && made@ == conf,
                Err(e) => r matches Err(error) && error@ == e,
            },
            r matches Ok(made) ==> made@.prefixes_fit() && made@.networks_canonical(),
    {
        let mut interface: Option<InterfaceConf> = None;
        let mut peers: Vec<PeerConf> = Vec::new();
        let ghost all = section_views(sections@);
        let n = sections.len();
        let mut i: usize = 0;
        proof {
            assert(all.skip(0) =~= all);
            assert(peer_views(peers@) =~= Seq::<PeerView>::empty());
        }
        while i < n
            invariant
                i <= n,
                n == sections@.len(),
                all == section_views(sections@),
                conf_of(all) == conf_from(
                    all.skip(i as int),
                    match interface {
                        Some(found) => Some(found@),
                        None => None,
                    },
                    peer_views(peers@),
                ),
                interface matches Some(found) ==> found.address.1 <= MAX_PREFIX,
                forall|k: int, j: int|
                    0 <= k < peers@.len() && 0 <= j < peers@[k].allowed_ips@.len()
                        ==> net_canonical(
                        (
                            IpAddress::V4((#[trigger] peers@[k].allowed_ips@[j]).0),
                            peers@[k].allowed_ips@[j].1,
                        ),
                    ),
            decreases n - i,
        {
            proof {
                assert(all.skip(i as int)[0] == sections@[i as int]@);
                assert(all.skip(i as int).skip(1) =~= all.skip(i + 1));
            }
            match &sections[i] {
                Section::Peer { Name, Endpoint, AllowedIPs } => {
                    let text: &str = match AllowedIPs {
                        Some(text) => text.as_str(),
                        None => {
                            proof {
                                reveal_strlit("");
                                assert(""@ =~= Seq::<char>::empty());
                            }
                            ""
                        },
                    };
                    let allowed_ips = match parse_allowed_ips(text) {
                        Ok(list) => list,
                        Err(e) => {
                            return Err(e);
                        },
                    };
                    let endpoint = match Endpoint {
                        Some(ep) => parse_endpoint(ep.as_str()),
                        None => None,
                    };
                    let peer = PeerConf { name: Name.clone(), allowed_ips, endpoint };
                    let ghost before = peer_views(peers@);
                    peers.push(peer);
                    proof {
                        assert(peer_views(peers@) =~= before.push(peer@));
                    }
                },
                Section::Interface { Name, Address, ListenPort } => {
                    if interface.is_none() {
                        let address = match parse_cidr(trim(Address.as_str())) {
                            Ok(address) => address,
                            Err(e) => {
                                return Err(e);
                            },
                        };
                        let listen_port = match ListenPort {
                            Some(port) => *port,
                            None => DEFAULT_LISTEN_PORT,
                        };
                        interface = Some(InterfaceConf { name: Name.clone(), address, listen_port });
                    } else {
                        return Err(ConfError::ExtraInterface);
                    }
                },
            }
            i += 1;
        }
        match interface {
            Some(interface) => {
                let made = Conf { interface, peers };
                proof {
                    assert(made@.peers =~= peer_views(peers@));
                }
                Ok(made)
            },
            None => Err(ConfError::MissingInterface),
        }
    }
}

} // verus!
