//! The device: the local node with its peers and the routes to them.
//!
//! A device decides and does no I/O. For every event it is told what
//! arrived and answers what to do; reading, writing and waiting are left to
//! its owner.

use crate::allowed_ip::lemma_longest_match;
use crate::allowed_ip::{
    all_canonical, lists_entries, longest_match, net_canonical, AllowedIps, IpAddress, Network,
};
use crate::ipv4::{ipv4_addresses, read_ipv4_addresses};
use crate::packet::{Frame, PackeParseError, Packet};
use crate::conf::{Conf, PeerConf, PeerView};
use crate::peer::{allowed_from, written, zero_padded};
use crate::peer::{
    Action, ActionView, Endpoint, Event, HandshakeState, NameTooLong, Peer, PeerName, SockAddr,
    PEER_NAME_MAX_LEN,
};
use vstd::utf8::encode_utf8;
use crate::poll::{SockID, Token};
use vstd::prelude::*;

verus! {

/// Size of the buffers that the device reads into and answers from: a
/// packet of 1500 bytes and four bytes to spare.
pub const BUF_SIZE: usize = 1504;

/// What a device is made from.
pub struct DeviceConfig<'a> {
    name: PeerName,
    use_connected_peer: bool,
    listen_port: u16,
    tun_name: &'a str,
}

impl<'a> DeviceConfig<'a> {
    /// The device's own name.
    pub closed spec fn spec_name(&self) -> Seq<u8> {
        self.name@
    }

    /// Name of the TUN interface.
    pub closed spec fn spec_tun_name(&self) -> &'a str {
        self.tun_name
    }

    /// The port that the listening socket is bound to.
    pub closed spec fn spec_listen_port(&self) -> u16 {
        self.listen_port
    }

    /// Whether peers get a connected socket of their own.
    pub closed spec fn spec_use_connected_peer(&self) -> bool {
        self.use_connected_peer
    }

    /// A configuration of the four values given.
    pub fn new(
        name: PeerName,
        tun_name: &'a str,
        listen_port: u16,
        use_connected_peer: bool,
    ) -> (config: Self)
        ensures
            config.spec_name() == name@,
            config.spec_tun_name() == tun_name,
            config.spec_listen_port() == listen_port,
            config.spec_use_connected_peer() == use_connected_peer,
    {
        Self { name, tun_name, listen_port, use_connected_peer }
    }

    /// Name of the TUN interface.
    pub fn tun_name(&self) -> (tun_name: &'a str)
        ensures
            tun_name == self.spec_tun_name(),
    {
        self.tun_name
    }

    /// The port that the listening socket is bound to.
    pub fn listen_port(&self) -> (port: u16)
        ensures
            port == self.spec_listen_port(),
    {
        self.listen_port
    }
}

/// The index of the last of `names` that equals `name`: the peer that a
/// name stands for when several were added under it.
pub open spec fn named(names: Seq<Seq<u8>>, name: Seq<u8>) -> Option<u32>
    decreases names.len(),
{
    if names.len() == 0 {
        None
    } else if names.last() == name {
        Some((names.len() - 1) as u32)
    } else {
        named(names.drop_last(), name)
    }
}

/// What [`named`] finds is the greatest index of the name, and it finds
/// nothing only where the name does not occur.
pub proof fn lemma_named(names: Seq<Seq<u8>>, name: Seq<u8>)
    requires
        names.len() <= u32::MAX,
    ensures
        match named(names, name) {
            Some(i) => i < names.len() && names[i as int] == name && forall|j: int|
                i < j < names.len() ==> names[j] != name,
            None => forall|j: int| 0 <= j < names.len() ==> names[j] != name,
        },
    decreases names.len(),
{
    if names.len() > 0 && names.last() != name {
        let front = names.drop_last();
        lemma_named(front, name);
        assert forall|j: int| 0 <= j < front.len() implies front[j] == names[j] by {}
        match named(front, name) {
            Some(i) => {
                assert(front[i as int] == names[i as int]);
                assert forall|j: int| i < j < names.len() implies names[j] != name by {
                    if j < front.len() {
                        assert(front[j] == names[j]);
                    }
                }
            },
            None => {
                assert forall|j: int| 0 <= j < names.len() implies names[j] != name by {
                    if j < front.len() {
                        assert(front[j] == names[j]);
                    }
                }
            },
        }
    }
}

/// The routes after a peer with index `idx` and the networks `allowed` was
/// added to `routes`: the peer's networks lead to it, the others where they
/// led before.
pub open spec fn routes_with(
    routes: Map<Network, u32>,
    allowed: Map<Network, u32>,
    idx: u32,
) -> Map<Network, u32> {
    Map::new(
        |net: Network| routes.contains_key(net) || allowed.contains_key(net),
        |net: Network|
            if allowed.contains_key(net) {
                idx
            } else {
                routes[net]
            },
    )
}

/// What the owner of the device has to do for a datagram from the listening
/// socket, in this order.
#[derive(Debug, PartialEq)]
pub struct Received<'a, S> {
    /// The peer that the datagram was from, if it was from one.
    pub peer: Option<u32>,
    /// A socket that the peer no longer holds because it was heard from a
    /// new address: to be taken out of the poll set and closed.
    pub released: Option<S>,
    /// Whether to open a socket connected to the peer's new address and to
    /// hand it over with [`Device::connect_peer`].
    pub connect: bool,
    /// What to hand to [`Device::take_action`] after that.
    pub action: Action<'a>,
}

/// A read or write that the owner of the device performs.
#[derive(Debug, PartialEq)]
pub enum Effect<'a, S> {
    /// Write the bytes to the TUN device.
    WriteTun(&'a [u8]),
    /// Send the bytes on the connected socket.
    Send(&'a S, &'a [u8]),
    /// Send the bytes to the address on the listening socket.
    SendTo(SockAddr, &'a [u8]),
    /// Do nothing.
    Nothing,
}

/// An [`Effect`] as a mathematical value.
pub enum EffectView<S> {
    WriteTun { bytes: Seq<u8> },
    Send { conn: S, bytes: Seq<u8> },
    SendTo { addr: SockAddr, bytes: Seq<u8> },
    Nothing,
}

impl<'a, S> View for Effect<'a, S> {
    type V = EffectView<S>;

    open spec fn view(&self) -> EffectView<S> {
        match self {
            Effect::WriteTun(bytes) => EffectView::WriteTun { bytes: bytes@ },
            Effect::Send(conn, bytes) => EffectView::Send { conn: **conn, bytes: bytes@ },
            Effect::SendTo(addr, bytes) => EffectView::SendTo { addr: *addr, bytes: bytes@ },
            Effect::Nothing => EffectView::Nothing,
        }
    }
}

/// How `bytes` are sent to a peer found at `endpoint`: on its connected
/// socket if it has one, else to its address on the listening socket, and
/// not at all if not even the address is known.
pub open spec fn send_policy<S>(endpoint: Endpoint<S>, bytes: Seq<u8>) -> EffectView<S> {
    match (endpoint.conn, endpoint.addr) {
        (Some(conn), _) => EffectView::Send { conn, bytes },
        (None, Some(addr)) => EffectView::SendTo { addr, bytes },
        (None, None) => EffectView::Nothing,
    }
}

/// What is to be read when an event arrives.
#[derive(Debug, PartialEq)]
pub enum Readiness<'a, S> {
    /// Packets from the TUN device, for [`Device::handle_tun`].
    Tun,
    /// Datagrams from the listening socket, for [`Device::handle_udp`].
    Udp,
    /// Datagrams from the connected socket of the peer with this index, for
    /// [`Device::handle_connected_udp`].
    ConnectedUdp(u32, &'a S),
    /// Nothing: the event is about a socket that is gone.
    Skip,
}

/// The local node: its name, its peers in the order they were added, and
/// the routes to them.
///
/// The device reads and writes nothing itself. Its owner holds the TUN
/// device, the sockets of type `S` and the poll set, tells the device what
/// arrived, and performs what the device answers.
pub struct Device<S> {
    name: PeerName,
    peer_names: Vec<PeerName>,
    peers_by_idx: Vec<Peer<S>>,
    peers_by_ip: AllowedIps,
    use_connected_peer: bool,
    listen_port: u16,
}

/// Whether two byte strings are equal.
fn same_bytes(a: &[u8], b: &[u8]) -> (same: bool)
    ensures
        same == (a@ == b@),
{
    if a.len() != b.len() {
        return false;
    }
    let n = a.len();
    let mut i: usize = 0;
    while i < n
        invariant
            i <= n,
            n == a@.len(),
            n == b@.len(),
            forall|k: int| 0 <= k < i ==> a@[k] == b@[k],
        decreases n - i,
    {
        if a[i] != b[i] {
            return false;
        }
        i += 1;
    }
    assert(a@ =~= b@);
    true
}

impl<S> Device<S> {
    /// The device's own name.
    pub closed spec fn spec_name(&self) -> Seq<u8> {
        self.name@
    }

    /// The peers, each at its index.
    pub closed spec fn peers(&self) -> Seq<Peer<S>> {
        self.peers_by_idx@
    }

    /// The names under which the peers were added, each at its peer's
    /// index.
    pub closed spec fn names(&self) -> Seq<Seq<u8>> {
        Seq::new(self.peer_names@.len(), |i: int| self.peer_names@[i]@)
    }

    /// The routes: for each network the index of the peer it leads to.
    pub closed spec fn routes(&self) -> Map<Network, u32> {
        self.peers_by_ip@
    }

    /// The port that the listening socket is bound to.
    pub closed spec fn spec_listen_port(&self) -> u16 {
        self.listen_port
    }

    /// Whether peers get a connected socket of their own.
    pub closed spec fn spec_use_connected_peer(&self) -> bool {
        self.use_connected_peer
    }

    /// The device's invariant: every peer has a name and stands at its own
    /// index, which fits in 32 bits; every route is canonical and leads to
    /// a peer.
    pub open spec fn wf(&self) -> bool {
        &&& self.names().len() == self.peers().len()
        &&& self.peers().len() <= u32::MAX
        &&& forall|i: int|
            0 <= i < self.peers().len() ==> (#[trigger] self.peers()[i]).wf()
                && self.peers()[i].spec_local_idx() == i
        &&& all_canonical(self.routes())
        &&& forall|net: Network| #[trigger]
            self.routes().contains_key(net) ==> self.routes()[net] < self.peers().len()
    }

    /// Whether this device has the name, the port, the names and the routes
    /// of `before`, and as many peers.
    pub open spec fn same_setup(&self, before: &Self) -> bool {
        &&& self.spec_name() == before.spec_name()
        &&& self.spec_listen_port() == before.spec_listen_port()
        &&& self.spec_use_connected_peer() == before.spec_use_connected_peer()
        &&& self.names() == before.names()
        &&& self.routes() == before.routes()
        &&& self.peers().len() == before.peers().len()
    }

    /// Whether this device differs from `before` in the peer `idx` at most.
    pub open spec fn same_but_peer(&self, before: &Self, idx: u32) -> bool {
        &&& self.same_setup(before)
        &&& forall|j: int|
            0 <= j < self.peers().len() && j != idx ==> self.peers()[j] == before.peers()[j]
    }

    /// The peer that a frame from the listening socket is for: by name for
    /// an initiation, by index for a response and for data, none for the
    /// empty frame.
    pub open spec fn peer_of(&self, frame: Frame) -> Option<u32> {
        match frame {
            Frame::HandshakeInit { sender_name, .. } => named(self.names(), sender_name),
            Frame::HandshakeResponse { sender_idx, .. } => if sender_idx < self.peers().len() {
                Some(sender_idx)
            } else {
                None
            },
            Frame::Data { sender_idx, .. } => if sender_idx < self.peers().len() {
                Some(sender_idx)
            } else {
                None
            },
            Frame::Empty => None,
        }
    }

    /// The peer that a packet from the TUN device goes to: the one that the
    /// longest route covering the packet's destination leads to, if the
    /// packet is IPv4 and a route covers it.
    pub open spec fn route_of(&self, packet: Seq<u8>) -> Option<u32> {
        match ipv4_addresses(packet) {
            Some((_, dst)) => match longest_match(self.routes(), IpAddress::V4(dst)) {
                Some(net) => Some(self.routes()[net]),
                None => None,
            },
            None => None,
        }
    }

    /// A frame is only ever for a peer that the device has.
    pub proof fn lemma_peer_of(&self, frame: Frame)
        requires
            self.wf(),
        ensures
            self.peer_of(frame) matches Some(i) ==> i < self.peers().len(),
    {
        if let Frame::HandshakeInit { sender_name, .. } = frame {
            lemma_named(self.names(), sender_name);
        }
    }

    /// A packet is only ever routed to a peer that the device has.
    pub proof fn lemma_route_of(&self, packet: Seq<u8>)
        requires
            self.wf(),
        ensures
            self.route_of(packet) matches Some(i) ==> i < self.peers().len(),
    {
        if let Some((_, dst)) = ipv4_addresses(packet) {
            lemma_longest_match(self.routes(), IpAddress::V4(dst));
        }
    }

    /// A device without peers, set up as `config` says.
    pub fn new(config: DeviceConfig) -> (device: Self)
        ensures
            device.wf(),
            device.spec_name() == config.spec_name(),
            device.spec_listen_port() == config.spec_listen_port(),
            device.spec_use_connected_peer() == config.spec_use_connected_peer(),
            device.peers().len() == 0,
            device.names().len() == 0,
            device.routes() == Map::<Network, u32>::empty(),
    {
        Self {
            name: config.name,
            peer_names: Vec::new(),
            peers_by_idx: Vec::new(),
            peers_by_ip: AllowedIps::new(),
            use_connected_peer: config.use_connected_peer,
            listen_port: config.listen_port,
        }
    }

    /// The device's own name.
    pub fn name(&self) -> (name: PeerName<&[u8]>)
        ensures
            name@ == self.spec_name(),
            name@.len() == PEER_NAME_MAX_LEN,
    {
        self.name.as_ref()
    }

    /// The port that the listening socket is bound to.
    pub fn listen_port(&self) -> (port: u16)
        ensures
            port == self.spec_listen_port(),
    {
        self.listen_port
    }

    /// Whether peers get a connected socket of their own.
    pub fn use_connected_peer(&self) -> (on: bool)
        ensures
            on == self.spec_use_connected_peer(),
    {
        self.use_connected_peer
    }

    /// Number of peers.
    pub fn peer_count(&self) -> (n: usize)
        ensures
            n == self.peers().len(),
    {
        self.peers_by_idx.len()
    }

    /// The peer with index `idx`, if there is one.
    pub fn peer(&self, idx: u32) -> (peer: Option<&Peer<S>>)
        ensures
            match peer {
                Some(p) => idx < self.peers().len() && *p == self.peers()[idx as int],
                None => idx >= self.peers().len(),
            },
    {
        if (idx as usize) < self.peers_by_idx.len() {
            Some(&self.peers_by_idx[idx as usize])
        } else {
            None
        }
    }

    /// Adds `peer` under `name`. The peer gets the next index, its networks
    /// become routes to it, replacing routes of the same networks to
    /// earlier peers, and `name` stands for it from now on.
    pub fn add_peer(&mut self, name: PeerName, peer: Peer<S>)
        requires
            old(self).wf(),
            peer.wf(),
            old(self).peers().len() < u32::MAX,
        ensures
            final(self).wf(),
            final(self).spec_name() == old(self).spec_name(),
            final(self).spec_listen_port() == old(self).spec_listen_port(),
            final(self).spec_use_connected_peer() == old(self).spec_use_connected_peer(),
            final(self).names() == old(self).names().push(name@),
            final(self).peers().len() == old(self).peers().len() + 1,
            forall|j: int|
                0 <= j < old(self).peers().len() ==> final(self).peers()[j] == old(self).peers()[j],
            ({
                let added = final(self).peers().last();
                &&& added.spec_local_idx() == old(self).peers().len()
                &&& added.state() == peer.state()
                &&& added.spec_endpoint() == peer.spec_endpoint()
                &&& added.allowed() == peer.allowed()
            }),
            final(self).routes() == routes_with(
                old(self).routes(),
                peer.allowed(),
                old(self).peers().len() as u32,
            ),
    {
        let mut peer = peer;
        let local_idx = self.peers_by_idx.len() as u32;
        peer.set_local_idx(local_idx);
        let entries = peer.allowed_ips().iter();
        let n = entries.len();
        let mut i: usize = 0;
        while i < n
            invariant
                i <= n,
                n == entries@.len(),
                lists_entries(entries@, peer.allowed()),
                all_canonical(peer.allowed()),
                self.peers_by_ip.wf(),
                self.peers_by_idx == old(self).peers_by_idx,
                self.peer_names == old(self).peer_names,
                self.name == old(self).name,
                self.listen_port == old(self).listen_port,
                self.use_connected_peer == old(self).use_connected_peer,
                forall|net: Network|
                    self.routes().contains_key(net) <==> old(self).routes().contains_key(net)
                        || exists|j: int| 0 <= j < i && (#[trigger] entries@[j].1, entries@[j].2) == net,
                forall|net: Network| #[trigger]
                    self.routes().contains_key(net) ==> self.routes()[net] == if exists|j: int|
                        0 <= j < i && (#[trigger] entries@[j].1, entries@[j].2) == net {
                        local_idx
                    } else {
                        old(self).routes()[net]
                    },
            decreases n - i,
        {
            let (_, ip, cidr) = entries[i];
            proof {
                assert(peer.allowed().contains_key((entries@[i as int].1, entries@[i as int].2)));
                assert(net_canonical((ip, cidr)));
            }
            let ghost before = self.routes();
            self.peers_by_ip.insert(ip, cidr, local_idx);
            proof {
                assert(self.routes() == before.insert((ip, cidr), local_idx));
                assert forall|net: Network|
                    self.routes().contains_key(net) <==> old(self).routes().contains_key(net)
                        || exists|j: int|
                        0 <= j < i + 1 && (#[trigger] entries@[j].1, entries@[j].2) == net by {
                    if net == (ip, cidr) {
                        assert((entries@[i as int].1, entries@[i as int].2) == net);
                    }
                    if before.contains_key(net) && !old(self).routes().contains_key(net) {
                        let j = choose|j: int|
                            0 <= j < i && (#[trigger] entries@[j].1, entries@[j].2) == net;
                        assert(0 <= j < i + 1 && (entries@[j].1, entries@[j].2) == net);
                    }
                }
                assert forall|net: Network| #[trigger]
                    self.routes().contains_key(net) implies self.routes()[net] == if exists|j: int|
                        0 <= j < i + 1 && (#[trigger] entries@[j].1, entries@[j].2) == net {
                        local_idx
                    } else {
                        old(self).routes()[net]
                    } by {
                    if net == (ip, cidr) {
                        assert((entries@[i as int].1, entries@[i as int].2) == net);
                    } else {
                        assert(before.contains_key(net));
                        if exists|j: int|
                            0 <= j < i && (#[trigger] entries@[j].1, entries@[j].2) == net {
                            let j = choose|j: int|
                                0 <= j < i && (#[trigger] entries@[j].1, entries@[j].2) == net;
                            assert(0 <= j < i + 1 && (entries@[j].1, entries@[j].2) == net);
                        }
                    }
                }
            }
            i += 1;
        }
        proof {
            let target = routes_with(old(self).routes(), peer.allowed(), local_idx);
            assert forall|net: Network| peer.allowed().contains_key(net) <==> exists|j: int|
                0 <= j < n && (#[trigger] entries@[j].1, entries@[j].2) == net by {
                if exists|j: int| 0 <= j < n && (#[trigger] entries@[j].1, entries@[j].2) == net {
                    let j = choose|j: int|
                        0 <= j < n && (#[trigger] entries@[j].1, entries@[j].2) == net;
                    assert(peer.allowed().contains_key((entries@[j].1, entries@[j].2)));
                }
            }
            assert(self.routes() =~= target);
        }
        let ghost old_names = self.names();
        self.peer_names.push(name);
        self.peers_by_idx.push(peer);
        proof {
            assert(self.names() =~= old_names.push(name@));
            assert forall|net: Network| #[trigger] self.routes().contains_key(net) implies self.routes()[net]
                < self.peers().len() by {
                if !peer.allowed().contains_key(net) {
                    assert(old(self).routes().contains_key(net));
                }
            }
        }
    }

    /// The peer that `name` stands for: the last one added under it.
    pub fn peer_by_name(&self, name: &[u8]) -> (found: Option<u32>)
        requires
            self.wf(),
        ensures
            found == named(self.names(), name@),
    {
        let mut i = self.peer_names.len();
        proof {
            assert(self.names().take(i as int) =~= self.names());
        }
        while i > 0
            invariant
                i <= self.peer_names@.len(),
                self.peer_names@.len() == self.names().len(),
                self.names().len() <= u32::MAX,
                named(self.names(), name@) == named(self.names().take(i as int), name@),
            decreases i,
        {
            i -= 1;
            proof {
                let upto = self.names().take(i + 1);
                assert(upto.last() == self.peer_names@[i as int]@);
                assert(upto.drop_last() =~= self.names().take(i as int));
            }
            if same_bytes(self.peer_names[i].as_ref().as_slice(), name) {
                return Some(i as u32);
            }
        }
        None
    }

    /// The peer that a frame from the listening socket is for.
    pub fn get_peer(&self, packet: &Packet) -> (found: Option<u32>)
        requires
            self.wf(),
        ensures
            found == self.peer_of(packet@),
            found matches Some(i) ==> i < self.peers().len(),
    {
        proof {
            self.lemma_peer_of(packet@);
        }
        match packet {
            Packet::HandshakeInit(msg) => self.peer_by_name(msg.sender_name.as_slice()),
            Packet::HandshakeResponse(msg) => self.peer_by_idx(msg.sender_idx),
            Packet::Data(msg) => self.peer_by_idx(msg.sender_idx),
            Packet::Empty => None,
        }
    }

    /// `idx` itself if a peer has that index.
    fn peer_by_idx(&self, idx: u32) -> (found: Option<u32>)
        ensures
            found == if idx < self.peers().len() {
                Some(idx)
            } else {
                None
            },
    {
        if (idx as usize) < self.peers_by_idx.len() {
            Some(idx)
        } else {
            None
        }
    }

    /// The peer that a packet from the TUN device goes to: the one that the
    /// longest route covering its destination address leads to. None for a
    /// packet that is not IPv4 or that no route covers.
    pub fn route(&self, packet: &[u8]) -> (found: Option<u32>)
        requires
            self.wf(),
        ensures
            found == self.route_of(packet@),
            found matches Some(i) ==> i < self.peers().len(),
    {
        let dst_addr = match read_ipv4_addresses(packet) {
            Some((_, dst_addr)) => dst_addr,
            None => {
                return None;
            },
        };
        let found = self.peers_by_ip.find(IpAddress::V4(dst_addr));
        proof {
            lemma_longest_match(self.routes(), IpAddress::V4(dst_addr));
        }
        match found {
            Some(idx) => Some(*idx),
            None => None,
        }
    }

    /// Room that the buffer for the frame must have when `packet` comes
    /// from the TUN device: that of the data frame, if the packet has a
    /// route to a peer whose handshake is complete.
    pub open spec fn tun_room(&self, packet: Seq<u8>) -> nat {
        match self.route_of(packet) {
            Some(i) => self.peers()[i as int].room_for(Event::Encapsulate { payload: packet }),
            None => 0,
        }
    }

    /// Takes a packet read from the TUN device to the peer that its
    /// destination is routed to.
    ///
    /// A packet that is not IPv4, or that no route covers, is dropped:
    /// nothing is asked for. Else the answer is that of
    /// [`Peer::encapsulate`], written to the front of `dst`.
    pub fn handle_tun<'a>(&self, packet: &[u8], dst: &'a mut [u8]) -> (action: Action<'a>)
        requires
            self.wf(),
            old(dst)@.len() >= self.tun_room(packet@),
        ensures
            action@ == match self.route_of(packet@) {
                Some(i) => self.peers()[i as int].after(Event::Encapsulate { payload: packet@ }).1,
                None => ActionView::Nothing,
            },
            written(old(dst)@, final(dst)@, action@),
    {
        match self.route(packet) {
            Some(idx) => self.peers_by_idx[idx as usize].encapsulate(packet, dst),
            None => Action::Nothing,
        }
    }

    /// Room that the buffer for the answer must have when `datagram` comes
    /// from the listening socket: that of the answer of the peer it is for.
    pub open spec fn udp_room(&self, datagram: Seq<u8>) -> nat {
        match Frame::decode(datagram) {
            Ok(frame) => match self.peer_of(frame) {
                Some(i) => self.peers()[i as int].room_for(Event::Receive { frame }),
                None => 0,
            },
            Err(_) => 0,
        }
    }

    /// Takes a datagram that the listening socket received from `from`.
    ///
    /// A datagram that is no frame is rejected and changes nothing. A frame
    /// that is for no peer is dropped. Else the peer records `from` as its
    /// address, as [`Peer::set_endpoint`] does, and then sees the frame, as
    /// in [`Peer::handle_incoming_packet`]; an answer is written to the
    /// front of `response`. A socket is to be connected if the address is
    /// new and the device connects its peers.
    pub fn handle_udp<'a>(
        &mut self,
        datagram: &'a [u8],
        from: SockAddr,
        response: &'a mut [u8],
    ) -> (r: Result<Received<'a, S>, PackeParseError>)
        requires
            old(self).wf(),
            old(response)@.len() >= old(self).udp_room(datagram@),
        ensures
            final(self).wf(),
            final(self).same_setup(old(self)),
            match r {
                Ok(received) => written(old(response)@, final(response)@, received.action@),
                Err(_) => final(response)@ == old(response)@,
            },
            match Frame::decode(datagram@) {
                Err(e) => r == Err::<Received<'a, S>, PackeParseError>(e) && final(self).peers()
                    == old(self).peers(),
                Ok(frame) => r matches Ok(received) && received.peer == old(self).peer_of(frame)
                    && match old(self).peer_of(frame) {
                    None => {
                        &&& final(self).peers() == old(self).peers()
                        &&& received.released is None
                        &&& !received.connect
                        &&& received.action@ is Nothing
                    },
                    Some(i) => {
                        let before = old(self).peers()[i as int];
                        let after = final(self).peers()[i as int];
                        let seen = before.spec_endpoint().observe(from);
                        &&& final(self).same_but_peer(old(self), i)
                        &&& after.spec_endpoint() == seen.0
                        &&& received.connect == (seen.1 && old(self).spec_use_connected_peer())
                        &&& received.released == seen.2
                        &&& (after.state(), received.action@) == before.after(
                            Event::Receive { frame },
                        )
                        &&& after.spec_local_idx() == i
                        &&& after.allowed() == before.allowed()
                    },
                },
            },
    {
        let packet = match Packet::parse_from(datagram) {
            Ok(packet) => packet,
            Err(e) => {
                return Err(e);
            },
        };
        let idx = match self.get_peer(&packet) {
            Some(idx) => idx,
            None => {
                return Ok(
                    Received { peer: None, released: None, connect: false, action: Action::Nothing },
                );
            },
        };
        Ok(self.receive_from(idx, from, packet, response))
    }

    /// Lets the peer `idx` record `from` as its address and then see
    /// `packet`.
    fn receive_from<'a>(
        &mut self,
        idx: u32,
        from: SockAddr,
        packet: Packet<'a>,
        response: &'a mut [u8],
    ) -> (received: Received<'a, S>)
        requires
            old(self).wf(),
            idx < old(self).peers().len(),
            old(response)@.len() >= old(self).peers()[idx as int].room_for(
                Event::Receive { frame: packet@ },
            ),
        ensures
            final(self).wf(),
            final(self).same_but_peer(old(self), idx),
            received.peer == Some(idx),
            written(old(response)@, final(response)@, received.action@),
            ({
                let before = old(self).peers()[idx as int];
                let after = final(self).peers()[idx as int];
                let seen = before.spec_endpoint().observe(from);
                &&& after.spec_endpoint() == seen.0
                &&& received.connect == (seen.1 && old(self).spec_use_connected_peer())
                &&& received.released == seen.2
                &&& (after.state(), received.action@) == before.after(
                    Event::Receive { frame: packet@ },
                )
                &&& after.spec_local_idx() == idx
                &&& after.allowed() == before.allowed()
            }),
    {
        let (endpoint_changed, released) = self.peers_by_idx[idx as usize].set_endpoint(from);
        let connect = endpoint_changed && self.use_connected_peer;
        let ghost heard = self.peers()[idx as int];
        assert(heard.room_for(Event::Receive { frame: packet@ }) == old(self).peers()[idx as int].room_for(
            Event::Receive { frame: packet@ },
        ));
        let action = self.peers_by_idx[idx as usize].handle_incoming_packet(packet, response);
        proof {
            assert(self.names() =~= old(self).names());
            assert(heard.after(Event::Receive { frame: packet@ }) == old(self).peers()[idx as int].after(
                Event::Receive { frame: packet@ },
            ));
        }
        Received { peer: Some(idx), released, connect, action }
    }

    /// Room that the buffer for the answer must have when `datagram` comes
    /// from the connected socket of `peer`.
    pub open spec fn connected_udp_room(&self, peer: u32, datagram: Seq<u8>) -> nat {
        match Frame::decode(datagram) {
            Ok(frame) => self.peers()[peer as int].room_for(Event::Receive { frame }),
            Err(_) => 0,
        }
    }

    /// Takes a datagram that the connected socket of `peer` received.
    ///
    /// The frame is for that peer whatever it names, and the peer's address
    /// stays as it is. A datagram that is no frame is rejected and changes
    /// nothing.
    pub fn handle_connected_udp<'a>(
        &mut self,
        peer: u32,
        datagram: &'a [u8],
        response: &'a mut [u8],
    ) -> (r: Result<Action<'a>, PackeParseError>)
        requires
            old(self).wf(),
            peer < old(self).peers().len(),
            old(response)@.len() >= old(self).connected_udp_room(peer, datagram@),
        ensures
            final(self).wf(),
            final(self).same_but_peer(old(self), peer),
            match r {
                Ok(action) => written(old(response)@, final(response)@, action@),
                Err(_) => final(response)@ == old(response)@,
            },
            match Frame::decode(datagram@) {
                Err(e) => r == Err::<Action<'a>, PackeParseError>(e) && final(self).peers() == old(
                    self,
                ).peers(),
                Ok(frame) => r matches Ok(action) && {
                    let before = old(self).peers()[peer as int];
                    let after = final(self).peers()[peer as int];
                    &&& after.same_but_state(&before)
                    &&& (after.state(), action@) == before.after(Event::Receive { frame })
                },
            },
    {
        let packet = match Packet::parse_from(datagram) {
            Ok(packet) => packet,
            Err(e) => {
                return Err(e);
            },
        };
        let action = self.peers_by_idx[peer as usize].handle_incoming_packet(packet, response);
        proof {
            assert(self.names() =~= old(self).names());
        }
        Ok(action)
    }

    /// Hands the device `conn`, a socket connected to the address of
    /// `peer`, and returns the token under which the socket is to be
    /// registered for reading.
    pub fn connect_peer(&mut self, peer: u32, conn: S) -> (token: Token<SockID>)
        requires
            old(self).wf(),
            peer < old(self).peers().len(),
            old(self).peers()[peer as int].spec_endpoint().addr is Some,
            old(self).peers()[peer as int].spec_endpoint().conn is None,
        ensures
            final(self).wf(),
            final(self).same_but_peer(old(self), peer),
            token == Token::Sock(SockID::Connected(peer)),
            ({
                let before = old(self).peers()[peer as int];
                let after = final(self).peers()[peer as int];
                &&& after.spec_endpoint() == (Endpoint {
                    addr: before.spec_endpoint().addr,
                    conn: Some(conn),
                })
                &&& after.state() == before.state()
                &&& after.spec_local_idx() == before.spec_local_idx()
                &&& after.allowed() == before.allowed()
            }),
    {
        self.peers_by_idx[peer as usize].connect_endpoint(conn);
        proof {
            assert(self.names() =~= old(self).names());
        }
        Token::Sock(SockID::Connected(self.peers_by_idx[peer as usize].local_idx()))
    }

    /// What an action comes to: a payload goes to the TUN device exactly if
    /// its peer may send from the payload's source address, and a frame
    /// goes to its peer as [`send_policy`] says.
    pub open spec fn outcome(&self, action: ActionView) -> EffectView<S> {
        match action {
            ActionView::WriteToTun { peer, bytes, src } => if self.peers()[peer as int].allows(src) {
                EffectView::WriteTun { bytes }
            } else {
                EffectView::Nothing
            },
            ActionView::WriteToNetwork { peer, bytes } => send_policy(
                self.peers()[peer as int].spec_endpoint(),
                bytes,
            ),
            ActionView::Nothing => EffectView::Nothing,
        }
    }

    /// Whether `action` names a peer of this device, or none.
    pub open spec fn knows(&self, action: ActionView) -> bool {
        match action {
            ActionView::WriteToTun { peer, .. } => peer < self.peers().len(),
            ActionView::WriteToNetwork { peer, .. } => peer < self.peers().len(),
            ActionView::Nothing => true,
        }
    }

    /// The ingress filter: a payload is written to the TUN device exactly
    /// if the action asks for it and the peer that received it may send
    /// from its source address. What is written is the payload itself.
    pub proof fn lemma_ingress_filter(&self, action: ActionView)
        ensures
            self.outcome(action) is WriteTun <==> (action matches ActionView::WriteToTun {
                peer,
                src,
                ..
            } && self.peers()[peer as int].allows(src)),
            self.outcome(action) matches EffectView::WriteTun { bytes } ==> (
            action matches ActionView::WriteToTun { bytes: payload, .. } && payload == bytes),
    {
    }

    /// Decides what is read or written for `action`.
    pub fn take_action<'a>(&'a self, action: Action<'a>) -> (effect: Effect<'a, S>)
        requires
            self.knows(action@),
        ensures
            effect@ == self.outcome(action@),
    {
        match action {
            Action::WriteToTun(peer, data, src_addr) => {
                if self.peers_by_idx[peer as usize].is_allowed_ip(src_addr) {
                    Effect::WriteTun(data)
                } else {
                    Effect::Nothing
                }
            },
            Action::WriteToNetwork(peer, data) => self.send_over_udp(peer, data),
            Action::Nothing => Effect::Nothing,
        }
    }

    /// How `data` is sent to `peer`.
    pub fn send_over_udp<'a>(&'a self, peer: u32, data: &'a [u8]) -> (effect: Effect<'a, S>)
        requires
            peer < self.peers().len(),
        ensures
            effect@ == send_policy(self.peers()[peer as int].spec_endpoint(), data@),
    {
        let endpoint = self.peers_by_idx[peer as usize].endpoint();
        match &endpoint.conn {
            Some(conn) => Effect::Send(conn, data),
            None => match endpoint.addr {
                Some(addr) => Effect::SendTo(addr, data),
                None => Effect::Nothing,
            },
        }
    }

    /// What is to be read for the event that `token` stands for.
    ///
    /// An event of a connected socket is skipped where no peer has the
    /// index or the peer holds no socket.
    pub fn dispatch<'a>(&'a self, token: Token<SockID>) -> (ready: Readiness<'a, S>)
        ensures
            token is Tun ==> ready is Tun,
            token == Token::Sock(SockID::Unconnected) ==> ready is Udp,
            token matches Token::Sock(SockID::Connected(i)) ==> {
                if i < self.peers().len() && self.peers()[i as int].spec_endpoint().conn is Some {
                    ready matches Readiness::ConnectedUdp(peer, conn) && peer == i && Some(*conn)
                        == self.peers()[i as int].spec_endpoint().conn
                } else {
                    ready is Skip
                }
            },
    {
        match token {
            Token::Tun => Readiness::Tun,
            Token::Sock(SockID::Unconnected) => Readiness::Udp,
            Token::Sock(SockID::Connected(i)) => {
                if (i as usize) >= self.peers_by_idx.len() {
                    return Readiness::Skip;
                }
                match &self.peers_by_idx[i as usize].endpoint().conn {
                    Some(conn) => Readiness::ConnectedUdp(i, conn),
                    None => Readiness::Skip,
                }
            },
        }
    }

    /// Whether the name under which `peer` was added still stands for it:
    /// no later peer was added under the same name.
    pub open spec fn stands_for_its_name(&self, peer: u32) -> bool {
        named(self.names(), self.names()[peer as int]) == Some(peer)
    }

    /// Room that the buffer must have when `peer` is started.
    pub open spec fn start_room(&self, peer: u32) -> nat {
        if self.stands_for_its_name(peer) {
            self.peers()[peer as int].room_for(
                Event::InitiateHandshake { sender_name: self.spec_name() },
            )
        } else {
            0
        }
    }

    /// Starts the handshake with `peer` under the device's name, as
    /// [`Peer::initiate_handshake`] does, if its name still stands for it.
    /// The initiation is written to the front of `dst`.
    ///
    /// A device is started by doing this for every peer.
    pub fn start<'a>(&mut self, peer: u32, dst: &'a mut [u8]) -> (action: Action<'a>)
        requires
            old(self).wf(),
            peer < old(self).peers().len(),
            old(dst)@.len() >= old(self).start_room(peer),
        ensures
            final(self).wf(),
            final(self).same_but_peer(old(self), peer),
            written(old(dst)@, final(dst)@, action@),
            ({
                let before = old(self).peers()[peer as int];
                let after = final(self).peers()[peer as int];
                &&& after.same_but_state(&before)
                &&& (after.state(), action@) == if old(self).stands_for_its_name(peer) {
                    before.after(Event::InitiateHandshake { sender_name: old(self).spec_name() })
                } else {
                    (before.state(), ActionView::Nothing)
                }
            }),
    {
        let current = self.peer_by_name(self.peer_names[peer as usize].as_ref().as_slice());
        if current != Some(peer) {
            return Action::Nothing;
        }
        let action = self.peers_by_idx[peer as usize].initiate_handshake(self.name.as_ref(), dst);
        proof {
            assert(self.names() =~= old(self).names());
        }
        action
    }

    /// Adds the peer that `conf` describes, as [`Device::add_peer`] does,
    /// unless its name is too long for a peer name.
    pub fn add_peer_conf(&mut self, conf: &PeerConf) -> (r: Result<(), NameTooLong>)
        requires
            old(self).wf(),
            old(self).peers().len() < u32::MAX,
            forall|j: int|
                0 <= j < conf.allowed_ips@.len() ==> (#[trigger] conf.allowed_ips@[j]).1 <= 32,
        ensures
            final(self).wf(),
            final(self).spec_name() == old(self).spec_name(),
            final(self).spec_listen_port() == old(self).spec_listen_port(),
            final(self).spec_use_connected_peer() == old(self).spec_use_connected_peer(),
            match r {
                Ok(_) => {
                    let added = final(self).peers().last();
                    &&& encode_utf8(conf.name@).len() <= PEER_NAME_MAX_LEN
                    &&& final(self).names() == old(self).names().push(
                        zero_padded(encode_utf8(conf.name@)),
                    )
                    &&& final(self).peers().len() == old(self).peers().len() + 1
                    &&& forall|j: int|
                        0 <= j < old(self).peers().len() ==> final(self).peers()[j] == old(
                            self,
                        ).peers()[j]
                    &&& added.spec_local_idx() == old(self).peers().len()
                    &&& added.state() == HandshakeState::Initial
                    &&& added.spec_endpoint() == (Endpoint::<S> { addr: conf.endpoint, conn: None })
                    &&& added.allowed() == allowed_from(conf.allowed_ips@)
                    &&& final(self).routes() == routes_with(
                        old(self).routes(),
                        allowed_from(conf.allowed_ips@),
                        old(self).peers().len() as u32,
                    )
                },
                Err(e) => {
                    &&& e.name@ == conf.name@
                    &&& encode_utf8(conf.name@).len() > PEER_NAME_MAX_LEN
                    &&& final(self).names() == old(self).names()
                    &&& final(self).peers() == old(self).peers()
                    &&& final(self).routes() == old(self).routes()
                },
            },
    {
        let name = match PeerName::new(conf.name.as_str()) {
            Ok(name) => name,
            Err(e) => {
                return Err(e);
            },
        };
        let peer = Peer::configured(conf.endpoint, conf.allowed_ips.as_slice());
        self.add_peer(name, peer);
        Ok(())
    }

    /// The device that `conf` describes: named and listening as its
    /// interface says, with its peers in their order. The first name that
    /// is too long for a peer name, the interface's before the peers', is
    /// the error.
    pub fn from_conf(conf: &Conf, tun_name: &str, use_connected_peer: bool) -> (r: Result<
        Self,
        NameTooLong,
    >)
        requires
            conf@.prefixes_fit(),
            conf.peers@.len() <= u32::MAX,
        ensures
            match r {
                Ok(device) => {
                    &&& device.wf()
                    &&& device.spec_name() == zero_padded(encode_utf8(conf.interface.name@))
                    &&& device.spec_listen_port() == conf.interface.listen_port
                    &&& device.spec_use_connected_peer() == use_connected_peer
                    &&& device.peers().len() == conf.peers@.len()
                    &&& device.names().len() == conf.peers@.len()
                    &&& forall|i: int|
                        0 <= i < conf.peers@.len() ==> {
                            let peer = #[trigger] device.peers()[i];
                            &&& device.names()[i] == zero_padded(
                                encode_utf8(conf.peers@[i].name@),
                            )
                            &&& peer.spec_local_idx() == i
                            &&& peer.state() == HandshakeState::Initial
                            &&& peer.spec_endpoint() == (Endpoint::<S> {
                                addr: conf.peers@[i].endpoint,
                                conn: None,
                            })
                            &&& peer.allowed() == allowed_from(conf.peers@[i].allowed_ips@)
                        }
                    &&& device.routes() == routes_from(conf@.peers, conf.peers@.len() as int)
                },
                Err(e) => encode_utf8(e.name@).len() > PEER_NAME_MAX_LEN && (e.name@
                    == conf.interface.name@ || exists|i: int|
                    0 <= i < conf.peers@.len() && e.name@ == (#[trigger] conf.peers@[i]).name@),
            },
            r is Err <==> encode_utf8(conf.interface.name@).len() > PEER_NAME_MAX_LEN
                || exists|i: int|
                0 <= i < conf.peers@.len() && (
                #[trigger] name_len(conf.peers@[i])) > PEER_NAME_MAX_LEN,
    {
        let name = match PeerName::new(conf.interface.name.as_str()) {
            Ok(name) => name,
            Err(e) => {
                return Err(e);
            },
        };
        let listen_port = conf.interface.listen_port;
        let config = DeviceConfig::new(name, tun_name, listen_port, use_connected_peer);
        let mut device: Device<S> = Device::new(config);
        let n = conf.peers.len();
        let mut i: usize = 0;
        while i < n
            invariant
                i <= n,
                n == conf.peers@.len(),
                n <= u32::MAX,
                conf@.prefixes_fit(),
                device.wf(),
                device.spec_name() == zero_padded(encode_utf8(conf.interface.name@)),
                device.spec_listen_port() == conf.interface.listen_port,
                device.spec_use_connected_peer() == use_connected_peer,
                device.peers().len() == i,
                device.names().len() == i,
                forall|k: int|
                    0 <= k < i ==> (#[trigger] name_len(conf.peers@[k]))
                        <= PEER_NAME_MAX_LEN,
                forall|k: int|
                    0 <= k < i ==> {
                        let peer = #[trigger] device.peers()[k];
                        &&& device.names()[k] == zero_padded(
                            encode_utf8(conf.peers@[k].name@),
                        )
                        &&& peer.spec_local_idx() == k
                        &&& peer.state() == HandshakeState::Initial
                        &&& peer.spec_endpoint() == (Endpoint::<S> {
                            addr: conf.peers@[k].endpoint,
                            conn: None,
                        })
                        &&& peer.allowed() == allowed_from(conf.peers@[k].allowed_ips@)
                    },
                device.routes() == routes_from(conf@.peers, i as int),
            decreases n - i,
        {
            let peer_conf = &conf.peers[i];
            proof {
                assert(conf@.peers[i as int] == peer_conf@);
                assert forall|j: int| 0 <= j < peer_conf.allowed_ips@.len() implies (
                #[trigger] peer_conf.allowed_ips@[j]).1 <= 32 by {
                    assert(conf@.peers[i as int].allowed_ips[j].1 <= 32);
                }
            }
            let ghost before = device;
            match device.add_peer_conf(peer_conf) {
                Ok(_) => {
                    assert(name_len(conf.peers@[i as int]) <= PEER_NAME_MAX_LEN);
                },
                Err(e) => {
                    assert(name_len(conf.peers@[i as int]) > PEER_NAME_MAX_LEN);
                    assert(e.name@ == conf.peers@[i as int].name@);
                    return Err(e);
                },
            }
            proof {
                assert forall|k: int| 0 <= k < i + 1 implies {
                    let peer = #[trigger] device.peers()[k];
                    &&& device.names()[k] == zero_padded(encode_utf8(conf.peers@[k].name@))
                    &&& peer.spec_local_idx() == k
                    &&& peer.state() == HandshakeState::Initial
                    &&& peer.spec_endpoint() == (Endpoint::<S> {
                        addr: conf.peers@[k].endpoint,
                        conn: None,
                    })
                    &&& peer.allowed() == allowed_from(conf.peers@[k].allowed_ips@)
                } by {
                    if k < i {
                        assert(device.peers()[k] == before.peers()[k]);
                        assert(device.names()[k] == before.names()[k]);
                    }
                }
            }
            i += 1;
        }
        Ok(device)
    }
}

/// Length in bytes of the name of the peer that `conf` describes.
pub open spec fn name_len(conf: PeerConf) -> nat {
    encode_utf8(conf.name@).len()
}

/// The routes of a device that was given the first `n` of `peers` in turn:
/// each network leads to the last peer that may send from it.
pub open spec fn routes_from(peers: Seq<PeerView>, n: int) -> Map<Network, u32>
    decreases n,
{
    if n <= 0 {
        Map::empty()
    } else {
        routes_with(
            routes_from(peers, n - 1),
            allowed_from(peers[n - 1].allowed_ips),
            (n - 1) as u32,
        )
    }
}

} // verus!
