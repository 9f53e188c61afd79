//! A peer: its name, where it is, the networks it may send from, and the
//! handshake with it.

use crate::allowed_ip::{all_canonical, net_contains, AllowedIps, IpAddress, Network};
use crate::allowed_ip::lemma_longest_match;
use crate::ipv4::{ipv4_addresses, read_ipv4_addresses};
use crate::packet::{lemma_decode_encode, lemma_encoded_len};
use crate::packet::{
    Frame, HandshakeInit, HandshakeResponse, PackeParseError, Packet, PacketData, DATA_MIN_SIZE,
    HANDSHAKE_INIT_SIZE,
};
use vstd::prelude::*;
use vstd::slice::slice_subrange;
use vstd::string::StringSliceAdditionalSpecFns;

verus! {

/// An IPv4 address and a UDP port: where a peer is reached.
#[derive(Debug, Clone, Copy, PartialEq, Eq, Hash, Structural)]
pub struct SockAddr {
    /// The address, its bytes read most significant first.
    pub ip: u32,
    pub port: u16,
}

/// Where a peer is: the address it was last heard from, and the socket
/// connected to that address if the device has opened one.
///
/// `S` is the type of such a socket. Nothing here looks inside it.
#[derive(Debug)]
pub struct Endpoint<S> {
    pub addr: Option<SockAddr>,
    pub conn: Option<S>,
}

impl<S> Endpoint<S> {
    /// A connected socket is only ever held together with the address it
    /// is connected to.
    pub open spec fn wf(&self) -> bool {
        self.conn is Some ==> self.addr is Some
    }

    /// What [`Peer::set_endpoint`] makes of an endpoint and what it
    /// returns: nothing changes where `addr` is the address already held;
    /// else the address is replaced and the socket handed out.
    pub open spec fn observe(self, addr: SockAddr) -> (Endpoint<S>, bool, Option<S>) {
        if self.addr == Some(addr) {
            (self, false, None)
        } else {
            (Endpoint { addr: Some(addr), conn: None }, true, self.conn)
        }
    }
}

impl<S> Default for Endpoint<S> {
    fn default() -> (endpoint: Self)
        ensures
            endpoint.addr is None,
            endpoint.conn is None,
    {
        Endpoint { addr: None, conn: None }
    }
}

/// Hearing twice from one address is hearing once: the second time nothing
/// is reported as changed, no socket is handed out, and the endpoint stays
/// as the first time left it.
pub proof fn lemma_observe_twice<S>(endpoint: Endpoint<S>, addr: SockAddr)
    ensures
        endpoint.observe(addr).0.observe(addr) == (
            endpoint.observe(addr).0,
            false,
            None::<S>,
        ),
        endpoint.observe(addr).0.addr == Some(addr),
        endpoint.wf() ==> endpoint.observe(addr).0.wf(),
{
}

/// What the device is asked to do after a peer has seen an event. The first
/// field is the local index of the peer that asks.
#[derive(Debug, PartialEq)]
pub enum Action<'a> {
    /// Hand the bytes to the TUN device, if the peer may send from the
    /// source address in the last field.
    WriteToTun(u32, &'a [u8], u32),
    /// Send the bytes to the peer.
    WriteToNetwork(u32, &'a [u8]),
    /// Nothing to do.
    Nothing,
}

/// An [`Action`] as a mathematical value.
pub enum ActionView {
    WriteToTun { peer: u32, bytes: Seq<u8>, src: u32 },
    WriteToNetwork { peer: u32, bytes: Seq<u8> },
    Nothing,
}

impl<'a> View for Action<'a> {
    type V = ActionView;

    open spec fn view(&self) -> ActionView {
        match self {
            Action::WriteToTun(peer, bytes, src) => ActionView::WriteToTun {
                peer: *peer,
                bytes: bytes@,
                src: *src,
            },
            Action::WriteToNetwork(peer, bytes) => ActionView::WriteToNetwork {
                peer: *peer,
                bytes: bytes@,
            },
            Action::Nothing => ActionView::Nothing,
        }
    }
}

/// How far the handshake with a peer has come.
///
/// The side that starts goes from `Initial` over `HandshakeSent` to
/// `Connected`, the side that answers from `Initial` over `HandshakeReceived`
/// to `Connected`.
#[derive(Debug, Copy, Clone, Eq, PartialEq, Structural)]
pub enum HandshakeState {
    /// Nothing was sent or received.
    Initial,
    /// An initiation was sent; the response is awaited.
    HandshakeSent,
    /// An initiation was received and answered; the first data is awaited.
    HandshakeReceived { remote_idx: u32 },
    /// Both sides know each other's index.
    Connected { remote_idx: u32 },
}

impl Default for HandshakeState {
    fn default() -> (state: Self)
        ensures
            state == HandshakeState::Initial,
    {
        HandshakeState::Initial
    }
}

/// What can happen to a peer.
pub enum Event {
    /// The device asks the peer to start a handshake under the device's
    /// name.
    InitiateHandshake { sender_name: Seq<u8> },
    /// A frame from the peer has arrived.
    Receive { frame: Frame },
    /// A packet from the TUN device is to be sent to the peer.
    Encapsulate { payload: Seq<u8> },
}

/// The handshake state machine: the state and the action that follow from
/// a state and an event, for the peer with index `local_idx` whose address
/// is known or not.
///
/// What no line names leaves the state alone and asks for nothing.
pub open spec fn step(
    state: HandshakeState,
    local_idx: u32,
    endpoint_known: bool,
    event: Event,
) -> (HandshakeState, ActionView) {
    match event {
        Event::InitiateHandshake { sender_name } => {
            if state is Initial && endpoint_known {
                (
                    HandshakeState::HandshakeSent,
                    ActionView::WriteToNetwork {
                        peer: local_idx,
                        bytes: Frame::HandshakeInit {
                            assigned_idx: local_idx,
                            sender_name,
                        }.encode(),
                    },
                )
            } else {
                (state, ActionView::Nothing)
            }
        },
        Event::Receive { frame: Frame::HandshakeInit { assigned_idx, .. } } => {
            if state is Initial || state is Connected {
                (
                    HandshakeState::HandshakeReceived { remote_idx: assigned_idx },
                    ActionView::WriteToNetwork {
                        peer: local_idx,
                        bytes: Frame::HandshakeResponse {
                            assigned_idx: local_idx,
                            sender_idx: assigned_idx,
                        }.encode(),
                    },
                )
            } else {
                (state, ActionView::Nothing)
            }
        },
        Event::Receive { frame: Frame::HandshakeResponse { assigned_idx, .. } } => {
            if state is HandshakeSent {
                (
                    HandshakeState::Connected { remote_idx: assigned_idx },
                    ActionView::WriteToNetwork {
                        peer: local_idx,
                        bytes: Frame::Data { sender_idx: assigned_idx, data: Seq::empty() }.encode(),
                    },
                )
            } else {
                (state, ActionView::Nothing)
            }
        },
        Event::Receive { frame: Frame::Data { data, .. } } => {
            match state {
                HandshakeState::HandshakeReceived { remote_idx }
                | HandshakeState::Connected { remote_idx } => (
                    HandshakeState::Connected { remote_idx },
                    match ipv4_addresses(data) {
                        Some((src, _)) => ActionView::WriteToTun { peer: local_idx, bytes: data, src },
                        None => ActionView::Nothing,
                    },
                ),
                _ => (state, ActionView::Nothing),
            }
        },
        Event::Receive { frame: Frame::Empty } => (state, ActionView::Nothing),
        Event::Encapsulate { payload } => {
            match state {
                HandshakeState::Connected { remote_idx } => (
                    state,
                    ActionView::WriteToNetwork {
                        peer: local_idx,
                        bytes: Frame::Data { sender_idx: remote_idx, data: payload }.encode(),
                    },
                ),
                _ => (state, ActionView::Nothing),
            }
        },
    }
}

/// How a buffer stands after a peer has answered into it: the frame to send
/// lies at its front and the rest is as it was; a buffer that nothing was
/// written to is as it was.
pub open spec fn written(before: Seq<u8>, after: Seq<u8>, action: ActionView) -> bool {
    &&& after.len() == before.len()
    &&& match action {
        ActionView::WriteToNetwork { bytes, .. } => {
            &&& bytes.len() <= after.len()
            &&& after.subrange(0, bytes.len() as int) == bytes
            &&& after.subrange(bytes.len() as int, after.len() as int) == before.subrange(
                bytes.len() as int,
                before.len() as int,
            )
        },
        _ => after == before,
    }
}

/// Room that the buffer for the answer must have when `event` meets
/// `state`: the length of the frame that [`step`] then asks to send.
pub open spec fn answer_len(
    state: HandshakeState,
    local_idx: u32,
    endpoint_known: bool,
    event: Event,
) -> nat {
    match step(state, local_idx, endpoint_known, event).1 {
        ActionView::WriteToNetwork { bytes, .. } => bytes.len(),
        _ => 0,
    }
}

/// The transitions of the handshake, line by line. [`step`] gives exactly
/// one state and one action for every state and every event, so the machine
/// is total and deterministic; these are its values.
pub proof fn lemma_transition_table(
    state: HandshakeState,
    local_idx: u32,
    endpoint_known: bool,
    event: Event,
)
    ensures
        // starting a handshake
        state is Initial && endpoint_known ==> forall|name: Seq<u8>|
            #[trigger] step(
                state,
                local_idx,
                endpoint_known,
                Event::InitiateHandshake { sender_name: name },
            ) == (
                HandshakeState::HandshakeSent,
                ActionView::WriteToNetwork {
                    peer: local_idx,
                    bytes: Frame::HandshakeInit { assigned_idx: local_idx, sender_name: name }.encode(),
                },
            ),
        event is InitiateHandshake && !(state is Initial && endpoint_known) ==> step(
            state,
            local_idx,
            endpoint_known,
            event,
        ) == (state, ActionView::Nothing),
        // an initiation is answered from the initial and the connected state only
        state is Initial || state is Connected ==> forall|x: u32, name: Seq<u8>|
            #[trigger] step(
                state,
                local_idx,
                endpoint_known,
                Event::Receive { frame: Frame::HandshakeInit { assigned_idx: x, sender_name: name } },
            ) == (
                HandshakeState::HandshakeReceived { remote_idx: x },
                ActionView::WriteToNetwork {
                    peer: local_idx,
                    bytes: Frame::HandshakeResponse { assigned_idx: local_idx, sender_idx: x }.encode(),
                },
            ),
        (event matches Event::Receive { frame } && frame is HandshakeInit) && (state
            is HandshakeSent || state is HandshakeReceived) ==> step(
            state,
            local_idx,
            endpoint_known,
            event,
        ) == (state, ActionView::Nothing),
        // a response is taken while one is awaited only
        state is HandshakeSent ==> forall|x: u32, echo: u32|
            #[trigger] step(
                state,
                local_idx,
                endpoint_known,
                Event::Receive {
                    frame: Frame::HandshakeResponse { assigned_idx: x, sender_idx: echo },
                },
            ) == (
                HandshakeState::Connected { remote_idx: x },
                ActionView::WriteToNetwork {
                    peer: local_idx,
                    bytes: Frame::Data { sender_idx: x, data: Seq::empty() }.encode(),
                },
            ),
        (event matches Event::Receive { frame } && frame is HandshakeResponse) && !(state
            is HandshakeSent) ==> step(state, local_idx, endpoint_known, event) == (
            state,
            ActionView::Nothing,
        ),
        // data is taken once the remote index is known
        state matches HandshakeState::HandshakeReceived { remote_idx } ==> forall|
            sender_idx: u32,
            data: Seq<u8>,
        |
            #[trigger] step(
                state,
                local_idx,
                endpoint_known,
                Event::Receive { frame: Frame::Data { sender_idx, data } },
            ) == (
                HandshakeState::Connected { remote_idx },
                match ipv4_addresses(data) {
                    Some((src, _)) => ActionView::WriteToTun { peer: local_idx, bytes: data, src },
                    None => ActionView::Nothing,
                },
            ),
        state matches HandshakeState::Connected { remote_idx } ==> forall|
            sender_idx: u32,
            data: Seq<u8>,
        |
            #[trigger] step(
                state,
                local_idx,
                endpoint_known,
                Event::Receive { frame: Frame::Data { sender_idx, data } },
            ) == (
                HandshakeState::Connected { remote_idx },
                match ipv4_addresses(data) {
                    Some((src, _)) => ActionView::WriteToTun { peer: local_idx, bytes: data, src },
                    None => ActionView::Nothing,
                },
            ),
        (event matches Event::Receive { frame } && frame is Data) && (state is Initial || state
            is HandshakeSent) ==> step(state, local_idx, endpoint_known, event) == (
            state,
            ActionView::Nothing,
        ),
        // the empty frame
        step(state, local_idx, endpoint_known, Event::Receive { frame: Frame::Empty }) == (
            state,
            ActionView::Nothing,
        ),
        // packets from the TUN device
        state matches HandshakeState::Connected { remote_idx } ==> forall|payload: Seq<u8>|
            #[trigger] step(state, local_idx, endpoint_known, Event::Encapsulate { payload }) == (
                state,
                ActionView::WriteToNetwork {
                    peer: local_idx,
                    bytes: Frame::Data { sender_idx: remote_idx, data: payload }.encode(),
                },
            ),
        event is Encapsulate && !(state is Connected) ==> step(
            state,
            local_idx,
            endpoint_known,
            event,
        ) == (state, ActionView::Nothing),
{
}

/// Whatever a peer is asked to do, it is asked in its own name, and a state
/// that knows a remote index is only left for another one that does.
pub proof fn lemma_step_keeps_identity(
    state: HandshakeState,
    local_idx: u32,
    endpoint_known: bool,
    event: Event,
)
    ensures
        match step(state, local_idx, endpoint_known, event).1 {
            ActionView::WriteToTun { peer, .. } => peer == local_idx,
            ActionView::WriteToNetwork { peer, .. } => peer == local_idx,
            ActionView::Nothing => true,
        },
        step(state, local_idx, endpoint_known, event).1 is WriteToTun ==> step(
            state,
            local_idx,
            endpoint_known,
            event,
        ).0 is Connected,
{
}

/// The side that started a handshake answers the response with a data frame
/// that has no payload: five bytes that are read back as such a frame, sent
/// under the index that the response assigned.
pub proof fn lemma_first_frame_after_response(
    local_idx: u32,
    endpoint_known: bool,
    assigned_idx: u32,
    sender_idx: u32,
)
    ensures
        ({
            let (state, action) = step(
                HandshakeState::HandshakeSent,
                local_idx,
                endpoint_known,
                Event::Receive { frame: Frame::HandshakeResponse { assigned_idx, sender_idx } },
            );
            &&& state == HandshakeState::Connected { remote_idx: assigned_idx }
            &&& action matches ActionView::WriteToNetwork { peer, bytes }
            &&& peer == local_idx
            &&& bytes.len() == DATA_MIN_SIZE
            &&& Frame::decode(bytes) == Ok::<Frame, PackeParseError>(
                Frame::Data { sender_idx: assigned_idx, data: Seq::empty() },
            )
        }),
{
    let frame = Frame::Data { sender_idx: assigned_idx, data: Seq::empty() };
    lemma_decode_encode(frame);
    lemma_encoded_len(frame);
}

/// The bytes that `action` asks to send, read as a frame.
pub open spec fn frame_sent(action: ActionView) -> Option<Frame> {
    match action {
        ActionView::WriteToNetwork { bytes, .. } => match Frame::decode(bytes) {
            Ok(frame) => Some(frame),
            Err(_) => None,
        },
        _ => None,
    }
}

/// A handshake completes: where one side starts it under a name of full
/// length and each side is shown what the other sent, both end up
/// connected, each knowing the index under which the other knows it.
///
/// `near` is the index that the starting side has for the other side, `far`
/// the index that the other side has for the starting side. Three frames
/// are sent; the last, a data frame without payload, is handed to nobody.
pub proof fn lemma_handshake_completes(near: u32, far: u32, name: Seq<u8>)
    requires
        name.len() == PEER_NAME_MAX_LEN,
    ensures
        ({
            let started = step(
                HandshakeState::Initial,
                near,
                true,
                Event::InitiateHandshake { sender_name: name },
            );
            let answered = step(
                HandshakeState::Initial,
                far,
                false,
                Event::Receive { frame: frame_sent(started.1)->Some_0 },
            );
            let confirmed = step(
                started.0,
                near,
                true,
                Event::Receive { frame: frame_sent(answered.1)->Some_0 },
            );
            let completed = step(
                answered.0,
                far,
                true,
                Event::Receive { frame: frame_sent(confirmed.1)->Some_0 },
            );
            &&& frame_sent(started.1) == Some(
                Frame::HandshakeInit { assigned_idx: near, sender_name: name },
            )
            &&& frame_sent(answered.1) == Some(
                Frame::HandshakeResponse { assigned_idx: far, sender_idx: near },
            )
            &&& frame_sent(confirmed.1) == Some(
                Frame::Data { sender_idx: far, data: Seq::empty() },
            )
            &&& confirmed.0 == HandshakeState::Connected { remote_idx: far }
            &&& completed.0 == HandshakeState::Connected { remote_idx: near }
            &&& completed.1 == ActionView::Nothing
        }),
{
    lemma_decode_encode(Frame::HandshakeInit { assigned_idx: near, sender_name: name });
    lemma_decode_encode(Frame::HandshakeResponse { assigned_idx: far, sender_idx: near });
    lemma_decode_encode(Frame::Data { sender_idx: far, data: Seq::empty() });
    assert(ipv4_addresses(Seq::<u8>::empty()) is None);
}

/// The tunnel delivers: a packet that a connected peer wraps is, on the
/// other side, unwrapped to the same packet by the peer that is connected
/// to it, and asked to be written to the TUN device with the packet's own
/// source address; a packet that does not start with an IPv4 header is
/// dropped there.
pub proof fn lemma_tunnel_delivers(near: u32, far: u32, packet: Seq<u8>)
    ensures
        ({
            let sent = step(
                HandshakeState::Connected { remote_idx: far },
                near,
                true,
                Event::Encapsulate { payload: packet },
            );
            let received = step(
                HandshakeState::Connected { remote_idx: near },
                far,
                true,
                Event::Receive { frame: frame_sent(sent.1)->Some_0 },
            );
            &&& frame_sent(sent.1) == Some(Frame::Data { sender_idx: far, data: packet })
            &&& received.0 == HandshakeState::Connected { remote_idx: near }
            &&& received.1 == match ipv4_addresses(packet) {
                Some((src, _)) => ActionView::WriteToTun { peer: far, bytes: packet, src },
                None => ActionView::Nothing,
            }
        }),
{
    lemma_decode_encode(Frame::Data { sender_idx: far, data: packet });
}

/// A remote node: its index in the device, the state of the handshake with
/// it, where it is, and the networks it may send from.
pub struct Peer<S> {
    local_idx: u32,
    handshake_state: HandshakeState,
    endpoint: Endpoint<S>,
    allowed_ips: AllowedIps,
}

impl<S> Peer<S> {
    /// The index under which the device knows this peer.
    pub closed spec fn spec_local_idx(&self) -> u32 {
        self.local_idx
    }

    /// The state of the handshake.
    pub closed spec fn state(&self) -> HandshakeState {
        self.handshake_state
    }

    /// Address and socket of the peer.
    pub closed spec fn spec_endpoint(&self) -> Endpoint<S> {
        self.endpoint
    }

    /// The networks the peer may send from, as the entries of its table.
    pub closed spec fn allowed(&self) -> Map<Network, u32> {
        self.allowed_ips@
    }

    /// The peer's invariant: that of its endpoint, and every network of its
    /// table is canonical.
    pub open spec fn wf(&self) -> bool {
        &&& self.spec_endpoint().wf()
        &&& all_canonical(self.allowed())
    }

    /// Whether the peer may send from `addr`: one of its networks contains
    /// it.
    pub open spec fn allows(&self, addr: u32) -> bool {
        exists|net: Network| #[trigger]
            self.allowed().contains_key(net) && net_contains(net, IpAddress::V4(addr))
    }

    /// State and action that [`step`] gives for this peer and `event`.
    pub open spec fn after(&self, event: Event) -> (HandshakeState, ActionView) {
        step(self.state(), self.spec_local_idx(), self.spec_endpoint().addr is Some, event)
    }

    /// Room that the buffer for the answer must have when this peer sees
    /// `event`.
    pub open spec fn room_for(&self, event: Event) -> nat {
        answer_len(self.state(), self.spec_local_idx(), self.spec_endpoint().addr is Some, event)
    }

    /// Whether this peer differs from `before` in the state of the
    /// handshake at most.
    pub open spec fn same_but_state(&self, before: &Self) -> bool {
        &&& self.spec_local_idx() == before.spec_local_idx()
        &&& self.spec_endpoint() == before.spec_endpoint()
        &&& self.allowed() == before.allowed()
        &&& self.wf() == before.wf()
    }

    /// A peer with index 0 that has seen nothing, is found at `peer` and
    /// may send from nowhere.
    pub fn new(peer: Endpoint<S>) -> (made: Self)
        ensures
            made.spec_local_idx() == 0,
            made.state() == HandshakeState::Initial,
            made.spec_endpoint() == peer,
            made.allowed() == Map::<Network, u32>::empty(),
            made.wf() == peer.wf(),
    {
        Self {
            local_idx: 0,
            handshake_state: HandshakeState::Initial,
            endpoint: peer,
            allowed_ips: AllowedIps::new(),
        }
    }

    /// Address and socket of the peer.
    pub fn endpoint(&self) -> (endpoint: &Endpoint<S>)
        ensures
            *endpoint == self.spec_endpoint(),
    {
        &self.endpoint
    }

    /// The index under which the device knows this peer.
    pub fn local_idx(&self) -> (idx: u32)
        ensures
            idx == self.spec_local_idx(),
    {
        self.local_idx
    }

    /// The state of the handshake.
    pub fn handshake_state(&self) -> (state: HandshakeState)
        ensures
            state == self.state(),
    {
        self.handshake_state
    }

    /// Gives the peer the index `idx`.
    pub fn set_local_idx(&mut self, idx: u32)
        ensures
            final(self).spec_local_idx() == idx,
            final(self).state() == old(self).state(),
            final(self).spec_endpoint() == old(self).spec_endpoint(),
            final(self).allowed() == old(self).allowed(),
            final(self).wf() == old(self).wf(),
    {
        self.local_idx = idx
    }

    /// The table of the networks the peer may send from.
    pub fn allowed_ips(&self) -> (table: &AllowedIps)
        ensures
            table@ == self.allowed(),
    {
        &self.allowed_ips
    }

    /// Lets the peer send from the network that `addr` lies in with prefix
    /// `cidr`.
    pub fn add_allowed_ip(&mut self, addr: u32, cidr: u8)
        requires
            all_canonical(old(self).allowed()),
            cidr <= 32,
        ensures
            all_canonical(final(self).allowed()),
            old(self).wf() ==> final(self).wf(),
            final(self).allowed() == old(self).allowed().insert(
                (IpAddress::V4(addr).truncate(cidr), cidr),
                0,
            ),
            final(self).spec_local_idx() == old(self).spec_local_idx(),
            final(self).state() == old(self).state(),
            final(self).spec_endpoint() == old(self).spec_endpoint(),
    {
        self.allowed_ips.insert(IpAddress::V4(addr), cidr, 0);
    }

    /// Whether the peer may send from `addr`.
    pub fn is_allowed_ip(&self, addr: u32) -> (allowed: bool)
        ensures
            allowed == self.allows(addr),
    {
        let found = self.allowed_ips.find(IpAddress::V4(addr));
        proof {
            lemma_longest_match(self.allowed(), IpAddress::V4(addr));
        }
        found.is_some()
    }

    /// Records that the peer was heard from `addr`.
    ///
    /// Where `addr` is the address already held, nothing changes and
    /// `(false, None)` is returned. Else the address is replaced, and the
    /// result is `true` with the socket that was connected to the old
    /// address, which the peer no longer holds.
    pub fn set_endpoint(&mut self, addr: SockAddr) -> (r: (bool, Option<S>))
        ensures
            (final(self).spec_endpoint(), r.0, r.1) == old(self).spec_endpoint().observe(addr),
            final(self).spec_local_idx() == old(self).spec_local_idx(),
            final(self).state() == old(self).state(),
            final(self).allowed() == old(self).allowed(),
            old(self).wf() ==> final(self).wf(),
    {
        let same = match self.endpoint.addr {
            Some(a) => a == addr,
            None => false,
        };
        if same {
            return (false, None);
        }
        self.endpoint.addr = Some(addr);
        (true, self.endpoint.conn.take())
    }

    /// Takes `conn`, a socket connected to the peer's address, as the
    /// socket of the endpoint.
    pub fn connect_endpoint(&mut self, conn: S)
        requires
            old(self).spec_endpoint().addr is Some,
            old(self).spec_endpoint().conn is None,
        ensures
            final(self).spec_endpoint() == (Endpoint {
                addr: old(self).spec_endpoint().addr,
                conn: Some(conn),
            }),
            final(self).spec_local_idx() == old(self).spec_local_idx(),
            final(self).state() == old(self).state(),
            final(self).allowed() == old(self).allowed(),
            old(self).wf() ==> final(self).wf(),
    {
        self.endpoint.conn = Some(conn);
    }

    /// Starts a handshake under the name `sender_name` if none was started
    /// and the peer's address is known, and asks for nothing otherwise.
    ///
    /// The initiation is written to the front of `dst`.
    pub fn initiate_handshake<'a>(
        &mut self,
        sender_name: PeerName<&[u8]>,
        dst: &'a mut [u8],
    ) -> (action: Action<'a>)
        requires
            old(self).state() is Initial && old(self).spec_endpoint().addr is Some ==> {
                &&& sender_name@.len() == PEER_NAME_MAX_LEN
                &&& old(dst)@.len() >= HANDSHAKE_INIT_SIZE
            },
        ensures
            final(self).same_but_state(old(self)),
            (final(self).state(), action@) == old(self).after(
                Event::InitiateHandshake { sender_name: sender_name@ },
            ),
            written(old(dst)@, final(dst)@, action@),
    {
        let endpoint_set = self.endpoint.addr.is_some();
        if matches!(self.handshake_state, HandshakeState::Initial) && endpoint_set {
            let packet = HandshakeInit { sender_name, assigned_idx: self.local_idx };
            let n = packet.format(dst);
            self.handshake_state = HandshakeState::HandshakeSent;
            Action::WriteToNetwork(self.local_idx, slice_subrange(dst, 0, n))
        } else {
            Action::Nothing
        }
    }

    /// Wraps `src` into a data frame for the peer if the handshake is
    /// complete, and asks for nothing otherwise.
    ///
    /// The frame is written to the front of `dst`.
    pub fn encapsulate<'a>(&self, src: &[u8], dst: &'a mut [u8]) -> (action: Action<'a>)
        requires
            old(dst)@.len() >= self.room_for(Event::Encapsulate { payload: src@ }),
        ensures
            action@ == self.after(Event::Encapsulate { payload: src@ }).1,
            self.state() == self.after(Event::Encapsulate { payload: src@ }).0,
            written(old(dst)@, final(dst)@, action@),
    {
        if let HandshakeState::Connected { remote_idx } = self.handshake_state {
            let data = PacketData { sender_idx: remote_idx, data: src };
            let n = data.format(dst);
            Action::WriteToNetwork(self.local_idx, slice_subrange(dst, 0, n))
        } else {
            Action::Nothing
        }
    }

    /// Lets the peer see a frame that it has sent, and returns what is to
    /// be done about it.
    ///
    /// An answer is written to the front of `dst`; a payload for the TUN
    /// device is the one that `packet` points at.
    pub fn handle_incoming_packet<'a>(
        &mut self,
        packet: Packet<'a>,
        dst: &'a mut [u8],
    ) -> (action: Action<'a>)
        requires
            old(dst)@.len() >= old(self).room_for(Event::Receive { frame: packet@ }),
        ensures
            final(self).same_but_state(old(self)),
            (final(self).state(), action@) == old(self).after(Event::Receive { frame: packet@ }),
            written(old(dst)@, final(dst)@, action@),
    {
        match packet {
            Packet::Empty => Action::Nothing,
            Packet::HandshakeInit(msg) => self.handle_handshake_init(msg, dst),
            Packet::HandshakeResponse(msg) => self.handle_handshake_response(msg, dst),
            Packet::Data(msg) => self.handle_packet_data(msg, dst),
        }
    }

    /// An initiation is answered, and the handshake started over, unless
    /// this side is itself waiting for a response or for first data.
    fn handle_handshake_init<'a>(
        &mut self,
        msg: HandshakeInit<'a>,
        dst: &'a mut [u8],
    ) -> (action: Action<'a>)
        requires
            old(dst)@.len() >= old(self).room_for(Event::Receive { frame: msg@ }),
        ensures
            final(self).same_but_state(old(self)),
            (final(self).state(), action@) == old(self).after(Event::Receive { frame: msg@ }),
            written(old(dst)@, final(dst)@, action@),
    {
        match self.handshake_state {
            HandshakeState::Initial | HandshakeState::Connected { .. } => {
                self.handshake_state = HandshakeState::HandshakeReceived {
                    remote_idx: msg.assigned_idx,
                };
                let local_idx = self.local_idx;
                let response = HandshakeResponse {
                    assigned_idx: local_idx,
                    sender_idx: msg.assigned_idx,
                };
                let n = response.format(dst);
                Action::WriteToNetwork(self.local_idx, slice_subrange(dst, 0, n))
            },
            _ => Action::Nothing,
        }
    }

    /// A response completes the handshake that this side has started; the
    /// first frame sent after it is a data frame without payload.
    fn handle_handshake_response<'a>(
        &mut self,
        msg: HandshakeResponse,
        dst: &'a mut [u8],
    ) -> (action: Action<'a>)
        requires
            old(dst)@.len() >= old(self).room_for(Event::Receive { frame: msg@ }),
        ensures
            final(self).same_but_state(old(self)),
            (final(self).state(), action@) == old(self).after(Event::Receive { frame: msg@ }),
            written(old(dst)@, final(dst)@, action@),
    {
        if let HandshakeState::HandshakeSent = self.handshake_state {
            self.handshake_state = HandshakeState::Connected { remote_idx: msg.assigned_idx };
            let empty: [u8; 0] = [];
            let payload = empty.as_slice();
            assert(payload@ =~= Seq::<u8>::empty());
            self.encapsulate(payload, dst)
        } else {
            Action::Nothing
        }
    }

    /// Data completes the handshake that this side has answered. Its
    /// payload goes to the TUN device if it starts with an IPv4 header.
    fn handle_packet_data<'a>(
        &mut self,
        msg: PacketData<'a>,
        dst: &'a mut [u8],
    ) -> (action: Action<'a>)
        ensures
            final(self).same_but_state(old(self)),
            (final(self).state(), action@) == old(self).after(Event::Receive { frame: msg@ }),
            written(old(dst)@, final(dst)@, action@),
    {
        match self.handshake_state {
            HandshakeState::Connected { .. } => {},
            HandshakeState::HandshakeReceived { remote_idx } => {
                self.handshake_state = HandshakeState::Connected { remote_idx };
            },
            _ => {
                return Action::Nothing;
            },
        }
        match read_ipv4_addresses(msg.data) {
            Some((src, _)) => Action::WriteToTun(self.local_idx, msg.data, src),
            None => Action::Nothing,
        }
    }
}

/// The table of a peer that may send from the networks `list`, each with
/// its host bits cleared.
pub open spec fn allowed_from(list: Seq<(u32, u8)>) -> Map<Network, u32>
    decreases list.len(),
{
    if list.len() == 0 {
        Map::empty()
    } else {
        allowed_from(list.drop_last()).insert(
            (IpAddress::V4(list.last().0).truncate(list.last().1), list.last().1),
            0,
        )
    }
}

impl<S> Peer<S> {
    /// A peer that has seen nothing, is reached at `endpoint` if one is
    /// given, and may send from the networks `allowed_ips`.
    pub fn configured(endpoint: Option<SockAddr>, allowed_ips: &[(u32, u8)]) -> (made: Self)
        requires
            forall|j: int| 0 <= j < allowed_ips@.len() ==> (#[trigger] allowed_ips@[j]).1 <= 32,
        ensures
            made.wf(),
            made.spec_local_idx() == 0,
            made.state() == HandshakeState::Initial,
            made.spec_endpoint() == (Endpoint::<S> { addr: endpoint, conn: None }),
            made.allowed() == allowed_from(allowed_ips@),
    {
        let mut peer: Peer<S> = Peer::default();
        if let Some(addr) = endpoint {
            peer.set_endpoint(addr);
        }
        let n = allowed_ips.len();
        let mut i: usize = 0;
        while i < n
            invariant
                i <= n,
                n == allowed_ips@.len(),
                forall|j: int|
                    0 <= j < allowed_ips@.len() ==> (#[trigger] allowed_ips@[j]).1 <= 32,
                peer.wf(),
                peer.spec_local_idx() == 0,
                peer.state() == HandshakeState::Initial,
                peer.spec_endpoint() == (Endpoint::<S> { addr: endpoint, conn: None }),
                peer.allowed() == allowed_from(allowed_ips@.take(i as int)),
            decreases n - i,
        {
            let (ip, cidr) = allowed_ips[i];
            peer.add_allowed_ip(ip, cidr);
            proof {
                assert(allowed_ips@.take(i + 1).drop_last() =~= allowed_ips@.take(i as int));
            }
            i += 1;
        }
        proof {
            assert(allowed_ips@.take(n as int) =~= allowed_ips@);
        }
        peer
    }
}

impl<S> Default for Peer<S> {
    fn default() -> (made: Self)
        ensures
            made.spec_local_idx() == 0,
            made.state() == HandshakeState::Initial,
            made.spec_endpoint().addr is None,
            made.spec_endpoint().conn is None,
            made.allowed() == Map::<Network, u32>::empty(),
            made.wf(),
    {
        Peer::new(Endpoint::default())
    }
}

/// Width in bytes of every peer name, on the wire and in memory.
pub const PEER_NAME_MAX_LEN: usize = 100;

/// The name that identifies a peer: a fixed-width, zero-padded byte string.
///
/// The owned form holds the 100 bytes themselves; the borrowed form
/// `PeerName<&[u8]>` points into a received frame.
#[derive(Debug, PartialEq, Hash, Eq)]
pub struct PeerName<T = [u8; PEER_NAME_MAX_LEN]>(pub T);

/// The error of [`PeerName::new`]: the text does not fit in a name.
#[derive(Debug, Clone, PartialEq, Eq)]
pub struct NameTooLong {
    /// The rejected text.
    pub name: String,
}

/// `bytes` followed by as many zero bytes as are needed to fill a name.
pub open spec fn zero_padded(bytes: Seq<u8>) -> Seq<u8>
    recommends
        bytes.len() <= PEER_NAME_MAX_LEN,
{
    bytes + Seq::new((PEER_NAME_MAX_LEN - bytes.len()) as nat, |i: int| 0u8)
}

impl<'a> View for PeerName<&'a [u8]> {
    type V = Seq<u8>;

    open spec fn view(&self) -> Seq<u8> {
        self.0@
    }
}

impl View for PeerName<[u8; PEER_NAME_MAX_LEN]> {
    type V = Seq<u8>;

    open spec fn view(&self) -> Seq<u8> {
        self.0@
    }
}

impl<'a> From<&'a [u8]> for PeerName<&'a [u8]> {
    fn from(slice: &'a [u8]) -> (name: Self) {
        PeerName(slice)
    }
}

impl<'a> vstd::std_specs::convert::FromSpecImpl<&'a [u8]> for PeerName<&'a [u8]> {
    open spec fn obeys_from_spec() -> bool {
        true
    }

    open spec fn from_spec(slice: &'a [u8]) -> Self {
        PeerName(slice)
    }
}

impl<'a> PeerName<&'a [u8]> {
    /// The bytes this name points at.
    pub fn as_slice(&self) -> (bytes: &'a [u8])
        ensures
            bytes@ == self@,
    {
        self.0
    }
}

impl PeerName<[u8; PEER_NAME_MAX_LEN]> {
    /// Number of bytes in a name.
    pub fn max_len() -> (n: usize)
        ensures
            n == PEER_NAME_MAX_LEN,
    {
        PEER_NAME_MAX_LEN
    }

    /// Builds a name from the UTF-8 bytes of `name`, padded with zeros on the
    /// right. Text longer than 100 bytes is rejected.
    pub fn new(name: &str) -> (r: Result<Self, NameTooLong>)
        ensures
            name.spec_bytes().len() <= PEER_NAME_MAX_LEN ==> r is Ok && r->Ok_0@ == zero_padded(
                name.spec_bytes(),
            ),
            name.spec_bytes().len() > PEER_NAME_MAX_LEN ==> r is Err && r->Err_0.name@ == name@,
    {
        let mut bytes = [0u8; PEER_NAME_MAX_LEN];
        let name_bytes = name.as_bytes();
        let len = name_bytes.len();
        if len > PEER_NAME_MAX_LEN {
            return Err(NameTooLong { name: name.to_owned() });
        }
        let mut i: usize = 0;
        while i < len
            invariant
                i <= len <= PEER_NAME_MAX_LEN,
                len == name_bytes@.len(),
                forall|k: int| 0 <= k < i ==> bytes@[k] == name_bytes@[k],
                forall|k: int| i <= k < PEER_NAME_MAX_LEN ==> bytes@[k] == 0u8,
            decreases len - i,
        {
            bytes[i] = name_bytes[i];
            i += 1;
        }
        assert(bytes@ =~= zero_padded(name_bytes@));
        Ok(PeerName(bytes))
    }

    /// The borrowed form of this name.
    pub fn as_ref(&self) -> (name: PeerName<&[u8]>)
        ensures
            name@ == self@,
    {
        PeerName(self.0.as_slice())
    }
}

} // verus!
