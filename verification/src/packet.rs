//! The frames that peers exchange, and their bytes on the wire.
//!
//! The first byte of a datagram is the type tag; all integers are
//! little-endian. An empty datagram is a frame of its own.

use crate::peer::{PeerName, PEER_NAME_MAX_LEN};
use vstd::prelude::*;
use vstd::slice::slice_subrange;

verus! {

/// Type tag of a handshake initiation.
pub const TAG_HANDSHAKE_INIT: u8 = 1;

/// Type tag of a handshake response.
pub const TAG_HANDSHAKE_RESPONSE: u8 = 2;

/// Type tag of a data frame.
pub const TAG_DATA: u8 = 3;

/// Exact length of a handshake initiation: tag, index, name.
pub const HANDSHAKE_INIT_SIZE: usize = PEER_NAME_MAX_LEN + 5;

/// Exact length of a handshake response: tag and two indices.
pub const HANDSHAKE_RESPONSE_SIZE: usize = 9;

/// Least length of a data frame: tag and index, with an empty payload.
pub const DATA_MIN_SIZE: usize = 5;

/// A frame as a mathematical value: what a [`Packet`] stands for, whatever
/// buffer its bytes lie in.
pub enum Frame {
    HandshakeInit { assigned_idx: u32, sender_name: Seq<u8> },
    HandshakeResponse { assigned_idx: u32, sender_idx: u32 },
    Data { sender_idx: u32, data: Seq<u8> },
    Empty,
}

/// The four bytes of `x`, least significant first.
pub open spec fn le_bytes(x: u32) -> Seq<u8> {
    seq![
        (x % 256) as u8,
        ((x / 256) % 256) as u8,
        ((x / 65536) % 256) as u8,
        ((x / 16777216) % 256) as u8,
    ]
}

/// The number whose four bytes, least significant first, are `b`.
pub open spec fn le_value(b: Seq<u8>) -> u32
    recommends
        b.len() == 4,
{
    (b[0] + 256 * b[1] + 65536 * b[2] + 16777216 * b[3]) as u32
}

impl Frame {
    /// A handshake initiation carries a name of exactly 100 bytes; the other
    /// frames have no condition.
    pub open spec fn wf(self) -> bool {
        self matches Frame::HandshakeInit { sender_name, .. } ==> sender_name.len()
            == PEER_NAME_MAX_LEN
    }

    /// The bytes of this frame on the wire.
    pub open spec fn encode(self) -> Seq<u8> {
        match self {
            Frame::HandshakeInit { assigned_idx, sender_name } => seq![TAG_HANDSHAKE_INIT]
                + le_bytes(assigned_idx) + sender_name,
            Frame::HandshakeResponse { assigned_idx, sender_idx } => seq![TAG_HANDSHAKE_RESPONSE]
                + le_bytes(assigned_idx) + le_bytes(sender_idx),
            Frame::Data { sender_idx, data } => seq![TAG_DATA] + le_bytes(sender_idx) + data,
            Frame::Empty => Seq::empty(),
        }
    }

    /// The frame that the datagram `src` carries, or why it carries none.
    ///
    /// The tag is judged first, the length after it.
    pub open spec fn decode(src: Seq<u8>) -> Result<Frame, PackeParseError> {
        if src.len() == 0 {
            Ok(Frame::Empty)
        } else if src[0] == TAG_HANDSHAKE_INIT {
            if src.len() == HANDSHAKE_INIT_SIZE {
                Ok(
                    Frame::HandshakeInit {
                        assigned_idx: le_value(src.subrange(1, 5)),
                        sender_name: src.subrange(5, HANDSHAKE_INIT_SIZE as int),
                    },
                )
            } else {
                Err(PackeParseError::ProtocolErr)
            }
        } else if src[0] == TAG_HANDSHAKE_RESPONSE {
            if src.len() == HANDSHAKE_RESPONSE_SIZE {
                Ok(
                    Frame::HandshakeResponse {
                        assigned_idx: le_value(src.subrange(1, 5)),
                        sender_idx: le_value(src.subrange(5, 9)),
                    },
                )
            } else {
                Err(PackeParseError::ProtocolErr)
            }
        } else if src[0] == TAG_DATA {
            if src.len() >= DATA_MIN_SIZE {
                Ok(
                    Frame::Data {
                        sender_idx: le_value(src.subrange(1, 5)),
                        data: src.subrange(5, src.len() as int),
                    },
                )
            } else {
                Err(PackeParseError::ProtocolErr)
            }
        } else {
            Err(PackeParseError::InvalidPacketType(src[0]))
        }
    }
}

/// Four bytes written least significant first are read back as the number
/// they were written from.
pub proof fn lemma_le_value_of_le_bytes(x: u32)
    ensures
        le_bytes(x).len() == 4,
        le_value(le_bytes(x)) == x,
{
}

/// The bytes of a number read least significant first are the four bytes it
/// was read from.
pub proof fn lemma_le_bytes_of_le_value(b: Seq<u8>)
    requires
        b.len() == 4,
    ensures
        le_bytes(le_value(b)) == b,
{
    let v = b[0] + 256 * b[1] + 65536 * b[2] + 16777216 * b[3];
    let q1 = b[1] + 256 * b[2] + 65536 * b[3];
    let q2 = b[2] + 256 * b[3];
    assert(v == 256 * q1 + b[0]);
    assert(v % 256 == b[0] && v / 256 == q1);
    assert(q1 == 256 * q2 + b[1]);
    assert(q1 % 256 == b[1] && q1 / 256 == q2);
    assert(v / 65536 == q2);
    assert(q2 % 256 == b[2] && q2 / 256 == b[3]);
    assert(v / 16777216 == b[3]);
    assert(le_bytes(le_value(b)) =~= b);
}

/// The length of a frame on the wire: 105 bytes for a handshake initiation,
/// 9 for a response, the payload and 5 more for data, none for the empty
/// frame.
pub proof fn lemma_encoded_len(frame: Frame)
    requires
        frame.wf(),
    ensures
        frame is HandshakeInit ==> frame.encode().len() == HANDSHAKE_INIT_SIZE,
        frame is HandshakeResponse ==> frame.encode().len() == HANDSHAKE_RESPONSE_SIZE,
        frame matches Frame::Data { data, .. } ==> frame.encode().len() == DATA_MIN_SIZE
            + data.len(),
        frame is Empty ==> frame.encode().len() == 0,
{
}

/// Every well-formed frame is read back, unchanged, from its own bytes.
pub proof fn lemma_decode_encode(frame: Frame)
    requires
        frame.wf(),
    ensures
        Frame::decode(frame.encode()) == Ok::<Frame, PackeParseError>(frame),
{
    let bytes = frame.encode();
    match frame {
        Frame::HandshakeInit { assigned_idx, sender_name } => {
            lemma_le_value_of_le_bytes(assigned_idx);
            assert(bytes.subrange(1, 5) =~= le_bytes(assigned_idx));
            assert(bytes.subrange(5, HANDSHAKE_INIT_SIZE as int) =~= sender_name);
        },
        Frame::HandshakeResponse { assigned_idx, sender_idx } => {
            lemma_le_value_of_le_bytes(assigned_idx);
            lemma_le_value_of_le_bytes(sender_idx);
            assert(bytes.subrange(1, 5) =~= le_bytes(assigned_idx));
            assert(bytes.subrange(5, 9) =~= le_bytes(sender_idx));
        },
        Frame::Data { sender_idx, data } => {
            lemma_le_value_of_le_bytes(sender_idx);
            assert(bytes.subrange(1, 5) =~= le_bytes(sender_idx));
            assert(bytes.subrange(5, bytes.len() as int) =~= data);
        },
        Frame::Empty => {},
    }
}

/// A datagram that carries a frame is the encoding of that frame, and of no
/// other: reading loses nothing.
pub proof fn lemma_encode_decode(src: Seq<u8>)
    requires
        Frame::decode(src) is Ok,
    ensures
        Frame::decode(src)->Ok_0.wf(),
        Frame::decode(src)->Ok_0.encode() == src,
{
    let frame = Frame::decode(src)->Ok_0;
    if src.len() > 0 {
        lemma_le_bytes_of_le_value(src.subrange(1, 5));
        if src[0] == TAG_HANDSHAKE_RESPONSE {
            lemma_le_bytes_of_le_value(src.subrange(5, 9));
        }
    }
    assert(frame.encode() =~= src);
}

/// A frame exchanged between peers, borrowing its variable parts from the
/// datagram it was read from.
///
/// The first byte of a datagram is the type tag; integers are little-endian.
#[derive(Debug, PartialEq)]
pub enum Packet<'a> {
    HandshakeInit(HandshakeInit<'a>),
    HandshakeResponse(HandshakeResponse),
    Data(PacketData<'a>),
    Empty,
}

/// First message of a handshake: the sender's name and its own index.
#[derive(Debug, PartialEq)]
pub struct HandshakeInit<'a> {
    pub sender_name: PeerName<&'a [u8]>,
    pub assigned_idx: u32,
}

/// Answer to a handshake initiation: the responder's own index, and the
/// initiator's index echoed back.
#[derive(Debug, PartialEq)]
pub struct HandshakeResponse {
    pub assigned_idx: u32,
    pub sender_idx: u32,
}

/// A payload, preceded by the index under which the receiver knows itself to
/// the sender.
#[derive(Debug, PartialEq)]
pub struct PacketData<'a> {
    pub sender_idx: u32,
    pub data: &'a [u8],
}

/// Why a datagram is not a frame.
#[derive(Debug, Copy, Clone, PartialEq, Eq)]
pub enum PackeParseError {
    /// The first byte is none of the three tags.
    InvalidPacketType(u8),
    /// The length does not fit the tag.
    ProtocolErr,
}

impl<'a> View for HandshakeInit<'a> {
    type V = Frame;

    open spec fn view(&self) -> Frame {
        Frame::HandshakeInit { assigned_idx: self.assigned_idx, sender_name: self.sender_name@ }
    }
}

impl View for HandshakeResponse {
    type V = Frame;

    open spec fn view(&self) -> Frame {
        Frame::HandshakeResponse { assigned_idx: self.assigned_idx, sender_idx: self.sender_idx }
    }
}

impl<'a> View for PacketData<'a> {
    type V = Frame;

    open spec fn view(&self) -> Frame {
        Frame::Data { sender_idx: self.sender_idx, data: self.data@ }
    }
}

impl<'a> View for Packet<'a> {
    type V = Frame;

    open spec fn view(&self) -> Frame {
        match self {
            Packet::HandshakeInit(msg) => msg@,
            Packet::HandshakeResponse(msg) => msg@,
            Packet::Data(msg) => msg@,
            Packet::Empty => Frame::Empty,
        }
    }
}

/// The three kinds of frame that carry a tag.
enum PacketType {
    HandshakeInit,
    HandshakeResponse,
    PacketData,
}

impl PacketType {
    /// The kind that the tag `value` names.
    fn try_from(value: u8) -> (r: Result<PacketType, PackeParseError>)
        ensures
            value == TAG_HANDSHAKE_INIT ==> r is Ok && r->Ok_0 is HandshakeInit,
            value == TAG_HANDSHAKE_RESPONSE ==> r is Ok && r->Ok_0 is HandshakeResponse,
            value == TAG_DATA ==> r is Ok && r->Ok_0 is PacketData,
            !(1 <= value <= 3) ==> r == Err::<PacketType, PackeParseError>(
                PackeParseError::InvalidPacketType(value),
            ),
    {
        match value {
            1 => Ok(PacketType::HandshakeInit),
            2 => Ok(PacketType::HandshakeResponse),
            3 => Ok(PacketType::PacketData),
            _ => Err(PackeParseError::InvalidPacketType(value)),
        }
    }

    /// The tag of this kind.
    fn tag(&self) -> (t: u8)
        ensures
            self is HandshakeInit ==> t == TAG_HANDSHAKE_INIT,
            self is HandshakeResponse ==> t == TAG_HANDSHAKE_RESPONSE,
            self is PacketData ==> t == TAG_DATA,
    {
        match self {
            PacketType::HandshakeInit => TAG_HANDSHAKE_INIT,
            PacketType::HandshakeResponse => TAG_HANDSHAKE_RESPONSE,
            PacketType::PacketData => TAG_DATA,
        }
    }
}

/// Reads the little-endian number at `src[at..at + 4]`.
fn read_u32_le(src: &[u8], at: usize) -> (x: u32)
    requires
        at + 4 <= src@.len(),
    ensures
        x == le_value(src@.subrange(at as int, at + 4)),
{
    let b0 = src[at] as u32;
    let b1 = src[at + 1] as u32;
    let b2 = src[at + 2] as u32;
    let b3 = src[at + 3] as u32;
    b0 + 256 * b1 + 65536 * b2 + 16777216 * b3
}

/// Writes `x` to `dst[at..at + 4]`, least significant byte first.
fn write_u32_le(dst: &mut [u8], at: usize, x: u32)
    requires
        at + 4 <= old(dst)@.len(),
    ensures
        final(dst)@.len() == old(dst)@.len(),
        final(dst)@.subrange(at as int, at + 4) == le_bytes(x),
        forall|i: int|
            0 <= i < old(dst)@.len() && !(at <= i < at + 4) ==> final(dst)@[i] == old(dst)@[i],
{
    dst[at] = (x % 256) as u8;
    dst[at + 1] = ((x / 256) % 256) as u8;
    dst[at + 2] = ((x / 65536) % 256) as u8;
    dst[at + 3] = ((x / 16777216) % 256) as u8;
    assert(dst@.subrange(at as int, at + 4) =~= le_bytes(x));
}

/// Copies all of `src` to `dst[at..]`.
fn write_bytes(dst: &mut [u8], at: usize, src: &[u8])
    requires
        at + src@.len() <= old(dst)@.len(),
    ensures
        final(dst)@.len() == old(dst)@.len(),
        final(dst)@.subrange(at as int, at + src@.len()) == src@,
        forall|i: int|
            0 <= i < old(dst)@.len() && !(at <= i < at + src@.len()) ==> final(dst)@[i] == old(
                dst,
            )@[i],
{
    let n = src.len();
    let total = dst.len();
    let mut i: usize = 0;
    while i < n
        invariant
            i <= n,
            n == src@.len(),
            at + n <= total,
            dst@.len() == total,
            dst@.len() == old(dst)@.len(),
            forall|k: int| 0 <= k < i ==> dst@[at + k] == src@[k],
            forall|k: int|
                0 <= k < dst@.len() && !(at <= k < at + i) ==> dst@[k] == old(dst)@[k],
        decreases n - i,
    {
        dst[at + i] = src[i];
        i += 1;
    }
    assert(dst@.subrange(at as int, at + src@.len()) =~= src@);
}

impl<'a> Packet<'a> {
    /// Reads the frame that the datagram `src` carries.
    ///
    /// An empty datagram is the empty frame. A first byte that is no tag is
    /// rejected before the length is looked at; a handshake frame of any
    /// length but its own, and a data frame shorter than five bytes, are
    /// protocol errors.
    pub fn parse_from(src: &'a [u8]) -> (r: Result<Self, PackeParseError>)
        ensures
            match Frame::decode(src@) {
                Ok(frame) => r is Ok && r->Ok_0@ == frame,
                Err(e) => r == Err::<Self, PackeParseError>(e),
            },
            r is Ok ==> r->Ok_0@.wf(),
    {
        if src.is_empty() {
            return Ok(Packet::Empty);
        }
        let kind = match PacketType::try_from(src[0]) {
            Ok(kind) => kind,
            Err(e) => {
                return Err(e);
            },
        };
        let n = src.len();
        match kind {
            PacketType::HandshakeInit => {
                if n == HANDSHAKE_INIT_SIZE {
                    let remote_idx = read_u32_le(src, 1);
                    let sender_name = PeerName::from(slice_subrange(src, 5, HANDSHAKE_INIT_SIZE));
                    Ok(Packet::HandshakeInit(HandshakeInit { sender_name, assigned_idx: remote_idx }))
                } else {
                    Err(PackeParseError::ProtocolErr)
                }
            },
            PacketType::HandshakeResponse => {
                if n == HANDSHAKE_RESPONSE_SIZE {
                    let assigned_idx = read_u32_le(src, 1);
                    let sender_idx = read_u32_le(src, 5);
                    Ok(Packet::HandshakeResponse(HandshakeResponse { assigned_idx, sender_idx }))
                } else {
                    Err(PackeParseError::ProtocolErr)
                }
            },
            PacketType::PacketData => {
                if n >= DATA_MIN_SIZE {
                    let sender_idx = read_u32_le(src, 1);
                    Ok(Packet::Data(PacketData { sender_idx, data: slice_subrange(src, 5, n) }))
                } else {
                    Err(PackeParseError::ProtocolErr)
                }
            },
        }
    }
}

impl<'a> HandshakeInit<'a> {
    /// Writes this frame to the front of `dst` and returns its length, 105.
    ///
    /// The rest of `dst` is left as it was.
    pub fn format(&self, dst: &mut [u8]) -> (n: usize)
        requires
            old(dst)@.len() >= HANDSHAKE_INIT_SIZE,
            self.sender_name@.len() == PEER_NAME_MAX_LEN,
        ensures
            n == HANDSHAKE_INIT_SIZE,
            final(dst)@.len() == old(dst)@.len(),
            final(dst)@.subrange(0, n as int) == self@.encode(),
            final(dst)@.subrange(n as int, old(dst)@.len() as int) == old(dst)@.subrange(
                n as int,
                old(dst)@.len() as int,
            ),
    {
        dst[0] = PacketType::HandshakeInit.tag();
        write_u32_le(dst, 1, self.assigned_idx);
        write_bytes(dst, 5, self.sender_name.as_slice());
        proof {
            let out = dst@.subrange(0, HANDSHAKE_INIT_SIZE as int);
            assert(dst@.subrange(1, 5) == le_bytes(self.assigned_idx));
            assert forall|i: int| 0 <= i < out.len() implies out[i] == self@.encode()[i] by {
                if 1 <= i < 5 {
                    assert(dst@.subrange(1, 5)[i - 1] == dst@[i]);
                } else if 5 <= i {
                    assert(dst@.subrange(5, 5 + self.sender_name@.len() as int)[i - 5] == dst@[i]);
                }
            }
            assert(out =~= self@.encode());
            assert(dst@.subrange(HANDSHAKE_INIT_SIZE as int, dst@.len() as int) =~= old(
                dst,
            )@.subrange(HANDSHAKE_INIT_SIZE as int, dst@.len() as int));
        }
        HANDSHAKE_INIT_SIZE
    }
}

impl HandshakeResponse {
    /// Writes this frame to the front of `dst` and returns its length, 9.
    ///
    /// The rest of `dst` is left as it was.
    pub fn format(&self, dst: &mut [u8]) -> (n: usize)
        requires
            old(dst)@.len() >= HANDSHAKE_RESPONSE_SIZE,
        ensures
            n == HANDSHAKE_RESPONSE_SIZE,
            final(dst)@.len() == old(dst)@.len(),
            final(dst)@.subrange(0, n as int) == self@.encode(),
            final(dst)@.subrange(n as int, old(dst)@.len() as int) == old(dst)@.subrange(
                n as int,
                old(dst)@.len() as int,
            ),
    {
        dst[0] = PacketType::HandshakeResponse.tag();
        write_u32_le(dst, 1, self.assigned_idx);
        write_u32_le(dst, 5, self.sender_idx);
        proof {
            let out = dst@.subrange(0, HANDSHAKE_RESPONSE_SIZE as int);
            assert forall|i: int| 0 <= i < out.len() implies out[i] == self@.encode()[i] by {
                if 1 <= i < 5 {
                    assert(dst@.subrange(1, 5)[i - 1] == dst@[i]);
                } else if 5 <= i {
                    assert(dst@.subrange(5, 9)[i - 5] == dst@[i]);
                }
            }
            assert(out =~= self@.encode());
            assert(dst@.subrange(HANDSHAKE_RESPONSE_SIZE as int, dst@.len() as int) =~= old(
                dst,
            )@.subrange(HANDSHAKE_RESPONSE_SIZE as int, dst@.len() as int));
        }
        HANDSHAKE_RESPONSE_SIZE
    }
}

impl<'a> PacketData<'a> {
    /// Writes this frame to the front of `dst` and returns its length, five
    /// more than the payload's.
    ///
    /// The rest of `dst` is left as it was.
    pub fn format(&self, dst: &mut [u8]) -> (n: usize)
        requires
            old(dst)@.len() >= self.data@.len() + DATA_MIN_SIZE,
        ensures
            n == self.data@.len() + DATA_MIN_SIZE,
            final(dst)@.len() == old(dst)@.len(),
            final(dst)@.subrange(0, n as int) == self@.encode(),
            final(dst)@.subrange(n as int, old(dst)@.len() as int) == old(dst)@.subrange(
                n as int,
                old(dst)@.len() as int,
            ),
    {
        let n = self.data.len();
        let len = n + 5;
        dst[0] = PacketType::PacketData.tag();
        write_u32_le(dst, 1, self.sender_idx);
        write_bytes(dst, 5, self.data);
        proof {
            let out = dst@.subrange(0, len as int);
            assert forall|i: int| 0 <= i < out.len() implies out[i] == self@.encode()[i] by {
                if 1 <= i < 5 {
                    assert(dst@.subrange(1, 5)[i - 1] == dst@[i]);
                } else if 5 <= i {
                    assert(dst@.subrange(5, 5 + self.data@.len() as int)[i - 5] == dst@[i]);
                }
            }
            assert(out =~= self@.encode());
            assert(dst@.subrange(len as int, dst@.len() as int) =~= old(dst)@.subrange(
                len as int,
                dst@.len() as int,
            ));
        }
        len
    }
}

} // verus!
