//! The tokens that readiness events carry, and their encoding in the
//! 64-bit word of an epoll event.

use vstd::prelude::*;
use vstd::std_specs::convert::{FromSpec, FromSpecImpl, IntoSpec, TryFromSpec, TryFromSpecImpl};

verus! {

/// What a readiness event stands for: the TUN device, or a socket with its
/// identification.
#[derive(Debug, Copy, Clone, Eq, PartialEq)]
pub enum Token<ID = i32> {
    Tun,
    Sock(ID),
}

/// A 64-bit event word whose upper half names neither the TUN device nor a
/// socket.
#[derive(Debug, Copy, Clone, Eq, PartialEq)]
pub struct UnknownToken(pub u64);

/// Upper half of the event word of the TUN device.
pub const TAG_TUN: u64 = 1;

/// Upper half of the event word of a socket.
pub const TAG_SOCK: u64 = 2;

/// The event word of the TUN device: the tag in the upper 32 bits, zero in
/// the lower.
pub open spec fn tun_word() -> u64 {
    TAG_TUN << 32
}

/// The event word of the socket `id`: the tag in the upper 32 bits, the bit
/// pattern of `id` in the lower.
pub open spec fn sock_word(id: i32) -> u64 {
    (TAG_SOCK << 32) | (id as u32 as u64)
}

/// The tag of an event word: its upper 32 bits.
pub open spec fn word_tag(word: u64) -> u64 {
    word >> 32
}

/// The socket identification in an event word: its lower 32 bits, read as a
/// signed number.
pub open spec fn word_id(word: u64) -> i32 {
    word as i32
}

/// The event word of a token.
pub open spec fn token_word(token: Token<i32>) -> u64 {
    match token {
        Token::Tun => tun_word(),
        Token::Sock(id) => sock_word(id),
    }
}

/// The token that an event word stands for: by its tag the TUN device or a
/// socket, and no token under any other tag.
pub open spec fn word_token(word: u64) -> Result<Token<i32>, UnknownToken> {
    if word_tag(word) == TAG_TUN {
        Ok(Token::Tun)
    } else if word_tag(word) == TAG_SOCK {
        Ok(Token::Sock(word_id(word)))
    } else {
        Err(UnknownToken(word))
    }
}

/// A token whose socket identification is converted by `f`.
pub open spec fn map_token<A, B>(token: Token<A>, f: spec_fn(A) -> B) -> Token<B> {
    match token {
        Token::Tun => Token::Tun,
        Token::Sock(id) => Token::Sock(f(id)),
    }
}

impl Token<i32> {
    /// The event word of this token.
    pub fn to_word(self) -> (word: u64)
        ensures
            word == token_word(self),
    {
        match self {
            Token::Tun => TAG_TUN << 32,
            Token::Sock(id) => (TAG_SOCK << 32) | (#[verifier::truncate] (id as u32) as u64),
        }
    }

    /// The token that `word` stands for. The lower half of the word of the
    /// TUN device is not looked at.
    pub fn from_word(word: u64) -> (r: Result<Self, UnknownToken>)
        ensures
            r == word_token(word),
    {
        let tag = word >> 32;
        match tag {
            1 => Ok(Token::Tun),
            2 => Ok(Token::Sock(#[verifier::truncate] (word as i32))),
            _ => Err(UnknownToken(word)),
        }
    }
}

/// Reading the event word of a token gives the token back.
pub proof fn lemma_token_round_trip(token: Token<i32>)
    ensures
        word_token(token_word(token)) == Ok::<Token<i32>, UnknownToken>(token),
{
    match token {
        Token::Tun => {
            assert((1u64 << 32) >> 32 == 1) by (bit_vector);
        },
        Token::Sock(id) => {
            let word = (2u64 << 32) | (id as u32 as u64);
            assert(word >> 32 == 2 && word as i32 == id) by (bit_vector)
                requires
                    word == (2u64 << 32) | (id as u32 as u64),
            ;
        },
    }
}

/// A word whose tag is neither that of the TUN device nor that of a socket
/// stands for no token, and the error carries the word.
pub proof fn lemma_unknown_tag(word: u64)
    requires
        word_tag(word) != 1,
        word_tag(word) != 2,
    ensures
        word_token(word) == Err::<Token<i32>, UnknownToken>(UnknownToken(word)),
{
}

/// Which socket an event is about: the listening socket, or the connected
/// socket of the peer with the given index.
#[derive(Debug, Copy, Clone, Eq, PartialEq)]
pub enum SockID {
    Unconnected,
    Connected(u32),
}

/// The socket identification that the number `value` stands for: -1 is the
/// listening socket, any other number the peer whose index has its bit
/// pattern.
pub open spec fn sock_id_of(value: i32) -> SockID {
    if value == -1 {
        SockID::Unconnected
    } else {
        SockID::Connected(value as u32)
    }
}

/// The number that stands for the socket identification `id`.
pub open spec fn sock_id_number(id: SockID) -> i32 {
    match id {
        SockID::Unconnected => -1i32,
        SockID::Connected(i) => i as i32,
    }
}

/// The number of a socket identification stands for that identification
/// again, but for the peer index whose bit pattern is that of -1: its number
/// is the listening socket's.
pub proof fn lemma_sock_id_round_trip(id: SockID)
    requires
        id != SockID::Connected(u32::MAX),
    ensures
        sock_id_of(sock_id_number(id)) == id,
{
    match id {
        SockID::Unconnected => {},
        SockID::Connected(i) => {
            assert(i != 0xffff_ffffu32 ==> (i as i32) != -1i32 && (i as i32) as u32 == i)
                by (bit_vector);
        },
    }
}

/// Every number is the number of the socket identification it stands for.
pub proof fn lemma_sock_id_number_round_trip(value: i32)
    ensures
        sock_id_number(sock_id_of(value)) == value,
{
    assert((value as u32) as i32 == value) by (bit_vector);
}

impl From<i32> for SockID {
    fn from(value: i32) -> (id: SockID) {
        if value == -1 {
            SockID::Unconnected
        } else {
            SockID::Connected(#[verifier::truncate] (value as u32))
        }
    }
}

impl FromSpecImpl<i32> for SockID {
    open spec fn obeys_from_spec() -> bool {
        true
    }

    open spec fn from_spec(value: i32) -> SockID {
        sock_id_of(value)
    }
}

impl From<SockID> for i32 {
    fn from(value: SockID) -> (number: i32) {
        match value {
            SockID::Unconnected => -1,
            SockID::Connected(i) => #[verifier::truncate] (i as i32),
        }
    }
}

impl FromSpecImpl<SockID> for i32 {
    open spec fn obeys_from_spec() -> bool {
        true
    }

    open spec fn from_spec(value: SockID) -> i32 {
        sock_id_number(value)
    }
}

/// The event word of a socket's token is read back as that token whenever
/// the socket identification survives the way through its number: for the
/// listening socket and for every peer index but the one whose bit pattern
/// is that of -1.
pub proof fn lemma_sock_token_round_trip(token: Token<SockID>)
    requires
        token != Token::Sock(SockID::Connected(u32::MAX)),
    ensures
        <Token<SockID> as TryFromSpec<u64>>::try_from_spec(
            <u64 as FromSpec<Token<SockID>>>::from_spec(token),
        ) == Ok::<Token<SockID>, UnknownToken>(token),
{
    match token {
        Token::Tun => {
            lemma_token_round_trip(Token::Tun);
        },
        Token::Sock(id) => {
            lemma_sock_id_round_trip(id);
            lemma_token_round_trip(Token::Sock(sock_id_number(id)));
        },
    }
}

impl<ID> From<Token<ID>> for u64 where ID: Into<i32> {
    fn from(value: Token<ID>) -> (word: u64) {
        match value {
            Token::Tun => Token::<i32>::Tun.to_word(),
            Token::Sock(sock_index) => Token::Sock(sock_index.into()).to_word(),
        }
    }
}

impl<ID> FromSpecImpl<Token<ID>> for u64 where ID: Into<i32> {
    open spec fn obeys_from_spec() -> bool {
        <ID as IntoSpec<i32>>::obeys_into_spec()
    }

    open spec fn from_spec(value: Token<ID>) -> u64 {
        token_word(map_token(value, |id: ID| id.into_spec()))
    }
}

impl<ID> TryFrom<u64> for Token<ID> where ID: From<i32> {
    type Error = UnknownToken;

    fn try_from(value: u64) -> (r: Result<Self, UnknownToken>) {
        match Token::<i32>::from_word(value) {
            Ok(Token::Tun) => Ok(Token::Tun),
            Ok(Token::Sock(id)) => Ok(Token::Sock(ID::from(id))),
            Err(e) => Err(e),
        }
    }
}

impl<ID> TryFromSpecImpl<u64> for Token<ID> where ID: From<i32> {
    open spec fn obeys_try_from_spec() -> bool {
        <ID as FromSpec<i32>>::obeys_from_spec()
    }

    open spec fn try_from_spec(value: u64) -> Result<Self, UnknownToken> {
        match word_token(value) {
            Ok(token) => Ok(map_token(token, |id: i32| ID::from_spec(id))),
            Err(e) => Err(e),
        }
    }
}

} // verus!
