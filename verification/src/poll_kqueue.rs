//! The tokens that readiness events carry, encoded in the pointer-sized
//! word of a kqueue event.

pub use crate::poll::SockID;
use vstd::prelude::*;
use vstd::std_specs::convert::{FromSpec, FromSpecImpl, IntoSpec, TryFromSpecImpl};

verus! {

/// What a readiness event stands for: the TUN device, or a socket with its
/// identification.
#[derive(Debug, Copy, Clone, Eq, PartialEq)]
pub enum Token<ID = i32> {
    Tun,
    Sock(ID),
}

/// A pointer-sized event word whose upper half names neither the TUN device
/// nor a socket.
#[derive(Debug, Copy, Clone, Eq, PartialEq)]
pub struct UnknownToken(pub isize);

/// Tag of the event word of the TUN device.
pub const TAG_TUN: i64 = 1;

/// Tag of the event word of a socket.
pub const TAG_SOCK: i64 = 2;

/// The event word of the TUN device: the tag above the lower 32 bits, which
/// are zero.
///
/// The word is laid out in 64 bits and then taken at the width of a
/// pointer, which loses nothing where pointers have 64 bits.
pub open spec fn tun_word() -> isize {
    (TAG_TUN << 32) as isize
}

/// The event word of the socket `id`: the tag above the lower 32 bits, which
/// hold the bit pattern of `id`.
pub open spec fn sock_word(id: i32) -> isize {
    ((TAG_SOCK << 32) | (id as u32 as i64)) as isize
}

/// The tag of an event word: what stands above its lower 32 bits.
pub open spec fn word_tag(word: isize) -> i64 {
    (word as i64) >> 32
}

/// The socket identification in an event word: its lower 32 bits, read as a
/// signed number.
pub open spec fn word_id(word: isize) -> i32 {
    word as i64 as i32
}

/// The event word of a token.
pub open spec fn token_word(token: Token<i32>) -> isize {
    match token {
        Token::Tun => tun_word(),
        Token::Sock(id) => sock_word(id),
    }
}

/// The token that an event word stands for: by its tag the TUN device or a
/// socket, and no token under any other tag.
pub open spec fn word_token(word: isize) -> Result<Token<i32>, UnknownToken> {
    if word_tag(word) == TAG_TUN {
        Ok(Token::Tun)
    } else if word_tag(word) == TAG_SOCK {
        Ok(Token::Sock(word_id(word)))
    } else {
        Err(UnknownToken(word))
    }
}

/// A token whose socket identification is converted by `f`.
pub open spec fn map_token<A, B>(token: Token<A>, f: spec_fn(A) -> B) -> Token<B> {
    match token {
        Token::Tun => Token::Tun,
        Token::Sock(id) => Token::Sock(f(id)),
    }
}

impl Token<i32> {
    /// The event word of this token.
    pub fn to_word(self) -> (word: isize)
        ensures
            word == token_word(self),
    {
        match self {
            Token::Tun => #[verifier::truncate] ((TAG_TUN << 32) as isize),
            Token::Sock(id) => #[verifier::truncate] (((TAG_SOCK << 32) | (
            #[verifier::truncate] (id as u32) as i64)) as isize),
        }
    }

    /// The token that `word` stands for. The lower half of the word of the
    /// TUN device is not looked at.
    pub fn from_word(word: isize) -> (r: Result<Self, UnknownToken>)
        ensures
            r == word_token(word),
    {
        let wide = word as i64;
        let tag = wide >> 32;
        match tag {
            1 => Ok(Token::Tun),
            2 => Ok(Token::Sock(#[verifier::truncate] (wide as i32))),
            _ => Err(UnknownToken(word)),
        }
    }
}

/// Reading the event word of a token gives the token back.
///
/// Stated for pointers of 64 bits: a narrower word has no room for the tag.
pub proof fn lemma_token_round_trip(token: Token<i32>)
    requires
        usize::BITS == 64,
    ensures
        word_token(token_word(token)) == Ok::<Token<i32>, UnknownToken>(token),
{
    match token {
        Token::Tun => {
            let w: i64 = 1i64 << 32;
            assert(w == 0x1_0000_0000 && w >> 32 == 1) by (bit_vector)
                requires
                    w == 1i64 << 32,
            ;
            assert((w as isize) as i64 == w);
        },
        Token::Sock(id) => {
            let w: i64 = (2i64 << 32) | (id as u32 as i64);
            assert(0 <= w <= 0x2_ffff_ffff && w >> 32 == 2 && w as i32 == id) by (bit_vector)
                requires
                    w == (2i64 << 32) | (id as u32 as i64),
            ;
            assert((w as isize) as i64 == w);
        },
    }
}

/// A word whose tag is neither that of the TUN device nor that of a socket
/// stands for no token, and the error carries the word.
pub proof fn lemma_unknown_tag(word: isize)
    requires
        word_tag(word) != 1,
        word_tag(word) != 2,
    ensures
        word_token(word) == Err::<Token<i32>, UnknownToken>(UnknownToken(word)),
{
}

impl<ID> From<Token<ID>> for isize where ID: Into<i32> {
    fn from(value: Token<ID>) -> (word: isize) {
        match value {
            Token::Tun => Token::<i32>::Tun.to_word(),
            Token::Sock(sock_index) => Token::Sock(sock_index.into()).to_word(),
        }
    }
}

impl<ID> FromSpecImpl<Token<ID>> for isize where ID: Into<i32> {
    open spec fn obeys_from_spec() -> bool {
        <ID as IntoSpec<i32>>::obeys_into_spec()
    }

    open spec fn from_spec(value: Token<ID>) -> isize {
        token_word(map_token(value, |id: ID| id.into_spec()))
    }
}

impl<ID> TryFrom<isize> for Token<ID> where ID: From<i32> {
    type Error = UnknownToken;

    fn try_from(value: isize) -> (r: Result<Self, UnknownToken>) {
        match Token::<i32>::from_word(value) {
            Ok(Token::Tun) => Ok(Token::Tun),
            Ok(Token::Sock(id)) => Ok(Token::Sock(ID::from(id))),
            Err(e) => Err(e),
        }
    }
}

impl<ID> TryFromSpecImpl<isize> for Token<ID> where ID: From<i32> {
    open spec fn obeys_try_from_spec() -> bool {
        <ID as FromSpec<i32>>::obeys_from_spec()
    }

    open spec fn try_from_spec(value: isize) -> Result<Self, UnknownToken> {
        match word_token(value) {
            Ok(token) => Ok(map_token(token, |id: i32| ID::from_spec(id))),
            Err(e) => Err(e),
        }
    }
}

} // verus!
