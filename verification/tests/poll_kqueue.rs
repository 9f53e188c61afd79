use caetun::poll_kqueue::{Token, UnknownToken};

#[test]
fn poll_kqueue_test_token_u64_from_into() {
    for token in [
        Token::Tun,
        Token::Sock(i32::MIN),
        Token::Sock(-1),
        Token::Sock(0),
        Token::Sock(4),
        Token::Sock(i32::MAX),
    ] {
        let num: isize = token.into();
        assert_eq!(num.try_into(), Ok(token));
    }

    let num: isize = 1000;
    assert_eq!(
        <isize as TryInto<Token>>::try_into(num),
        Err(UnknownToken(1000))
    );
}

#[test]
fn pointer_sized_words_are_tag_and_identification() {
    assert_eq!(isize::from(Token::<i32>::Tun), 1 << 32);
    assert_eq!(isize::from(Token::Sock(-1)), (2 << 32) | 0xffff_ffff);
    assert_eq!(Token::Sock(5).to_word(), 0x2_0000_0005);
    assert_eq!(Token::from_word(-1), Err(UnknownToken(-1)));
    assert_eq!(Token::from_word((1 << 32) | 3), Ok(Token::Tun));
}
