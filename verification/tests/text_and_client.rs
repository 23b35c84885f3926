use word_guess::binary_message::{BinaryMessage, MessageType};
use word_guess::client::{ClientData, ConnectionMode, ServerMessageResponse};
use word_guess::text::{bytes_eq, eq_ignore_ascii_case, parse_u64, str_eq, tokens_of, u128_to_dec, u64_to_dec};

#[test]
fn decimal_formatting() {
    assert_eq!(u64_to_dec(0), "0");
    assert_eq!(u64_to_dec(7), "7");
    assert_eq!(u64_to_dec(10), "10");
    assert_eq!(u64_to_dec(90210), "90210");
    assert_eq!(u64_to_dec(u64::MAX), "18446744073709551615");
    assert_eq!(u128_to_dec(0), "0");
    assert_eq!(u128_to_dec(u128::MAX), "340282366920938463463374607431768211455");
}

#[test]
fn decimal_parsing() {
    assert_eq!(parse_u64("0"), Some(0));
    assert_eq!(parse_u64("42"), Some(42));
    assert_eq!(parse_u64("007"), Some(7));
    assert_eq!(parse_u64("18446744073709551615"), Some(u64::MAX));
    assert_eq!(parse_u64("18446744073709551616"), None);
    assert_eq!(parse_u64(""), None);
    assert_eq!(parse_u64("12a"), None);
    assert_eq!(parse_u64("-3"), None);
    assert_eq!(parse_u64("+3"), None);
    assert_eq!(parse_u64(" 3"), None);
}

#[test]
fn tokenizing() {
    let toks = tokens_of("  one two\tthree\n");
    assert_eq!(toks, vec!["one", "two", "three"]);
    assert!(tokens_of("").is_empty());
    assert!(tokens_of("   ").is_empty());
    assert_eq!(tokens_of("solo"), vec!["solo"]);
}

#[test]
fn byte_and_string_comparisons() {
    assert!(bytes_eq(b"abc", b"abc"));
    assert!(!bytes_eq(b"abc", b"abd"));
    assert!(!bytes_eq(b"abc", b"ab"));
    assert!(str_eq("héllo", "héllo"));
    assert!(!str_eq("héllo", "hello"));
    assert!(eq_ignore_ascii_case(b"Guess", b"GUESS"));
    assert!(eq_ignore_ascii_case(b"", b""));
    assert!(!eq_ignore_ascii_case(b"GUESS", b"GUESSED"));
}

#[test]
fn client_data_holds_the_id() {
    let mut c = ClientData::new();
    assert_eq!(c.get_id(), 0);
    c.set_id(17);
    assert_eq!(c.get_id(), 17);
}

#[test]
fn connection_modes_differ() {
    assert_ne!(ConnectionMode::TCP, ConnectionMode::UNIX);
}

#[test]
fn client_parses_server_replies() {
    let r = ServerMessageResponse::try_from(BinaryMessage::new_command(String::from("ID 1")))
        .unwrap();
    match r {
        ServerMessageResponse::ID(data) => assert_eq!(data.as_slice(), b"1"),
        _ => panic!("expected an ID response"),
    }
    let r = ServerMessageResponse::try_from(BinaryMessage::new_command(String::from("VICTORY")))
        .unwrap();
    assert!(matches!(r, ServerMessageResponse::GameVictory));
    let r = ServerMessageResponse::try_from(BinaryMessage::new_command(String::from("defeat")))
        .unwrap();
    assert!(matches!(r, ServerMessageResponse::GameDefeat));
    let r = ServerMessageResponse::try_from(BinaryMessage::new_command(String::from("CANCELED")))
        .unwrap();
    assert!(matches!(r, ServerMessageResponse::GameCanceled));
    let r = ServerMessageResponse::try_from(BinaryMessage::new_command(
        String::from("REQUESTACK"),
    ))
    .unwrap();
    assert!(matches!(r, ServerMessageResponse::RequestAck));
    let r = ServerMessageResponse::try_from(BinaryMessage::new_command(
        String::from("REQUESTEDGAME"),
    ))
    .unwrap();
    assert!(matches!(r, ServerMessageResponse::RequestedGame));
    let r = ServerMessageResponse::try_from(BinaryMessage::new_command(
        String::from("ERROR bad"),
    ))
    .unwrap();
    match r {
        ServerMessageResponse::Error(data) => assert_eq!(data.as_slice(), b"bad"),
        _ => panic!("expected an error response"),
    }
    let r = ServerMessageResponse::try_from(BinaryMessage::new_message(String::from("hi")))
        .unwrap();
    match r {
        ServerMessageResponse::Message(data) => assert_eq!(data.as_slice(), b"hi"),
        _ => panic!("expected a chat response"),
    }
    let r = ServerMessageResponse::try_from(BinaryMessage::new_raw(
        MessageType::Unknown,
        vec![],
    ))
    .unwrap();
    assert!(matches!(r, ServerMessageResponse::Unknown));
}
