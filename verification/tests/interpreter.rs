use word_guess::binary_message::{BinaryMessage, CodecError, MessageType};
use word_guess::server::{ServerData, ServerType};
use word_guess::server_commands::{ServerCommandError, ServerCommandList};
use word_guess::server_process::{is_http_request, validate_user};

fn fresh_server() -> ServerData {
    ServerData::new(String::from("dota2"), ServerType::TCP)
}

fn command(text: &str) -> ServerCommandList {
    ServerCommandList::try_from(BinaryMessage::new_command(String::from(text))).unwrap()
}

fn payload(b: &BinaryMessage) -> &[u8] {
    b.get_message().as_slice()
}

#[test]
fn parse_commands_case_insensitively() {
    assert!(matches!(command("HEARTBEAT"), ServerCommandList::HeartBeat));
    assert!(matches!(command("heartbeat"), ServerCommandList::HeartBeat));
    assert!(matches!(command("Drop"), ServerCommandList::Drop));
    assert!(matches!(command("CANCEL"), ServerCommandList::CancelGame));
    assert!(matches!(command("REQUEST"), ServerCommandList::RequestOpponents));
    assert!(matches!(command("NOSUCH"), ServerCommandList::Unknown));
    match command("dm 2 hi") {
        ServerCommandList::DirectMessage(args) => assert_eq!(args.as_slice(), b"2 hi"),
        _ => panic!("expected a direct message"),
    }
    match command("GUESS banana") {
        ServerCommandList::Guess(args) => assert_eq!(args.as_slice(), b"banana"),
        _ => panic!("expected a guess"),
    }
}

#[test]
fn parse_chat_and_invalid_frames() {
    let chat = ServerCommandList::try_from(BinaryMessage::new_message(String::from("hi"))).unwrap();
    match chat {
        ServerCommandList::Message(data) => assert_eq!(data.as_slice(), b"hi"),
        _ => panic!("expected a chat message"),
    }
    let bad = BinaryMessage::new_raw(MessageType::Command, vec![0xFF, b' ', b'x']);
    assert!(matches!(
        ServerCommandList::try_from(bad),
        Err(CodecError::InvalidUtf8)
    ));
}

#[test]
fn handshake_with_correct_password() {
    // End-to-end: a chat frame carrying the right password earns "ID 1".
    let mut s = fresh_server();
    let cmd = ServerCommandList::try_from(BinaryMessage::new_message(String::from("dota2")))
        .unwrap();
    let (user, reply) = validate_user(&mut s, &cmd);
    assert_eq!(user.unwrap(), 1);
    let frame = reply.unwrap();
    assert!(matches!(frame.get_type(), MessageType::Command));
    assert_eq!(payload(&frame), b"ID 1");
    assert!(s.user_exists(1));
}

#[test]
fn handshake_with_wrong_password() {
    let mut s = fresh_server();
    let cmd = ServerCommandList::try_from(BinaryMessage::new_message(String::from("nope")))
        .unwrap();
    let (user, reply) = validate_user(&mut s, &cmd);
    match user {
        Err(ServerCommandError::TerminateThread(m)) => assert_eq!(m, "Password incorrect"),
        _ => panic!("expected a fatal handshake error"),
    }
    assert_eq!(payload(&reply.unwrap()), b"ERROR password incorrect");
    assert!(!s.user_exists(1));
}

#[test]
fn handshake_with_non_chat_frame() {
    let mut s = fresh_server();
    let (user, reply) = validate_user(&mut s, &command("HEARTBEAT"));
    match user {
        Err(ServerCommandError::TerminateThread(m)) => assert_eq!(m, "Command incorrect"),
        _ => panic!("expected a fatal handshake error"),
    }
    assert_eq!(payload(&reply.unwrap()), b"ERROR command incorrect");
}

#[test]
fn heartbeat_replies() {
    let mut s = fresh_server();
    s.add_user();
    let (reply, routed) = command("HEARTBEAT").execute(&mut s, 1);
    assert_eq!(payload(&reply.unwrap()), b"OK Heartbeat received");
    assert!(routed.is_none());
}

#[test]
fn unknown_command_replies() {
    let mut s = fresh_server();
    s.add_user();
    let (reply, routed) = command("NOSUCH").execute(&mut s, 1);
    assert_eq!(payload(&reply.unwrap()), b"Unknown command received");
    assert!(routed.is_none());
}

#[test]
fn chat_message_is_acknowledged() {
    let mut s = fresh_server();
    s.add_user();
    let cmd = ServerCommandList::try_from(BinaryMessage::new_message(String::from("hello")))
        .unwrap();
    let (reply, routed) = cmd.execute(&mut s, 1);
    assert_eq!(payload(&reply.unwrap()), b"Message hello sent");
    assert!(routed.is_none());
}

#[test]
fn start_game_scenario() {
    // End-to-end: user 1 starts a game against user 2.
    let mut s = fresh_server();
    s.add_user();
    s.add_user();
    let (reply, routed) = command("STARTGAME 2 banana").execute(&mut s, 1);
    let reply = reply.unwrap();
    assert!(matches!(reply.get_type(), MessageType::Command));
    assert_eq!(payload(&reply), b"REQUESTACK");
    let (to, frame) = routed.unwrap();
    assert_eq!(to, 2);
    assert!(matches!(frame.get_type(), MessageType::Command));
    assert_eq!(payload(&frame), b"REQUESTEDGAME");
    assert!(s.get_game_id(1).is_some());
}

#[test]
fn start_game_argument_errors() {
    let mut s = fresh_server();
    s.add_user();
    let (reply, _) = command("STARTGAME").execute(&mut s, 1);
    assert!(matches!(reply, Err(ServerCommandError::ErrorMessage(_))));
    let (reply, _) = command("STARTGAME 2").execute(&mut s, 1);
    assert!(matches!(reply, Err(ServerCommandError::ErrorMessage(_))));
    let (reply, _) = command("STARTGAME two banana").execute(&mut s, 1);
    match reply {
        Err(ServerCommandError::ErrorMessage(m)) => {
            assert_eq!(m, "ERROR Direct message must start with a valid ID")
        },
        _ => panic!("expected an error message"),
    }
    let (reply, _) = command("STARTGAME 9 banana").execute(&mut s, 1);
    match reply {
        Err(ServerCommandError::ErrorMessage(m)) => {
            assert_eq!(m, "ERROR user 9 doesn't exist, cannot begin game")
        },
        _ => panic!("expected an error message"),
    }
}

#[test]
fn winning_guess_scenario() {
    // End-to-end: the opponent guesses the secret and both sides hear of it.
    let mut s = fresh_server();
    s.add_user();
    s.add_user();
    command("STARTGAME 2 banana").execute(&mut s, 1).0.unwrap();
    let (reply, routed) = command("GUESS banana").execute(&mut s, 2);
    let reply = reply.unwrap();
    assert!(matches!(reply.get_type(), MessageType::Command));
    assert_eq!(payload(&reply), b"VICTORY");
    let (to, frame) = routed.unwrap();
    assert_eq!(to, 1);
    assert!(matches!(frame.get_type(), MessageType::Command));
    assert_eq!(payload(&frame), b"DEFEAT");
    // The finished game is removed from the ongoing games.
    assert!(s.get_game_id(1).is_none());
    assert!(s.get_game_id(2).is_none());
}

#[test]
fn losing_guesses_scenario() {
    // End-to-end: three wrong guesses lose the game for the opponent.
    let mut s = fresh_server();
    s.add_user();
    s.add_user();
    command("STARTGAME 2 banana").execute(&mut s, 1).0.unwrap();
    let (first, routed) = command("GUESS apple").execute(&mut s, 2);
    assert_eq!(payload(&first.unwrap()), b"OK GUESS apple IS INCORRECT, 2 ATTEMPTS LEFT");
    let (to, frame) = routed.unwrap();
    assert_eq!(to, 1);
    assert_eq!(payload(&frame), b"Guess apple IS INCORRECT, 2 ATTEMPTS LEFT");
    let (second, _) = command("GUESS apple").execute(&mut s, 2);
    assert_eq!(payload(&second.unwrap()), b"OK GUESS apple IS INCORRECT, 1 ATTEMPTS LEFT");
    let (third, routed) = command("GUESS apple").execute(&mut s, 2);
    let third = third.unwrap();
    assert!(matches!(third.get_type(), MessageType::Command));
    assert_eq!(payload(&third), b"DEFEAT");
    let (to, frame) = routed.unwrap();
    assert_eq!(to, 1);
    assert_eq!(payload(&frame), b"VICTORY");
    assert!(s.get_game_id(2).is_none());
}

#[test]
fn guess_without_game_fails() {
    let mut s = fresh_server();
    s.add_user();
    let (reply, _) = command("GUESS banana").execute(&mut s, 1);
    match reply {
        Err(ServerCommandError::ErrorMessage(m)) => assert_eq!(
            m,
            "CANCELED Game where local player ID 1 is trying to guess, does not exist. cancelling match"
        ),
        _ => panic!("expected an error message"),
    }
}

#[test]
fn hint_reaches_the_opponent() {
    let mut s = fresh_server();
    s.add_user();
    s.add_user();
    command("STARTGAME 2 banana").execute(&mut s, 1).0.unwrap();
    let (reply, routed) = command("HINT a fruit").execute(&mut s, 1);
    assert_eq!(payload(&reply.unwrap()), b"Hint sent");
    let (to, frame) = routed.unwrap();
    assert_eq!(to, 2);
    assert_eq!(payload(&frame), b"HINT a fruit");
    assert_eq!(s.get_spectator_data()[0].get_last_hint(), "a fruit");
}

#[test]
fn hint_without_game_fails() {
    let mut s = fresh_server();
    s.add_user();
    let (reply, _) = command("HINT x").execute(&mut s, 1);
    match reply {
        Err(ServerCommandError::ErrorMessage(m)) => {
            assert_eq!(m, "ERROR no game with id 1 found")
        },
        _ => panic!("expected an error message"),
    }
}

#[test]
fn direct_message_is_relayed() {
    let mut s = fresh_server();
    s.add_user();
    s.add_user();
    let (reply, routed) = command("DM 2 hello").execute(&mut s, 1);
    assert_eq!(payload(&reply.unwrap()), b"OK Sent 'hello' to ID 2");
    let (to, frame) = routed.unwrap();
    assert_eq!(to, 2);
    assert!(matches!(frame.get_type(), MessageType::Message));
    assert_eq!(payload(&frame), b"hello");
}

#[test]
fn direct_message_relays_only_the_second_token() {
    let mut s = fresh_server();
    s.add_user();
    s.add_user();
    let (reply, routed) = command("DM 2 hello world").execute(&mut s, 1);
    assert_eq!(payload(&reply.unwrap()), b"OK Sent 'hello' to ID 2");
    assert_eq!(payload(&routed.unwrap().1), b"hello");
}

#[test]
fn direct_message_argument_errors() {
    let mut s = fresh_server();
    s.add_user();
    let (reply, _) = command("DM").execute(&mut s, 1);
    match reply {
        Err(ServerCommandError::ErrorMessage(m)) => {
            assert_eq!(m, "ERROR Direct message must be at least 8 bytes long")
        },
        _ => panic!("expected an error message"),
    }
    let (reply, _) = command("DM 2").execute(&mut s, 1);
    match reply {
        Err(ServerCommandError::ErrorMessage(m)) => {
            assert_eq!(m, "ERROR Direct message must have 2 arguments")
        },
        _ => panic!("expected an error message"),
    }
    let (reply, _) = command("DM two hi").execute(&mut s, 1);
    assert!(matches!(reply, Err(ServerCommandError::ErrorMessage(_))));
}

#[test]
fn cancel_notifies_the_other_participant() {
    let mut s = fresh_server();
    s.add_user();
    s.add_user();
    command("STARTGAME 2 banana").execute(&mut s, 1).0.unwrap();
    // The opponent cancels: the host is the one to be told.
    let (reply, routed) = command("CANCEL").execute(&mut s, 2);
    let reply = reply.unwrap();
    assert!(matches!(reply.get_type(), MessageType::Command));
    assert_eq!(payload(&reply), b"CANCELED");
    let (to, frame) = routed.unwrap();
    assert_eq!(to, 1);
    assert_eq!(payload(&frame), b"MATCH CANCELED");
    assert!(s.get_game_id(1).is_none());
}

#[test]
fn cancel_without_game_fails() {
    let mut s = fresh_server();
    s.add_user();
    let (reply, _) = command("CANCEL").execute(&mut s, 1);
    match reply {
        Err(ServerCommandError::ErrorMessage(m)) => {
            assert_eq!(m, "user 1 doesn't participate in a game, cannot terminate")
        },
        _ => panic!("expected an error message"),
    }
}

#[test]
fn drop_cancels_and_removes_the_user() {
    let mut s = fresh_server();
    s.add_user();
    s.add_user();
    command("STARTGAME 2 banana").execute(&mut s, 1).0.unwrap();
    let (reply, routed) = command("DROP").execute(&mut s, 1);
    match reply {
        Err(ServerCommandError::TerminateUser(m)) => assert_eq!(m, "user 1 dropped"),
        _ => panic!("expected the user to be terminated"),
    }
    let (to, frame) = routed.unwrap();
    assert_eq!(to, 2);
    assert_eq!(payload(&frame), b"MATCH CANCELED");
    assert!(!s.user_exists(1));
    assert!(s.user_exists(2));
    assert!(s.get_game_id(2).is_none());
}

#[test]
fn drop_without_game_still_removes_the_user() {
    let mut s = fresh_server();
    s.add_user();
    let (reply, routed) = command("DROP").execute(&mut s, 1);
    assert!(matches!(reply, Err(ServerCommandError::TerminateUser(_))));
    assert!(routed.is_none());
    assert!(!s.user_exists(1));
}

#[test]
fn request_lists_the_opponents() {
    let mut s = fresh_server();
    s.add_user();
    s.add_user();
    s.add_user();
    let (reply, routed) = command("REQUEST").execute(&mut s, 2);
    assert_eq!(payload(&reply.unwrap()), b"OPPONENT LIST [1, 3]");
    assert!(routed.is_none());
    let (reply, _) = command("REQUEST").execute(&mut s, 9);
    assert_eq!(payload(&reply.unwrap()), b"OPPONENT LIST [1, 2, 3]");
}

#[test]
fn request_with_nobody_connected_fails() {
    let mut s = fresh_server();
    let (reply, _) = command("REQUEST").execute(&mut s, 1);
    match reply {
        Err(ServerCommandError::ErrorMessage(m)) => assert_eq!(m, "ERROR No opponents found"),
        _ => panic!("expected an error message"),
    }
}

#[test]
fn request_alone_lists_nobody() {
    let mut s = fresh_server();
    s.add_user();
    let (reply, _) = command("REQUEST").execute(&mut s, 1);
    assert_eq!(payload(&reply.unwrap()), b"OPPONENT LIST []");
}

#[test]
fn describe_prefixes_the_kind() {
    let e = ServerCommandError::ErrorMessage(String::from("x"));
    assert_eq!(e.describe(), "ERROR: x");
    let e = ServerCommandError::TerminateThread(String::from("y"));
    assert_eq!(e.describe(), "Terminating thread: y");
    let e = ServerCommandError::TerminateUser(String::from("z"));
    assert_eq!(e.describe(), "Terminating user: z");
}

#[test]
fn http_probe_recognizes_a_get_line() {
    assert!(is_http_request(b"GET / HTTP/1.1\r\nHost: x\r\n\r\n"));
    assert!(is_http_request(b"GET / HTTP/1.1"));
    assert!(!is_http_request(b"GET / HTTP/1."));
    assert!(!is_http_request(b"\x00\x05\x02hello"));
}
