use word_guess::guess_game::{Game, GameState};
use word_guess::server::{ServerData, ServerType};
use word_guess::server_commands::ServerCommandError;

fn fresh_server() -> ServerData {
    ServerData::new(String::from("dota2"), ServerType::TCP)
}

#[test]
fn new_game_fields() {
    let g = Game::new(1, 2, String::from("banana"));
    assert_eq!(g.get_host_id(), 1);
    assert_eq!(g.get_opponent_id(), 2);
    assert_eq!(g.get_secret(), "banana");
    assert_eq!(g.get_attempts(), 3);
    assert_eq!(g.get_last_guess(), "");
    assert_eq!(g.get_last_hint(), "");
    assert!(matches!(g.get_game_state(), GameState::Ongoing));
}

#[test]
fn game_id_packs_stamp_and_participants() {
    let g = Game::with_stamp(5, 2, 3, String::from("s"));
    let expected: u128 = 5u128 * (1u128 << 64) + (2u128 * (1u128 << 32) + 3u128);
    assert_eq!(g.get_game_id(), expected);
}

#[test]
fn game_setters() {
    let mut g = Game::with_stamp(0, 1, 2, String::from("s"));
    g.set_game_id(9);
    g.set_host_id(7);
    g.set_opponent_id(8);
    g.set_secret(String::from("word"));
    g.set_attempts(2);
    g.set_last_guess(String::from("w"));
    g.set_last_hint(String::from("h"));
    g.set_game_state(GameState::Victory);
    assert_eq!(g.get_game_id(), 9);
    assert_eq!(g.get_host_id(), 7);
    assert_eq!(g.get_opponent_id(), 8);
    assert_eq!(g.get_secret(), "word");
    assert_eq!(g.get_attempts(), 2);
    assert_eq!(g.get_last_guess(), "w");
    assert_eq!(g.get_last_hint(), "h");
    assert!(matches!(g.get_game_state(), GameState::Victory));
}

#[test]
fn add_user_is_monotonic() {
    let mut s = fresh_server();
    assert_eq!(s.add_user(), 1);
    assert_eq!(s.add_user(), 2);
    assert_eq!(s.add_user(), 3);
    assert!(s.user_exists(2));
    s.drop_user(2).unwrap();
    assert!(!s.user_exists(2));
    // The next identifier is one above the largest remaining, never a reuse.
    assert_eq!(s.add_user(), 4);
}

#[test]
fn add_user_after_dropping_the_top() {
    let mut s = fresh_server();
    assert_eq!(s.add_user(), 1);
    assert_eq!(s.add_user(), 2);
    s.drop_user(2).unwrap();
    assert_eq!(s.add_user(), 2);
}

#[test]
fn drop_absent_user_changes_nothing() {
    let mut s = fresh_server();
    s.add_user();
    let r = s.drop_user(99);
    match r {
        Err(ServerCommandError::ErrorMessage(m)) => assert_eq!(m, "user 99 doesn't exist"),
        _ => panic!("expected an error message"),
    }
    assert!(s.user_exists(1));
    // Dropping again is just as idempotent.
    assert!(s.drop_user(99).is_err());
}

#[test]
fn validate_password_matches_exactly() {
    let s = fresh_server();
    assert!(s.validate_password("dota2"));
    assert!(!s.validate_password("dota"));
    assert!(!s.validate_password("DOTA2"));
}

#[test]
fn opponents_exclude_the_asker() {
    let mut s = fresh_server();
    assert!(s.get_opponents(1).is_none());
    s.add_user();
    s.add_user();
    s.add_user();
    assert_eq!(s.get_opponents(2).unwrap(), vec![1, 3]);
    assert_eq!(s.get_opponents(9).unwrap(), vec![1, 2, 3]);
}

#[test]
fn start_game_requires_connected_opponent() {
    let mut s = fresh_server();
    s.add_user();
    match s.start_game(1, 2, String::from("banana")) {
        Err(ServerCommandError::ErrorMessage(m)) => {
            assert_eq!(m, "ERROR user 2 doesn't exist, cannot begin game")
        },
        _ => panic!("expected an error message"),
    }
}

#[test]
fn start_game_rejects_self_match() {
    let mut s = fresh_server();
    s.add_user();
    match s.start_game(1, 1, String::from("banana")) {
        Err(ServerCommandError::ErrorMessage(m)) => {
            assert_eq!(m, "ERROR user 1 cannot match with himself!")
        },
        _ => panic!("expected an error message"),
    }
}

#[test]
fn start_game_and_lookups() {
    let mut s = fresh_server();
    s.add_user();
    s.add_user();
    let gid = s.start_game(1, 2, String::from("banana")).unwrap();
    assert_eq!(s.get_game_id(1), Some(gid));
    assert_eq!(s.get_game_id(2), Some(gid));
    assert_eq!(s.get_game_id(3), None);
    assert_eq!(s.get_opponent_id(1).unwrap(), 2);
    assert_eq!(s.get_host_id(2).unwrap(), 1);
    assert!(s.get_opponent_id(2).is_err());
    assert!(s.get_host_id(1).is_err());
    assert_eq!(s.get_spectator_data().len(), 1);
}

#[test]
fn terminate_game_removes_it() {
    let mut s = fresh_server();
    s.add_user();
    s.add_user();
    let gid = s.start_game(1, 2, String::from("banana")).unwrap();
    s.terminate_game(gid).unwrap();
    assert_eq!(s.get_game_id(1), None);
    assert!(s.terminate_game(gid).is_err());
}

#[test]
fn three_wrong_guesses_lose() {
    let mut s = fresh_server();
    s.add_user();
    s.add_user();
    let gid = s.start_game(1, 2, String::from("banana")).unwrap();
    assert!(matches!(
        s.update_game_guess(gid, String::from("apple")).unwrap(),
        GameState::Ongoing
    ));
    assert!(matches!(
        s.update_game_guess(gid, String::from("pear")).unwrap(),
        GameState::Ongoing
    ));
    assert!(matches!(
        s.update_game_guess(gid, String::from("plum")).unwrap(),
        GameState::Defeat
    ));
}

#[test]
fn correct_guess_wins_whatever_the_case() {
    let mut s = fresh_server();
    s.add_user();
    s.add_user();
    let gid = s.start_game(1, 2, String::from("BaNaNa")).unwrap();
    s.update_game_guess(gid, String::from("apple")).unwrap();
    assert!(matches!(
        s.update_game_guess(gid, String::from("bAnAnA")).unwrap(),
        GameState::Victory
    ));
}

#[test]
fn guess_on_stale_game_fails() {
    let mut s = fresh_server();
    assert!(s.update_game_guess(42, String::from("x")).is_err());
    assert!(s.update_game_hint(42, String::from("x")).is_err());
}

#[test]
fn hint_is_recorded() {
    let mut s = fresh_server();
    s.add_user();
    s.add_user();
    let gid = s.start_game(1, 2, String::from("banana")).unwrap();
    s.update_game_hint(gid, String::from("a fruit")).unwrap();
    let games = s.get_spectator_data();
    assert_eq!(games[0].get_last_hint(), "a fruit");
    let game = s.get_game_mut_ref(gid).unwrap();
    assert_eq!(game.get_last_hint(), "a fruit");
}

#[test]
fn wrong_guess_is_recorded() {
    let mut s = fresh_server();
    s.add_user();
    s.add_user();
    let gid = s.start_game(1, 2, String::from("banana")).unwrap();
    s.update_game_guess(gid, String::from("apple")).unwrap();
    let games = s.get_spectator_data();
    assert_eq!(games[0].get_last_guess(), "apple");
    assert_eq!(games[0].get_attempts(), 2);
}
