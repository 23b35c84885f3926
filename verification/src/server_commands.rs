//! The command interpreter: what each received command does to the session
//! registry, what it replies, and what routed side-message it hands to the
//! dispatcher.

use vstd::prelude::*;

verus! {

use vstd::string::{StringExecFns, StringSliceAdditionalSpecFns};
use vstd::utf8::{valid_utf8, decode_utf8, encode_utf8};
use crate::binary_message::{BinaryMessage, MessageType, CodecError, spec_split};
use crate::guess_game::{GameState, GameV, spec_guess_step};
use crate::server::{
    ServerData, ServerDataV, GameCrit, game_matches, spec_find_game, spec_remove_game,
    spec_without, lemma_find_game_props, lemma_remove_game_keeps, lemma_remove_game_wf,
    lemma_vec_deep_index, msg_user_not_exist,
};
use crate::text::{
    dec_chars, u64_to_dec, spec_parse_u64, parse_u64, spec_tokens, tokens_of, upper_bytes,
    eq_ignore_ascii_case, bytes_to_string,
};

/// All the commands that the server can receive and interpret.
#[derive(Debug, Clone, PartialEq)]
pub enum ServerCommandList {
    Unknown,
    HeartBeat,
    Drop,
    DirectMessage(Vec<u8>),
    Hint(Vec<u8>),
    Guess(Vec<u8>),
    StartGame(Vec<u8>),
    Message(Vec<u8>),
    CancelGame,
    RequestOpponents,
}

/// Type of error when a command executes.
///
/// `TerminateThread` is a critical error that should stop the thread.
///
/// `ErrorMessage` is a non-critical error that can be handled.
///
/// `TerminateUser` ends the user's session after a deliberate drop.
#[derive(Debug, Clone, PartialEq)]
pub enum ServerCommandError {
    TerminateThread(String),
    ErrorMessage(String),
    TerminateUser(String),
}

impl ServerCommandError {
    /// The error written out for a log or a reply, with its kind in front.
    pub fn describe(&self) -> (r: String)
        ensures
            match self {
                ServerCommandError::TerminateThread(err) => r@ == "Terminating thread: "@ + err@,
                ServerCommandError::ErrorMessage(err) => r@ == "ERROR: "@ + err@,
                ServerCommandError::TerminateUser(err) => r@ == "Terminating user: "@ + err@,
            },
    {
        match self {
            ServerCommandError::TerminateThread(err) => {
                let mut s = String::from_str("Terminating thread: ");
                s.append(err.as_str());
                s
            },
            ServerCommandError::ErrorMessage(err) => {
                let mut s = String::from_str("ERROR: ");
                s.append(err.as_str());
                s
            },
            ServerCommandError::TerminateUser(err) => {
                let mut s = String::from_str("Terminating user: ");
                s.append(err.as_str());
                s
            },
        }
    }
}

/// The command a frame parses to, with its raw argument bytes.
pub enum SpecCommand {
    Unknown,
    HeartBeat,
    Drop,
    DirectMessage(Seq<u8>),
    Hint(Seq<u8>),
    Guess(Seq<u8>),
    StartGame(Seq<u8>),
    Message(Seq<u8>),
    CancelGame,
    RequestOpponents,
}

/// The abstract content of a parsed command.
pub open spec fn command_abs(c: ServerCommandList) -> SpecCommand {
    match c {
        ServerCommandList::Unknown => SpecCommand::Unknown,
        ServerCommandList::HeartBeat => SpecCommand::HeartBeat,
        ServerCommandList::Drop => SpecCommand::Drop,
        ServerCommandList::DirectMessage(v) => SpecCommand::DirectMessage(v@),
        ServerCommandList::Hint(v) => SpecCommand::Hint(v@),
        ServerCommandList::Guess(v) => SpecCommand::Guess(v@),
        ServerCommandList::StartGame(v) => SpecCommand::StartGame(v@),
        ServerCommandList::Message(v) => SpecCommand::Message(v@),
        ServerCommandList::CancelGame => SpecCommand::CancelGame,
        ServerCommandList::RequestOpponents => SpecCommand::RequestOpponents,
    }
}

/// Whether a command name is the given keyword, compared without regard to
/// ASCII letter case.
pub open spec fn is_keyword(cmd: Seq<char>, kw: Seq<char>) -> bool {
    upper_bytes(encode_utf8(cmd)) == upper_bytes(encode_utf8(kw))
}

/// The command a frame carries.
///
/// A command frame splits into a name, matched against the known keywords
/// without regard to letter case, and raw argument bytes; an unreadable name
/// is a decoding error. A chat frame is a `Message` of its whole payload,
/// and anything else is `Unknown`.
pub open spec fn spec_command_of(t: MessageType, payload: Seq<u8>) -> Option<SpecCommand> {
    match t {
        MessageType::Command => match spec_split(payload) {
            None => None,
            Some((cmd, args)) => Some(
                if is_keyword(cmd, "DM"@) {
                    SpecCommand::DirectMessage(args)
                } else if is_keyword(cmd, "HEARTBEAT"@) {
                    SpecCommand::HeartBeat
                } else if is_keyword(cmd, "DROP"@) {
                    SpecCommand::Drop
                } else if is_keyword(cmd, "HINT"@) {
                    SpecCommand::Hint(args)
                } else if is_keyword(cmd, "GUESS"@) {
                    SpecCommand::Guess(args)
                } else if is_keyword(cmd, "STARTGAME"@) {
                    SpecCommand::StartGame(args)
                } else if is_keyword(cmd, "CANCEL"@) {
                    SpecCommand::CancelGame
                } else if is_keyword(cmd, "REQUEST"@) {
                    SpecCommand::RequestOpponents
                } else {
                    SpecCommand::Unknown
                },
            ),
        },
        MessageType::Message => Some(SpecCommand::Message(payload)),
        MessageType::Unknown => Some(SpecCommand::Unknown),
    }
}

impl ServerCommandList {
    /// Parses a frame into the command it carries.
    pub fn try_from(binary_message: BinaryMessage) -> (r: Result<ServerCommandList, CodecError>)
        requires
            binary_message.wf(),
        ensures
            match spec_command_of(binary_message.spec_type(), binary_message.spec_payload()) {
                Some(sc) => r matches Ok(c) && command_abs(c) == sc,
                None => r matches Err(e) && e == CodecError::InvalidUtf8,
            },
    {
        match binary_message.get_type() {
            MessageType::Command => {
                let (command, binary) = match binary_message.split() {
                    Ok(p) => p,
                    Err(e) => {
                        return Err(e);
                    },
                };
                let cb = command.as_str().as_bytes();
                Ok(
                    if eq_ignore_ascii_case(cb, "DM".as_bytes()) {
                        Self::DirectMessage(binary)
                    } else if eq_ignore_ascii_case(cb, "HEARTBEAT".as_bytes()) {
                        Self::HeartBeat
                    } else if eq_ignore_ascii_case(cb, "DROP".as_bytes()) {
                        Self::Drop
                    } else if eq_ignore_ascii_case(cb, "HINT".as_bytes()) {
                        Self::Hint(binary)
                    } else if eq_ignore_ascii_case(cb, "GUESS".as_bytes()) {
                        Self::Guess(binary)
                    } else if eq_ignore_ascii_case(cb, "STARTGAME".as_bytes()) {
                        Self::StartGame(binary)
                    } else if eq_ignore_ascii_case(cb, "CANCEL".as_bytes()) {
                        Self::CancelGame
                    } else if eq_ignore_ascii_case(cb, "REQUEST".as_bytes()) {
                        Self::RequestOpponents
                    } else {
                        Self::Unknown
                    },
                )
            },
            MessageType::Message => Ok(Self::Message(
                vstd::slice::slice_to_vec(binary_message.get_message().as_slice()),
            )),
            MessageType::Unknown => Ok(ServerCommandList::Unknown),
        }
    }
}

/// A reply or routed text fits a frame: its encoding stays within the
/// 16-bit length prefix.
pub open spec fn fits(text: Seq<char>) -> bool {
    encode_utf8(text).len() <= 65535
}

/// The text of the complaint that a built reply cannot be framed.
pub open spec fn msg_too_long() -> Seq<char> {
    "ERROR reply too long"@
}

/// The text of the complaint that payload text is not valid UTF-8.
pub open spec fn msg_bad_utf8() -> Seq<char> {
    "ERROR: invalid UTF-8"@
}

/// The error outcome of running a command, with the text it carries.
pub enum SpecError {
    TerminateThread(Seq<char>),
    ErrorMessage(Seq<char>),
    TerminateUser(Seq<char>),
}

/// Everything one command execution decides: the registry afterwards, the
/// reply to the acting connection, and the routed side-message, if any.
#[verifier::ext_equal]
pub struct ExecOutcome {
    pub state: ServerDataV,
    pub reply: Result<(MessageType, Seq<char>), SpecError>,
    pub routed: Option<(u64, MessageType, Seq<char>)>,
}

/// A reply of the given type and text, or the framing complaint when the
/// text cannot be framed.
pub open spec fn spec_reply(t: MessageType, text: Seq<char>) -> Result<
    (MessageType, Seq<char>),
    SpecError,
> {
    if fits(text) {
        Ok((t, text))
    } else {
        Err(SpecError::ErrorMessage(msg_too_long()))
    }
}

/// The outcome that changes nothing and reports the error text.
pub open spec fn spec_error_outcome(s: ServerDataV, text: Seq<char>) -> ExecOutcome {
    ExecOutcome { state: s, reply: Err(SpecError::ErrorMessage(text)), routed: None }
}

/// The opponent list written as the reply shows it: the identifiers between
/// brackets, separated by commas.
pub open spec fn spec_id_list(ids: Seq<u64>) -> Seq<char>
    decreases ids.len(),
{
    if ids.len() == 0 {
        Seq::empty()
    } else if ids.len() == 1 {
        dec_chars(ids[0] as int)
    } else {
        dec_chars(ids[0] as int) + ", "@ + spec_id_list(ids.drop_first())
    }
}

/// Writing one more identifier appends a separator and its digits.
proof fn lemma_id_list_push(ids: Seq<u64>, x: u64)
    ensures
        spec_id_list(ids.push(x)) == if ids.len() == 0 {
            dec_chars(x as int)
        } else {
            spec_id_list(ids) + ", "@ + dec_chars(x as int)
        },
    decreases ids.len(),
{
    if ids.len() == 0 {
        assert(ids.push(x)[0] == x);
    } else {
        assert(ids.push(x).drop_first() =~= ids.drop_first().push(x));
        assert(ids.push(x)[0] == ids[0]);
        lemma_id_list_push(ids.drop_first(), x);
        if ids.len() == 1 {
            assert(ids.drop_first().len() == 0);
            assert(spec_id_list(ids.push(x)) == dec_chars(ids[0] as int) + ", "@ + dec_chars(
                x as int,
            ));
            assert(spec_id_list(ids) == dec_chars(ids[0] as int));
        } else {
            assert((dec_chars(ids[0] as int) + ", "@ + spec_id_list(ids.drop_first())) + ", "@
                + dec_chars(x as int) =~= dec_chars(ids[0] as int) + ", "@ + (spec_id_list(
                ids.drop_first(),
            ) + ", "@ + dec_chars(x as int)));
        }
    }
}

/// What executing the command against the given registry state decides, for
/// the acting user.
///
/// A started game receives an identifier derived from the clock of the call;
/// `started_gid` stands for it, and every other command ignores it.
pub open spec fn spec_execute(cmd: ServerCommandList, s: ServerDataV, local_id: u64, started_gid: u128) -> ExecOutcome {
    match cmd {
        ServerCommandList::Unknown => ExecOutcome {
            state: s,
            reply: spec_reply(MessageType::Message, "Unknown command received"@),
            routed: None,
        },
        ServerCommandList::HeartBeat => ExecOutcome {
            state: s,
            reply: spec_reply(MessageType::Message, "OK Heartbeat received"@),
            routed: None,
        },
        ServerCommandList::Message(data) => spec_execute_message(data@, s),
        ServerCommandList::DirectMessage(data) => spec_execute_dm(data@, s),
        ServerCommandList::Hint(data) => spec_execute_hint(data@, s, local_id),
        ServerCommandList::Guess(data) => spec_execute_guess(data@, s, local_id),
        ServerCommandList::StartGame(data) => spec_execute_start_game(data@, s, local_id, started_gid),
        ServerCommandList::Drop => spec_execute_drop(s, local_id),
        ServerCommandList::CancelGame => spec_execute_cancel(s, local_id),
        ServerCommandList::RequestOpponents => spec_execute_request(s, local_id),
    }
}

/// A chat message: acknowledged back to the sender, nothing else.
pub open spec fn spec_execute_message(data: Seq<u8>, s: ServerDataV) -> ExecOutcome {
    if !valid_utf8(data) {
        spec_error_outcome(s, msg_bad_utf8())
    } else {
        ExecOutcome {
            state: s,
            reply: spec_reply(MessageType::Message, "Message "@ + decode_utf8(data) + " sent"@),
            routed: None,
        }
    }
}

/// A direct message: the first token names the recipient, the second is the
/// word relayed to them.
pub open spec fn spec_execute_dm(data: Seq<u8>, s: ServerDataV) -> ExecOutcome {
    if data.len() == 0 {
        spec_error_outcome(s, "ERROR Direct message must be at least 8 bytes long"@)
    } else if !valid_utf8(data) {
        spec_error_outcome(s, msg_bad_utf8())
    } else {
        let toks = spec_tokens(decode_utf8(data));
        if toks.len() < 2 {
            spec_error_outcome(s, "ERROR Direct message must have 2 arguments"@)
        } else {
            match spec_parse_u64(toks[0]) {
                None => spec_error_outcome(s, "ERROR Direct message must start with a valid ID"@),
                Some(id) => {
                    let text = toks[1];
                    if !fits(text) {
                        spec_error_outcome(s, msg_too_long())
                    } else {
                        let reply = "OK Sent '"@ + text + "' to ID "@ + dec_chars(id as int);
                        if !fits(reply) {
                            spec_error_outcome(s, msg_too_long())
                        } else {
                            ExecOutcome {
                                state: s,
                                reply: Ok((MessageType::Message, reply)),
                                routed: Some((id, MessageType::Message, text)),
                            }
                        }
                    }
                },
            }
        }
    }
}

/// A hint: recorded on the acting user's game and relayed to the opponent
/// of the game the user hosts.
pub open spec fn spec_execute_hint(data: Seq<u8>, s: ServerDataV, local_id: u64) -> ExecOutcome {
    if !valid_utf8(data) {
        spec_error_outcome(s, msg_bad_utf8())
    } else {
        let fp = spec_find_game(s.ongoing_games, GameCrit::Participant(local_id));
        if fp == s.ongoing_games.len() {
            spec_error_outcome(
                s,
                "ERROR no game with id "@ + dec_chars(local_id as int) + " found"@,
            )
        } else {
            let hint = decode_utf8(data);
            let routed_text = "HINT "@ + hint;
            if !fits(routed_text) {
                spec_error_outcome(s, msg_too_long())
            } else {
                let gid = s.ongoing_games[fp].game_id;
                let fb = spec_find_game(s.ongoing_games, GameCrit::ById(gid));
                let s2 = ServerDataV {
                    ongoing_games: s.ongoing_games.update(
                        fb,
                        GameV { last_hint: hint, ..s.ongoing_games[fb] },
                    ),
                    ..s
                };
                let fh = spec_find_game(s2.ongoing_games, GameCrit::Hosted(local_id));
                if fh == s2.ongoing_games.len() {
                    ExecOutcome {
                        state: s2,
                        reply: Err(SpecError::ErrorMessage("game has no oppponent"@)),
                        routed: None,
                    }
                } else {
                    ExecOutcome {
                        state: s2,
                        reply: spec_reply(MessageType::Message, "Hint sent"@),
                        routed: Some(
                            (s2.ongoing_games[fh].opponent_id, MessageType::Message, routed_text),
                        ),
                    }
                }
            }
        }
    }
}

/// A guess: the state machine runs on the acting user's game; the outcome is
/// acknowledged to the guesser and notified to the host, and a finished game
/// is removed.
pub open spec fn spec_execute_guess(data: Seq<u8>, s: ServerDataV, local_id: u64) -> ExecOutcome {
    let fp = spec_find_game(s.ongoing_games, GameCrit::Participant(local_id));
    if fp == s.ongoing_games.len() {
        spec_error_outcome(
            s,
            "CANCELED Game where local player ID "@ + dec_chars(local_id as int)
                + " is trying to guess, does not exist. cancelling match"@,
        )
    } else if !valid_utf8(data) {
        spec_error_outcome(s, msg_bad_utf8())
    } else {
        let guess = decode_utf8(data);
        let gid = s.ongoing_games[fp].game_id;
        let fb = spec_find_game(s.ongoing_games, GameCrit::ById(gid));
        let g = s.ongoing_games[fb];
        let g2 = spec_guess_step(g, guess);
        let s2 = ServerDataV { ongoing_games: s.ongoing_games.update(fb, g2), ..s };
        match g2.game_state {
            GameState::Victory => ExecOutcome {
                state: ServerDataV {
                    ongoing_games: spec_remove_game(s2.ongoing_games, gid),
                    ..s
                },
                reply: spec_reply(MessageType::Command, "VICTORY"@),
                routed: Some((g.host_id, MessageType::Command, "DEFEAT"@)),
            },
            GameState::Defeat => ExecOutcome {
                state: ServerDataV {
                    ongoing_games: spec_remove_game(s2.ongoing_games, gid),
                    ..s
                },
                reply: spec_reply(MessageType::Command, "DEFEAT"@),
                routed: Some((g.host_id, MessageType::Command, "VICTORY"@)),
            },
            GameState::Ongoing => {
                let routed_text = "Guess "@ + guess + " IS INCORRECT, "@ + dec_chars(
                    g2.attempts as int,
                ) + " ATTEMPTS LEFT"@;
                let reply_text = "OK GUESS "@ + guess + " IS INCORRECT, "@ + dec_chars(
                    g2.attempts as int,
                ) + " ATTEMPTS LEFT"@;
                if !fits(routed_text) {
                    ExecOutcome {
                        state: s2,
                        reply: Err(SpecError::ErrorMessage(msg_too_long())),
                        routed: None,
                    }
                } else if !fits(reply_text) {
                    ExecOutcome {
                        state: s2,
                        reply: Err(SpecError::ErrorMessage(msg_too_long())),
                        routed: None,
                    }
                } else {
                    ExecOutcome {
                        state: s2,
                        reply: Ok((MessageType::Message, reply_text)),
                        routed: Some((g.host_id, MessageType::Message, routed_text)),
                    }
                }
            },
        }
    }
}

/// A game start: the two tokens name the opponent and the secret; the
/// opponent is asked to play and the host acknowledged.
pub open spec fn spec_execute_start_game(data: Seq<u8>, s: ServerDataV, local_id: u64, started_gid: u128) -> ExecOutcome {
    if data.len() == 0 {
        spec_error_outcome(s, "ERROR Direct message must be at least 8 bytes long"@)
    } else if !valid_utf8(data) {
        spec_error_outcome(s, msg_bad_utf8())
    } else {
        let toks = spec_tokens(decode_utf8(data));
        if toks.len() != 2 {
            spec_error_outcome(s, "ERROR Direct message must have 2 arguments"@)
        } else {
            match spec_parse_u64(toks[0]) {
                None => spec_error_outcome(s, "ERROR Direct message must start with a valid ID"@),
                Some(opponent_id) => {
                    if !s.connected_users.contains(opponent_id) {
                        spec_error_outcome(
                            s,
                            "ERROR user "@ + dec_chars(opponent_id as int)
                                + " doesn't exist, cannot begin game"@,
                        )
                    } else if opponent_id == local_id {
                        spec_error_outcome(
                            s,
                            "ERROR user "@ + dec_chars(opponent_id as int)
                                + " cannot match with himself!"@,
                        )
                    } else {
                        ExecOutcome {
                            state: ServerDataV {
                                ongoing_games: s.ongoing_games.push(
                                    GameV {
                                        game_id: started_gid,
                                        host_id: local_id,
                                        opponent_id,
                                        secret: toks[1],
                                        attempts: 3,
                                        last_guess: Seq::<char>::empty(),
                                        last_hint: Seq::<char>::empty(),
                                        game_state: GameState::Ongoing,
                                    },
                                ),
                                ..s
                            },
                            reply: spec_reply(MessageType::Command, "REQUESTACK"@),
                            routed: Some((opponent_id, MessageType::Command, "REQUESTEDGAME"@)),
                        }
                    }
                },
            }
        }
    }
}

/// A deliberate drop: the user's game, if any, is cancelled and its opponent
/// told so; then the user leaves and the connection is torn down.
pub open spec fn spec_execute_drop(s: ServerDataV, local_id: u64) -> ExecOutcome {
    let fp = spec_find_game(s.ongoing_games, GameCrit::Participant(local_id));
    let routed = if fp == s.ongoing_games.len() {
        None
    } else {
        Some(
            (
                s.ongoing_games[spec_find_game(
                    s.ongoing_games,
                    GameCrit::ById(s.ongoing_games[fp].game_id),
                )].opponent_id,
                MessageType::Message,
                "MATCH CANCELED"@,
            ),
        )
    };
    let s2 = if fp == s.ongoing_games.len() {
        s
    } else {
        ServerDataV {
            ongoing_games: spec_remove_game(s.ongoing_games, s.ongoing_games[fp].game_id),
            ..s
        }
    };
    if !s2.connected_users.contains(local_id) {
        ExecOutcome {
            state: s2,
            reply: Err(SpecError::ErrorMessage(msg_user_not_exist(local_id))),
            routed,
        }
    } else {
        ExecOutcome {
            state: ServerDataV {
                connected_users: spec_without(s2.connected_users, local_id),
                ..s2
            },
            reply: Err(
                SpecError::TerminateUser("user "@ + dec_chars(local_id as int) + " dropped"@),
            ),
            routed,
        }
    }
}

/// A cancellation: the user's game is terminated and the other participant
/// told so.
pub open spec fn spec_execute_cancel(s: ServerDataV, local_id: u64) -> ExecOutcome {
    let fp = spec_find_game(s.ongoing_games, GameCrit::Participant(local_id));
    if fp == s.ongoing_games.len() {
        spec_error_outcome(
            s,
            "user "@ + dec_chars(local_id as int)
                + " doesn't participate in a game, cannot terminate"@,
        )
    } else {
        let gid = s.ongoing_games[fp].game_id;
        let g = s.ongoing_games[spec_find_game(s.ongoing_games, GameCrit::ById(gid))];
        let other = if g.host_id == local_id {
            g.opponent_id
        } else {
            g.host_id
        };
        ExecOutcome {
            state: ServerDataV { ongoing_games: spec_remove_game(s.ongoing_games, gid), ..s },
            reply: spec_reply(MessageType::Command, "CANCELED"@),
            routed: Some((other, MessageType::Message, "MATCH CANCELED"@)),
        }
    }
}

/// An opponent-list request: every connected user except the asking one,
/// written out; with nobody connected at all it is an error.
pub open spec fn spec_execute_request(s: ServerDataV, local_id: u64) -> ExecOutcome {
    if s.connected_users.len() == 0 {
        spec_error_outcome(s, "ERROR No opponents found"@)
    } else {
        ExecOutcome {
            state: s,
            reply: spec_reply(
                MessageType::Message,
                "OPPONENT LIST ["@ + spec_id_list(spec_without(s.connected_users, local_id))
                    + "]"@,
            ),
            routed: None,
        }
    }
}

/// Whether an executed reply is the one the specification gives: the same
/// success or error kind, the same type and the same text.
pub open spec fn reply_matches(
    r: Result<BinaryMessage, ServerCommandError>,
    s: Result<(MessageType, Seq<char>), SpecError>,
) -> bool {
    match (r, s) {
        (Ok(b), Ok(p)) => b.wf() && b.spec_type() == p.0 && b.spec_payload() == encode_utf8(p.1),
        (Err(e), Err(se)) => err_matches(e, se),
        _ => false,
    }
}

/// Whether an executed error carries the kind and text the specification
/// gives.
pub open spec fn err_matches(e: ServerCommandError, se: SpecError) -> bool {
    match (e, se) {
        (ServerCommandError::TerminateThread(m), SpecError::TerminateThread(t)) => m@ == t,
        (ServerCommandError::ErrorMessage(m), SpecError::ErrorMessage(t)) => m@ == t,
        (ServerCommandError::TerminateUser(m), SpecError::TerminateUser(t)) => m@ == t,
        _ => false,
    }
}

/// Whether an executed routed side-message is the one the specification
/// gives: same recipient, type and text, or none at all.
pub open spec fn routed_matches(
    r: Option<(u64, BinaryMessage)>,
    s: Option<(u64, MessageType, Seq<char>)>,
) -> bool {
    match (r, s) {
        (Some(p), Some(q)) => p.0 == q.0 && p.1.wf() && p.1.spec_type() == q.1
            && p.1.spec_payload() == encode_utf8(q.2),
        (None, None) => true,
        _ => false,
    }
}

/// Builds a frame of the given type around the text, or reports that the
/// text cannot be framed.
fn make_frame(t: MessageType, text: String) -> (r: Result<BinaryMessage, ServerCommandError>)
    ensures
        fits(text@) ==> (r matches Ok(b) && b.wf() && b.spec_type() == t && b.spec_payload()
            == encode_utf8(text@)),
        !fits(text@) ==> (r matches Err(e) && e matches ServerCommandError::ErrorMessage(m) && m@
            == msg_too_long()),
{
    let bytes = vstd::slice::slice_to_vec(text.as_str().as_bytes());
    if bytes.len() <= 65535 {
        Ok(BinaryMessage::new_raw(t, bytes))
    } else {
        Err(ServerCommandError::ErrorMessage(String::from_str("ERROR reply too long")))
    }
}


/// When the acting user's game was found, a search by its identifier finds
/// a game too, within the list.
proof fn lemma_participant_gives_byid(games: Seq<GameV>, local_id: u64, gid: u128)
    requires
        spec_find_game(games, GameCrit::Participant(local_id)) != games.len(),
        gid == games[spec_find_game(games, GameCrit::Participant(local_id))].game_id,
    ensures
        0 <= spec_find_game(games, GameCrit::ById(gid)) < games.len(),
        games[spec_find_game(games, GameCrit::ById(gid))].game_id == gid,
{
    lemma_find_game_props(games, GameCrit::Participant(local_id));
    let fp = spec_find_game(games, GameCrit::Participant(local_id));
    assert(game_matches(games[fp], GameCrit::ById(gid)));
    lemma_find_game_props(games, GameCrit::ById(gid));
    if spec_find_game(games, GameCrit::ById(gid)) == games.len() {
        assert(!game_matches(games[fp], GameCrit::ById(gid)));
    }
}

/// Builds a frame of the given type around a short ASCII literal.
fn literal_frame(t: MessageType, text: &str) -> (r: BinaryMessage)
    requires
        vstd::utf8::is_ascii_chars(text@),
        text@.len() <= 65535,
    ensures
        r.wf(),
        r.spec_type() == t,
        r.spec_payload() == encode_utf8(text@),
{
    proof {
        vstd::utf8::is_ascii_chars_encode_utf8(text@);
    }
    BinaryMessage::new_raw(t, vstd::slice::slice_to_vec(text.as_bytes()))
}

impl ServerCommandList {
    /// Executes the server command against the registry for the acting user.
    ///
    /// The first part of the result is the reply owed to the acting
    /// connection; the second is the routed side-message for the dispatcher,
    /// if the command produces one. What both hold, and how the registry
    /// changes, is exactly what [`spec_execute`] says.
    pub fn execute(&self, server: &mut ServerData, local_id: u64) -> (r: (
        Result<BinaryMessage, ServerCommandError>,
        Option<(u64, BinaryMessage)>,
    ))
        requires
            old(server)@.wf(),
        ensures
            final(server)@.wf(),
            ({
                let started_gid = if final(server)@.ongoing_games.len() > old(
                    server,
                )@.ongoing_games.len() {
                    final(server)@.ongoing_games.last().game_id
                } else {
                    0
                };
                let out = spec_execute(*self, old(server)@, local_id, started_gid);
                &&& final(server)@ == out.state
                &&& reply_matches(r.0, out.reply)
                &&& routed_matches(r.1, out.routed)
            }),
    {
        match self {
            ServerCommandList::Unknown => {
                (make_frame(MessageType::Message, String::from_str("Unknown command received")), None)
            },
            ServerCommandList::HeartBeat => {
                (make_frame(MessageType::Message, String::from_str("OK Heartbeat received")), None)
            },
            ServerCommandList::Message(data) => {
                match bytes_to_string(vstd::slice::slice_to_vec(data.as_slice())) {
                    None => (
                        Err(ServerCommandError::ErrorMessage(
                            String::from_str("ERROR: invalid UTF-8"),
                        )),
                        None,
                    ),
                    Some(text) => {
                        let mut reply_text = String::from_str("Message ");
                        reply_text.append(text.as_str());
                        reply_text.append(" sent");
                        (make_frame(MessageType::Message, reply_text), None)
                    },
                }
            },
            ServerCommandList::DirectMessage(data) => {
                if data.len() == 0 {
                    return (
                        Err(ServerCommandError::ErrorMessage(
                            String::from_str("ERROR Direct message must be at least 8 bytes long"),
                        )),
                        None,
                    );
                }
                let text = match bytes_to_string(vstd::slice::slice_to_vec(data.as_slice())) {
                    None => {
                        return (
                            Err(ServerCommandError::ErrorMessage(
                                String::from_str("ERROR: invalid UTF-8"),
                            )),
                            None,
                        );
                    },
                    Some(t) => t,
                };
                let mut toks = tokens_of(text.as_str());
                proof {
                    lemma_vec_deep_index(&toks);
                }
                if toks.len() < 2 {
                    return (
                        Err(ServerCommandError::ErrorMessage(
                            String::from_str("ERROR Direct message must have 2 arguments"),
                        )),
                        None,
                    );
                }
                let id = match parse_u64(vstd::std_specs::vec::vec_index(&toks, 0).as_str()) {
                    None => {
                        return (
                            Err(ServerCommandError::ErrorMessage(
                                String::from_str(
                                    "ERROR Direct message must start with a valid ID",
                                ),
                            )),
                            None,
                        );
                    },
                    Some(v) => v,
                };
                let msg_text = toks.remove(1);
                let routed_frame = match make_frame(MessageType::Message, msg_text.clone()) {
                    Err(e) => {
                        return (Err(e), None);
                    },
                    Ok(b) => b,
                };
                let mut reply_text = String::from_str("OK Sent '");
                reply_text.append(msg_text.as_str());
                reply_text.append("' to ID ");
                let d = u64_to_dec(id);
                reply_text.append(d.as_str());
                let reply_frame = match make_frame(MessageType::Message, reply_text) {
                    Err(e) => {
                        return (Err(e), None);
                    },
                    Ok(b) => b,
                };
                (Ok(reply_frame), Some((id, routed_frame)))
            },
            ServerCommandList::Hint(data) => {
                let hint = match bytes_to_string(vstd::slice::slice_to_vec(data.as_slice())) {
                    None => {
                        return (
                            Err(ServerCommandError::ErrorMessage(
                                String::from_str("ERROR: invalid UTF-8"),
                            )),
                            None,
                        );
                    },
                    Some(t) => t,
                };
                let gid = match server.get_game_id(local_id) {
                    None => {
                        let mut m = String::from_str("ERROR no game with id ");
                        let d = u64_to_dec(local_id);
                        m.append(d.as_str());
                        m.append(" found");
                        return (Err(ServerCommandError::ErrorMessage(m)), None);
                    },
                    Some(g) => g,
                };
                let mut routed_text = String::from_str("HINT ");
                routed_text.append(hint.as_str());
                let routed_frame = match make_frame(MessageType::Message, routed_text) {
                    Err(e) => {
                        return (Err(e), None);
                    },
                    Ok(b) => b,
                };
                let ghost s0 = server@;
                proof {
                    lemma_participant_gives_byid(s0.ongoing_games, local_id, gid);
                }
                match server.update_game_hint(gid, hint) {
                    Err(e) => {
                        proof {
                            lemma_participant_gives_byid(s0.ongoing_games, local_id, gid);
                            assert(false);
                        }
                        return (Err(e), None);
                    },
                    Ok(()) => {},
                }
                match server.get_opponent_id(local_id) {
                    Err(e) => (Err(e), None),
                    Ok(opponent_id) => {
                        (
                            make_frame(MessageType::Message, String::from_str("Hint sent")),
                            Some((opponent_id, routed_frame)),
                        )
                    },
                }
            },
            ServerCommandList::Guess(data) => {
                let gid = match server.get_game_id(local_id) {
                    None => {
                        let mut m = String::from_str("CANCELED Game where local player ID ");
                        let d = u64_to_dec(local_id);
                        m.append(d.as_str());
                        m.append(" is trying to guess, does not exist. cancelling match");
                        return (Err(ServerCommandError::ErrorMessage(m)), None);
                    },
                    Some(g) => g,
                };
                let guess = match bytes_to_string(vstd::slice::slice_to_vec(data.as_slice())) {
                    None => {
                        return (
                            Err(ServerCommandError::ErrorMessage(
                                String::from_str("ERROR: invalid UTF-8"),
                            )),
                            None,
                        );
                    },
                    Some(t) => t,
                };
                let ghost s0 = server@;
                let ghost fb = spec_find_game(s0.ongoing_games, GameCrit::ById(gid));
                proof {
                    lemma_participant_gives_byid(s0.ongoing_games, local_id, gid);
                }
                let (game_host_id, game_attempts) = match server.get_game_mut_ref(gid) {
                    Some(game) => (game.get_host_id(), game.get_attempts()),
                    None => {
                        proof {
                            lemma_participant_gives_byid(s0.ongoing_games, local_id, gid);
                            assert(false);
                        }
                        (0u64, 0u8)
                    },
                };
                proof {
                    assert(s0.ongoing_games.update(fb, s0.ongoing_games[fb])
                        =~= s0.ongoing_games);
                    assert(server@ =~= s0);
                }
                let st = match server.update_game_guess(gid, guess.clone()) {
                    Err(e) => {
                        proof {
                            lemma_participant_gives_byid(s0.ongoing_games, local_id, gid);
                            assert(false);
                        }
                        return (Err(e), None);
                    },
                    Ok(st) => st,
                };
                let ghost g2 = spec_guess_step(s0.ongoing_games[fb], guess@);
                match st {
                    GameState::Victory => {
                        proof {
                            reveal_strlit("VICTORY");
                            reveal_strlit("DEFEAT");
                            assert(game_matches(g2, GameCrit::ById(gid)));
                            assert(server@.ongoing_games[fb] == g2);
                            lemma_find_game_props(server@.ongoing_games, GameCrit::ById(gid));
                        }
                        let ghost s2games = server@.ongoing_games;
                        match server.terminate_game(gid) {
                            Err(_) => {
                                proof {
                                    assert(false);
                                }
                                (Err(ServerCommandError::ErrorMessage(String::new())), None)
                            },
                            Ok(()) => {
                                proof {
                                    lemma_remove_game_wf(s2games, gid);
                                    lemma_remove_game_keeps(s2games, gid);
                                }
                                (
                                    Ok(literal_frame(MessageType::Command, "VICTORY")),
                                    Some(
                                        (
                                            game_host_id,
                                            literal_frame(MessageType::Command, "DEFEAT"),
                                        ),
                                    ),
                                )
                            },
                        }
                    },
                    GameState::Defeat => {
                        proof {
                            reveal_strlit("VICTORY");
                            reveal_strlit("DEFEAT");
                            assert(game_matches(g2, GameCrit::ById(gid)));
                            assert(server@.ongoing_games[fb] == g2);
                            lemma_find_game_props(server@.ongoing_games, GameCrit::ById(gid));
                        }
                        let ghost s2games = server@.ongoing_games;
                        match server.terminate_game(gid) {
                            Err(_) => {
                                proof {
                                    assert(false);
                                }
                                (Err(ServerCommandError::ErrorMessage(String::new())), None)
                            },
                            Ok(()) => {
                                proof {
                                    lemma_remove_game_wf(s2games, gid);
                                    lemma_remove_game_keeps(s2games, gid);
                                }
                                (
                                    Ok(literal_frame(MessageType::Command, "DEFEAT")),
                                    Some(
                                        (
                                            game_host_id,
                                            literal_frame(MessageType::Command, "VICTORY"),
                                        ),
                                    ),
                                )
                            },
                        }
                    },
                    GameState::Ongoing => {
                        proof {
                            assert(s0.ongoing_games[fb].game_state == GameState::Ongoing);
                            assert(s0.ongoing_games[fb].attempts >= 2);
                            assert(g2.attempts == game_attempts - 1);
                        }
                        let attempts_left = game_attempts - 1;
                        let d = u64_to_dec(attempts_left as u64);
                        let mut routed_text = String::from_str("Guess ");
                        routed_text.append(guess.as_str());
                        routed_text.append(" IS INCORRECT, ");
                        routed_text.append(d.as_str());
                        routed_text.append(" ATTEMPTS LEFT");
                        let routed_frame = match make_frame(MessageType::Message, routed_text) {
                            Err(e) => {
                                return (Err(e), None);
                            },
                            Ok(b) => b,
                        };
                        let mut reply_text = String::from_str("OK GUESS ");
                        reply_text.append(guess.as_str());
                        reply_text.append(" IS INCORRECT, ");
                        reply_text.append(d.as_str());
                        reply_text.append(" ATTEMPTS LEFT");
                        let reply_frame = match make_frame(MessageType::Message, reply_text) {
                            Err(e) => {
                                return (Err(e), None);
                            },
                            Ok(b) => b,
                        };
                        (Ok(reply_frame), Some((game_host_id, routed_frame)))
                    },
                }
            },
            ServerCommandList::StartGame(data) => {
                if data.len() == 0 {
                    return (
                        Err(ServerCommandError::ErrorMessage(
                            String::from_str("ERROR Direct message must be at least 8 bytes long"),
                        )),
                        None,
                    );
                }
                let text = match bytes_to_string(vstd::slice::slice_to_vec(data.as_slice())) {
                    None => {
                        return (
                            Err(ServerCommandError::ErrorMessage(
                                String::from_str("ERROR: invalid UTF-8"),
                            )),
                            None,
                        );
                    },
                    Some(t) => t,
                };
                let mut toks = tokens_of(text.as_str());
                proof {
                    lemma_vec_deep_index(&toks);
                }
                if toks.len() != 2 {
                    return (
                        Err(ServerCommandError::ErrorMessage(
                            String::from_str("ERROR Direct message must have 2 arguments"),
                        )),
                        None,
                    );
                }
                let opponent_id = match parse_u64(
                    vstd::std_specs::vec::vec_index(&toks, 0).as_str(),
                ) {
                    None => {
                        return (
                            Err(ServerCommandError::ErrorMessage(
                                String::from_str(
                                    "ERROR Direct message must start with a valid ID",
                                ),
                            )),
                            None,
                        );
                    },
                    Some(v) => v,
                };
                let secret = toks.remove(1);
                match server.start_game(local_id, opponent_id, secret) {
                    Err(e) => (Err(e), None),
                    Ok(_game_id) => {
                        proof {
                            reveal_strlit("REQUESTACK");
                            reveal_strlit("REQUESTEDGAME");
                        }
                        (
                            Ok(literal_frame(MessageType::Command, "REQUESTACK")),
                            Some(
                                (
                                    opponent_id,
                                    literal_frame(MessageType::Command, "REQUESTEDGAME"),
                                ),
                            ),
                        )
                    },
                }
            },
            ServerCommandList::Drop => {
                let mut routed: Option<(u64, BinaryMessage)> = None;
                match server.get_game_id(local_id) {
                    Some(gid) => {
                        let ghost s0 = server@;
                        let ghost fb = spec_find_game(s0.ongoing_games, GameCrit::ById(gid));
                        proof {
                            lemma_participant_gives_byid(s0.ongoing_games, local_id, gid);
                        }
                        let opponent_id = match server.get_game_mut_ref(gid) {
                            Some(game) => game.get_opponent_id(),
                            None => {
                                proof {
                                    lemma_participant_gives_byid(
                                        s0.ongoing_games,
                                        local_id,
                                        gid,
                                    );
                                    assert(false);
                                }
                                0u64
                            },
                        };
                        proof {
                            assert(s0.ongoing_games.update(fb, s0.ongoing_games[fb])
                                =~= s0.ongoing_games);
                            assert(server@ =~= s0);
                        }
                        match server.terminate_game(gid) {
                            Err(_) => {
                                proof {
                                    lemma_participant_gives_byid(
                                        s0.ongoing_games,
                                        local_id,
                                        gid,
                                    );
                                    assert(false);
                                }
                            },
                            Ok(()) => {},
                        }
                        proof {
                            reveal_strlit("MATCH CANCELED");
                            lemma_remove_game_wf(s0.ongoing_games, gid);
                            lemma_remove_game_keeps(s0.ongoing_games, gid);
                        }
                        routed = Some(
                            (opponent_id, literal_frame(MessageType::Message, "MATCH CANCELED")),
                        );
                    },
                    None => {},
                }
                match server.drop_user(local_id) {
                    Err(e) => (Err(e), routed),
                    Ok(()) => {
                        let mut m = String::from_str("user ");
                        let d = u64_to_dec(local_id);
                        m.append(d.as_str());
                        m.append(" dropped");
                        (Err(ServerCommandError::TerminateUser(m)), routed)
                    },
                }
            },
            ServerCommandList::CancelGame => {
                let gid = match server.get_game_id(local_id) {
                    None => {
                        let mut m = String::from_str("user ");
                        let d = u64_to_dec(local_id);
                        m.append(d.as_str());
                        m.append(" doesn't participate in a game, cannot terminate");
                        return (Err(ServerCommandError::ErrorMessage(m)), None);
                    },
                    Some(g) => g,
                };
                let ghost s0 = server@;
                let ghost fb = spec_find_game(s0.ongoing_games, GameCrit::ById(gid));
                proof {
                    lemma_participant_gives_byid(s0.ongoing_games, local_id, gid);
                }
                let (game_host_id, game_opponent_id) = match server.get_game_mut_ref(gid) {
                    Some(game) => (game.get_host_id(), game.get_opponent_id()),
                    None => {
                        proof {
                            lemma_participant_gives_byid(s0.ongoing_games, local_id, gid);
                            assert(false);
                        }
                        (0u64, 0u64)
                    },
                };
                proof {
                    assert(s0.ongoing_games.update(fb, s0.ongoing_games[fb])
                        =~= s0.ongoing_games);
                    assert(server@ =~= s0);
                }
                match server.terminate_game(gid) {
                    Err(_) => {
                        proof {
                            lemma_participant_gives_byid(s0.ongoing_games, local_id, gid);
                            assert(false);
                        }
                    },
                    Ok(()) => {},
                }
                proof {
                    reveal_strlit("CANCELED");
                    reveal_strlit("MATCH CANCELED");
                    lemma_remove_game_wf(s0.ongoing_games, gid);
                    lemma_remove_game_keeps(s0.ongoing_games, gid);
                }
                let other = if game_host_id == local_id {
                    game_opponent_id
                } else {
                    game_host_id
                };
                (
                    Ok(literal_frame(MessageType::Command, "CANCELED")),
                    Some((other, literal_frame(MessageType::Message, "MATCH CANCELED"))),
                )
            },
            ServerCommandList::RequestOpponents => {
                match server.get_opponents(local_id) {
                    None => (
                        Err(ServerCommandError::ErrorMessage(
                            String::from_str("ERROR No opponents found"),
                        )),
                        None,
                    ),
                    Some(opponents) => {
                        let n = opponents.len();
                        let mut text = String::from_str("OPPONENT LIST [");
                        let mut i: usize = 0;
                        while i < n
                            invariant
                                n == opponents@.len(),
                                i <= n,
                                text@ == "OPPONENT LIST ["@ + spec_id_list(
                                    opponents@.subrange(0, i as int),
                                ),
                            decreases n - i,
                        {
                            let x = *vstd::std_specs::vec::vec_index(&opponents, i);
                            if i > 0 {
                                text.append(", ");
                            }
                            let d = u64_to_dec(x);
                            text.append(d.as_str());
                            proof {
                                assert(opponents@.subrange(0, i + 1) =~= opponents@.subrange(
                                    0,
                                    i as int,
                                ).push(x));
                                lemma_id_list_push(opponents@.subrange(0, i as int), x);
                                if i > 0 {
                                    assert(("OPPONENT LIST ["@ + spec_id_list(
                                        opponents@.subrange(0, i as int),
                                    )) + ", "@ + dec_chars(x as int) =~= "OPPONENT LIST ["@ + (
                                    spec_id_list(opponents@.subrange(0, i as int)) + ", "@
                                        + dec_chars(x as int)));
                                } else {
                                    assert(spec_id_list(opponents@.subrange(0, 0)) =~= Seq::<
                                        char,
                                    >::empty());
                                    assert(("OPPONENT LIST ["@ + Seq::<char>::empty()) + dec_chars(
                                        x as int,
                                    ) =~= "OPPONENT LIST ["@ + dec_chars(x as int));
                                }
                            }
                            i = i + 1;
                        }
                        text.append("]");
                        proof {
                            assert(opponents@.subrange(0, n as int) =~= opponents@);
                        }
                        (make_frame(MessageType::Message, text), None)
                    },
                }
            },
        }
    }
}

} // verus!
