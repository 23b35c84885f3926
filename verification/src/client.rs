//! The client's side of the protocol: its connection mode, its local state,
//! and the parsing of server replies.

use vstd::prelude::*;

verus! {

use crate::binary_message::{BinaryMessage, MessageType, CodecError, spec_split};
use crate::text::{upper_bytes, eq_ignore_ascii_case};
use vstd::utf8::encode_utf8;
use vstd::string::StringSliceAdditionalSpecFns;

/// Mode to use when connecting.
#[derive(Debug, Clone, Copy, PartialEq, Eq, Structural)]
pub enum ConnectionMode {
    TCP,
    UNIX,
}

/// Main client data that shows the client's ID.
pub struct ClientData {
    client_id: u64,
}

impl ClientData {
    /// The identifier the server assigned, or 0 before authentication.
    pub closed spec fn spec_id(&self) -> u64 {
        self.client_id
    }

    /// Creates a new client state, not yet authenticated: the identifier 0
    /// signals that no user was assigned yet.
    pub fn new() -> (r: Self)
        ensures
            r.spec_id() == 0,
    {
        Self { client_id: 0 }
    }

    /// Set the id for the client.
    pub fn set_id(&mut self, client_id: u64)
        ensures
            final(self).spec_id() == client_id,
    {
        self.client_id = client_id;
    }

    /// Get client's ID.
    pub fn get_id(&mut self) -> (r: u64)
        ensures
            r == old(self).spec_id(),
            *final(self) == *old(self),
    {
        self.client_id
    }
}

/// Possible responses from the server.
#[derive(Debug, Clone, PartialEq)]
pub enum ServerMessageResponse {
    Unknown,
    ID(Vec<u8>),
    Error(Vec<u8>),
    Message(Vec<u8>),
    RequestAck,
    RequestedGame,
    GameVictory,
    GameDefeat,
    GameCanceled,
}

/// The response a frame parses to, with its raw argument bytes.
pub enum SpecResponse {
    Unknown,
    ID(Seq<u8>),
    Error(Seq<u8>),
    Message(Seq<u8>),
    RequestAck,
    RequestedGame,
    GameVictory,
    GameDefeat,
    GameCanceled,
}

/// The abstract content of a parsed response.
pub open spec fn response_abs(r: ServerMessageResponse) -> SpecResponse {
    match r {
        ServerMessageResponse::Unknown => SpecResponse::Unknown,
        ServerMessageResponse::ID(v) => SpecResponse::ID(v@),
        ServerMessageResponse::Error(v) => SpecResponse::Error(v@),
        ServerMessageResponse::Message(v) => SpecResponse::Message(v@),
        ServerMessageResponse::RequestAck => SpecResponse::RequestAck,
        ServerMessageResponse::RequestedGame => SpecResponse::RequestedGame,
        ServerMessageResponse::GameVictory => SpecResponse::GameVictory,
        ServerMessageResponse::GameDefeat => SpecResponse::GameDefeat,
        ServerMessageResponse::GameCanceled => SpecResponse::GameCanceled,
    }
}

/// Whether a reply keyword is the given one, compared without regard to
/// ASCII letter case.
pub open spec fn reply_keyword(cmd: Seq<char>, kw: Seq<char>) -> bool {
    upper_bytes(encode_utf8(cmd)) == upper_bytes(encode_utf8(kw))
}

/// The response a frame carries.
///
/// A command frame splits into a keyword, matched without regard to letter
/// case, and raw argument bytes; an unreadable keyword is a decoding error.
/// A chat frame is a `Message` of its whole payload, and anything else is
/// `Unknown`.
pub open spec fn spec_response_of(t: MessageType, payload: Seq<u8>) -> Option<SpecResponse> {
    match t {
        MessageType::Command => match spec_split(payload) {
            None => None,
            Some((cmd, args)) => Some(
                if reply_keyword(cmd, "ID"@) {
                    SpecResponse::ID(args)
                } else if reply_keyword(cmd, "ERROR"@) {
                    SpecResponse::Error(args)
                } else if reply_keyword(cmd, "REQUESTACK"@) {
                    SpecResponse::RequestAck
                } else if reply_keyword(cmd, "REQUESTEDGAME"@) {
                    SpecResponse::RequestedGame
                } else if reply_keyword(cmd, "DEFEAT"@) {
                    SpecResponse::GameDefeat
                } else if reply_keyword(cmd, "CANCELED"@) {
                    SpecResponse::GameCanceled
                } else if reply_keyword(cmd, "VICTORY"@) {
                    SpecResponse::GameVictory
                } else {
                    SpecResponse::Unknown
                },
            ),
        },
        MessageType::Message => Some(SpecResponse::Message(payload)),
        MessageType::Unknown => Some(SpecResponse::Unknown),
    }
}

impl ServerMessageResponse {
    /// Parses a frame into the response it carries.
    pub fn try_from(binary_message: BinaryMessage) -> (r: Result<
        ServerMessageResponse,
        CodecError,
    >)
        requires
            binary_message.wf(),
        ensures
            match spec_response_of(binary_message.spec_type(), binary_message.spec_payload()) {
                Some(sr) => r matches Ok(c) && response_abs(c) == sr,
                None => r matches Err(e) && e == CodecError::InvalidUtf8,
            },
    {
        match binary_message.get_type() {
            MessageType::Command => {
                let (command, binary) = match binary_message.split() {
                    Ok(p) => p,
                    Err(e) => {
                        return Err(e);
                    },
                };
                let cb = command.as_str().as_bytes();
                Ok(
                    if eq_ignore_ascii_case(cb, "ID".as_bytes()) {
                        Self::ID(binary)
                    } else if eq_ignore_ascii_case(cb, "ERROR".as_bytes()) {
                        Self::Error(binary)
                    } else if eq_ignore_ascii_case(cb, "REQUESTACK".as_bytes()) {
                        Self::RequestAck
                    } else if eq_ignore_ascii_case(cb, "REQUESTEDGAME".as_bytes()) {
                        Self::RequestedGame
                    } else if eq_ignore_ascii_case(cb, "DEFEAT".as_bytes()) {
                        Self::GameDefeat
                    } else if eq_ignore_ascii_case(cb, "CANCELED".as_bytes()) {
                        Self::GameCanceled
                    } else if eq_ignore_ascii_case(cb, "VICTORY".as_bytes()) {
                        Self::GameVictory
                    } else {
                        Self::Unknown
                    },
                )
            },
            MessageType::Message => Ok(Self::Message(
                vstd::slice::slice_to_vec(binary_message.get_message().as_slice()),
            )),
            MessageType::Unknown => Ok(Self::Unknown),
        }
    }
}

} // verus!
