//! The decisions of the per-connection loop that do not touch a socket: the
//! password handshake that turns a raw connection into an authenticated
//! user, and the probe that recognizes a plain HTTP request on the wire.

use vstd::prelude::*;

verus! {

use vstd::utf8::{valid_utf8, decode_utf8, encode_utf8};
use vstd::string::{StringExecFns, StringSliceAdditionalSpecFns};
use crate::binary_message::{BinaryMessage, MessageType};
use crate::server::{ServerData, ServerDataV, spec_max_id};
use crate::server_commands::{ServerCommandList, ServerCommandError, SpecError, msg_bad_utf8, err_matches};
use crate::text::{dec_chars, u64_to_dec, lemma_dec_chars_u64};

/// What the handshake decides on one received command: the registry
/// afterwards, the authenticated user or the error that ends the handshake,
/// and the reply owed to the connection, if one is.
#[verifier::ext_equal]
pub struct HandshakeOutcome {
    pub state: ServerDataV,
    pub user: Result<u64, SpecError>,
    pub reply: Option<(MessageType, Seq<char>)>,
}

/// What one handshake step decides.
///
/// A chat frame carries the password candidate: on a match a user is added
/// and told its identifier; on a mismatch the connection is told so and
/// torn down. Any other command before authentication is fatal to the
/// handshake. Identifiers running out is fatal too, before a user is made.
pub open spec fn spec_validate_user(cmd: ServerCommandList, s: ServerDataV) -> HandshakeOutcome {
    match cmd {
        ServerCommandList::Message(pass) => {
            if !valid_utf8(pass@) {
                HandshakeOutcome {
                    state: s,
                    user: Err(SpecError::ErrorMessage(msg_bad_utf8())),
                    reply: None,
                }
            } else if decode_utf8(pass@) == s.password {
                if spec_max_id(s.connected_users) == u64::MAX {
                    HandshakeOutcome {
                        state: s,
                        user: Err(SpecError::TerminateThread("no identifiers left"@)),
                        reply: None,
                    }
                } else {
                    let id = (spec_max_id(s.connected_users) + 1) as u64;
                    HandshakeOutcome {
                        state: ServerDataV { connected_users: s.connected_users.push(id), ..s },
                        user: Ok(id),
                        reply: Some(
                            (MessageType::Command, "ID "@ + dec_chars(id as int)),
                        ),
                    }
                }
            } else {
                HandshakeOutcome {
                    state: s,
                    user: Err(SpecError::TerminateThread("Password incorrect"@)),
                    reply: Some((MessageType::Message, "ERROR password incorrect"@)),
                }
            }
        },
        _ => HandshakeOutcome {
            state: s,
            user: Err(SpecError::TerminateThread("Command incorrect"@)),
            reply: Some((MessageType::Message, "ERROR command incorrect"@)),
        },
    }
}

/// Runs one step of the password handshake on a received command.
///
/// The loop that reads frames until one arrives, and the writing of the
/// reply to the socket, stay with the connection thread outside the library.
pub fn validate_user(server: &mut ServerData, command: &ServerCommandList) -> (r: (
    Result<u64, ServerCommandError>,
    Option<BinaryMessage>,
))
    ensures
        ({
            let out = spec_validate_user(*command, old(server)@);
            &&& final(server)@ == out.state
            &&& match (r.0, out.user) {
                (Ok(id), Ok(sid)) => id == sid,
                (Err(e), Err(se)) => err_matches(e, se),
                _ => false,
            }
            &&& match (r.1, out.reply) {
                (Some(b), Some(p)) => b.wf() && b.spec_type() == p.0 && b.spec_payload()
                    == encode_utf8(p.1),
                (None, None) => true,
                _ => false,
            }
        }),
        old(server)@.wf() ==> final(server)@.wf(),
{
    match command {
        ServerCommandList::Message(pass) => {
            let message = match crate::text::bytes_to_string(
                vstd::slice::slice_to_vec(pass.as_slice()),
            ) {
                None => {
                    return (
                        (Err(ServerCommandError::ErrorMessage(
                            String::from_str("ERROR: invalid UTF-8"),
                        )), None)
                    );
                },
                Some(t) => t,
            };
            if server.validate_password(message.as_str()) {
                if server.max_user_id() == u64::MAX {
                    return (
                        (Err(ServerCommandError::TerminateThread(
                            String::from_str("no identifiers left"),
                        )), None)
                    );
                }
                let local_id = server.add_user();
                let mut text = String::from_str("ID ");
                let d = u64_to_dec(local_id);
                text.append(d.as_str());
                proof {
                    reveal_strlit("ID ");
                    lemma_dec_chars_u64(local_id);
                    assert(vstd::utf8::is_ascii_chars("ID "@));
                    vstd::utf8::is_ascii_chars_concat(
                        text@,
                        "ID "@,
                        dec_chars(local_id as int),
                    );
                    vstd::utf8::is_ascii_chars_encode_utf8(text@);
                    assert(text@.len() <= 23);
                }
                let frame = BinaryMessage::new_raw(
                    MessageType::Command,
                    vstd::slice::slice_to_vec(text.as_str().as_bytes()),
                );
                (Ok(local_id), Some(frame))
            } else {
                proof {
                    reveal_strlit("ERROR password incorrect");
                    assert(vstd::utf8::is_ascii_chars("ERROR password incorrect"@));
                    vstd::utf8::is_ascii_chars_encode_utf8("ERROR password incorrect"@);
                }
                let frame = BinaryMessage::new_raw(
                    MessageType::Message,
                    vstd::slice::slice_to_vec("ERROR password incorrect".as_bytes()),
                );
                (
                    Err(ServerCommandError::TerminateThread(
                        String::from_str("Password incorrect"),
                    )),
                    Some(frame),
                )
            }
        },
        _ => {
            proof {
                reveal_strlit("ERROR command incorrect");
                assert(vstd::utf8::is_ascii_chars("ERROR command incorrect"@));
                vstd::utf8::is_ascii_chars_encode_utf8("ERROR command incorrect"@);
            }
            let frame = BinaryMessage::new_raw(
                MessageType::Message,
                vstd::slice::slice_to_vec("ERROR command incorrect".as_bytes()),
            );
            (
                Err(ServerCommandError::TerminateThread(
                    String::from_str("Command incorrect"),
                )),
                Some(frame),
            )
        },
    }
}

/// Whether a raw buffer opens with a plain HTTP request line, so that the
/// listener can serve its debug page instead of the game protocol.
pub fn is_http_request(buffer: &[u8]) -> (r: bool)
    ensures
        r == (buffer@.len() >= 14 && buffer@.subrange(0, 14) == encode_utf8("GET / HTTP/1.1"@)),
{
    if buffer.len() < 14 {
        return false;
    }
    let r = crate::text::bytes_eq(&buffer[0..14], "GET / HTTP/1.1".as_bytes());
    r
}

} // verus!
