//! The wire codec: a frame is a 2-byte big-endian length, a 1-byte type tag,
//! and exactly `length` bytes of payload.

use vstd::prelude::*;

verus! {

use crate::text::spec_space_index;
use vstd::utf8::{valid_utf8, decode_utf8};

/// The kind of traffic a frame carries. Tag 0 stands for `Unknown`, 1 for
/// `Command`, 2 for `Message`.
#[derive(Debug, Clone, Copy, PartialEq, Eq, Structural)]
pub enum MessageType {
    Unknown,
    Command,
    Message,
}

/// The byte tag written on the wire for a message type.
pub open spec fn tag_of(t: MessageType) -> u8 {
    match t {
        MessageType::Unknown => 0,
        MessageType::Command => 1,
        MessageType::Message => 2,
    }
}

/// The message type read back from a byte tag; every tag above 2 is `Unknown`.
pub open spec fn type_of_tag(b: u8) -> MessageType {
    if b == 1 {
        MessageType::Command
    } else if b == 2 {
        MessageType::Message
    } else {
        MessageType::Unknown
    }
}

/// The recoverable error of reading payload text that is not valid UTF-8.
#[derive(Debug, Clone, Copy, PartialEq, Eq, Structural)]
pub enum CodecError {
    InvalidUtf8,
}

/// One frame of the wire protocol.
#[derive(Debug)]
pub struct BinaryMessage {
    length: u16,
    message_type: MessageType,
    message: Vec<u8>,
}

/// The mathematical content of a frame.
#[verifier::ext_equal]
pub struct BinaryMessageV {
    pub length: u16,
    pub message_type: MessageType,
    pub payload: Seq<u8>,
}

impl View for BinaryMessage {
    type V = BinaryMessageV;

    closed spec fn view(&self) -> BinaryMessageV {
        BinaryMessageV {
            length: self.length,
            message_type: self.message_type,
            payload: self.message@,
        }
    }
}

impl DeepView for BinaryMessage {
    type V = BinaryMessageV;

    open spec fn deep_view(&self) -> BinaryMessageV {
        self.view()
    }
}

impl Default for BinaryMessage {
    /// An empty, unknown frame.
    fn default() -> (r: Self)
        ensures
            r.wf(),
            r.spec_type() == MessageType::Unknown,
            r.spec_payload() == Seq::<u8>::empty(),
    {
        BinaryMessage { length: 0, message_type: MessageType::Unknown, message: Vec::new() }
    }
}

impl Clone for BinaryMessage {
    /// Clones the frame, keeping its length, type and payload.
    fn clone(&self) -> (res: Self)
        ensures
            res@ == self@,
    {
        BinaryMessage {
            length: self.length,
            message_type: self.message_type,
            message: vstd::slice::slice_to_vec(self.message.as_slice()),
        }
    }
}

/// The byte sequence a frame of the given parts is encoded as.
pub open spec fn spec_serialize(length: u16, t: MessageType, payload: Seq<u8>) -> Seq<u8> {
    seq![(length / 256) as u8, (length % 256) as u8, tag_of(t)] + payload
}

/// The parts read back from a raw buffer: length, type, payload.
///
/// A buffer of fewer than 3 bytes carries no frame, and a length prefix that
/// reaches past the end of the buffer is treated the same way: both give an
/// empty `Unknown` frame rather than a read out of bounds.
pub open spec fn spec_deserialize(bytes: Seq<u8>) -> (u16, MessageType, Seq<u8>) {
    if bytes.len() < 3 {
        (0u16, MessageType::Unknown, Seq::<u8>::empty())
    } else {
        let length = bytes[0] * 256 + bytes[1];
        if length + 3 > bytes.len() {
            (0u16, MessageType::Unknown, Seq::<u8>::empty())
        } else {
            (length as u16, type_of_tag(bytes[2]), bytes.subrange(3, 3 + length))
        }
    }
}

/// The parts a command payload splits into: the command name before the
/// first space, decoded as UTF-8, and the raw argument bytes after it; or
/// nothing, when the name is not valid UTF-8.
pub open spec fn spec_split(payload: Seq<u8>) -> Option<(Seq<char>, Seq<u8>)> {
    let i = spec_space_index(payload);
    let cmd = payload.subrange(0, i);
    let args = if i + 1 < payload.len() {
        payload.subrange(i + 1, payload.len() as int)
    } else {
        Seq::<u8>::empty()
    };
    if valid_utf8(cmd) {
        Some((decode_utf8(cmd), args))
    } else {
        None
    }
}

impl BinaryMessage {
    /// The length prefix of the frame.
    pub open spec fn spec_len(&self) -> u16 {
        self@.length
    }

    /// The type tag of the frame.
    pub open spec fn spec_type(&self) -> MessageType {
        self@.message_type
    }

    /// The payload bytes of the frame.
    pub open spec fn spec_payload(&self) -> Seq<u8> {
        self@.payload
    }

    /// A well-formed frame: the length prefix counts exactly the payload
    /// bytes. The payload can never exceed 65535 bytes, since the length
    /// prefix is 16 bits wide.
    pub open spec fn wf(&self) -> bool {
        self.spec_payload().len() == self.spec_len() as int
    }

    /// Creates a new chat frame carrying `text`.
    pub fn new_message(text: String) -> (r: Self)
        requires
            vstd::utf8::encode_utf8(text@).len() <= 65535,
        ensures
            r.wf(),
            r.spec_type() == MessageType::Message,
            r.spec_payload() == vstd::utf8::encode_utf8(text@),
    {
        let bytes = vstd::slice::slice_to_vec(text.as_str().as_bytes());
        Self { length: bytes.len() as u16, message_type: MessageType::Message, message: bytes }
    }

    /// Creates a new command frame carrying `text`.
    pub fn new_command(text: String) -> (r: Self)
        requires
            vstd::utf8::encode_utf8(text@).len() <= 65535,
        ensures
            r.wf(),
            r.spec_type() == MessageType::Command,
            r.spec_payload() == vstd::utf8::encode_utf8(text@),
    {
        let bytes = vstd::slice::slice_to_vec(text.as_str().as_bytes());
        Self { length: bytes.len() as u16, message_type: MessageType::Command, message: bytes }
    }

    /// Creates a frame of the given type directly from payload bytes.
    pub fn new_raw(message_type: MessageType, message: Vec<u8>) -> (r: Self)
        requires
            message@.len() <= 65535,
        ensures
            r.wf(),
            r.spec_type() == message_type,
            r.spec_payload() == message@,
    {
        Self { length: message.len() as u16, message_type, message }
    }

    /// Gets the type of the message.
    pub fn get_type(&self) -> (r: MessageType)
        ensures
            r == self.spec_type(),
    {
        self.message_type
    }

    /// Gets the payload bytes.
    pub fn get_message(&self) -> (r: &Vec<u8>)
        ensures
            r@ == self.spec_payload(),
    {
        &self.message
    }

    /// Serializes the frame into bytes: length, tag, payload.
    pub fn serialize(&self) -> (r: Vec<u8>)
        ensures
            r@ == spec_serialize(self.spec_len(), self.spec_type(), self.spec_payload()),
    {
        let mut bytes: Vec<u8> = Vec::new();
        bytes.push((self.length / 256) as u8);
        bytes.push((self.length % 256) as u8);
        let tag: u8 = match self.message_type {
            MessageType::Unknown => 0,
            MessageType::Command => 1,
            MessageType::Message => 2,
        };
        bytes.push(tag);
        let mut i: usize = 0;
        while i < self.message.len()
            invariant
                i <= self.message.len(),
                bytes@ =~= seq![
                    (self.length / 256) as u8,
                    (self.length % 256) as u8,
                    tag_of(self.message_type),
                ] + self.message@.subrange(0, i as int),
            decreases self.message.len() - i,
        {
            bytes.push(self.message[i]);
            i = i + 1;
        }
        proof {
            assert(self.message@.subrange(0, self.message@.len() as int) =~= self.message@);
            assert(bytes@ =~= spec_serialize(self.spec_len(), self.spec_type(),
                self.spec_payload()));
        }
        bytes
    }

    /// Deserializes a raw buffer into a frame. Short or corrupt buffers give
    /// an empty `Unknown` frame; the result is always well-formed.
    pub fn deserialize(message: &[u8]) -> (r: Self)
        ensures
            r.wf(),
            (r.spec_len(), r.spec_type(), r.spec_payload()) == spec_deserialize(message@),
    {
        if message.len() < 3 {
            return Self { length: 0, message_type: MessageType::Unknown, message: Vec::new() };
        }
        let b0 = *vstd::slice::slice_index_get(message, 0);
        let b1 = *vstd::slice::slice_index_get(message, 1);
        let b2 = *vstd::slice::slice_index_get(message, 2);
        let length: u16 = (b0 as u16) * 256 + (b1 as u16);
        if (length as usize) + 3 > message.len() {
            return Self { length: 0, message_type: MessageType::Unknown, message: Vec::new() };
        }
        let message_type = if b2 == 1 {
            MessageType::Command
        } else if b2 == 2 {
            MessageType::Message
        } else {
            MessageType::Unknown
        };
        let payload = vstd::slice::slice_to_vec(&message[3..(length as usize) + 3]);
        Self { length, message_type, message: payload }
    }
    /// Splits a payload into a command name and its argument bytes.
    ///
    /// The command name is everything before the first space byte, decoded as
    /// UTF-8; the arguments are everything after it, still raw. Without a
    /// space the whole payload is the name and the arguments are empty.
    pub fn split(&self) -> (r: Result<(String, Vec<u8>), CodecError>)
        requires
            self.wf(),
        ensures
            match spec_split(self.spec_payload()) {
                Some((cmd, args)) => r matches Ok(p) && p.0@ == cmd && p.1@ == args,
                None => r matches Err(e) && e == CodecError::InvalidUtf8,
            },
    {
        let i = crate::text::space_index(self.message.as_slice());
        let cmd_bytes = vstd::slice::slice_to_vec(&self.message.as_slice()[0..i]);
        let cmd = match crate::text::bytes_to_string(cmd_bytes) {
            Some(c) => c,
            None => {
                return Err(CodecError::InvalidUtf8);
            },
        };
        let args: Vec<u8> = if i + 1 < self.message.len() {
            vstd::slice::slice_to_vec(&self.message.as_slice()[i + 1..self.message.len()])
        } else {
            Vec::new()
        };
        proof {
            if !(spec_space_index(self.spec_payload()) + 1 < self.spec_payload().len()) {
                assert(args@ =~= Seq::<u8>::empty());
            }
        }
        Ok((cmd, args))
    }
}

/// Round trip: any well-formed frame decodes from its own encoding back to
/// exactly the same length, type and payload.
pub proof fn lemma_round_trip(m: BinaryMessage)
    requires
        m.wf(),
    ensures
        spec_deserialize(spec_serialize(m.spec_len(), m.spec_type(), m.spec_payload()))
            == (m.spec_len(), m.spec_type(), m.spec_payload()),
{
    let bytes = spec_serialize(m.spec_len(), m.spec_type(), m.spec_payload());
    assert(bytes[0] == (m.spec_len() / 256) as u8);
    assert(bytes[1] == (m.spec_len() % 256) as u8);
    assert(bytes[2] == tag_of(m.spec_type()));
    assert(bytes[0] * 256 + bytes[1] == m.spec_len() as int);
    assert(type_of_tag(tag_of(m.spec_type())) == m.spec_type());
    assert(bytes.subrange(3, 3 + m.spec_len() as int) =~= m.spec_payload());
}

} // verus!
