//! A plain text message with its own serialized forms, used by the server
//! side for pre-framed text.

use vstd::prelude::*;

verus! {

use vstd::utf8::{valid_utf8, decode_utf8, encode_utf8};
use crate::binary_message::{spec_serialize, MessageType};

/// Main message struct to communicate between server and client.
#[derive(Debug)]
pub struct Message {
    pub args: String,
}

/// The bytes `to_bytes` writes: a 2-byte big-endian length, the command tag,
/// then the text's UTF-8 bytes.
pub open spec fn spec_message_bytes(text: Seq<char>) -> Seq<u8> {
    spec_serialize(encode_utf8(text).len() as u16, MessageType::Command, encode_utf8(text))
}

/// The text `from_bytes` reads back: a 4-byte big-endian length, then that
/// many bytes of UTF-8 text. Short buffers and invalid UTF-8 give nothing.
pub open spec fn spec_message_from_bytes(bytes: Seq<u8>) -> Option<Seq<char>> {
    if bytes.len() < 4 {
        None
    } else {
        let length = ((bytes[0] * 256 + bytes[1]) * 256 + bytes[2]) * 256 + bytes[3];
        if bytes.len() < 4 + length {
            None
        } else {
            let data = bytes.subrange(4, 4 + length);
            if valid_utf8(data) {
                Some(decode_utf8(data))
            } else {
                None
            }
        }
    }
}

impl Message {
    /// Creates a new [`Message`].
    pub fn new(data: &str) -> (r: Self)
        ensures
            r.args@ == data@,
    {
        Self { args: data.to_owned() }
    }

    /// Serializes the [`Message`] to bytes.
    pub fn to_bytes(&self) -> (r: Vec<u8>)
        requires
            encode_utf8(self.args@).len() <= 65535,
        ensures
            r@ == spec_message_bytes(self.args@),
    {
        let data = self.args.as_str().as_bytes();
        let length = data.len() as u16;
        let mut bytes: Vec<u8> = Vec::new();
        bytes.push((length / 256) as u8);
        bytes.push((length % 256) as u8);
        bytes.push(1);
        let mut i: usize = 0;
        while i < data.len()
            invariant
                i <= data@.len(),
                data@ == encode_utf8(self.args@),
                data@.len() <= 65535,
                length == data@.len(),
                bytes@ =~= seq![(length / 256) as u8, (length % 256) as u8, 1u8]
                    + data@.subrange(0, i as int),
            decreases data.len() - i,
        {
            bytes.push(*vstd::slice::slice_index_get(data, i));
            i = i + 1;
        }
        proof {
            assert(data@.subrange(0, data@.len() as int) =~= data@);
            assert(bytes@ =~= spec_message_bytes(self.args@));
        }
        bytes
    }

    /// Deserializes the message from bytes into the [`Message`].
    pub fn from_bytes(bytes: &[u8]) -> (r: Option<Self>)
        ensures
            match spec_message_from_bytes(bytes@) {
                Some(text) => r matches Some(m) && m.args@ == text,
                None => r is None,
            },
    {
        if bytes.len() < 4 {
            return None;
        }
        let b0 = *vstd::slice::slice_index_get(bytes, 0) as usize;
        let b1 = *vstd::slice::slice_index_get(bytes, 1) as usize;
        let b2 = *vstd::slice::slice_index_get(bytes, 2) as usize;
        let b3 = *vstd::slice::slice_index_get(bytes, 3) as usize;
        let length: usize = ((b0 * 256 + b1) * 256 + b2) * 256 + b3;
        if bytes.len() - 4 < length {
            return None;
        }
        let data = vstd::slice::slice_to_vec(&bytes[4..4 + length]);
        match crate::text::bytes_to_string(data) {
            Some(value) => Some(Self { args: value }),
            None => None,
        }
    }
}

} // verus!
