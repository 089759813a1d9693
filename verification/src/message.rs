//! The messages that peers exchange, and their bytes inside an envelope.
//!
//! A message is written as its variant as a number, 0 for a broadcast and 1
//! for a direct message, followed by its fields: a text as a byte string of
//! UTF-8, a public key as its 32 bytes, a sealed text as a byte string.

use crate::chars::text_from_bytes;
use crate::keys::{is_public_key, PublicKey, KEY_LEN};
use crate::wire::{
    append_bytes, bounded_varint_at, byte_string, byte_string_at, lemma_bounded_varint_round_trip,
    lemma_byte_string_round_trip, lemma_varint_at_taken, read_array_32,
    read_byte_string, read_varint, varint_bytes, write_byte_string, write_varint, VARINT_MAX_U32,
};
use vstd::prelude::*;
use vstd::slice::{slice_subrange, slice_to_vec};
use vstd::utf8::{decode_utf8, encode_utf8, valid_utf8};

verus! {

/// The number that stands for a broadcast on the wire.
pub const TAG_BROADCAST: u128 = 0;

/// The number that stands for a direct message on the wire.
pub const TAG_DIRECT: u128 = 1;

/// What one peer tells the others.
#[derive(Clone, Debug, PartialEq, Eq)]
pub enum Message {
    /// A text for every member of the topic.
    Broadcast { text: String },
    /// A text for one member: `ciphertext` is the text sealed by the sender
    /// for the public key `to`. Every member sees it pass; only `to` opens
    /// it.
    Direct { to: PublicKey, ciphertext: Vec<u8> },
}

/// A message as a mathematical value.
pub enum MessageModel {
    Broadcast { text: Seq<char> },
    Direct { to: Seq<u8>, ciphertext: Seq<u8> },
}

impl View for Message {
    type V = MessageModel;

    open spec fn view(&self) -> MessageModel {
        match self {
            Message::Broadcast { text } => MessageModel::Broadcast { text: text@ },
            Message::Direct { to, ciphertext } => MessageModel::Direct {
                to: to@,
                ciphertext: ciphertext@,
            },
        }
    }
}

impl MessageModel {
    /// What the model of every `Message` satisfies: a recipient is a public
    /// key, and the message is short enough for the length of its bytes to
    /// be written.
    pub open spec fn wf(self) -> bool {
        &&& message_bytes(self).len() <= u64::MAX
        &&& self matches MessageModel::Direct { to, .. } ==> to.len() == KEY_LEN && is_public_key(
            to,
        )
    }
}

/// The bytes that a message is written as.
pub open spec fn message_bytes(message: MessageModel) -> Seq<u8> {
    match message {
        MessageModel::Broadcast { text } => varint_bytes(TAG_BROADCAST as nat) + byte_string(
            encode_utf8(text),
        ),
        MessageModel::Direct { to, ciphertext } => varint_bytes(TAG_DIRECT as nat) + to
            + byte_string(ciphertext),
    }
}

/// The broadcast whose fields stand at the front of `body`.
pub open spec fn broadcast_at(body: Seq<u8>) -> Option<MessageModel> {
    match byte_string_at(body) {
        Some((raw, _)) => if valid_utf8(raw) {
            Some(MessageModel::Broadcast { text: decode_utf8(raw) })
        } else {
            None
        },
        None => None,
    }
}

/// The direct message whose fields stand at the front of `body`.
pub open spec fn direct_at(body: Seq<u8>) -> Option<MessageModel> {
    if body.len() < KEY_LEN || !is_public_key(body.take(KEY_LEN as int)) {
        None
    } else {
        match byte_string_at(body.skip(KEY_LEN as int)) {
            Some((ciphertext, _)) => Some(
                MessageModel::Direct { to: body.take(KEY_LEN as int), ciphertext },
            ),
            None => None,
        }
    }
}

/// The message that `bytes` begin with, if they begin with one. Bytes that
/// follow the message are not looked at.
pub open spec fn message_at(bytes: Seq<u8>) -> Option<MessageModel> {
    match bounded_varint_at(bytes, VARINT_MAX_U32 as nat, u32::MAX as nat) {
        Some((tag, taken)) => if tag == TAG_BROADCAST {
            broadcast_at(bytes.skip(taken as int))
        } else if tag == TAG_DIRECT {
            direct_at(bytes.skip(taken as int))
        } else {
            None
        },
        None => None,
    }
}

/// Reading a written message gives it back, whatever follows it.
pub proof fn lemma_message_round_trip(message: MessageModel, rest: Seq<u8>)
    requires
        message.wf(),
    ensures
        message_at(message_bytes(message) + rest) == Some(message),
{
    let all = message_bytes(message) + rest;
    match message {
        MessageModel::Broadcast { text } => {
            let tag = varint_bytes(TAG_BROADCAST as nat);
            let raw = encode_utf8(text);
            lemma_bounded_varint_round_trip(
                TAG_BROADCAST as nat,
                byte_string(raw) + rest,
                VARINT_MAX_U32 as nat,
                u32::MAX as nat,
            );
            assert(all.skip(tag.len() as int) =~= byte_string(raw) + rest);
            lemma_byte_string_round_trip(raw, rest);
            vstd::utf8::encode_utf8_valid_utf8(text);
            vstd::utf8::encode_utf8_decode_utf8(text);
        },
        MessageModel::Direct { to, ciphertext } => {
            let tag = varint_bytes(TAG_DIRECT as nat);
            lemma_bounded_varint_round_trip(
                TAG_DIRECT as nat,
                to + byte_string(ciphertext) + rest,
                VARINT_MAX_U32 as nat,
                u32::MAX as nat,
            );
            let body = all.skip(tag.len() as int);
            assert(body.take(KEY_LEN as int) =~= to);
            assert(body.skip(KEY_LEN as int) =~= byte_string(ciphertext) + rest);
            lemma_byte_string_round_trip(ciphertext, rest);
        },
    }
}

impl Message {
    /// The message's bytes for the wire.
    pub fn encode(&self) -> (bytes: Vec<u8>)
        ensures
            bytes@ == message_bytes(self@),
            self@.wf(),
    {
        let mut out: Vec<u8> = Vec::new();
        match self {
            Message::Broadcast { text } => {
                write_varint(&mut out, TAG_BROADCAST);
                write_byte_string(&mut out, text.as_str().as_bytes());
            },
            Message::Direct { to, ciphertext } => {
                write_varint(&mut out, TAG_DIRECT);
                append_bytes(&mut out, to.as_bytes());
                write_byte_string(&mut out, ciphertext.as_slice());
            },
        }
        let total: usize = out.len();
        assert(message_bytes(self@).len() == total);
        out
    }

    /// Reads the message that `bytes` begin with; `None` where they do not
    /// begin with one.
    pub fn decode(bytes: &[u8]) -> (message: Option<Message>)
        ensures
            match message_at(bytes@) {
                Some(model) => message matches Some(m) && m@ == model,
                None => message is None,
            },
    {
        proof {
            assert(bytes@.skip(0) =~= bytes@);
            lemma_varint_at_taken(bytes@, VARINT_MAX_U32 as nat);
        }
        let (tag, body) = match read_varint(bytes, 0, VARINT_MAX_U32, u32::MAX as u128) {
            Some(found) => found,
            None => { return None; },
        };
        let ghost rest = bytes@.skip(body as int);
        if tag == TAG_BROADCAST {
            let (begin, end) = match read_byte_string(bytes, body) {
                Some(found) => found,
                None => { return None; },
            };
            match text_from_bytes(slice_subrange(bytes, begin, end)) {
                Some(text) => Some(Message::Broadcast { text }),
                None => None,
            }
        } else if tag == TAG_DIRECT {
            if bytes.len() - body < KEY_LEN {
                return None;
            }
            let raw = read_array_32(bytes, body);
            proof {
                assert(rest.take(KEY_LEN as int) =~= raw@);
                assert(rest.skip(KEY_LEN as int) =~= bytes@.skip(body + KEY_LEN));
            }
            let to = match PublicKey::from_bytes(&raw) {
                Some(key) => key,
                None => { return None; },
            };
            let (begin, end) = match read_byte_string(bytes, body + KEY_LEN) {
                Some(found) => found,
                None => { return None; },
            };
            let ciphertext = slice_to_vec(slice_subrange(bytes, begin, end));
            Some(Message::Direct { to, ciphertext })
        } else {
            None
        }
    }
}

} // verus!
