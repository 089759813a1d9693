//! What a line of operator input asks for.
//!
//! An empty line asks for nothing. A line that begins with `/for ` names a
//! recipient by the text of its public key and, behind one space, the text
//! to seal for it. Every other line is a text for everyone.

use crate::chars::{
    first_space, is_first_space_byte, is_word, lemma_bytes_around_space, lemma_bytes_concat,
    lemma_char_bytes, lemma_first_space_agrees, lemma_first_space_in_range, lemma_narrow_front,
    lemma_no_space, lemma_same_bytes_same_text, SPACE,
};
use crate::envelope::{verified_message, EnvelopeError, SignedMessage};
use crate::keys::{public_key_from_text, Identity, PublicKey};
use crate::message::{Message, MessageModel};
use crate::sealing::{is_sealed_for, seal, MAX_PLAINTEXT_LEN};
use vstd::prelude::*;
use vstd::string::StringSliceAdditionalSpecFns;
use vstd::utf8::{
    encode_utf8, is_char_boundary, length_of_first_scalar, pop_first_scalar, valid_utf8,
};

verus! {

/// The length of the marker `/for `.
pub const MARKER_LEN: usize = 5;

/// The marker `/for `, which opens a direct message.
pub open spec fn marker() -> Seq<char> {
    seq!['/', 'f', 'o', 'r', ' ']
}

/// Whether a line begins with the marker.
pub open spec fn is_marked(line: Seq<char>) -> bool {
    line.len() >= MARKER_LEN && line.take(MARKER_LEN as int) == marker()
}

/// Why a line that begins with the marker is no direct message.
#[derive(Clone, Copy, Debug, PartialEq, Eq)]
pub enum CommandParseError {
    /// Nothing stands between the marker and the next space or the line's
    /// end.
    MissingRecipient,
    /// The recipient is not followed by a space and a text.
    MissingText,
    /// The recipient is not the text of a public key.
    InvalidRecipient,
}

/// What a line asks for.
#[derive(Clone, Debug, PartialEq, Eq)]
pub enum Command {
    /// Nothing: the line is empty.
    Nothing,
    /// Send `text` to everyone.
    Broadcast { text: String },
    /// Seal `text` for `to` and send it.
    Direct { to: PublicKey, text: String },
}

/// A command as a mathematical value.
pub enum CommandModel {
    Nothing,
    Broadcast { text: Seq<char> },
    Direct { to: Seq<u8>, text: Seq<char> },
}

impl View for Command {
    type V = CommandModel;

    open spec fn view(&self) -> CommandModel {
        match self {
            Command::Nothing => CommandModel::Nothing,
            Command::Broadcast { text } => CommandModel::Broadcast { text: text@ },
            Command::Direct { to, text } => CommandModel::Direct { to: to@, text: text@ },
        }
    }
}

/// What the rest of a line asks for, behind the marker: the recipient
/// stands before the first space, the text behind it.
pub open spec fn parsed_direct(rest: Seq<char>) -> Result<CommandModel, CommandParseError> {
    match first_space(rest) {
        None => if rest.len() == 0 {
            Err(CommandParseError::MissingRecipient)
        } else {
            Err(CommandParseError::MissingText)
        },
        Some(at) => if at == 0 {
            Err(CommandParseError::MissingRecipient)
        } else if at + 1 == rest.len() {
            Err(CommandParseError::MissingText)
        } else {
            match public_key_from_text(rest.take(at)) {
                Some(to) => Ok(CommandModel::Direct { to, text: rest.skip(at + 1) }),
                None => Err(CommandParseError::InvalidRecipient),
            }
        },
    }
}

/// What a line asks for.
pub open spec fn parsed_line(line: Seq<char>) -> Result<CommandModel, CommandParseError> {
    if line.len() == 0 {
        Ok(CommandModel::Nothing)
    } else if is_marked(line) {
        parsed_direct(line.skip(MARKER_LEN as int))
    } else {
        Ok(CommandModel::Broadcast { text: line })
    }
}

/// Where no space stands in `head`, the first space of `head`, a space and
/// `tail` in a row is the one between them.
proof fn lemma_first_space_between(head: Seq<char>, tail: Seq<char>)
    requires
        first_space(head) is None,
    ensures
        first_space(head + seq![' '] + tail) == Some(head.len() as int),
    decreases head.len(),
{
    if head.len() > 0 {
        let all = head + seq![' '] + tail;
        assert(all.drop_first() =~= head.drop_first() + seq![' '] + tail);
        lemma_first_space_between(head.drop_first(), tail);
    }
}

/// The form of a direct message: the marker, a recipient of one word, one
/// space, and a text, in a row, ask for the text to be sealed for the key
/// that the recipient is the text of, and are an error where it is the text
/// of none.
pub proof fn law_direct_line(recipient: Seq<char>, text: Seq<char>)
    requires
        is_word(recipient),
        text.len() > 0,
    ensures
        parsed_line(marker() + recipient + seq![' '] + text) == match public_key_from_text(
            recipient,
        ) {
            Some(to) => Ok::<CommandModel, CommandParseError>(CommandModel::Direct { to, text }),
            None => Err::<CommandModel, CommandParseError>(CommandParseError::InvalidRecipient),
        },
{
    let line = marker() + recipient + seq![' '] + text;
    let rest = recipient + seq![' '] + text;
    assert(line.take(MARKER_LEN as int) =~= marker());
    assert(line.skip(MARKER_LEN as int) =~= rest);
    lemma_no_space(recipient);
    lemma_first_space_between(recipient, text);
    assert(rest.take(recipient.len() as int) =~= recipient);
    assert(rest.skip(recipient.len() as int + 1) =~= text);
}

/// The bytes of the marker.
spec fn marker_bytes() -> Seq<u8> {
    seq![0x2f, 0x66, 0x6f, 0x72, 0x20]
}

/// The marker's bytes are its five characters, one byte each.
proof fn lemma_marker_bytes()
    ensures
        encode_utf8(marker()) == marker_bytes(),
{
    let text = marker();
    let behind_1 = text.drop_first();
    let behind_2 = behind_1.drop_first();
    let behind_3 = behind_2.drop_first();
    let behind_4 = behind_3.drop_first();
    lemma_char_bytes('/');
    lemma_char_bytes('f');
    lemma_char_bytes('o');
    lemma_char_bytes('r');
    lemma_char_bytes(' ');
    assert(encode_utf8(behind_4.drop_first()) =~= Seq::<u8>::empty());
    assert(encode_utf8(behind_4) =~= seq![0x20u8]);
    assert(encode_utf8(behind_3) =~= seq![0x72u8, 0x20u8]);
    assert(encode_utf8(behind_2) =~= seq![0x6fu8, 0x72u8, 0x20u8]);
    assert(encode_utf8(behind_1) =~= seq![0x66u8, 0x6fu8, 0x72u8, 0x20u8]);
}

/// A line begins with the marker exactly if its bytes begin with the
/// marker's bytes, and the bytes behind them are those of the rest.
proof fn lemma_marked(line: Seq<char>)
    ensures
        is_marked(line) <==> encode_utf8(line).len() >= MARKER_LEN && encode_utf8(line).take(
            MARKER_LEN as int,
        ) == marker_bytes(),
        is_marked(line) ==> encode_utf8(line).skip(MARKER_LEN as int) == encode_utf8(
            line.skip(MARKER_LEN as int),
        ),
{
    let bytes = encode_utf8(line);
    lemma_marker_bytes();
    if is_marked(line) {
        let rest = line.skip(MARKER_LEN as int);
        assert(line =~= marker() + rest);
        lemma_bytes_concat(marker(), rest);
        assert(bytes.take(MARKER_LEN as int) =~= marker_bytes());
    }
    if bytes.len() >= MARKER_LEN && bytes.take(MARKER_LEN as int) == marker_bytes() {
        assert forall|k: int| 0 <= k < MARKER_LEN implies bytes[k] < 0x80 by {
            assert(bytes[k] == bytes.take(MARKER_LEN as int)[k]);
        }
        lemma_narrow_front(line, MARKER_LEN as int);
        assert forall|k: int| 0 <= k < MARKER_LEN implies line[k] == marker()[k] by {
            vstd::utf8::char_u32_cast(line[k], line[k] as u32);
        }
        assert(line.take(MARKER_LEN as int) =~= marker());
    }
}

/// In UTF-8, a character ends behind every byte below 128.
proof fn lemma_boundary_behind_ascii(bytes: Seq<u8>, at: int)
    requires
        valid_utf8(bytes),
        0 <= at < bytes.len(),
        bytes[at] < 0x80,
    ensures
        is_char_boundary(bytes, at + 1),
    decreases bytes.len(),
{
    reveal_with_fuel(is_char_boundary, 2);
    let width = length_of_first_scalar(bytes);
    if at >= width {
        let tail = pop_first_scalar(bytes);
        lemma_boundary_behind_ascii(tail, at - width);
    }
}

/// The position of the first space at or behind `from`, or the length of
/// `bytes` where there is none.
fn find_space(bytes: &[u8], from: usize) -> (at: usize)
    requires
        from <= bytes@.len(),
    ensures
        from <= at <= bytes@.len(),
        is_first_space_byte(bytes@.skip(from as int), at - from),
{
    let mut at: usize = from;
    while at < bytes.len() && bytes[at] != SPACE
        invariant
            from <= at <= bytes@.len(),
            forall|k: int| from <= k < at ==> bytes@[k] != SPACE,
        decreases bytes@.len() - at,
    {
        at = at + 1;
    }
    at
}

/// Whether `bytes` begin with the marker's bytes.
fn has_marker(bytes: &[u8]) -> (marked: bool)
    ensures
        marked == (bytes@.len() >= MARKER_LEN && bytes@.take(MARKER_LEN as int) == marker_bytes()),
{
    if bytes.len() < MARKER_LEN {
        return false;
    }
    let marked = bytes[0] == 0x2f && bytes[1] == 0x66 && bytes[2] == 0x6f && bytes[3] == 0x72
        && bytes[4] == 0x20;
    proof {
        let head = bytes@.take(MARKER_LEN as int);
        if marked {
            assert(head =~= marker_bytes());
        } else {
            assert(head[0] == bytes@[0] && head[1] == bytes@[1] && head[2] == bytes@[2] && head[3]
                == bytes@[3] && head[4] == bytes@[4]);
        }
    }
    marked
}

/// Reads what `line` asks for.
pub fn parse_line(line: &str) -> (parsed: Result<Command, CommandParseError>)
    ensures
        match parsed_line(line@) {
            Ok(command) => parsed matches Ok(c) && c@ == command,
            Err(reason) => parsed matches Err(e) && e == reason,
        },
{
    let bytes = line.as_bytes();
    let ghost all = encode_utf8(line@);
    proof {
        lemma_marked(line@);
    }
    if bytes.len() == 0 {
        return Ok(Command::Nothing);
    }
    if !has_marker(bytes) {
        return Ok(Command::Broadcast { text: line.to_owned() });
    }
    let ghost rest = line@.skip(MARKER_LEN as int);
    let ghost rest_bytes = all.skip(MARKER_LEN as int);
    let space = find_space(bytes, MARKER_LEN);
    // The first space byte is the first space.
    proof {
        lemma_first_space_agrees(rest, space - MARKER_LEN);
        if let Some(at) = first_space(rest) {
            lemma_bytes_around_space(rest, at);
        }
    }
    if space == MARKER_LEN {
        return Err(CommandParseError::MissingRecipient);
    }
    if space >= bytes.len() - 1 {
        return Err(CommandParseError::MissingText);
    }
    let ghost at = first_space(rest).unwrap();
    // The line is cut behind the marker, before the space and behind it:
    // each cut stands beside a byte below 128, where a character ends.
    proof {
        vstd::utf8::encode_utf8_valid_utf8(line@);
        lemma_boundary_behind_ascii(all, 4);
    }
    let (_, behind_marker) = line.split_at(MARKER_LEN);
    proof {
        vstd::utf8::valid_utf8_split(all, MARKER_LEN as int);
        vstd::utf8::is_char_boundary_iff_not_is_continuation_byte(rest_bytes, space - MARKER_LEN);
    }
    let (recipient, separated) = behind_marker.split_at(space - MARKER_LEN);
    proof {
        vstd::utf8::valid_utf8_split(rest_bytes, space - MARKER_LEN);
        lemma_boundary_behind_ascii(separated.spec_bytes(), 0);
        assert(recipient.spec_bytes() =~= encode_utf8(rest.take(at)));
        lemma_same_bytes_same_text(recipient@, rest.take(at));
    }
    let (_, text) = separated.split_at(1);
    proof {
        assert(text.spec_bytes() =~= encode_utf8(rest.skip(at + 1)));
        lemma_same_bytes_same_text(text@, rest.skip(at + 1));
    }
    match PublicKey::from_text(recipient) {
        Some(to) => Ok(Command::Direct { to, text: text.to_owned() }),
        None => Err(CommandParseError::InvalidRecipient),
    }
}

/// `message` is what `command` becomes when the holder of the public key
/// `sender` sends it: nothing, the text as it is, or the text sealed for the
/// recipient.
pub open spec fn composes(sender: Seq<u8>, command: CommandModel, message: Option<MessageModel>)
    -> bool {
    match command {
        CommandModel::Nothing => message is None,
        CommandModel::Broadcast { text } => message == Some(MessageModel::Broadcast { text }),
        CommandModel::Direct { to, text } => message matches Some(
            MessageModel::Direct { to: recipient, ciphertext },
        ) && recipient == to && is_sealed_for(ciphertext, sender, to, encode_utf8(text)),
    }
}

/// `sent` is what goes to the overlay for `command`: nothing, or bytes that
/// every peer receives as the command's message from `sender`.
pub open spec fn announces(sender: Seq<u8>, command: CommandModel, sent: Option<Seq<u8>>) -> bool {
    match sent {
        None => command is Nothing,
        Some(bytes) => exists|message: MessageModel|
            composes(sender, command, Some(message)) && #[trigger] verified_message(bytes) == Ok::<
                (Seq<u8>, MessageModel),
                EnvelopeError,
            >((sender, message)),
    }
}

/// Makes the message that `command` asks for, sealing the text of a direct
/// message for its recipient.
pub fn compose(identity: &Identity, command: Command) -> (message: Option<Message>)
    requires
        command matches Command::Direct { text, .. } ==> encode_utf8(text@).len()
            <= MAX_PLAINTEXT_LEN,
    ensures
        match message {
            Some(m) => composes(identity.public_key()@, command@, Some(m@)),
            None => composes(identity.public_key()@, command@, None),
        },
{
    match command {
        Command::Nothing => None,
        Command::Broadcast { text } => Some(Message::Broadcast { text }),
        Command::Direct { to, text } => {
            let ciphertext = seal(identity, &to, text.as_str().as_bytes());
            Some(Message::Direct { to, ciphertext })
        },
    }
}

/// Reads `text` as a command and makes of it what goes to the overlay: the
/// signed envelope of the message that the line asks for, or nothing for an
/// empty line.
pub fn parse_as_command(text: &str, identity: &Identity) -> (sent: Result<
    Option<Vec<u8>>,
    CommandParseError,
>)
    requires
        encode_utf8(text@).len() <= MAX_PLAINTEXT_LEN,
    ensures
        match parsed_line(text@) {
            Ok(command) => match sent {
                Ok(Some(bytes)) => announces(identity.public_key()@, command, Some(bytes@)),
                Ok(None) => announces(identity.public_key()@, command, None),
                Err(_) => false,
            },
            Err(reason) => sent matches Err(e) && e == reason,
        },
{
    let command = match parse_line(text) {
        Ok(command) => command,
        Err(reason) => { return Err(reason); },
    };
    let ghost asked = command@;
    proof {
        if let CommandModel::Direct { text: sealed, .. } = asked {
            let rest = text@.skip(MARKER_LEN as int);
            let at = first_space(rest).unwrap();
            lemma_first_space_in_range(rest);
            lemma_marked(text@);
            lemma_bytes_around_space(rest, at);
            assert(encode_utf8(rest).len() == encode_utf8(rest.take(at)).len() + 1 + encode_utf8(
                sealed,
            ).len());
        }
    }
    match compose(identity, command) {
        Some(message) => {
            let bytes = SignedMessage::sign_and_encode(identity, &message);
            Ok(Some(bytes))
        },
        None => Ok(None),
    }
}

} // verus!
