//! The session loop's decisions.
//!
//! The loop has two sources, the overlay's event stream and the operator's
//! input. Whoever runs it waits for them, hands each event to `Session::step`
//! and carries out the action that comes back. The session ends with the
//! first source that ends.

use crate::chars::text_from_bytes;
use crate::command::{
    announces, is_marked, law_direct_line, marker, parse_as_command, parsed_line,
    CommandParseError,
};
use crate::envelope::{envelope_at, verified_message, EnvelopeError, SignedMessage};
use crate::keys::{is_text_of, signature_verifies, Identity, PublicKey};
use crate::message::{Message, MessageModel};
use crate::sealing::{open, open_outcome, DecryptionFailed, MAX_PLAINTEXT_LEN};
use crate::text::{broadcast_line, direct_line, format_broadcast, format_direct};
use vstd::prelude::*;
use vstd::utf8::{decode_utf8, encode_utf8, valid_utf8};

verus! {

/// One of the loop's two sources of events.
#[derive(Clone, Copy, Debug, PartialEq, Eq)]
pub enum Source {
    /// The overlay's event stream.
    Overlay,
    /// The operator's input.
    Input,
}

/// What one of the sources delivered, or what became of a send.
#[derive(Clone, Debug, PartialEq, Eq)]
pub enum Event {
    /// The overlay delivered these bytes.
    Received(Vec<u8>),
    /// The overlay reported something else: a change of membership, or
    /// events that were missed.
    Notice,
    /// The overlay's event stream ended.
    OverlayClosed,
    /// The operator typed this line.
    Line(String),
    /// The operator's input ended.
    InputClosed,
    /// The overlay did not take a broadcast: it is closed or out of reach.
    OverlayFailed,
}

/// The overlay did not take a broadcast: it is closed or out of reach.
#[derive(Clone, Copy, Debug, PartialEq, Eq)]
pub struct OverlayError;

/// Why something was put aside. The loop goes on.
#[derive(Clone, Copy, Debug, PartialEq, Eq)]
pub enum Warning {
    /// Received bytes were not accepted as a message.
    Envelope(EnvelopeError),
    /// A direct message for this peer could not be opened.
    Decryption(DecryptionFailed),
    /// A direct message for this peer opened to bytes that are no text.
    NotText,
    /// A line of input was no command.
    Command(CommandParseError),
}

/// What the loop's runner is to do.
#[derive(Clone, Debug, PartialEq, Eq)]
pub enum Action {
    /// Show this line to the operator.
    Print(String),
    /// Hand these bytes to the overlay's broadcast.
    Broadcast(Vec<u8>),
    /// Log the warning.
    Warn(Warning),
    /// Log that the overlay reported something.
    Note,
    /// Nothing.
    Nothing,
    /// Leave the loop: a source has ended.
    Stop,
    /// Leave the loop and report that the overlay failed.
    Fail(OverlayError),
}

/// An action as a mathematical value.
pub enum ActionModel {
    Print(Seq<char>),
    Broadcast(Seq<u8>),
    Warn(Warning),
    Note,
    Nothing,
    Stop,
    Fail(OverlayError),
}

impl View for Action {
    type V = ActionModel;

    open spec fn view(&self) -> ActionModel {
        match self {
            Action::Print(line) => ActionModel::Print(line@),
            Action::Broadcast(bytes) => ActionModel::Broadcast(bytes@),
            Action::Warn(warning) => ActionModel::Warn(*warning),
            Action::Note => ActionModel::Note,
            Action::Nothing => ActionModel::Nothing,
            Action::Stop => ActionModel::Stop,
            Action::Fail(error) => ActionModel::Fail(*error),
        }
    }
}

/// An event as a mathematical value.
pub enum EventModel {
    Received(Seq<u8>),
    Notice,
    OverlayClosed,
    Line(Seq<char>),
    InputClosed,
    OverlayFailed,
}

impl View for Event {
    type V = EventModel;

    open spec fn view(&self) -> EventModel {
        match self {
            Event::Received(bytes) => EventModel::Received(bytes@),
            Event::Notice => EventModel::Notice,
            Event::OverlayClosed => EventModel::OverlayClosed,
            Event::Line(line) => EventModel::Line(line@),
            Event::InputClosed => EventModel::InputClosed,
            Event::OverlayFailed => EventModel::OverlayFailed,
        }
    }
}

/// The source that an event came from; none for the outcome of a send.
pub open spec fn source_of(event: EventModel) -> Option<Source> {
    match event {
        EventModel::Received(_) | EventModel::Notice | EventModel::OverlayClosed => Some(
            Source::Overlay,
        ),
        EventModel::Line(_) | EventModel::InputClosed => Some(Source::Input),
        EventModel::OverlayFailed => None,
    }
}

/// Whether an event ends the session.
pub open spec fn ends_session(event: EventModel) -> bool {
    event is OverlayClosed || event is InputClosed || event is OverlayFailed
}

/// What the holder of `me` does with `message` from `from`: a broadcast is
/// shown; a direct message for another peer is passed over, unopened; a
/// direct message for `me` is opened and shown, or put aside with a warning.
pub open spec fn reaction(me: Identity, from: Seq<u8>, message: MessageModel) -> ActionModel {
    match message {
        MessageModel::Broadcast { text } => ActionModel::Print(broadcast_line(from, text)),
        MessageModel::Direct { to, ciphertext } => if to != me.public_key()@ {
            ActionModel::Nothing
        } else {
            match open_outcome(me.secret(), from, ciphertext) {
                None => ActionModel::Warn(Warning::Decryption(DecryptionFailed)),
                Some(plain) => if valid_utf8(plain) {
                    ActionModel::Print(direct_line(from, decode_utf8(plain)))
                } else {
                    ActionModel::Warn(Warning::NotText)
                },
            }
        },
    }
}

/// What the holder of `me` does with bytes that the overlay delivered:
/// nothing of them is acted upon unless they verify.
pub open spec fn reception(me: Identity, bytes: Seq<u8>) -> ActionModel {
    match verified_message(bytes) {
        Ok((from, message)) => reaction(me, from, message),
        Err(reason) => ActionModel::Warn(Warning::Envelope(reason)),
    }
}

/// Whether `action` answers a line of input from the holder of `me`.
pub open spec fn answers_line(me: Identity, line: Seq<char>, action: ActionModel) -> bool {
    match parsed_line(line) {
        Err(reason) => action == ActionModel::Warn(Warning::Command(reason)),
        Ok(command) => match action {
            ActionModel::Nothing => announces(me.public_key()@, command, None),
            ActionModel::Broadcast(bytes) => announces(me.public_key()@, command, Some(bytes)),
            _ => false,
        },
    }
}

/// Whether `action` answers `event` in a running session of `me`.
pub open spec fn answers(me: Identity, event: EventModel, action: ActionModel) -> bool {
    match event {
        EventModel::Received(bytes) => action == reception(me, bytes),
        EventModel::Notice => action == ActionModel::Note,
        EventModel::OverlayClosed => action == ActionModel::Stop,
        EventModel::Line(line) => answers_line(me, line, action),
        EventModel::InputClosed => action == ActionModel::Stop,
        EventModel::OverlayFailed => action == ActionModel::Fail(OverlayError),
    }
}

/// Which source is served next, given which of them have an event ready:
/// the one that is ready, and of two that are ready the one that was not
/// served last.
pub open spec fn chosen(last: Option<Source>, overlay_ready: bool, input_ready: bool) -> Option<
    Source,
> {
    if overlay_ready && input_ready {
        if last == Some(Source::Overlay) {
            Some(Source::Input)
        } else {
            Some(Source::Overlay)
        }
    } else if overlay_ready {
        Some(Source::Overlay)
    } else if input_ready {
        Some(Source::Input)
    } else {
        None
    }
}

/// Shows what `identity` makes of `message` from `from`.
pub fn handle_event(from: &PublicKey, identity: &Identity, message: Message) -> (action: Action)
    ensures
        action@ == reaction(*identity, from@, message@),
        message@ matches MessageModel::Direct { to, .. } && to != identity.public_key()@
            ==> action@ == ActionModel::Nothing,
{
    match message {
        Message::Broadcast { text } => Action::Print(format_broadcast(from, text.as_str())),
        Message::Direct { to, ciphertext } => {
            if !to.same_as(&identity.public()) {
                return Action::Nothing;
            }
            let plain = match open(identity, from, ciphertext.as_slice()) {
                Ok(plain) => plain,
                Err(failed) => { return Action::Warn(Warning::Decryption(failed)); },
            };
            match text_from_bytes(plain.as_slice()) {
                Some(text) => Action::Print(format_direct(from, text.as_str())),
                None => Action::Warn(Warning::NotText),
            }
        },
    }
}

/// Judges bytes that the overlay delivered and shows what `identity` makes
/// of them.
pub fn handle_received(identity: &Identity, bytes: &[u8]) -> (action: Action)
    ensures
        action@ == reception(*identity, bytes@),
{
    match SignedMessage::verify_and_decode(bytes) {
        Ok((from, message)) => handle_event(&from, identity, message),
        Err(reason) => Action::Warn(Warning::Envelope(reason)),
    }
}

/// A session of one identity on one topic.
pub struct Session {
    identity: Identity,
    last: Option<Source>,
    running: bool,
}

impl Session {
    /// The identity that signs and opens in this session.
    pub closed spec fn identity(&self) -> Identity {
        self.identity
    }

    /// The source that was served last.
    pub closed spec fn last(&self) -> Option<Source> {
        self.last
    }

    /// Whether no source has ended yet.
    pub closed spec fn running(&self) -> bool {
        self.running
    }

    /// A running session of `identity` in which no source was served yet.
    pub fn new(identity: Identity) -> (session: Session)
        ensures
            session.identity() == identity,
            session.last() is None,
            session.running(),
    {
        Session { identity, last: None, running: true }
    }

    /// Whether the loop is to go on.
    pub fn is_running(&self) -> (running: bool)
        ensures
            running == self.running(),
    {
        self.running
    }

    /// Which source to serve next, given which of them have an event ready.
    pub fn choose_source(&self, overlay_ready: bool, input_ready: bool) -> (source: Option<Source>)
        ensures
            source == chosen(self.last(), overlay_ready, input_ready),
    {
        if overlay_ready && input_ready {
            match self.last {
                Some(Source::Overlay) => Some(Source::Input),
                _ => Some(Source::Overlay),
            }
        } else if overlay_ready {
            Some(Source::Overlay)
        } else if input_ready {
            Some(Source::Input)
        } else {
            None
        }
    }

    /// Takes one event and says what to do. A session that has ended
    /// answers `Stop` to everything. A running session answers as `answers`
    /// says, remembers the event's source, and ends with the event that
    /// ends a source.
    pub fn step(&mut self, event: Event) -> (action: Action)
        requires
            event matches Event::Line(line) ==> encode_utf8(line@).len() <= MAX_PLAINTEXT_LEN,
        ensures
            final(self).identity() == old(self).identity(),
            !old(self).running() ==> action@ == ActionModel::Stop && final(self).last() == old(
                self,
            ).last() && !final(self).running(),
            old(self).running() ==> answers(old(self).identity(), event@, action@),
            old(self).running() ==> final(self).running() == !ends_session(event@),
            old(self).running() ==> final(self).last() == match source_of(event@) {
                Some(source) => Some(source),
                None => old(self).last(),
            },
    {
        if !self.running {
            return Action::Stop;
        }
        match event {
            Event::Received(bytes) => {
                self.last = Some(Source::Overlay);
                handle_received(&self.identity, bytes.as_slice())
            },
            Event::Notice => {
                self.last = Some(Source::Overlay);
                Action::Note
            },
            Event::OverlayClosed => {
                self.last = Some(Source::Overlay);
                self.running = false;
                Action::Stop
            },
            Event::Line(line) => {
                self.last = Some(Source::Input);
                match parse_as_command(line.as_str(), &self.identity) {
                    Ok(Some(bytes)) => Action::Broadcast(bytes),
                    Ok(None) => Action::Nothing,
                    Err(reason) => Action::Warn(Warning::Command(reason)),
                }
            },
            Event::InputClosed => {
                self.last = Some(Source::Input);
                self.running = false;
                Action::Stop
            },
            Event::OverlayFailed => {
                self.running = false;
                Action::Fail(OverlayError)
            },
        }
    }
}

/// A broadcast is shown by every peer: what a running session of `sender`
/// answers to a line that is not empty and not marked is a broadcast of
/// bytes that any `receiver` shows as that line from `sender`.
pub proof fn law_broadcast_is_shown(
    sender: Identity,
    receiver: Identity,
    line: Seq<char>,
    action: ActionModel,
)
    requires
        line.len() > 0,
        !is_marked(line),
        answers(sender, EventModel::Line(line), action),
    ensures
        action matches ActionModel::Broadcast(bytes) && reception(receiver, bytes)
            == ActionModel::Print(broadcast_line(sender.public_key()@, line)),
{
}

/// A direct message is shown by its recipient and by no one else: what a
/// running session of `sender` answers to the marker, the text of
/// `recipient`'s public key, a space and a text is a broadcast of bytes
/// that `recipient` shows as that text from `sender`, and that a peer with
/// another key passes over.
pub proof fn law_direct_message_is_shown_to_its_recipient_only(
    sender: Identity,
    recipient: Identity,
    other: Identity,
    typed: Seq<char>,
    text: Seq<char>,
    action: ActionModel,
)
    requires
        recipient.wf(),
        is_text_of(typed, recipient.public_key()@),
        text.len() > 0,
        encode_utf8(text).len() <= MAX_PLAINTEXT_LEN,
        other.public_key()@ != recipient.public_key()@,
        answers(sender, EventModel::Line(marker() + typed + seq![' '] + text), action),
    ensures
        action matches ActionModel::Broadcast(bytes) && reception(recipient, bytes)
            == ActionModel::Print(direct_line(sender.public_key()@, text)) && reception(
            other,
            bytes,
        ) == ActionModel::Nothing,
{
    law_direct_line(typed, text);
    vstd::utf8::encode_utf8_valid_utf8(text);
    vstd::utf8::encode_utf8_decode_utf8(text);
}

/// Nothing is shown that was not verified: where received bytes lead to a
/// printed line, they are an envelope whose signature verifies its payload
/// under its sender's key.
pub proof fn law_only_verified_is_shown(me: Identity, bytes: Seq<u8>)
    requires
        reception(me, bytes) is Print,
    ensures
        envelope_at(bytes) matches Some(envelope) && signature_verifies(
            envelope.from,
            envelope.data,
            envelope.signature,
        ),
{
}

/// Fairness: while both sources have an event ready, neither is served twice
/// in a row, so each is served within two turns. `last` is the source that
/// a running session remembers, `first` and `second` are the events of two
/// turns in which the session chose between two ready sources.
pub proof fn law_both_sources_are_served(
    last: Option<Source>,
    first: EventModel,
    second: EventModel,
)
    requires
        source_of(first) == chosen(last, true, true),
        source_of(second) == chosen(source_of(first), true, true),
    ensures
        source_of(first) is Some,
        source_of(second) is Some,
        source_of(first) != source_of(second),
{
}

/// A source that alone has an event ready is served at once.
pub proof fn law_ready_source_is_served(last: Option<Source>)
    ensures
        chosen(last, true, false) == Some(Source::Overlay),
        chosen(last, false, true) == Some(Source::Input),
        chosen(last, false, false) is None,
{
}

} // verus!
