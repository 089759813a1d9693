//! The signed envelope: the unit that is handed to the overlay and comes
//! back from it.
//!
//! An envelope carries the sender's public key, the bytes of one message,
//! the sender's signature on those bytes, and a number drawn at random for
//! each envelope. On the wire these stand in that order: 32 bytes, a byte
//! string, 64 bytes, a variable-length integer. That is the layout which
//! postcard gives a struct of these four fields, so envelopes written with
//! serde and postcard are read here, and the other way round. Nothing of an
//! envelope is read as a message before the signature has verified.

use crate::keys::{
    is_public_key, signature_of, signature_verifies, Identity, PublicKey, Signature, KEY_LEN,
    SIGNATURE_LEN,
};
use crate::message::{lemma_message_round_trip, message_at, message_bytes, Message, MessageModel};
use crate::wire::{
    append_bytes, bounded_varint_at, byte_string, byte_string_at, lemma_bounded_varint_round_trip,
    lemma_byte_string_round_trip, lemma_varint_bytes_fit, read_array_32, read_array_64,
    read_byte_string, read_varint, varint_bytes, write_byte_string, write_varint,
    VARINT_MAX_U128,
};
use rand::Rng;
use vstd::prelude::*;
use vstd::slice::{slice_subrange, slice_to_vec};

verus! {

/// Why received bytes were not accepted as a message.
#[derive(Clone, Copy, Debug, PartialEq, Eq)]
pub enum EnvelopeError {
    /// The bytes are not an envelope.
    MalformedEnvelope,
    /// The envelope's signature is not the sender's signature on its payload.
    InvalidSignature,
    /// The signed payload is not a message.
    MalformedPayload,
}

/// A message's bytes with their author's key and signature.
#[derive(Clone, Debug, PartialEq, Eq)]
pub struct SignedMessage {
    /// The author.
    pub from: PublicKey,
    /// The bytes of the message.
    pub data: Vec<u8>,
    /// The author's signature on `data`.
    pub signature: Signature,
    /// A number drawn for this envelope. It is carried and not signed, and
    /// nothing is decided by it.
    pub uid: u128,
}

/// An envelope as a mathematical value.
pub struct EnvelopeModel {
    pub from: Seq<u8>,
    pub data: Seq<u8>,
    pub signature: Seq<u8>,
    pub uid: u128,
}

impl View for SignedMessage {
    type V = EnvelopeModel;

    open spec fn view(&self) -> EnvelopeModel {
        EnvelopeModel {
            from: self.from@,
            data: self.data@,
            signature: self.signature@,
            uid: self.uid,
        }
    }
}

impl EnvelopeModel {
    /// What the model of every `SignedMessage` satisfies: the sender is a
    /// public key, the signature has a signature's length, and the payload is
    /// short enough for its length to be written.
    pub open spec fn wf(self) -> bool {
        &&& self.from.len() == KEY_LEN
        &&& is_public_key(self.from)
        &&& self.data.len() <= u64::MAX
        &&& self.signature.len() == SIGNATURE_LEN
    }
}

/// The bytes that an envelope is written as.
pub open spec fn envelope_bytes(envelope: EnvelopeModel) -> Seq<u8> {
    envelope.from + byte_string(envelope.data) + envelope.signature + varint_bytes(
        envelope.uid as nat,
    )
}

/// The signature and the number that stand at the front of `tail`, behind an
/// envelope's sender and payload.
pub open spec fn envelope_tail_at(from: Seq<u8>, data: Seq<u8>, tail: Seq<u8>) -> Option<
    EnvelopeModel,
> {
    if tail.len() < SIGNATURE_LEN {
        None
    } else {
        match bounded_varint_at(
            tail.skip(SIGNATURE_LEN as int),
            VARINT_MAX_U128 as nat,
            u128::MAX as nat,
        ) {
            Some((uid, _)) => Some(
                EnvelopeModel {
                    from,
                    data,
                    signature: tail.take(SIGNATURE_LEN as int),
                    uid: uid as u128,
                },
            ),
            None => None,
        }
    }
}

/// The envelope that `bytes` begin with, if they begin with one. Bytes that
/// follow the envelope are not looked at.
pub open spec fn envelope_at(bytes: Seq<u8>) -> Option<EnvelopeModel> {
    if bytes.len() < KEY_LEN || !is_public_key(bytes.take(KEY_LEN as int)) {
        None
    } else {
        match byte_string_at(bytes.skip(KEY_LEN as int)) {
            Some((data, taken)) => envelope_tail_at(
                bytes.take(KEY_LEN as int),
                data,
                bytes.skip(KEY_LEN + taken),
            ),
            None => None,
        }
    }
}

/// What receiving `bytes` comes to: the sender and the message, or the
/// reason why there is none. The signature is judged before the payload is
/// read as a message.
pub open spec fn verified_message(bytes: Seq<u8>) -> Result<(Seq<u8>, MessageModel), EnvelopeError> {
    match envelope_at(bytes) {
        None => Err(EnvelopeError::MalformedEnvelope),
        Some(envelope) => if !signature_verifies(
            envelope.from,
            envelope.data,
            envelope.signature,
        ) {
            Err(EnvelopeError::InvalidSignature)
        } else {
            match message_at(envelope.data) {
                Some(message) => Ok((envelope.from, message)),
                None => Err(EnvelopeError::MalformedPayload),
            }
        },
    }
}

/// The envelope in which `identity` sends `message` with the number `uid`.
pub open spec fn signed_envelope(identity: Identity, message: MessageModel, uid: u128)
    -> EnvelopeModel {
    EnvelopeModel {
        from: identity.public_key()@,
        data: message_bytes(message),
        signature: signature_of(identity.secret(), message_bytes(message)),
        uid,
    }
}

/// Reading a written envelope gives it back, whatever follows it.
pub proof fn lemma_envelope_round_trip(envelope: EnvelopeModel, rest: Seq<u8>)
    requires
        envelope.wf(),
    ensures
        envelope_at(envelope_bytes(envelope) + rest) == Some(envelope),
{
    let all = envelope_bytes(envelope) + rest;
    let number = varint_bytes(envelope.uid as nat);
    let framed = byte_string(envelope.data);
    let behind = envelope.signature + number + rest;
    assert(all.take(KEY_LEN as int) =~= envelope.from);
    assert(all.skip(KEY_LEN as int) =~= framed + behind);
    lemma_byte_string_round_trip(envelope.data, behind);
    let tail = all.skip(KEY_LEN + framed.len());
    assert(tail.take(SIGNATURE_LEN as int) =~= envelope.signature);
    assert(tail.skip(SIGNATURE_LEN as int) =~= number + rest);
    lemma_varint_bytes_fit(envelope.uid as nat);
    lemma_bounded_varint_round_trip(
        envelope.uid as nat,
        rest,
        VARINT_MAX_U128 as nat,
        u128::MAX as nat,
    );
}

/// Calls `thread_rng` of rand and draws 128 bits from it: nothing is known
/// of the result.
#[verifier::external_body]
fn random_uid() -> (uid: u128) {
    rand::thread_rng().gen()
}

impl SignedMessage {
    /// The envelope's bytes for the wire.
    pub fn encode(&self) -> (bytes: Vec<u8>)
        ensures
            bytes@ == envelope_bytes(self@),
            self@.wf(),
    {
        let mut out: Vec<u8> = Vec::new();
        let payload_len: usize = self.data.len();
        assert(self@.data.len() == payload_len);
        append_bytes(&mut out, self.from.as_bytes());
        write_byte_string(&mut out, self.data.as_slice());
        append_bytes(&mut out, self.signature.as_bytes());
        write_varint(&mut out, self.uid);
        out
    }

    /// Reads the envelope that `bytes` begin with; `None` where they do not
    /// begin with one. The signature is not judged.
    pub fn decode(bytes: &[u8]) -> (envelope: Option<SignedMessage>)
        ensures
            match envelope_at(bytes@) {
                Some(model) => envelope matches Some(e) && e@ == model && model.wf(),
                None => envelope is None,
            },
    {
        if bytes.len() < KEY_LEN {
            return None;
        }
        let raw = read_array_32(bytes, 0);
        let from = match PublicKey::from_bytes(&raw) {
            Some(key) => key,
            None => { return None; },
        };
        let (begin, end) = match read_byte_string(bytes, KEY_LEN) {
            Some(found) => found,
            None => { return None; },
        };
        let ghost tail = bytes@.skip(end as int);
        if bytes.len() - end < SIGNATURE_LEN {
            return None;
        }
        let signature = Signature::from_bytes(&read_array_64(bytes, end));
        proof {
            assert(tail.take(SIGNATURE_LEN as int) =~= signature@);
            assert(tail.skip(SIGNATURE_LEN as int) =~= bytes@.skip(end + SIGNATURE_LEN));
        }
        let uid = match read_varint(bytes, end + SIGNATURE_LEN, VARINT_MAX_U128, u128::MAX) {
            Some((uid, _)) => uid,
            None => { return None; },
        };
        let data = slice_to_vec(slice_subrange(bytes, begin, end));
        Some(SignedMessage { from, data, signature, uid })
    }

    /// Signs `message` as `identity` and writes the envelope with the number
    /// `uid`.
    pub fn sign_and_encode_with(identity: &Identity, message: &Message, uid: u128) -> (bytes: Vec<
        u8,
    >)
        ensures
            bytes@ == envelope_bytes(signed_envelope(*identity, message@, uid)),
            verified_message(bytes@) == Ok::<(Seq<u8>, MessageModel), EnvelopeError>(
                (identity.public_key()@, message@),
            ),
    {
        let data = message.encode();
        let signature = identity.sign(data.as_slice());
        let envelope = SignedMessage { from: identity.public(), data, signature, uid };
        let bytes = envelope.encode();
        proof {
            law_round_trip(*identity, message@, uid);
        }
        bytes
    }

    /// Signs `message` as `identity` and writes the envelope, with a number
    /// drawn at random. Whatever the number, the bytes are received as
    /// `message` from `identity`.
    pub fn sign_and_encode(identity: &Identity, message: &Message) -> (bytes: Vec<u8>)
        ensures
            exists|uid: u128|
                bytes@ == #[trigger] envelope_bytes(signed_envelope(*identity, message@, uid)),
            verified_message(bytes@) == Ok::<(Seq<u8>, MessageModel), EnvelopeError>(
                (identity.public_key()@, message@),
            ),
    {
        let uid = random_uid();
        SignedMessage::sign_and_encode_with(identity, message, uid)
    }

    /// Reads `bytes` as an envelope, verifies its signature, and reads its
    /// payload as a message: the sender and the message, or the first of
    /// these three steps that failed.
    pub fn verify_and_decode(bytes: &[u8]) -> (received: Result<(PublicKey, Message), EnvelopeError>)
        ensures
            match verified_message(bytes@) {
                Ok((from, message)) => received matches Ok((key, m)) && key@ == from && m@
                    == message,
                Err(reason) => received matches Err(r) && r == reason,
            },
    {
        let envelope = match SignedMessage::decode(bytes) {
            Some(envelope) => envelope,
            None => { return Err(EnvelopeError::MalformedEnvelope); },
        };
        if !envelope.from.verify(envelope.data.as_slice(), &envelope.signature) {
            return Err(EnvelopeError::InvalidSignature);
        }
        match Message::decode(envelope.data.as_slice()) {
            Some(message) => Ok((envelope.from, message)),
            None => Err(EnvelopeError::MalformedPayload),
        }
    }
}

/// Round trip: what an identity signs and writes is received as the same
/// message from that identity, whatever number the envelope carries.
pub proof fn law_round_trip(identity: Identity, message: MessageModel, uid: u128)
    requires
        identity.wf(),
        message.wf(),
    ensures
        verified_message(envelope_bytes(signed_envelope(identity, message, uid))) == Ok::<
            (Seq<u8>, MessageModel),
            EnvelopeError,
        >((identity.public_key()@, message)),
{
    let envelope = signed_envelope(identity, message, uid);
    lemma_envelope_round_trip(envelope, Seq::<u8>::empty());
    lemma_message_round_trip(message, Seq::<u8>::empty());
}

/// Where the payload's bytes begin in an envelope's bytes.
pub open spec fn payload_start(envelope: EnvelopeModel) -> int {
    KEY_LEN + varint_bytes(envelope.data.len()).len()
}

/// Where the signature's bytes begin in an envelope's bytes.
pub open spec fn signature_start(envelope: EnvelopeModel) -> int {
    payload_start(envelope) + envelope.data.len()
}

/// No envelope is accepted on the strength of its form: bytes that are an
/// envelope whose signature does not verify are rejected as
/// `InvalidSignature`, whatever their payload holds.
pub proof fn law_unverified_is_rejected(envelope: EnvelopeModel)
    requires
        envelope.wf(),
        !signature_verifies(envelope.from, envelope.data, envelope.signature),
    ensures
        verified_message(envelope_bytes(envelope)) == Err::<
            (Seq<u8>, MessageModel),
            EnvelopeError,
        >(EnvelopeError::InvalidSignature),
{
    lemma_envelope_round_trip(envelope, Seq::<u8>::empty());
}

/// Tampering with the payload: an envelope's bytes with one byte of the
/// payload replaced are the envelope with that payload, and they are
/// rejected as `InvalidSignature` wherever the signature does not verify
/// the altered payload.
pub proof fn law_altered_payload_is_rejected(envelope: EnvelopeModel, at: int, byte: u8)
    requires
        envelope.wf(),
        0 <= at < envelope.data.len(),
        !signature_verifies(envelope.from, envelope.data.update(at, byte), envelope.signature),
    ensures
        envelope_bytes(envelope).update(payload_start(envelope) + at, byte) == envelope_bytes(
            EnvelopeModel { data: envelope.data.update(at, byte), ..envelope },
        ),
        verified_message(envelope_bytes(envelope).update(payload_start(envelope) + at, byte))
            == Err::<(Seq<u8>, MessageModel), EnvelopeError>(EnvelopeError::InvalidSignature),
{
    let altered = EnvelopeModel { data: envelope.data.update(at, byte), ..envelope };
    assert(envelope_bytes(envelope).update(payload_start(envelope) + at, byte) =~= envelope_bytes(
        altered,
    ));
    law_unverified_is_rejected(altered);
}

/// Tampering with the signature: an envelope's bytes with one byte of the
/// signature replaced are the envelope with that signature, and they are
/// rejected as `InvalidSignature` wherever the altered signature does not
/// verify the payload.
pub proof fn law_altered_signature_is_rejected(envelope: EnvelopeModel, at: int, byte: u8)
    requires
        envelope.wf(),
        0 <= at < SIGNATURE_LEN,
        !signature_verifies(envelope.from, envelope.data, envelope.signature.update(at, byte)),
    ensures
        envelope_bytes(envelope).update(signature_start(envelope) + at, byte) == envelope_bytes(
            EnvelopeModel { signature: envelope.signature.update(at, byte), ..envelope },
        ),
        verified_message(envelope_bytes(envelope).update(signature_start(envelope) + at, byte))
            == Err::<(Seq<u8>, MessageModel), EnvelopeError>(EnvelopeError::InvalidSignature),
{
    let altered = EnvelopeModel { signature: envelope.signature.update(at, byte), ..envelope };
    assert(envelope_bytes(envelope).update(signature_start(envelope) + at, byte)
        =~= envelope_bytes(altered));
    law_unverified_is_rejected(altered);
}

} // verus!
