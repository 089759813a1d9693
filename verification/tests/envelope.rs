use peer_chat::envelope::{EnvelopeError, SignedMessage};
use peer_chat::keys::{Identity, PublicKey, Signature};
use peer_chat::message::Message;

fn alice() -> Identity {
    Identity::from_bytes(&[0xa1; 32])
}

fn bob() -> Identity {
    Identity::from_bytes(&[0xb2; 32])
}

fn hello() -> Message {
    Message::Broadcast { text: "hello".to_string() }
}

fn payload_start() -> usize {
    // the sender's 32 bytes and the one byte of the payload's length
    33
}

#[test]
fn round_trip_of_a_broadcast() {
    let bytes = SignedMessage::sign_and_encode(&alice(), &hello());
    assert_eq!(SignedMessage::verify_and_decode(&bytes), Ok((alice().public(), hello())));
}

#[test]
fn round_trip_of_a_direct_message() {
    let message = Message::Direct { to: bob().public(), ciphertext: vec![1, 2, 3, 4] };
    let bytes = SignedMessage::sign_and_encode(&alice(), &message);
    assert_eq!(SignedMessage::verify_and_decode(&bytes), Ok((alice().public(), message)));
}

#[test]
fn round_trip_of_many_messages() {
    let identities = [alice(), bob(), Identity::generate()];
    let messages = [
        Message::Broadcast { text: String::new() },
        Message::Broadcast { text: "grüße, 世界".to_string() },
        Message::Broadcast { text: "z".repeat(5000) },
        Message::Direct { to: alice().public(), ciphertext: vec![] },
        Message::Direct { to: bob().public(), ciphertext: vec![0x77; 300] },
    ];
    for identity in &identities {
        for message in &messages {
            let bytes = SignedMessage::sign_and_encode(identity, message);
            assert_eq!(
                SignedMessage::verify_and_decode(&bytes),
                Ok((identity.public(), message.clone()))
            );
        }
    }
}

#[test]
fn round_trip_with_every_size_of_number() {
    for uid in [0u128, 1, 127, 128, u64::MAX as u128, u128::MAX] {
        let bytes = SignedMessage::sign_and_encode_with(&alice(), &hello(), uid);
        assert_eq!(SignedMessage::verify_and_decode(&bytes), Ok((alice().public(), hello())));
        assert_eq!(SignedMessage::decode(&bytes).map(|envelope| envelope.uid), Some(uid));
    }
}

#[test]
fn envelope_bytes_are_sender_payload_signature_number() {
    let payload = hello().encode();
    let signature = alice().sign(&payload);
    let bytes = SignedMessage::sign_and_encode_with(&alice(), &hello(), 300);
    let mut expected = Vec::new();
    expected.extend_from_slice(alice().public().as_bytes());
    expected.push(payload.len() as u8);
    expected.extend_from_slice(&payload);
    expected.extend_from_slice(signature.as_bytes());
    expected.extend_from_slice(&[0xac, 0x02]);
    assert_eq!(bytes, expected);
    assert_eq!(bytes.len(), 32 + 1 + 7 + 64 + 2);
}

#[test]
fn envelope_bytes_agree_with_postcard() {
    let payload = hello().encode();
    let from = iroh_base::key::PublicKey::from_bytes(alice().public().as_bytes()).unwrap();
    let signature = iroh_base::key::Signature::from_bytes(alice().sign(&payload).as_bytes());
    for uid in [0u128, 300, u128::MAX] {
        let ours = SignedMessage::sign_and_encode_with(&alice(), &hello(), uid);
        let theirs = postcard::to_stdvec(&(from, payload.clone(), signature, uid)).unwrap();
        assert_eq!(ours, theirs);
    }
}

#[test]
fn postcard_reads_the_envelope() {
    let bytes = SignedMessage::sign_and_encode(&alice(), &hello());
    let (from, data, signature, _uid): (iroh_base::key::PublicKey, Vec<u8>, iroh_base::key::Signature, u128) =
        postcard::from_bytes(&bytes).unwrap();
    assert_eq!(from.as_bytes(), alice().public().as_bytes());
    assert_eq!(data, hello().encode());
    assert!(from.verify(&data, &signature).is_ok());
}

#[test]
fn envelope_of_the_outside_signer_is_received() {
    let secret = iroh_base::key::SecretKey::from_bytes(&[0xd4; 32]);
    let payload = postcard::to_stdvec(&(0u32, "from outside")).unwrap();
    let bytes = postcard::to_stdvec(&(secret.public(), payload.clone(), secret.sign(&payload), 77u128)).unwrap();
    let from = PublicKey::from_bytes(secret.public().as_bytes()).unwrap();
    assert_eq!(
        SignedMessage::verify_and_decode(&bytes),
        Ok((from, Message::Broadcast { text: "from outside".to_string() }))
    );
}

#[test]
fn two_envelopes_of_one_message_differ_in_the_number_only() {
    let one = SignedMessage::decode(&SignedMessage::sign_and_encode(&alice(), &hello())).unwrap();
    let two = SignedMessage::decode(&SignedMessage::sign_and_encode(&alice(), &hello())).unwrap();
    assert_eq!(one.from, two.from);
    assert_eq!(one.data, two.data);
    assert_eq!(one.signature, two.signature);
    assert_ne!(one.uid, two.uid);
}

#[test]
fn decode_gives_the_fields() {
    let bytes = SignedMessage::sign_and_encode_with(&alice(), &hello(), 5);
    let envelope = SignedMessage::decode(&bytes).unwrap();
    assert_eq!(envelope.from, alice().public());
    assert_eq!(envelope.data, hello().encode());
    assert_eq!(envelope.signature, alice().sign(&hello().encode()));
    assert_eq!(envelope.uid, 5);
    assert_eq!(envelope.encode(), bytes);
}

#[test]
fn altered_payload_byte_is_an_invalid_signature() {
    let bytes = SignedMessage::sign_and_encode(&alice(), &hello());
    let payload_len = hello().encode().len();
    for at in payload_start()..payload_start() + payload_len {
        for flip in [0x01u8, 0x80, 0xff] {
            let mut altered = bytes.clone();
            altered[at] ^= flip;
            assert_eq!(SignedMessage::verify_and_decode(&altered), Err(EnvelopeError::InvalidSignature));
        }
    }
}

#[test]
fn altered_signature_byte_is_an_invalid_signature() {
    let bytes = SignedMessage::sign_and_encode(&alice(), &hello());
    let signature_start = payload_start() + hello().encode().len();
    for at in signature_start..signature_start + 64 {
        for flip in [0x01u8, 0x80, 0xff] {
            let mut altered = bytes.clone();
            altered[at] ^= flip;
            assert_eq!(SignedMessage::verify_and_decode(&altered), Err(EnvelopeError::InvalidSignature));
        }
    }
}

#[test]
fn altered_number_is_not_noticed() {
    let bytes = SignedMessage::sign_and_encode_with(&alice(), &hello(), 5);
    let mut altered = bytes.clone();
    let last = altered.len() - 1;
    altered[last] = 6;
    assert_eq!(SignedMessage::verify_and_decode(&altered), Ok((alice().public(), hello())));
}

#[test]
fn another_sender_is_an_invalid_signature() {
    let mut envelope = SignedMessage::decode(&SignedMessage::sign_and_encode(&alice(), &hello())).unwrap();
    envelope.from = bob().public();
    assert_eq!(SignedMessage::verify_and_decode(&envelope.encode()), Err(EnvelopeError::InvalidSignature));
}

#[test]
fn corrupted_bytes_are_rejected_not_crashed_on() {
    let bytes = SignedMessage::sign_and_encode_with(&alice(), &hello(), 5);
    for at in 0..bytes.len() - 1 {
        let mut altered = bytes.clone();
        altered[at] ^= 0x40;
        let received = SignedMessage::verify_and_decode(&altered);
        assert!(
            received == Err(EnvelopeError::InvalidSignature)
                || received == Err(EnvelopeError::MalformedEnvelope)
        );
    }
}

#[test]
fn cut_bytes_are_a_malformed_envelope() {
    let bytes = SignedMessage::sign_and_encode_with(&alice(), &hello(), u128::MAX);
    for len in 0..bytes.len() {
        assert_eq!(SignedMessage::verify_and_decode(&bytes[..len]), Err(EnvelopeError::MalformedEnvelope));
        assert_eq!(SignedMessage::decode(&bytes[..len]), None);
    }
}

#[test]
fn random_looking_bytes_are_a_malformed_envelope() {
    assert_eq!(SignedMessage::verify_and_decode(&[]), Err(EnvelopeError::MalformedEnvelope));
    assert_eq!(SignedMessage::verify_and_decode(b"hello"), Err(EnvelopeError::MalformedEnvelope));
    assert_eq!(SignedMessage::verify_and_decode(&[0xff; 500]), Err(EnvelopeError::MalformedEnvelope));
}

#[test]
fn sender_that_is_no_key_is_a_malformed_envelope() {
    let mut bytes = SignedMessage::sign_and_encode(&alice(), &hello());
    bytes[..32].copy_from_slice(&[2u8; 32]);
    assert_eq!(SignedMessage::verify_and_decode(&bytes), Err(EnvelopeError::MalformedEnvelope));
}

#[test]
fn number_that_is_too_long_is_a_malformed_envelope() {
    let mut bytes = SignedMessage::sign_and_encode_with(&alice(), &hello(), 0);
    bytes.pop();
    bytes.extend_from_slice(&[0x80; 19]);
    bytes.push(0);
    assert_eq!(SignedMessage::verify_and_decode(&bytes), Err(EnvelopeError::MalformedEnvelope));
}

#[test]
fn bytes_behind_the_envelope_are_passed_over() {
    let mut bytes = SignedMessage::sign_and_encode(&alice(), &hello());
    bytes.extend_from_slice(b"more");
    assert_eq!(SignedMessage::verify_and_decode(&bytes), Ok((alice().public(), hello())));
}

#[test]
fn signed_payload_that_is_no_message_is_a_malformed_payload() {
    for data in [vec![], vec![2u8, 0], vec![0u8, 5, b'h'], vec![0u8, 1, 0xff]] {
        let envelope = SignedMessage {
            from: alice().public(),
            signature: alice().sign(&data),
            data,
            uid: 1,
        };
        assert_eq!(
            SignedMessage::verify_and_decode(&envelope.encode()),
            Err(EnvelopeError::MalformedPayload)
        );
    }
}

#[test]
fn signature_is_judged_before_the_payload() {
    let data = vec![2u8, 0];
    let envelope = SignedMessage {
        from: alice().public(),
        signature: Signature::from_bytes(&[0u8; 64]),
        data,
        uid: 1,
    };
    assert_eq!(
        SignedMessage::verify_and_decode(&envelope.encode()),
        Err(EnvelopeError::InvalidSignature)
    );
}
