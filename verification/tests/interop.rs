use peer_chat::envelope::SignedMessage;
use peer_chat::keys::Identity;
use peer_chat::message::Message;

type TheirEnvelope = (iroh_base::key::PublicKey, Vec<u8>, iroh_base::key::Signature, u128);

// A small generator of numbers that look random and are the same in every run.
struct Numbers(u64);

impl Numbers {
    fn next(&mut self) -> u64 {
        self.0 ^= self.0 << 13;
        self.0 ^= self.0 >> 7;
        self.0 ^= self.0 << 17;
        self.0
    }

    fn below(&mut self, bound: usize) -> usize {
        (self.next() % bound as u64) as usize
    }

    fn bytes(&mut self, len: usize) -> Vec<u8> {
        (0..len).map(|_| self.next() as u8).collect()
    }
}

fn mutated(numbers: &mut Numbers, bytes: &[u8]) -> Vec<u8> {
    let mut out = bytes.to_vec();
    match numbers.below(5) {
        0 => {
            let at = numbers.below(out.len());
            out[at] ^= 1 << numbers.below(8);
        }
        1 => {
            let len = numbers.below(out.len() + 1);
            out.truncate(len);
        }
        2 => {
            let at = numbers.below(out.len() + 1);
            out.insert(at, numbers.next() as u8);
        }
        3 => {
            let at = numbers.below(out.len());
            out[at] = if numbers.below(2) == 0 { 0x80 } else { 0xff };
        }
        _ => {
            let at = numbers.below(out.len());
            out.remove(at);
        }
    }
    out
}

fn ours(bytes: &[u8]) -> Option<(Vec<u8>, Vec<u8>, Vec<u8>, u128)> {
    SignedMessage::decode(bytes).map(|envelope| {
        (
            envelope.from.as_bytes().to_vec(),
            envelope.data,
            envelope.signature.as_bytes().to_vec(),
            envelope.uid,
        )
    })
}

fn theirs(bytes: &[u8]) -> Option<(Vec<u8>, Vec<u8>, Vec<u8>, u128)> {
    postcard::from_bytes::<TheirEnvelope>(bytes)
        .ok()
        .map(|(from, data, signature, uid)| (from.as_bytes().to_vec(), data, signature.to_bytes().to_vec(), uid))
}

#[test]
fn envelopes_are_read_as_postcard_reads_them() {
    let mut numbers = Numbers(0x9e3779b97f4a7c15);
    let identity = Identity::from_bytes(&[0xa1; 32]);
    let mut accepted = 0;
    for round in 0..3000 {
        let text = "x".repeat(numbers.below(200));
        let uid = (numbers.next() as u128) << (numbers.below(65)) | numbers.next() as u128;
        let message = Message::Broadcast { text };
        let mut bytes = SignedMessage::sign_and_encode_with(&identity, &message, uid);
        for _ in 0..(round % 4) {
            if !bytes.is_empty() {
                bytes = mutated(&mut numbers, &bytes);
            }
        }
        let read = ours(&bytes);
        assert_eq!(read, theirs(&bytes));
        if read.is_some() {
            accepted += 1;
        }
    }
    assert!(accepted > 750);
}

#[test]
fn arbitrary_bytes_are_read_as_postcard_reads_them() {
    let mut numbers = Numbers(0x2545f4914f6cdd1d);
    let key = *Identity::from_bytes(&[0xb2; 32]).public().as_bytes();
    for _ in 0..3000 {
        let mut bytes = Vec::new();
        if numbers.below(4) != 0 {
            bytes.extend_from_slice(&key);
        }
        let len = numbers.below(160);
        bytes.extend_from_slice(&numbers.bytes(len));
        assert_eq!(ours(&bytes), theirs(&bytes));
    }
}

#[test]
fn broadcasts_are_read_as_postcard_reads_them() {
    let mut numbers = Numbers(0x853c49e6748fea9b);
    for round in 0..3000 {
        let texts = ["", "hello", "grüße, 世界 🦀", "a longer line of text with spaces in it"];
        let message = Message::Broadcast { text: texts[numbers.below(texts.len())].to_string() };
        let mut bytes = message.encode();
        for _ in 0..(round % 4) {
            if !bytes.is_empty() {
                bytes = mutated(&mut numbers, &bytes);
            }
        }
        let read = match Message::decode(&bytes) {
            Some(Message::Broadcast { text }) => Some(text),
            _ => None,
        };
        let expected = postcard::from_bytes::<(u32, String)>(&bytes)
            .ok()
            .filter(|(tag, _)| *tag == 0)
            .map(|(_, text)| text);
        assert_eq!(read, expected);
    }
}

#[test]
fn direct_messages_are_read_as_postcard_reads_them() {
    let mut numbers = Numbers(0xda942042e4dd58b5);
    let to = Identity::from_bytes(&[0xc3; 32]).public();
    for round in 0..3000 {
        let len = numbers.below(300);
        let message = Message::Direct { to, ciphertext: numbers.bytes(len) };
        let mut bytes = message.encode();
        for _ in 0..(round % 4) {
            if !bytes.is_empty() {
                bytes = mutated(&mut numbers, &bytes);
            }
        }
        let read = match Message::decode(&bytes) {
            Some(Message::Direct { to, ciphertext }) => Some((to.as_bytes().to_vec(), ciphertext)),
            _ => None,
        };
        let expected = postcard::from_bytes::<(u32, iroh_base::key::PublicKey, Vec<u8>)>(&bytes)
            .ok()
            .filter(|(tag, _, _)| *tag == 1)
            .map(|(_, to, ciphertext)| (to.as_bytes().to_vec(), ciphertext));
        assert_eq!(read, expected);
    }
}

#[test]
fn verified_envelopes_are_those_that_the_outside_verifier_accepts() {
    let mut numbers = Numbers(0x6c62272e07bb0142);
    let identity = Identity::from_bytes(&[0xa1; 32]);
    for round in 0..1000 {
        let message = Message::Broadcast { text: "hi".repeat(numbers.below(20)) };
        let mut bytes = SignedMessage::sign_and_encode(&identity, &message);
        for _ in 0..(round % 3) {
            bytes = mutated(&mut numbers, &bytes);
            if bytes.is_empty() {
                bytes.push(0);
            }
        }
        let expected = postcard::from_bytes::<TheirEnvelope>(&bytes)
            .ok()
            .filter(|(from, data, signature, _)| from.verify(data, signature).is_ok())
            .and_then(|(from, data, _, _)| {
                postcard::from_bytes::<(u32, String)>(&data)
                    .ok()
                    .filter(|(tag, _)| *tag == 0)
                    .map(|(_, text)| (from.as_bytes().to_vec(), text))
            });
        let read = match SignedMessage::verify_and_decode(&bytes) {
            Ok((from, Message::Broadcast { text })) => Some((from.as_bytes().to_vec(), text)),
            _ => None,
        };
        assert_eq!(read, expected);
    }
}
