use peer_chat::keys::Identity;
use peer_chat::sealing::{open, seal, DecryptionFailed, SEAL_OVERHEAD};

fn alice() -> Identity {
    Identity::from_bytes(&[0xa1; 32])
}

fn bob() -> Identity {
    Identity::from_bytes(&[0xb2; 32])
}

fn carol() -> Identity {
    Identity::from_bytes(&[0xc3; 32])
}

#[test]
fn recipient_opens_what_was_sealed_for_it() {
    let sealed = seal(&alice(), &bob().public(), b"secret");
    assert_eq!(open(&bob(), &alice().public(), &sealed), Ok(b"secret".to_vec()));
}

#[test]
fn sender_opens_its_own_sealed_text() {
    let sealed = seal(&alice(), &bob().public(), b"secret");
    assert_eq!(open(&alice(), &bob().public(), &sealed), Ok(b"secret".to_vec()));
}

#[test]
fn another_peer_does_not_open() {
    let sealed = seal(&alice(), &bob().public(), b"secret");
    assert_eq!(open(&carol(), &alice().public(), &sealed), Err(DecryptionFailed));
}

#[test]
fn recipient_does_not_open_under_another_sender() {
    let sealed = seal(&alice(), &bob().public(), b"secret");
    assert_eq!(open(&bob(), &carol().public(), &sealed), Err(DecryptionFailed));
}

#[test]
fn sealed_text_is_longer_by_the_overhead() {
    assert_eq!(SEAL_OVERHEAD, 40);
    for len in [0usize, 1, 6, 1000] {
        let text = vec![0x5a; len];
        assert_eq!(seal(&alice(), &bob().public(), &text).len(), len + SEAL_OVERHEAD);
    }
}

#[test]
fn sealed_text_differs_from_the_text() {
    let text = b"a text that is long enough to be recognised";
    let sealed = seal(&alice(), &bob().public(), text);
    assert!(!sealed.windows(text.len()).any(|window| window == text));
}

#[test]
fn sealing_twice_gives_two_sealed_texts() {
    let one = seal(&alice(), &bob().public(), b"secret");
    let two = seal(&alice(), &bob().public(), b"secret");
    assert_ne!(one, two);
    assert_eq!(open(&bob(), &alice().public(), &one), Ok(b"secret".to_vec()));
    assert_eq!(open(&bob(), &alice().public(), &two), Ok(b"secret".to_vec()));
}

#[test]
fn empty_text_is_sealed_and_opened() {
    let sealed = seal(&alice(), &bob().public(), b"");
    assert_eq!(open(&bob(), &alice().public(), &sealed), Ok(Vec::new()));
}

#[test]
fn altered_sealed_text_does_not_open() {
    let sealed = seal(&alice(), &bob().public(), b"secret");
    for at in 0..sealed.len() {
        let mut altered = sealed.clone();
        altered[at] ^= 0x01;
        assert_eq!(open(&bob(), &alice().public(), &altered), Err(DecryptionFailed));
    }
}

#[test]
fn short_sealed_text_does_not_open() {
    let sealed = seal(&alice(), &bob().public(), b"secret");
    for len in [0usize, 1, 16, 24, 39, 40, sealed.len() - 1] {
        assert_eq!(open(&bob(), &alice().public(), &sealed[..len]), Err(DecryptionFailed));
    }
}
