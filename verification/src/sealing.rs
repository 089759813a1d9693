//! Sealing a text for one recipient.
//!
//! Sender and recipient agree on a key from one's secret key and the other's
//! public key; the text is encrypted and authenticated under it. A sealed
//! text is the authentication tag, the ciphertext and the nonce that was
//! drawn for it, in that order.

use crate::keys::{is_public_key, public_key_of, Identity, PublicKey, KEY_LEN};
use vstd::prelude::*;

verus! {

/// What sealing adds to a text's length: 16 bytes of tag, 24 of nonce.
pub const SEAL_OVERHEAD: usize = 40;

/// The longest text that is sealed: half of what the cipher's key stream
/// covers for one nonce.
pub const MAX_PLAINTEXT_LEN: u64 = 0x20_0000_0000;

/// The longest sealed text that is opened: `MAX_PLAINTEXT_LEN` and the
/// overhead.
pub const MAX_SEALED_LEN: u64 = 0x20_0000_0028;

/// What the holder of the secret key `secret` gets when opening `sealed` as
/// coming from the holder of the public key `sender`: the text, or nothing
/// where the tag does not authenticate it.
pub uninterp spec fn opened(secret: Seq<u8>, sender: Seq<u8>, sealed: Seq<u8>) -> Option<
    Seq<u8>,
>;

/// A text could not be opened: it was sealed for another key or by another
/// sender, or it was altered or cut short on the way.
#[derive(Clone, Copy, Debug, PartialEq, Eq)]
pub struct DecryptionFailed;

/// `sealed` is `plaintext` sealed by the holder of the public key `sender`
/// for the public key `recipient`: it is longer by the overhead, and whoever
/// holds the secret key of `recipient` opens it to `plaintext`.
pub open spec fn is_sealed_for(
    sealed: Seq<u8>,
    sender: Seq<u8>,
    recipient: Seq<u8>,
    plaintext: Seq<u8>,
) -> bool {
    &&& sealed.len() == plaintext.len() + SEAL_OVERHEAD
    &&& forall|secret: Seq<u8>|
        secret.len() == KEY_LEN && public_key_of(secret) == recipient ==> #[trigger] opened(
            secret,
            sender,
            sealed,
        ) == Some(plaintext)
}

/// What `open` returns: nothing for a sealed text beyond the accepted
/// length, else what the key agreement and the tag decide.
pub open spec fn open_outcome(secret: Seq<u8>, sender: Seq<u8>, sealed: Seq<u8>) -> Option<
    Seq<u8>,
> {
    if sealed.len() > MAX_SEALED_LEN {
        None
    } else {
        opened(secret, sender, sealed)
    }
}

/// Calls `SecretKey::shared` of iroh-base and `SharedSecret::seal` on the
/// result. The nonce is drawn at random, so two calls differ. Trusted of
/// every outcome: tag and nonce make it 40 bytes longer than the text, and
/// `SharedSecret::open` with the recipient's secret key and the sender's
/// public key gives the text back, which is what the two functions are
/// documented for. Texts that would exhaust the cipher's key stream are left
/// out.
#[verifier::external_body]
fn seal_bytes(secret: &[u8; 32], recipient: &[u8; 32], plaintext: &[u8]) -> (sealed: Vec<u8>)
    requires
        is_public_key(recipient@),
        plaintext@.len() <= MAX_PLAINTEXT_LEN,
    ensures
        is_sealed_for(sealed@, public_key_of(secret@), recipient@, plaintext@),
{
    let to = iroh_base::key::PublicKey::from_bytes(recipient).expect("an accepted key");
    let mut buffer = plaintext.to_vec();
    iroh_base::key::SecretKey::from_bytes(secret).shared(&to).seal(&mut buffer);
    buffer
}

/// Calls `SecretKey::shared` of iroh-base and `SharedSecret::open` on the
/// result. Trusted: whether it opens, and to what, is a function of the two
/// keys and the sealed text alone. Sealed texts that would exhaust the
/// cipher's key stream are left out.
#[verifier::external_body]
fn open_bytes(secret: &[u8; 32], sender: &[u8; 32], sealed: &[u8]) -> (plain: Option<Vec<u8>>)
    requires
        is_public_key(sender@),
        sealed@.len() <= MAX_SEALED_LEN,
    ensures
        match plain {
            Some(text) => opened(secret@, sender@, sealed@) == Some(text@),
            None => opened(secret@, sender@, sealed@) is None,
        },
{
    let from = iroh_base::key::PublicKey::from_bytes(sender).expect("an accepted key");
    let mut buffer = sealed.to_vec();
    match iroh_base::key::SecretKey::from_bytes(secret).shared(&from).open(&mut buffer) {
        Ok(()) => Some(buffer),
        Err(_) => None,
    }
}

/// Seals `plaintext` so that only the holder of `recipient`'s secret key,
/// and the sender, can read it.
pub fn seal(sender: &Identity, recipient: &PublicKey, plaintext: &[u8]) -> (sealed: Vec<u8>)
    requires
        plaintext@.len() <= MAX_PLAINTEXT_LEN,
    ensures
        is_sealed_for(sealed@, sender.public_key()@, recipient@, plaintext@),
        sender.wf(),
        recipient.wf(),
{
    let secret = sender.to_bytes();
    let _ = sender.public();
    seal_bytes(&secret, recipient.as_bytes(), plaintext)
}

/// Opens what `sender` sealed for `recipient`. Fails where the tag does not
/// authenticate the text under the key that the two agree on.
pub fn open(recipient: &Identity, sender: &PublicKey, sealed: &[u8]) -> (plain: Result<
    Vec<u8>,
    DecryptionFailed,
>)
    ensures
        match open_outcome(recipient.secret(), sender@, sealed@) {
            Some(text) => plain matches Ok(bytes) && bytes@ == text,
            None => plain == Err::<Vec<u8>, DecryptionFailed>(DecryptionFailed),
        },
{
    if sealed.len() as u64 > MAX_SEALED_LEN {
        return Err(DecryptionFailed);
    }
    let secret = recipient.to_bytes();
    match open_bytes(&secret, sender.as_bytes(), sealed) {
        Some(text) => Ok(text),
        None => Err(DecryptionFailed),
    }
}

/// The recipient reads what was sealed for it: opening, with the
/// recipient's secret key and the sender's public key, a text that the
/// sender sealed for the recipient's public key gives that text.
pub proof fn law_recipient_opens(
    sender: Identity,
    recipient: Identity,
    plaintext: Seq<u8>,
    sealed: Seq<u8>,
)
    requires
        sender.wf(),
        recipient.wf(),
        plaintext.len() <= MAX_PLAINTEXT_LEN,
        is_sealed_for(sealed, sender.public_key()@, recipient.public_key()@, plaintext),
    ensures
        open_outcome(recipient.secret(), sender.public_key()@, sealed) == Some(plaintext),
{
}

} // verus!
