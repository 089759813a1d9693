//! Identities: an Ed25519 signing key, which also serves for key agreement,
//! and the public key that names its holder to every other peer.
//!
//! The keys are held as plain bytes. The curve arithmetic is iroh-base's: each
//! call into it stands in a small function below whose contract is taken on
//! trust and says no more than the called function documents.

use crate::chars::is_word;
use crate::wire::bytes_equal;
use vstd::prelude::*;

verus! {

/// Length of a public key and of a secret key, in bytes.
pub const KEY_LEN: usize = 32;

/// Length of a signature, in bytes.
pub const SIGNATURE_LEN: usize = 64;

/// The public key that belongs to the secret key `secret`.
pub uninterp spec fn public_key_of(secret: Seq<u8>) -> Seq<u8>;

/// Whether `bytes` are accepted as a public key: whether they are the
/// encoding of a point of the curve.
pub uninterp spec fn is_public_key(bytes: Seq<u8>) -> bool;

/// The signature that the secret key `secret` puts on `message`.
pub uninterp spec fn signature_of(secret: Seq<u8>, message: Seq<u8>) -> Seq<u8>;

/// Whether `signature` is accepted as a signature on `message` by the holder
/// of the public key `public`.
pub uninterp spec fn signature_verifies(
    public: Seq<u8>,
    message: Seq<u8>,
    signature: Seq<u8>,
) -> bool;

/// `public` is the key that verifies what `secret` signs: every signature
/// made with `secret` has a signature's length and is accepted under
/// `public`.
pub open spec fn verifies_for(public: Seq<u8>, secret: Seq<u8>) -> bool {
    forall|message: Seq<u8>|
        {
            &&& (#[trigger] signature_of(secret, message)).len() == SIGNATURE_LEN
            &&& signature_verifies(public, message, signature_of(secret, message))
        }
}

/// The text that a public key is shown and typed as.
pub uninterp spec fn public_key_text(bytes: Seq<u8>) -> Seq<char>;

/// The public key that `text` is read as, if it is read as one.
pub uninterp spec fn public_key_from_text(text: Seq<char>) -> Option<Seq<u8>>;

/// `text` is the text of the public key `key`: what the key is shown as, one
/// word, and read back as the key.
pub open spec fn is_text_of(text: Seq<char>, key: Seq<u8>) -> bool {
    &&& text == public_key_text(key)
    &&& is_word(text)
    &&& public_key_from_text(text) == Some(key)
}

/// The text that a secret key is shown as.
pub uninterp spec fn secret_key_text(bytes: Seq<u8>) -> Seq<char>;

/// The secret key that `text` is read as, if it is read as one.
pub uninterp spec fn secret_key_from_text(text: Seq<char>) -> Option<Seq<u8>>;

/// Calls `SecretKey::public` of iroh-base on the key made of `secret`.
/// Trusted: the result is a function of the secret key alone; it is a key
/// that `PublicKey::from_bytes` accepts, as that function documents of the
/// bytes of any `PublicKey`; and it is the key under which `PublicKey::verify`
/// accepts what `SecretKey::sign` signs with this secret key.
#[verifier::external_body]
fn derive_public_key(secret: &[u8; 32]) -> (public: [u8; 32])
    ensures
        public@ == public_key_of(secret@),
        is_public_key(public@),
        verifies_for(public@, secret@),
{
    *iroh_base::key::SecretKey::from_bytes(secret).public().as_bytes()
}

/// Calls `PublicKey::from_bytes` of iroh-base and tells whether it accepted
/// the bytes. Trusted: the answer is a function of the bytes alone.
#[verifier::external_body]
fn check_public_key(bytes: &[u8; 32]) -> (accepted: bool)
    ensures
        accepted == is_public_key(bytes@),
{
    iroh_base::key::PublicKey::from_bytes(bytes).is_ok()
}

/// Calls `SecretKey::sign` of iroh-base. Trusted: the signature is a function
/// of key and message alone (Ed25519 signs without randomness).
#[verifier::external_body]
fn sign_bytes(secret: &[u8; 32], message: &[u8]) -> (signature: [u8; 64])
    ensures
        signature@ == signature_of(secret@, message@),
{
    iroh_base::key::SecretKey::from_bytes(secret).sign(message).to_bytes()
}

/// Calls `PublicKey::verify` of iroh-base and tells whether it returned
/// `Ok`. Trusted: the answer is a function of key, message and signature
/// alone.
#[verifier::external_body]
fn verify_bytes(public: &[u8; 32], message: &[u8], signature: &[u8; 64]) -> (accepted: bool)
    requires
        is_public_key(public@),
    ensures
        accepted == signature_verifies(public@, message@, signature@),
{
    let key = iroh_base::key::PublicKey::from_bytes(public).expect("an accepted key");
    key.verify(message, &iroh_base::key::Signature::from_bytes(signature)).is_ok()
}

/// Formats a public key with iroh-base's `Display` for `PublicKey`. Trusted:
/// the text is a function of the key alone; it is the key in base 32, in
/// lower case and without padding, so it is not empty and holds no space;
/// and `PublicKey::from_str` reads it back as the same key, as that impl
/// documents.
#[verifier::external_body]
fn show_public_key(bytes: &[u8; 32]) -> (text: String)
    requires
        is_public_key(bytes@),
    ensures
        text@ == public_key_text(bytes@),
        is_word(text@),
        public_key_from_text(text@) == Some(bytes@),
{
    iroh_base::key::PublicKey::from_bytes(bytes).expect("an accepted key").to_string()
}

/// Calls `PublicKey::from_str` of iroh-base. Trusted: the outcome is a
/// function of the text alone, and a key that comes out is one that
/// `PublicKey::from_bytes` accepts.
#[verifier::external_body]
fn read_public_key(text: &str) -> (bytes: Option<[u8; 32]>)
    ensures
        match bytes {
            Some(key) => public_key_from_text(text@) == Some(key@) && is_public_key(key@),
            None => public_key_from_text(text@) is None,
        },
{
    match text.parse::<iroh_base::key::PublicKey>() {
        Ok(key) => Some(*key.as_bytes()),
        Err(_) => None,
    }
}

/// Formats a secret key with iroh-base's `Display` for `SecretKey`. Trusted:
/// the text is a function of the key alone, and `SecretKey::from_str` reads
/// it back as the same key.
#[verifier::external_body]
fn show_secret_key(bytes: &[u8; 32]) -> (text: String)
    ensures
        text@ == secret_key_text(bytes@),
        secret_key_from_text(text@) == Some(bytes@),
{
    iroh_base::key::SecretKey::from_bytes(bytes).to_string()
}

/// Calls `SecretKey::from_str` of iroh-base. Trusted: the outcome is a
/// function of the text alone.
#[verifier::external_body]
fn read_secret_key(text: &str) -> (bytes: Option<[u8; 32]>)
    ensures
        match bytes {
            Some(key) => secret_key_from_text(text@) == Some(key@),
            None => secret_key_from_text(text@) is None,
        },
{
    match text.parse::<iroh_base::key::SecretKey>() {
        Ok(key) => Some(key.to_bytes()),
        Err(_) => None,
    }
}

/// Calls `SecretKey::generate` of iroh-base, which draws the key from the
/// operating system's random source: nothing is known of the result.
#[verifier::external_body]
fn generate_secret() -> (secret: [u8; 32]) {
    iroh_base::key::SecretKey::generate().to_bytes()
}

/// A peer's durable name: a public key that has been checked to be one.
#[derive(Clone, Copy, Debug, PartialEq, Eq)]
pub struct PublicKey {
    bytes: [u8; 32],
}

impl View for PublicKey {
    type V = Seq<u8>;

    closed spec fn view(&self) -> Seq<u8> {
        self.bytes@
    }
}

impl PublicKey {
    /// What every `PublicKey` satisfies: 32 bytes that are a public key.
    pub open spec fn wf(&self) -> bool {
        &&& self@.len() == KEY_LEN
        &&& is_public_key(self@)
    }

    #[verifier::type_invariant]
    spec fn checked(&self) -> bool {
        self.wf()
    }

    /// The key with these bytes, if they are a public key.
    pub fn from_bytes(bytes: &[u8; 32]) -> (key: Option<PublicKey>)
        ensures
            key is Some <==> is_public_key(bytes@),
            key matches Some(k) ==> k@ == bytes@ && k.wf(),
    {
        if check_public_key(bytes) {
            Some(PublicKey { bytes: *bytes })
        } else {
            None
        }
    }

    /// The key's 32 bytes.
    pub fn as_bytes(&self) -> (bytes: &[u8; 32])
        ensures
            bytes@ == self@,
            self.wf(),
    {
        proof {
            use_type_invariant(self);
        }
        &self.bytes
    }

    /// Whether this is the same key as `other`.
    pub fn same_as(&self, other: &PublicKey) -> (same: bool)
        ensures
            same == (self@ == other@),
    {
        bytes_equal(&self.bytes, &other.bytes)
    }

    /// The key as the text that peers exchange to name each other: one
    /// word, which `from_text` reads as this key.
    pub fn to_text(&self) -> (text: String)
        ensures
            is_text_of(text@, self@),
    {
        proof {
            use_type_invariant(self);
        }
        show_public_key(&self.bytes)
    }

    /// Reads a key from the text that `to_text` writes; `None` where the text
    /// is not read as a public key.
    pub fn from_text(text: &str) -> (key: Option<PublicKey>)
        ensures
            match key {
                Some(k) => public_key_from_text(text@) == Some(k@) && k.wf(),
                None => public_key_from_text(text@) is None,
            },
    {
        match read_public_key(text) {
            Some(bytes) => Some(PublicKey { bytes }),
            None => None,
        }
    }
}

/// An Ed25519 signature: 64 bytes, of which nothing is known until a key
/// has verified them.
#[derive(Clone, Copy, Debug, PartialEq, Eq)]
pub struct Signature {
    bytes: [u8; 64],
}

impl View for Signature {
    type V = Seq<u8>;

    closed spec fn view(&self) -> Seq<u8> {
        self.bytes@
    }
}

impl Signature {
    /// The signature with these bytes.
    pub fn from_bytes(bytes: &[u8; 64]) -> (signature: Signature)
        ensures
            signature@ == bytes@,
    {
        Signature { bytes: *bytes }
    }

    /// The signature's 64 bytes.
    pub fn as_bytes(&self) -> (bytes: &[u8; 64])
        ensures
            bytes@ == self@,
            self@.len() == SIGNATURE_LEN,
    {
        &self.bytes
    }
}

impl PublicKey {
    /// Whether `signature` is this key's signature on `message`.
    pub fn verify(&self, message: &[u8], signature: &Signature) -> (accepted: bool)
        ensures
            accepted == signature_verifies(self@, message@, signature@),
    {
        proof {
            use_type_invariant(self);
        }
        verify_bytes(&self.bytes, message, &signature.bytes)
    }
}

/// A process's own keypair. The secret key signs what the process sends and
/// opens what is sealed for it; only the public key is ever handed out.
pub struct Identity {
    secret: [u8; 32],
    public: PublicKey,
}

impl Identity {
    /// The secret key's bytes.
    pub closed spec fn secret(&self) -> Seq<u8> {
        self.secret@
    }

    /// The public key that other peers know this identity by.
    pub closed spec fn public_key(&self) -> PublicKey {
        self.public
    }

    /// What every `Identity` satisfies: the public key is the secret key's,
    /// and verifies what the secret key signs.
    pub open spec fn wf(&self) -> bool {
        &&& self.secret().len() == KEY_LEN
        &&& self.public_key()@ == public_key_of(self.secret())
        &&& self.public_key().wf()
        &&& verifies_for(self.public_key()@, self.secret())
    }

    #[verifier::type_invariant]
    spec fn paired(&self) -> bool {
        self.wf()
    }

    /// The identity whose secret key has these bytes.
    pub fn from_bytes(secret: &[u8; 32]) -> (identity: Identity)
        ensures
            identity.secret() == secret@,
            identity.wf(),
    {
        let public = derive_public_key(secret);
        Identity { secret: *secret, public: PublicKey { bytes: public } }
    }

    /// A fresh identity, with a secret key drawn at random.
    pub fn generate() -> (identity: Identity)
        ensures
            identity.wf(),
    {
        let secret = generate_secret();
        Identity::from_bytes(&secret)
    }

    /// Reads an identity from the text of its secret key, as `secret_text`
    /// writes it; `None` where the text is not read as a secret key.
    pub fn from_text(text: &str) -> (identity: Option<Identity>)
        ensures
            match identity {
                Some(id) => secret_key_from_text(text@) == Some(id.secret()) && id.wf(),
                None => secret_key_from_text(text@) is None,
            },
    {
        match read_secret_key(text) {
            Some(secret) => Some(Identity::from_bytes(&secret)),
            None => None,
        }
    }

    /// The secret key's bytes, for the one who must keep or hand on the key.
    pub fn to_bytes(&self) -> (secret: [u8; 32])
        ensures
            secret@ == self.secret(),
    {
        self.secret
    }

    /// The secret key as text, from which `from_text` makes the same
    /// identity again.
    pub fn secret_text(&self) -> (text: String)
        ensures
            text@ == secret_key_text(self.secret()),
            secret_key_from_text(text@) == Some(self.secret()),
    {
        show_secret_key(&self.secret)
    }

    /// The public key that other peers know this identity by.
    #[verifier::when_used_as_spec(public_key)]
    pub fn public(&self) -> (key: PublicKey)
        ensures
            key == self.public_key(),
            self.wf(),
    {
        proof {
            use_type_invariant(self);
        }
        self.public
    }

    /// Signs `message` with the secret key.
    pub fn sign(&self, message: &[u8]) -> (signature: Signature)
        ensures
            signature@ == signature_of(self.secret(), message@),
            signature_verifies(self.public_key()@, message@, signature@),
            self.wf(),
    {
        proof {
            use_type_invariant(self);
        }
        Signature { bytes: sign_bytes(&self.secret, message) }
    }
}

impl Clone for Identity {
    fn clone(&self) -> (copy: Identity)
        ensures
            copy == *self,
    {
        proof {
            use_type_invariant(self);
        }
        Identity { secret: self.secret, public: self.public }
    }
}

/// A text that was given as a secret key is not one.
#[derive(Clone, Copy, Debug, PartialEq, Eq)]
pub struct KeyParsingError;

/// Where an identity's secret key came from.
#[derive(Clone, Copy, Debug, PartialEq, Eq)]
pub enum SecretOrigin {
    /// It was read from the text that was given.
    Given,
    /// It was drawn at random, for want of a text.
    Fresh,
}

/// The identity for this process: the one whose secret key `setting` is the
/// text of, or a fresh one where there is no setting. A setting that is not
/// the text of a secret key is an error, not a reason to draw a fresh key.
pub fn get_or_create_secret(setting: Option<&str>) -> (chosen: Result<
    (Identity, SecretOrigin),
    KeyParsingError,
>)
    ensures
        match setting {
            Some(text) => match secret_key_from_text(text@) {
                Some(secret) => chosen matches Ok((identity, origin)) && identity.secret() == secret
                    && identity.wf() && origin == SecretOrigin::Given,
                None => chosen matches Err(_),
            },
            None => chosen matches Ok((identity, origin)) && identity.wf() && origin
                == SecretOrigin::Fresh,
        },
{
    match setting {
        Some(text) => match Identity::from_text(text) {
            Some(identity) => Ok((identity, SecretOrigin::Given)),
            None => Err(KeyParsingError),
        },
        None => Ok((Identity::generate(), SecretOrigin::Fresh)),
    }
}

} // verus!
