//! Token encryption at rest: age X25519 keys, ciphertexts carried as
//! standard base64. A key is held as its canonical secret encoding; what
//! age and base64 compute is called, and the library relates the calls:
//! what a key encrypts, the same key decrypts.

use vstd::prelude::*;
use crate::error::CoreError;
use crate::text::{push_str, string_from_chars};
use age::secrecy::ExposeSecret;
use base64::Engine;
use std::io::{Read, Write};

verus! {

/// `age::x25519::Recipient`, carried opaque.
#[verifier::external_type_specification]
#[verifier::external_body]
pub struct ExRecipient(::age::x25519::Recipient);

/// What `s.parse::<age::x25519::Identity>()` makes of a text: the
/// identity's canonical encoding (`Identity::to_string`), or the parse
/// error.
pub uninterp spec fn age_identity(s: Seq<char>) -> Result<Seq<char>, Seq<char>>;

/// What age's decryption, with the identity encoded as `secret`, makes
/// of an age file: the plaintext, or a failure, marked `true` when it
/// came from reading the decrypted stream rather than from opening the
/// file.
pub uninterp spec fn age_opened(secret: Seq<char>, file: Seq<u8>) -> Result<Seq<u8>, bool>;

/// `Identity::to_public` of the identity encoded as `secret`: its
/// recipient.
pub uninterp spec fn age_recipient(secret: Seq<char>) -> ::age::x25519::Recipient;

/// `base64::engine::general_purpose::STANDARD.encode`.
pub uninterp spec fn base64_encoded(bytes: Seq<u8>) -> Seq<char>;

/// `base64::engine::general_purpose::STANDARD.decode`: the bytes, or the
/// error's text.
pub uninterp spec fn base64_decoded(text: Seq<char>) -> Result<Seq<u8>, Seq<char>>;

/// The key encoded as `s` parses, and is written back as `c`.
pub open spec fn identity_is(s: Seq<char>, c: Seq<char>) -> bool {
    age_identity(s) == Ok::<Seq<char>, Seq<char>>(c)
}

/// The age file opens, with the key encoded as `secret`, to `p`.
pub open spec fn opens_to(secret: Seq<char>, file: Seq<u8>, p: Seq<u8>) -> bool {
    age_opened(secret, file) == Ok::<Seq<u8>, bool>(p)
}

/// `s.parse::<age::x25519::Identity>()`, the identity written back with
/// `to_string`. The contract claims that the outcome is a function of
/// `s` (named `age_identity`) and that an encoding written back parses
/// to itself.
#[verifier::external_body]
fn parse_identity(s: &str) -> (r: Result<String, String>)
    ensures
        match r {
            Ok(c) => identity_is(s@, c@) && identity_is(c@, c@),
            Err(e) => age_identity(s@) == Err::<Seq<char>, Seq<char>>(e@),
        },
{
    s.parse::<::age::x25519::Identity>().map(|id| id.to_string().expose_secret().to_string()).map_err(|e| e.to_string())
}

/// `age::x25519::Identity::generate()`, written with `to_string`. The
/// contract claims only that the encoding parses to itself; the key is
/// random.
#[verifier::external_body]
fn generate_identity() -> (r: String)
    ensures
        identity_is(r@, r@),
{
    ::age::x25519::Identity::generate().to_string().expose_secret().to_string()
}

/// `Identity::to_public` of the identity encoded as `secret`. The
/// contract claims that the recipient is a function of the identity
/// (named `age_recipient`).
#[verifier::external_body]
fn recipient_of(secret: &str) -> (r: ::age::x25519::Recipient)
    requires
        identity_is(secret@, secret@),
    ensures
        r == age_recipient(secret@),
{
    secret.parse::<::age::x25519::Identity>().expect("a canonical identity").to_public()
}

/// An age file of `plaintext` for the recipient of the identity encoded
/// as `secret` (`Encryptor::with_recipients`, `wrap_output`,
/// `write_all`, `finish`, into memory). The file is random; the contract
/// claims only that the same identity opens it to the plaintext.
#[verifier::external_body]
fn age_encrypt(secret: &str, plaintext: &[u8]) -> (r: Vec<u8>)
    requires
        identity_is(secret@, secret@),
    ensures
        opens_to(secret@, r@, plaintext@),
{
    let recipient = secret.parse::<::age::x25519::Identity>().expect("a canonical identity").to_public();
    let mut out = Vec::new();
    let encryptor = ::age::Encryptor::with_recipients(std::iter::once(&recipient as &dyn ::age::Recipient))
        .expect("one recipient");
    let mut writer = encryptor.wrap_output(&mut out).expect("writing to memory");
    writer.write_all(plaintext).expect("writing to memory");
    writer.finish().expect("writing to memory");
    out
}

/// Decrypt an age file with the identity encoded as `secret`
/// (`Decryptor::new`, `decrypt`, `read_to_end`). The contract claims
/// that the outcome is a function of the two (named `age_opened`); the
/// failure's message is age's localized text and is not stated.
#[verifier::external_body]
fn age_decrypt(secret: &str, file: &[u8]) -> (r: Result<Vec<u8>, (bool, String)>)
    requires
        identity_is(secret@, secret@),
    ensures
        match r {
            Ok(p) => opens_to(secret@, file@, p@),
            Err(e) => age_opened(secret@, file@) == Err::<Seq<u8>, bool>(e.0),
        },
{
    let identity = secret.parse::<::age::x25519::Identity>().expect("a canonical identity");
    let decryptor = ::age::Decryptor::new(file).map_err(|e| (false, e.to_string()))?;
    let mut reader =
        decryptor.decrypt(std::iter::once(&identity as &dyn ::age::Identity)).map_err(|e| (false, e.to_string()))?;
    let mut out = Vec::new();
    reader.read_to_end(&mut out).map_err(|e| (true, e.to_string()))?;
    Ok(out)
}

/// `STANDARD.encode(bytes)`.
#[verifier::external_body]
fn b64_encode(bytes: &[u8]) -> (r: String)
    ensures
        r@ == base64_encoded(bytes@),
{
    ::base64::engine::general_purpose::STANDARD.encode(bytes)
}

/// An encoding of `b`, as `text` is, decodes to `b` in `r`.
pub open spec fn decodes_encoding(text: Seq<char>, r: Result<Vec<u8>, String>) -> bool {
    forall|b: Seq<u8>| text == base64_encoded(b) ==> (r matches Ok(v) && v@ == b)
}

/// `STANDARD.decode(text)`, the error as its text. The contract claims
/// that the outcome is a function of the text (named `base64_decoded`)
/// and that an encoding decodes to the bytes it encodes.
#[verifier::external_body]
fn b64_decode(text: &str) -> (r: Result<Vec<u8>, String>)
    ensures
        match r {
            Ok(v) => base64_decoded(text@) == Ok::<Seq<u8>, Seq<char>>(v@),
            Err(e) => base64_decoded(text@) == Err::<Seq<u8>, Seq<char>>(e@),
        },
        decodes_encoding(text@, r),
{
    ::base64::engine::general_purpose::STANDARD.decode(text).map_err(|e| e.to_string())
}

/// `ciphertext` encodes an age file that the key encoded as `secret`
/// opens to `plaintext`.
pub open spec fn sealed(secret: Seq<char>, plaintext: Seq<u8>, ciphertext: Seq<char>) -> bool {
    exists|file: Seq<u8>| ciphertext == base64_encoded(file) && age_opened(secret, file) == Ok::<Seq<u8>, bool>(plaintext)
}

/// What decrypting `ciphertext` with the key encoded as `secret` gives:
/// the plaintext the decoded file opens to; otherwise an error saying
/// the encoding is invalid, or that decryption or reading failed.
pub open spec fn decryption(secret: Seq<char>, ciphertext: Seq<char>, r: Result<Vec<u8>, CoreError>) -> bool {
    &&& forall|file: Seq<u8>, p: Seq<u8>|
        ciphertext == base64_encoded(file) && age_opened(secret, file) == Ok::<Seq<u8>, bool>(p)
            ==> (r matches Ok(v) && v@ == p)
    &&& match base64_decoded(ciphertext) {
        Err(e) => r matches Err(CoreError::Invariant(m)) && m@ == "invalid ciphertext encoding: "@ + e,
        Ok(file) => match age_opened(secret, file) {
            Ok(p) => r matches Ok(v) && v@ == p,
            Err(read) => r matches Err(CoreError::Invariant(m))
                && m@.take(if read { 13int } else { 19int }) == if read { "read failed: "@ } else { "decryption failed: "@ },
        },
    }
}

/// Encryption key for tokens at rest: an age X25519 identity, held as
/// its canonical encoding.
pub struct EncryptionKey {
    secret: String,
}

impl EncryptionKey {
    /// The canonical encoding of the key.
    pub closed spec fn secret_text(&self) -> Seq<char> {
        self.secret@
    }

    /// The encoding parses to itself.
    #[verifier::type_invariant]
    closed spec fn canonical(&self) -> bool {
        age_identity(self.secret@) == Ok::<Seq<char>, Seq<char>>(self.secret@)
    }

    /// A new random key.
    pub fn generate() -> (r: Self)
        ensures
            age_identity(r.secret_text()) == Ok::<Seq<char>, Seq<char>>(r.secret_text()),
    {
        EncryptionKey { secret: generate_identity() }
    }

    /// The key encoded as `s` (Bech32); an error naming why it does not
    /// parse.
    pub fn from_string(s: &str) -> (r: Result<Self, CoreError>)
        ensures
            match age_identity(s@) {
                Ok(c) => r matches Ok(k) && k.secret_text() == c,
                Err(e) => r matches Err(CoreError::Invariant(m)) && m@ == "invalid key format: "@ + e,
            },
    {
        match parse_identity(s) {
            Ok(c) => Ok(EncryptionKey { secret: c }),
            Err(e) => {
                let mut out: Vec<char> = Vec::new();
                push_str(&mut out, "invalid key format: ");
                push_str(&mut out, e.as_str());
                Err(CoreError::Invariant(string_from_chars(&out)))
            },
        }
    }

    /// The key's canonical encoding, for storage.
    pub fn to_encoded_string(&self) -> (r: String)
        ensures
            r@ == self.secret_text(),
    {
        self.secret.clone()
    }

    /// The public key that encrypts to this key.
    pub fn public_key(&self) -> (r: ::age::x25519::Recipient)
        ensures
            r == age_recipient(self.secret_text()),
    {
        proof {
            use_type_invariant(self);
        }
        recipient_of(self.secret.as_str())
    }

    /// Encrypt `plaintext` for this key, as base64 text.
    pub fn encrypt(&self, plaintext: &[u8]) -> (r: Result<String, CoreError>)
        ensures
            r matches Ok(c) && sealed(self.secret_text(), plaintext@, c@),
    {
        proof {
            use_type_invariant(self);
        }
        let file = age_encrypt(self.secret.as_str(), plaintext);
        let text = b64_encode(file.as_slice());
        proof {
            assert(text@ == base64_encoded(file@) && age_opened(self.secret_text(), file@) == Ok::<Seq<u8>, bool>(plaintext@));
        }
        Ok(text)
    }

    /// Decrypt base64 text made by [`encrypt`](Self::encrypt).
    pub fn decrypt(&self, ciphertext: &str) -> (r: Result<Vec<u8>, CoreError>)
        ensures
            decryption(self.secret_text(), ciphertext@, r),
    {
        proof {
            use_type_invariant(self);
        }
        let file = match b64_decode(ciphertext) {
            Ok(f) => f,
            Err(e) => {
                let mut out: Vec<char> = Vec::new();
                push_str(&mut out, "invalid ciphertext encoding: ");
                push_str(&mut out, e.as_str());
                return Err(CoreError::Invariant(string_from_chars(&out)));
            },
        };
        match age_decrypt(self.secret.as_str(), file.as_slice()) {
            Ok(p) => Ok(p),
            Err((read, e)) => {
                let mut out: Vec<char> = Vec::new();
                if read {
                    push_str(&mut out, "read failed: ");
                } else {
                    push_str(&mut out, "decryption failed: ");
                }
                let ghost prefix = out@;
                push_str(&mut out, e.as_str());
                proof {
                    reveal_strlit("read failed: ");
                    reveal_strlit("decryption failed: ");
                    assert(out@.take(prefix.len() as int) =~= prefix);
                }
                Err(CoreError::Invariant(string_from_chars(&out)))
            },
        }
    }
}

/// What a key encrypts, the same key decrypts: a ciphertext sealed for
/// `plaintext` under a key decrypts, with that key, to `plaintext`.
pub proof fn lemma_decrypt_inverts_encrypt(
    secret: Seq<char>,
    plaintext: Seq<u8>,
    ciphertext: Seq<char>,
    r: Result<Vec<u8>, CoreError>,
)
    requires
        sealed(secret, plaintext, ciphertext),
        decryption(secret, ciphertext, r),
    ensures
        r matches Ok(v) && v@ == plaintext,
{
    let file = choose|file: Seq<u8>| ciphertext == base64_encoded(file) && age_opened(secret, file) == Ok::<Seq<u8>, bool>(plaintext);
    assert(ciphertext == base64_encoded(file) && age_opened(secret, file) == Ok::<Seq<u8>, bool>(plaintext));
}

} // verus!
