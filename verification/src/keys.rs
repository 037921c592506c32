//! Curve25519 key texts: how a key is read from its text form, how the public key of a
//! secret key is obtained, and how fresh keys are made.
//!
//! The cryptography is boringtun's and the text encoding is base64's; this module states
//! what the rest of the library relies on from both.

use boringtun::crypto::X25519PublicKey;
use boringtun::crypto::X25519SecretKey;
use vstd::prelude::*;
use vstd::string::*;
use vstd::utf8::is_ascii_chars;

verus! {

/// Number of bytes of a Curve25519 key, secret or public.
pub const KEY_LEN: usize = 32;

/// boringtun's secret key. Nothing of its inside is visible here; the bytes it holds are
/// named by [`secret_key_bytes`].
#[verifier::external_type_specification]
#[verifier::external_body]
pub struct ExX25519SecretKey(X25519SecretKey);

/// boringtun's public key. Nothing of its inside is visible here; the bytes it holds are
/// named by [`public_key_bytes`].
#[verifier::external_type_specification]
#[verifier::external_body]
pub struct ExX25519PublicKey(X25519PublicKey);

/// The bytes that a secret key holds, as `X25519SecretKey::as_bytes` hands them out.
pub uninterp spec fn secret_key_bytes(key: X25519SecretKey) -> Seq<u8>;

/// The bytes that a public key holds, as `X25519PublicKey::as_bytes` hands them out.
pub uninterp spec fn public_key_bytes(key: X25519PublicKey) -> Seq<u8>;

/// What boringtun's `FromStr` for its key types makes of a text: the key's bytes, or the
/// message it refuses the text with.
pub uninterp spec fn key_text_parse(text: Seq<char>) -> Result<Seq<u8>, Seq<char>>;

/// The public key that boringtun's `X25519SecretKey::public_key` derives from the bytes
/// of a secret key.
pub uninterp spec fn x25519_public(secret: Seq<u8>) -> Seq<u8>;

/// The text that `base64::encode` gives for a sequence of bytes.
pub uninterp spec fn base64_text(bytes: Seq<u8>) -> Seq<char>;

/// The bytes that `base64::decode` reads from a text, if it reads it.
pub uninterp spec fn base64_value(text: Seq<char>) -> Option<Seq<u8>>;

/// A text that was read as a key of these bytes.
pub open spec fn parsed_key(bytes: Seq<u8>) -> Result<Seq<u8>, Seq<char>> {
    Ok(bytes)
}

/// A text that was refused with this message.
pub open spec fn refused_key(message: Seq<char>) -> Result<Seq<u8>, Seq<char>> {
    Err(message)
}

/// Number of bytes that a text takes in UTF-8.
pub open spec fn text_byte_len(text: Seq<char>) -> nat {
    vstd::utf8::encode_utf8(text).len()
}

/// The three byte lengths that boringtun takes for an encoded key: base64 without and
/// with padding, and hexadecimal.
pub open spec fn has_key_text_len(text: Seq<char>) -> bool {
    let n = text_byte_len(text);
    n == 43 || n == 44 || n == 64
}

/// Number of characters of the base64 text of `n` bytes.
pub open spec fn base64_len(n: nat) -> nat {
    4 * ((n + 2) / 3)
}

/// Message of a text whose length is that of no key encoding.
pub open spec fn illegal_size_message() -> Seq<char> {
    "Illegal key size"@
}

/// Message of a text with the length of a key encoding that does not decode to a key.
pub open spec fn illegal_character_message() -> Seq<char> {
    "Illegal character in key"@
}

/// The message that a text is refused with, if it is refused.
pub open spec fn refusal_message(text: Seq<char>) -> Seq<char> {
    if has_key_text_len(text) {
        illegal_character_message()
    } else {
        illegal_size_message()
    }
}

/// `X25519SecretKey::from_str`, its message as a `String`. The call slices a text of 64
/// bytes into pairs of bytes, which only a text of one-byte characters is sure to allow,
/// so such a text is asked to be ASCII. The result is named by [`key_text_parse`]. As the
/// source shows: a text of any length but 43, 44 and 64 bytes is refused for its size,
/// every other refusal is for an illegal character, and the base64 text of 32 bytes is
/// read back as those bytes.
#[verifier::external_body]
fn secret_key_from_text(text: &str) -> (parsed: Result<X25519SecretKey, String>)
    requires
        text_byte_len(text@) == 64 ==> is_ascii(text),
    ensures
        parsed matches Ok(key) ==> key_text_parse(text@) == parsed_key(secret_key_bytes(key)),
        parsed matches Err(message) ==> key_text_parse(text@) == refused_key(message@),
        parsed matches Ok(key) ==> secret_key_bytes(key).len() == KEY_LEN,
        !has_key_text_len(text@) ==> parsed is Err,
        parsed matches Err(message) ==> message@ == refusal_message(text@),
        forall|bytes: Seq<u8>|
            bytes.len() == KEY_LEN && text@ == #[trigger] base64_text(bytes) ==> parsed is Ok,
        parsed matches Ok(key) ==> forall|bytes: Seq<u8>|
            bytes.len() == KEY_LEN && text@ == #[trigger] base64_text(bytes) ==> secret_key_bytes(
                key,
            ) == bytes,
{
    match text.parse::<X25519SecretKey>() {
        Ok(key) => Ok(key),
        Err(message) => Err(message.to_string()),
    }
}

/// `X25519PublicKey::from_str`, its message as a `String`. It reads the text as
/// `X25519SecretKey::from_str` does and keeps the bytes, so it shares [`key_text_parse`]
/// and the demand on a text of 64 bytes.
#[verifier::external_body]
fn public_key_from_text(text: &str) -> (parsed: Result<X25519PublicKey, String>)
    requires
        text_byte_len(text@) == 64 ==> is_ascii(text),
    ensures
        parsed matches Ok(key) ==> key_text_parse(text@) == parsed_key(public_key_bytes(key)),
        parsed matches Err(message) ==> key_text_parse(text@) == refused_key(message@),
        parsed matches Ok(key) ==> public_key_bytes(key).len() == KEY_LEN,
        !has_key_text_len(text@) ==> parsed is Err,
        parsed matches Err(message) ==> message@ == refusal_message(text@),
{
    match text.parse::<X25519PublicKey>() {
        Ok(key) => Ok(key),
        Err(message) => Err(message.to_string()),
    }
}

/// `X25519SecretKey::new`: a key from the system's random source, without which the
/// call does not return. Nothing is known of its bytes but their number, which
/// [`X25519SecretKey::as_bytes`] states.
pub assume_specification[ X25519SecretKey::new ]() -> (key: X25519SecretKey)
;

/// `X25519SecretKey::as_bytes`: the 32 bytes of the key.
pub assume_specification[ X25519SecretKey::as_bytes ](key: &X25519SecretKey) -> (bytes: &[u8])
    ensures
        bytes@ == secret_key_bytes(*key),
        bytes@.len() == KEY_LEN,
;

/// `X25519PublicKey::as_bytes`: the 32 bytes of the key.
pub assume_specification[ X25519PublicKey::as_bytes ](key: &X25519PublicKey) -> (bytes: &[u8])
    ensures
        bytes@ == public_key_bytes(*key),
        bytes@.len() == KEY_LEN,
;

/// `X25519SecretKey::public_key`: the public key of a secret key, a function of the
/// secret key's bytes alone, named by [`x25519_public`].
pub assume_specification[ X25519SecretKey::public_key ](key: &X25519SecretKey) -> (public: X25519PublicKey)
    ensures
        public_key_bytes(public) == x25519_public(secret_key_bytes(*key)),
;

/// `base64::encode` on a slice of bytes, named by [`base64_text`]. The text is made of
/// ASCII characters, four for every three bytes begun. The bound keeps the length of the
/// text within `usize`, beyond which the call panics.
#[verifier::external_body]
fn base64_encode(bytes: &[u8]) -> (text: String)
    requires
        bytes@.len() <= usize::MAX / 2,
    ensures
        text@ == base64_text(bytes@),
        text@.len() == base64_len(bytes@.len()),
        is_ascii_chars(text@),
{
    base64::encode(bytes)
}

/// `base64::decode` on a text, named by [`base64_value`]; a text it refuses gives
/// nothing. The base64 text of some bytes is read back as those bytes.
#[verifier::external_body]
fn base64_decode(text: &str) -> (decoded: Option<Vec<u8>>)
    ensures
        decoded matches Some(bytes) ==> base64_value(text@) == Some(bytes@),
        decoded is None ==> base64_value(text@) is None,
        forall|bytes: Seq<u8>| text@ == #[trigger] base64_text(bytes) ==> decoded is Some,
        decoded matches Some(found) ==> forall|bytes: Seq<u8>|
            text@ == #[trigger] base64_text(bytes) ==> found@ == bytes,
{
    base64::decode(text).ok()
}

/// True of a text that is not even looked at as a key: one of 64 bytes that is not
/// ASCII, so that it cannot be hexadecimal, and one of 43 or 44 bytes that is not
/// base64.
pub open spec fn is_malformed(text: Seq<char>) -> bool {
    ||| text_byte_len(text) == 64 && !is_ascii_chars(text)
    ||| (text_byte_len(text) == 43 || text_byte_len(text) == 44) && base64_value(text) is None
}

/// What a text stands for as a key: its 32 bytes, or the message it is refused with.
/// A malformed text is refused as holding an illegal character; every other text is
/// read as boringtun reads it.
pub open spec fn key_of_text(text: Seq<char>) -> Result<Seq<u8>, Seq<char>> {
    if is_malformed(text) {
        Err(illegal_character_message())
    } else {
        key_text_parse(text)
    }
}

/// Says whether a text is malformed.
fn check_malformed(text: &str) -> (malformed: bool)
    ensures
        malformed == is_malformed(text@),
        forall|bytes: Seq<u8>|
            is_ascii_chars(text@) && text@ == #[trigger] base64_text(bytes) ==> !malformed,
{
    let len = text.as_bytes().len();
    if len == 64 {
        !text.is_ascii()
    } else if len == 43 || len == 44 {
        base64_decode(text).is_none()
    } else {
        false
    }
}

/// Reads a secret key from its text, base64 or hexadecimal.
pub fn parse_secret_key(text: &str) -> (parsed: Result<X25519SecretKey, String>)
    ensures
        match parsed {
            Ok(key) => key_of_text(text@) == parsed_key(secret_key_bytes(key))
                && secret_key_bytes(key).len() == KEY_LEN,
            Err(message) => key_of_text(text@) == refused_key(message@) && message@
                == refusal_message(text@),
        },
        forall|bytes: Seq<u8>|
            bytes.len() == KEY_LEN && is_ascii_chars(text@) && text@ == #[trigger] base64_text(
                bytes,
            ) ==> (parsed matches Ok(key) && secret_key_bytes(key) == bytes),
{
    if check_malformed(text) {
        Err("Illegal character in key".to_owned())
    } else {
        secret_key_from_text(text)
    }
}

/// Reads a public key from its text, base64 or hexadecimal.
pub fn parse_public_key(text: &str) -> (parsed: Result<X25519PublicKey, String>)
    ensures
        match parsed {
            Ok(key) => key_of_text(text@) == parsed_key(public_key_bytes(key))
                && public_key_bytes(key).len() == KEY_LEN,
            Err(message) => key_of_text(text@) == refused_key(message@) && message@
                == refusal_message(text@),
        },
{
    if check_malformed(text) {
        Err("Illegal character in key".to_owned())
    } else {
        public_key_from_text(text)
    }
}

/// The one error of [`pubkey`].
#[derive(Clone, Copy, Debug, PartialEq, Eq, Structural)]
pub enum KeyError {
    /// The text is not that of a private key.
    InvalidPrivateKey,
}

impl KeyError {
    /// The message shown to the embedding application.
    pub open spec fn message_spec(self) -> Seq<char> {
        "Invalid private key."@
    }

    /// The message shown to the embedding application.
    pub fn message(&self) -> (text: String)
        ensures
            text@ == self.message_spec(),
    {
        "Invalid private key.".to_owned()
    }
}

/// True of the texts that [`genkey`] can return: the base64 text of some 32 bytes.
pub open spec fn is_generated_key(text: Seq<char>) -> bool {
    &&& is_ascii_chars(text)
    &&& text.len() == 44
    &&& exists|secret: Seq<u8>| secret.len() == KEY_LEN && text == #[trigger] base64_text(secret)
}

/// What [`pubkey`] owes for a private key's text: the base64 text of the public key of
/// the key that the text stands for, or the error if it stands for none.
pub open spec fn is_pubkey_of(private_key: Seq<char>, public: Result<Seq<char>, KeyError>) -> bool {
    match key_of_text(private_key) {
        Ok(secret) => public == Ok::<Seq<char>, KeyError>(base64_text(x25519_public(secret))),
        Err(_) => public == Err::<Seq<char>, KeyError>(KeyError::InvalidPrivateKey),
    }
}

/// The view of a result of [`pubkey`].
pub open spec fn pubkey_view(public: Result<String, KeyError>) -> Result<Seq<char>, KeyError> {
    match public {
        Ok(text) => Ok(text@),
        Err(error) => Err(error),
    }
}

/// Generates a private key and returns its base64 text.
pub fn genkey() -> (text: String)
    ensures
        is_generated_key(text@),
{
    let key = X25519SecretKey::new();
    let bytes = key.as_bytes();
    let text = base64_encode(bytes);
    assert(bytes@.len() == KEY_LEN && text@ == base64_text(bytes@));
    text
}

/// Returns the base64 text of the public key that belongs to a private key, given as
/// text. A key made by [`genkey`] is never refused, and the text returned is always that
/// of 32 bytes.
pub fn pubkey(private_key: String) -> (public: Result<String, KeyError>)
    ensures
        is_pubkey_of(private_key@, pubkey_view(public)),
        is_generated_key(private_key@) ==> public is Ok,
        public matches Ok(text) ==> text@.len() == 44 && is_ascii_chars(text@),
{
    match parse_secret_key(private_key.as_str()) {
        Ok(key) => {
            let public_key = key.public_key();
            let bytes = public_key.as_bytes();
            Ok(base64_encode(bytes))
        },
        Err(_) => Err(KeyError::InvalidPrivateKey),
    }
}

} // verus!
