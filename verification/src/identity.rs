//! Public keys in the forms in which they are shown.

use crate::hexcode::{hex_encode, hex_text};
use vstd::prelude::*;

verus! {

/// The bech32 text (`npub1...`) of a public key: what `ToBech32::to_bech32`
/// of the `nostr` crate gives for the key with these bytes.
pub uninterp spec fn npub_text(key: Seq<u8>) -> Seq<char>;

/// Calls `PublicKey::from_byte_array` and `ToBech32::to_bech32`. Trusted:
/// the text depends on the key's bytes alone. The encoder cannot fail for a
/// key.
#[verifier::external_body]
fn npub_encode(key: &[u8; 32]) -> (text: String)
    ensures
        text@ == npub_text(key@),
{
    nostr_sdk::ToBech32::to_bech32(&nostr_sdk::PublicKey::from_byte_array(*key)).unwrap_or_default()
}

/// A public key as it is shown: in hexadecimal text and in bech32 text.
pub struct ShownKey {
    pub hex: String,
    pub npub: String,
}

/// The two texts of a public key.
pub fn show_key(key: &[u8; 32]) -> (shown: ShownKey)
    ensures
        shown.hex@ == hex_text(key@),
        shown.npub@ == npub_text(key@),
{
    ShownKey { hex: hex_encode(key.as_slice()), npub: npub_encode(key) }
}

/// A secret key, carried through unopened.
#[verifier::external_type_specification]
#[verifier::external_body]
pub struct ExSecretKey(nostr_sdk::SecretKey);

/// The error of the key parser, carried through unopened.
#[verifier::external_type_specification]
#[verifier::external_body]
pub struct ExKeyParseError(nostr_sdk::key::Error);

/// The error of the bech32 parser, carried through unopened.
#[verifier::external_type_specification]
#[verifier::external_body]
pub struct ExBech32ParseError(nostr_sdk::nips::nip19::Error);

/// Why a text is no secret key.
#[derive(Clone, Copy, Debug, PartialEq, Eq, Structural)]
pub enum KeyError {
    /// The text begins like a bech32 secret key but is none.
    InvalidNsec,
    /// The text is no secret key in hexadecimal.
    InvalidHex,
}

/// Whether a text is a secret key in bech32: whether
/// `FromBech32::from_bech32` of the `nostr` crate reads a secret key from
/// it.
pub uninterp spec fn is_nsec_key(text: Seq<char>) -> bool;

/// Whether a text is a secret key in hexadecimal: whether
/// `SecretKey::from_hex` of the `nostr` crate reads a secret key from it.
pub uninterp spec fn is_hex_key(text: Seq<char>) -> bool;

/// Whether a text begins with `nsec`, as secret keys in bech32 do.
pub open spec fn has_nsec_prefix(text: Seq<char>) -> bool {
    text.len() >= 4 && text[0] == 'n' && text[1] == 's' && text[2] == 'e' && text[3] == 'c'
}

/// Calls `FromBech32::from_bech32` for a secret key. Trusted: whether it
/// succeeds depends on the text alone.
#[verifier::external_body]
fn secret_from_bech32(text: &str) -> (read: Result<
    nostr_sdk::SecretKey,
    nostr_sdk::nips::nip19::Error,
>)
    ensures
        read.is_ok() == is_nsec_key(text@),
{
    nostr_sdk::FromBech32::from_bech32(text)
}

/// Calls `SecretKey::from_hex`. Trusted: whether it succeeds depends on the
/// text alone.
#[verifier::external_body]
fn secret_from_hex(text: &str) -> (read: Result<nostr_sdk::SecretKey, nostr_sdk::key::Error>)
    ensures
        read.is_ok() == is_hex_key(text@),
{
    nostr_sdk::SecretKey::from_hex(text)
}

/// Whether a text begins with `nsec`.
pub fn starts_with_nsec(text: &str) -> (begins: bool)
    ensures
        begins == has_nsec_prefix(text@),
{
    text.unicode_len() >= 4 && text.get_char(0) == 'n' && text.get_char(1) == 's' && text.get_char(
        2,
    ) == 'e' && text.get_char(3) == 'c'
}

/// Reads a secret key from its text. A text that begins with `nsec` is read
/// as bech32, and every other text as hexadecimal.
pub fn parse_secret_key(input: &str) -> (parsed: Result<nostr_sdk::SecretKey, KeyError>)
    ensures
        has_nsec_prefix(input@) ==> parsed.is_ok() == is_nsec_key(input@),
        !has_nsec_prefix(input@) ==> parsed.is_ok() == is_hex_key(input@),
        parsed.is_err() ==> parsed->Err_0 == if has_nsec_prefix(input@) {
            KeyError::InvalidNsec
        } else {
            KeyError::InvalidHex
        },
{
    if starts_with_nsec(input) {
        match secret_from_bech32(input) {
            Ok(key) => Ok(key),
            Err(_) => Err(KeyError::InvalidNsec),
        }
    } else {
        match secret_from_hex(input) {
            Ok(key) => Ok(key),
            Err(_) => Err(KeyError::InvalidHex),
        }
    }
}

/// Where the identity's key comes from when the client is set up.
#[derive(Clone, Copy, Debug, PartialEq, Eq, Structural)]
pub enum KeySource {
    /// From the key file that was named for import; it is written to the
    /// identity's key file.
    Import,
    /// From the identity's key file, which exists already.
    Existing,
    /// A new key is generated and written to the identity's key file.
    Generate,
}

/// Decides where the identity's key comes from: a key that is given for
/// import comes first, an existing key file second, and only where there
/// is neither a new key is made.
pub fn key_source(import_given: bool, key_file_exists: bool) -> (source: KeySource)
    ensures
        source == if import_given {
            KeySource::Import
        } else if key_file_exists {
            KeySource::Existing
        } else {
            KeySource::Generate
        },
{
    if import_given {
        KeySource::Import
    } else if key_file_exists {
        KeySource::Existing
    } else {
        KeySource::Generate
    }
}

/// Whether setting up wrote the identity's key file: always, but where the
/// existing file was used.
pub fn key_created(source: KeySource) -> (created: bool)
    ensures
        created == (source != KeySource::Existing),
{
    match source {
        KeySource::Existing => false,
        _ => true,
    }
}

} // verus!
