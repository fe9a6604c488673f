//! Hexadecimal text for identifiers: the mathematical definition of the
//! encoding, and the calls into the `hex` crate that compute it.

use vstd::prelude::*;

verus! {

/// The sixteen lowercase hexadecimal digits, in order of value.
pub open spec fn hex_digits() -> Seq<char> {
    seq!['0', '1', '2', '3', '4', '5', '6', '7', '8', '9', 'a', 'b', 'c', 'd', 'e', 'f']
}

/// The lowercase hexadecimal text of a byte string: two digits per byte,
/// the high nibble first.
pub open spec fn hex_text(bytes: Seq<u8>) -> Seq<char> {
    Seq::new(
        2 * bytes.len(),
        |i: int|
            if i % 2 == 0 {
                hex_digits()[bytes[i / 2] as int / 16]
            } else {
                hex_digits()[bytes[i / 2] as int % 16]
            },
    )
}

/// The value of a hexadecimal digit of either case; `None` for any other
/// character.
pub open spec fn hex_value(c: char) -> Option<int> {
    if '0' <= c && c <= '9' {
        Some(c as int - '0' as int)
    } else if 'a' <= c && c <= 'f' {
        Some(c as int - 'a' as int + 10)
    } else if 'A' <= c && c <= 'F' {
        Some(c as int - 'A' as int + 10)
    } else {
        None
    }
}

/// Whether a text is the hexadecimal form of some byte string: an even
/// number of characters, each a hexadecimal digit.
pub open spec fn is_hex_text(s: Seq<char>) -> bool {
    &&& s.len() % 2 == 0
    &&& forall|i: int| 0 <= i < s.len() ==> (#[trigger] hex_value(s[i])).is_some()
}

/// The byte string that a hexadecimal text stands for.
pub open spec fn hex_bytes(s: Seq<char>) -> Seq<u8> {
    Seq::new(
        s.len() / 2,
        |i: int| (16 * hex_value(s[2 * i]).unwrap() + hex_value(s[2 * i + 1]).unwrap()) as u8,
    )
}

/// The error of the `hex` crate's decoder, carried through unopened.
#[verifier::external_type_specification]
#[verifier::external_body]
pub struct ExFromHexError(hex::FromHexError);

/// Calls `hex::encode`. Trusted: the result is the lowercase hexadecimal
/// text of `bytes`, two digits per byte, as the crate documents.
#[verifier::external_body]
pub(crate) fn hex_encode(bytes: &[u8]) -> (text: String)
    ensures
        text@ == hex_text(bytes@),
{
    hex::encode(bytes)
}

/// Calls `hex::decode`. Trusted: it succeeds exactly on texts of even
/// length made of hexadecimal digits of either case, and then returns the
/// bytes they stand for.
#[verifier::external_body]
pub(crate) fn hex_decode(text: &str) -> (decoded: Result<Vec<u8>, hex::FromHexError>)
    ensures
        decoded.is_ok() == is_hex_text(text@),
        decoded.is_ok() ==> decoded.unwrap()@ == hex_bytes(text@),
{
    hex::decode(text)
}

/// The hexadecimal text of an identifier.
pub fn encode_id(bytes: &[u8]) -> (text: String)
    ensures
        text@ == hex_text(bytes@),
        text@.len() == 2 * bytes@.len(),
{
    hex_encode(bytes)
}

/// The bytes of an identifier given as hexadecimal text, or `None` where
/// the text is no hexadecimal text.
pub fn decode_id(text: &str) -> (bytes: Option<Vec<u8>>)
    ensures
        bytes.is_some() == is_hex_text(text@),
        bytes.is_some() ==> bytes.unwrap()@ == hex_bytes(text@),
{
    match hex_decode(text) {
        Ok(v) => Some(v),
        Err(_) => None,
    }
}

/// Every digit of a hexadecimal text has the value of the nibble that it
/// was written for.
proof fn lemma_digit_value(n: int)
    requires
        0 <= n < 16,
    ensures
        hex_value(hex_digits()[n]) == Some(n),
{
    if n == 0 {
    } else if n == 1 {
    } else if n == 2 {
    } else if n == 3 {
    } else if n == 4 {
    } else if n == 5 {
    } else if n == 6 {
    } else if n == 7 {
    } else if n == 8 {
    } else if n == 9 {
    } else if n == 10 {
    } else if n == 11 {
    } else if n == 12 {
    } else if n == 13 {
    } else if n == 14 {
    } else {
    }
}

/// Decoding undoes encoding: the hexadecimal text of any byte string is a
/// hexadecimal text, and it stands for that byte string.
pub proof fn lemma_hex_round_trip(bytes: Seq<u8>)
    ensures
        is_hex_text(hex_text(bytes)),
        hex_bytes(hex_text(bytes)) == bytes,
{
    let t = hex_text(bytes);
    assert forall|i: int| 0 <= i < t.len() implies (#[trigger] hex_value(t[i])).is_some() by {
        let b = bytes[i / 2] as int;
        if i % 2 == 0 {
            lemma_digit_value(b / 16);
        } else {
            lemma_digit_value(b % 16);
        }
    }
    assert forall|i: int| 0 <= i < bytes.len() implies hex_bytes(t)[i] == bytes[i] by {
        let b = bytes[i] as int;
        assert((2 * i) / 2 == i && (2 * i) % 2 == 0);
        assert((2 * i + 1) / 2 == i && (2 * i + 1) % 2 == 1);
        lemma_digit_value(b / 16);
        lemma_digit_value(b % 16);
        assert(t[2 * i] == hex_digits()[b / 16]);
        assert(t[2 * i + 1] == hex_digits()[b % 16]);
        assert(16 * (b / 16) + b % 16 == b);
    }
    assert(hex_bytes(t).len() == bytes.len());
    assert(hex_bytes(t) =~= bytes);
}

/// Two byte strings with the same hexadecimal text are the same.
pub proof fn lemma_hex_text_injective(a: Seq<u8>, b: Seq<u8>)
    requires
        hex_text(a) == hex_text(b),
    ensures
        a == b,
{
    lemma_hex_round_trip(a);
    lemma_hex_round_trip(b);
}

} // verus!
