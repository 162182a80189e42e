//! Base-16 text: what it means for a byte string to be written as hex
//! digits, and the two calls into the `hex` crate that do it.

use hex::FromHex;
use vstd::prelude::*;

verus! {

/// The lower-case digit that writes a value below sixteen.
pub open spec fn digit_char(n: int) -> char {
    if n < 10 {
        (n + 48) as u8 as char
    } else {
        (n + 87) as u8 as char
    }
}

/// Whether `c` is one of `0-9`, `a-f`, `A-F`.
pub open spec fn is_hex_digit(c: char) -> bool {
    ||| 48 <= c as int <= 57
    ||| 97 <= c as int <= 102
    ||| 65 <= c as int <= 70
}

/// The value of a hex digit, in either case.
pub open spec fn digit_value(c: char) -> int {
    if 48 <= c as int <= 57 {
        c as int - 48
    } else if 97 <= c as int <= 102 {
        c as int - 87
    } else {
        c as int - 55
    }
}

/// The hex text of `bytes`: two lower-case digits per byte, high half first.
pub open spec fn hex_encode(bytes: Seq<u8>) -> Seq<char> {
    Seq::new(
        2 * bytes.len(),
        |i: int|
            if i % 2 == 0 {
                digit_char(bytes[i / 2] as int / 16)
            } else {
                digit_char(bytes[i / 2] as int % 16)
            },
    )
}

/// Whether `text` is the hex text of some byte string: an even number of
/// hex digits and nothing else.
pub open spec fn is_hex_text(text: Seq<char>) -> bool {
    &&& text.len() % 2 == 0
    &&& forall|i: int| 0 <= i < text.len() ==> is_hex_digit(#[trigger] text[i])
}

/// The bytes that hex text stands for.
pub open spec fn hex_decode(text: Seq<char>) -> Seq<u8> {
    Seq::new(
        text.len() / 2,
        |i: int| (digit_value(text[2 * i]) * 16 + digit_value(text[2 * i + 1])) as u8,
    )
}

/// Every digit that `digit_char` writes is read back by `digit_value`.
pub proof fn lemma_digit_round_trip(n: int)
    requires
        0 <= n < 16,
    ensures
        is_hex_digit(digit_char(n)),
        digit_value(digit_char(n)) == n,
{
}

/// Encoding is reversible: the hex text of any byte string is hex text, and
/// decoding it gives the byte string back.
pub proof fn lemma_hex_round_trip(bytes: Seq<u8>)
    ensures
        is_hex_text(hex_encode(bytes)),
        hex_decode(hex_encode(bytes)) == bytes,
        hex_encode(bytes).len() == 2 * bytes.len(),
{
    let text = hex_encode(bytes);
    assert forall|i: int| 0 <= i < text.len() implies is_hex_digit(#[trigger] text[i]) by {
        let b = bytes[i / 2] as int;
        lemma_digit_round_trip(b / 16);
        lemma_digit_round_trip(b % 16);
    }
    assert forall|i: int| 0 <= i < bytes.len() implies hex_decode(text)[i] == bytes[i] by {
        let b = bytes[i] as int;
        lemma_digit_round_trip(b / 16);
        lemma_digit_round_trip(b % 16);
        assert((2 * i) / 2 == i && (2 * i) % 2 == 0);
        assert((2 * i + 1) / 2 == i && (2 * i + 1) % 2 == 1);
    }
    assert(hex_decode(text) =~= bytes);
}

/// Encoding is injective: two byte strings with the same hex text are equal.
pub proof fn lemma_hex_encode_injective(a: Seq<u8>, b: Seq<u8>)
    requires
        hex_encode(a) == hex_encode(b),
    ensures
        a == b,
{
    lemma_hex_round_trip(a);
    lemma_hex_round_trip(b);
}

/// The error that `hex` gives for text that is not hex text. Opaque here:
/// callers only learn that decoding failed.
#[verifier::external_type_specification]
#[verifier::external_body]
pub struct ExFromHexError(hex::FromHexError);

/// Calls `hex::encode`. Trusted: the text returned writes each byte of
/// `data` as two lower-case hex digits, high half first, in order.
#[verifier::external_body]
pub(crate) fn to_hex(data: &[u8]) -> (text: String)
    ensures
        text@ == hex_encode(data@),
{
    hex::encode(data)
}

/// Calls `Vec::<u8>::from_hex`. Trusted: it succeeds exactly on an even
/// number of hex digits of either case, and then returns the byte that each
/// pair of digits stands for, high half first; on any other text it fails.
#[verifier::external_body]
pub(crate) fn from_hex(text: &str) -> (decoded: Result<Vec<u8>, hex::FromHexError>)
    ensures
        decoded is Ok <==> is_hex_text(text@),
        decoded matches Ok(bytes) ==> bytes@ == hex_decode(text@),
{
    Vec::from_hex(text)
}

} // verus!
