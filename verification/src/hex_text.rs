//! Hexadecimal text and the bytes it stands for.

use vstd::prelude::*;
use crate::error::HexError;

verus! {

/// `b` is one of `0`..`9`, `A`..`F`, `a`..`f`.
pub open spec fn hex_digit(b: u8) -> bool {
    ||| 0x30 <= b <= 0x39
    ||| 0x41 <= b <= 0x46
    ||| 0x61 <= b <= 0x66
}

/// The number that the hexadecimal digit `b` stands for.
pub open spec fn hex_digit_value(b: u8) -> int {
    if 0x30 <= b <= 0x39 {
        b - 0x30
    } else if 0x41 <= b <= 0x46 {
        b - 0x41 + 10
    } else {
        b - 0x61 + 10
    }
}

/// How many bytes at the start of `text` are hexadecimal digits.
pub open spec fn leading_hex_digits(text: Seq<u8>) -> nat
    decreases text.len(),
{
    if text.len() == 0 || !hex_digit(text[0]) {
        0
    } else {
        1 + leading_hex_digits(text.drop_first())
    }
}

/// One byte for each pair of digits: the first digit is the high half.
pub open spec fn hex_pairs(text: Seq<u8>) -> Seq<u8> {
    Seq::new(
        text.len() / 2,
        |i: int| (16 * hex_digit_value(text[2 * i]) + hex_digit_value(text[2 * i + 1])) as u8,
    )
}

/// What hexadecimal `text` decodes to. An odd length is reported before
/// anything else, then the first byte that is no digit.
pub open spec fn hex_decoded(text: Seq<u8>) -> Result<Seq<u8>, HexError> {
    let digits = leading_hex_digits(text);
    if text.len() % 2 != 0 {
        Err(HexError::OddLength)
    } else if digits < text.len() {
        Err(HexError::InvalidHexCharacter { c: text[digits as int] as char, index: digits as usize })
    } else {
        Ok(hex_pairs(text))
    }
}

/// The leading digits are digits, and the byte behind them, if there is
/// one, is none.
pub proof fn lemma_leading_hex_digits(text: Seq<u8>)
    ensures
        leading_hex_digits(text) <= text.len(),
        forall|i: int| 0 <= i < leading_hex_digits(text) ==> hex_digit(#[trigger] text[i]),
        leading_hex_digits(text) < text.len() ==> !hex_digit(text[leading_hex_digits(text) as int]),
    decreases text.len(),
{
    if text.len() > 0 && hex_digit(text[0]) {
        let rest = text.drop_first();
        lemma_leading_hex_digits(rest);
        assert forall|i: int| 0 <= i < leading_hex_digits(text) implies hex_digit(
            #[trigger] text[i],
        ) by {
            if i > 0 {
                assert(text[i] == rest[i - 1]);
            }
        }
        if leading_hex_digits(text) < text.len() {
            assert(text[leading_hex_digits(text) as int] == rest[leading_hex_digits(rest) as int]);
        }
    }
}

/// Text decodes exactly if it has an even number of bytes and all of them
/// are digits, and then to half as many bytes.
pub proof fn lemma_hex_decoded_ok(text: Seq<u8>)
    ensures
        hex_decoded(text) is Ok <==> text.len() % 2 == 0 && forall|i: int|
            0 <= i < text.len() ==> hex_digit(#[trigger] text[i]),
        hex_decoded(text) matches Ok(bytes) ==> bytes.len() == text.len() / 2,
{
    lemma_leading_hex_digits(text);
}

/// `hex::decode`. Trusted: the result is `hex_decoded` of the text. The
/// crate checks the length first, then turns each pair of digits into a byte
/// and stops at the first byte that is no digit, which it reports with its
/// position.
#[verifier::external_body]
pub(crate) fn hex_decode(text: &[u8]) -> (r: Result<Vec<u8>, HexError>)
    ensures
        match r {
            Ok(bytes) => hex_decoded(text@) == Ok::<Seq<u8>, HexError>(bytes@),
            Err(e) => hex_decoded(text@) == Err::<Seq<u8>, HexError>(e),
        },
{
    match hex::decode(text) {
        Ok(bytes) => Ok(bytes),
        Err(hex::FromHexError::InvalidHexCharacter { c, index }) => Err(
            HexError::InvalidHexCharacter { c, index },
        ),
        Err(hex::FromHexError::OddLength) => Err(HexError::OddLength),
        Err(hex::FromHexError::InvalidStringLength) => Err(HexError::InvalidStringLength),
    }
}

} // verus!
