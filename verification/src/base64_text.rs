//! Base64 text and the bytes it stands for.

use vstd::prelude::*;
use crate::error::Base64Error;

verus! {

/// What `base64::decode` makes of `text`: the standard alphabet, with `=`
/// padding accepted but not asked for.
pub uninterp spec fn base64_decoded(text: Seq<u8>) -> Result<Seq<u8>, Base64Error>;

/// What base64 `text` decodes to. A text of more than `isize::MAX` bytes is
/// never handed to the decoder: it is reported as having an invalid length.
pub open spec fn base64_result(text: Seq<u8>) -> Result<Seq<u8>, Base64Error> {
    if text.len() <= isize::MAX {
        base64_decoded(text)
    } else {
        Err(Base64Error::InvalidLength)
    }
}

/// `base64::decode`. Trusted: the result is a function of the text alone,
/// named `base64_decoded`. The crate sizes its buffer from the length of the
/// text and panics where that overflows, so longer texts are kept out.
#[verifier::external_body]
fn base64_decode(text: &[u8]) -> (r: Result<Vec<u8>, Base64Error>)
    requires
        text@.len() <= isize::MAX,
    ensures
        match r {
            Ok(bytes) => base64_decoded(text@) == Ok::<Seq<u8>, Base64Error>(bytes@),
            Err(e) => base64_decoded(text@) == Err::<Seq<u8>, Base64Error>(e),
        },
{
    match base64::decode(text) {
        Ok(bytes) => Ok(bytes),
        Err(base64::DecodeError::InvalidByte(at, byte)) => Err(Base64Error::InvalidByte(at, byte)),
        Err(base64::DecodeError::InvalidLength) => Err(Base64Error::InvalidLength),
        Err(base64::DecodeError::InvalidLastSymbol(at, byte)) => Err(
            Base64Error::InvalidLastSymbol(at, byte),
        ),
    }
}

/// Decodes base64 text.
pub fn decode_base64(text: &[u8]) -> (r: Result<Vec<u8>, Base64Error>)
    ensures
        match r {
            Ok(bytes) => base64_result(text@) == Ok::<Seq<u8>, Base64Error>(bytes@),
            Err(e) => base64_result(text@) == Err::<Seq<u8>, Base64Error>(e),
        },
{
    if text.len() <= isize::MAX as usize {
        base64_decode(text)
    } else {
        Err(Base64Error::InvalidLength)
    }
}

} // verus!
