//! The errors of a run.

use vstd::prelude::*;

verus! {

/// Why a text is not hexadecimal.
#[derive(Debug, Clone, Copy, PartialEq, Eq)]
pub enum HexError {
    /// The byte at `index`, read as the character `c`, is no hexadecimal digit.
    InvalidHexCharacter { c: char, index: usize },
    /// The text has an odd number of bytes, so the last digit has no partner.
    OddLength,
    /// The decoded bytes do not fill a container of fixed size. Decoding
    /// into a vector never fails so.
    InvalidStringLength,
}

/// Why a text is not base64.
#[derive(Debug, Clone, Copy, PartialEq, Eq)]
pub enum Base64Error {
    /// The byte at the given offset is not in the alphabet.
    InvalidByte(usize, u8),
    /// The number of symbols cannot be the encoding of whole bytes.
    InvalidLength,
    /// The last symbol, at the given offset, carries bits that would be lost.
    InvalidLastSymbol(usize, u8),
}

/// `std::num::ParseIntError`, carried as it comes.
#[verifier::external_type_specification]
#[verifier::external_body]
pub struct ExParseIntError(std::num::ParseIntError);

/// `std::io::Error`, carried as it comes.
#[verifier::external_type_specification]
#[verifier::external_body]
pub struct ExIoError(std::io::Error);

/// `rand::Error`, carried as it comes.
#[verifier::external_type_specification]
#[verifier::external_body]
pub struct ExRandError(rand::Error);

/// Every way in which a run can fail. The first failure ends the run.
#[derive(Debug)]
pub enum AppError {
    /// A file, standard input or the output could not be read or written.
    Io(std::io::Error),
    /// The hexadecimal input or delimiter is malformed.
    HexParse(HexError),
    /// The base64 input is malformed.
    Base64Parse(Base64Error),
    /// The repeat count or the bound on standard input is no decimal number.
    DecimalParseError(std::num::ParseIntError),
    /// A random generator reported a failure. No function of this library
    /// returns it: the generator of the thread does not report failures.
    RandomError(rand::Error),
    /// No input was selected.
    UnknownInputError,
}

} // verus!
