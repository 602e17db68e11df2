//! Byte-stream generation: a unit of bytes is taken from a source, repeated a
//! number of times with an optional delimiter in between, and handed out in
//! buffered chunks for writing.
//!
//! Everything here is verified. Reading files and standard input and writing
//! the chunks is left to the caller, which is told what to do by [`Action`]
//! and answers through [`InputData::supply`].

pub mod args;
pub mod base64_text;
pub mod error;
pub mod generator;
pub mod hex_text;
pub mod number;
pub mod reader;
pub mod source;

pub use args::{
    get_count, get_delimiter, get_inputvalue, lemma_file_with_hex_is_rejected,
    lemma_random_has_no_input, one_if, Arguments, Choice,
};
pub use base64_text::{base64_decoded, base64_result, decode_base64};
pub use error::{AppError, Base64Error, HexError};
pub use generator::{
    emitted, joined, lemma_emitted_grows, lemma_emitted_push, lemma_finished_output,
    lemma_large_output_takes_several_writes, lemma_several_writes,
    lemma_zero_count_writes_nothing, Action, Generator, FLUSH_THRESHOLD,
};
pub use hex_text::{
    hex_decoded, hex_digit, hex_digit_value, hex_pairs, leading_hex_digits, lemma_hex_decoded_ok,
    lemma_leading_hex_digits,
};
pub use number::{
    all_decimal_digits, decimal_digit, decimal_value, decimal_within, digits_value, unsigned_part,
};
pub use reader::{
    after_reads, lemma_accepted_length, lemma_reads_gathered, lemma_reads_kept_whole, BoundedRead,
    BoundedReadView,
};
pub use source::{
    lemma_cache_is_kept, lemma_second_answer_repeats_first, lemma_unresolved_is_rejected,
    outcome_of, Extracted, Fetch, InputData, InputDataType, InputDataView, Outcome,
};
