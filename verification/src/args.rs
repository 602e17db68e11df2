//! From the values of the command line to what a run needs.

use vstd::prelude::*;
use vstd::utf8::encode_utf8;
use crate::error::AppError;
use crate::hex_text::{hex_decode, hex_decoded};
use crate::number::{decimal_within, parse_u64, parse_usize};
use crate::source::{InputData, InputDataType, InputDataView};

verus! {

/// The values that were given on the command line, each as it was written.
#[derive(Debug)]
pub struct Arguments {
    /// The path of the output file; standard output without one.
    pub output: Option<String>,
    /// The path of the input file.
    pub input_file: Option<String>,
    /// The input as hexadecimal text.
    pub input_hex: Option<String>,
    /// The input as base64 text.
    pub input_base64: Option<String>,
    /// The input as text.
    pub input_string: Option<String>,
    /// Whether random input was asked for.
    pub input_random: bool,
    /// The bound on what is read of standard input, as decimal text.
    pub input_stdin: Option<String>,
    /// The delimiter as hexadecimal text.
    pub delimiter: Option<String>,
    /// The repeat count as decimal text.
    pub count: Option<String>,
}

/// What the arguments say of the input.
pub enum Choice {
    /// This input, and no other, was selected.
    Input(InputDataType),
    /// Standard input, and no other, was selected, with a bound that is no
    /// number.
    BadBound,
    /// Nothing was selected.
    Nothing,
    /// More than one input was selected.
    Several,
}

/// One for an input that was given, nothing for one that was not.
pub open spec fn one_if(given: bool) -> nat {
    if given {
        1
    } else {
        0
    }
}

impl Arguments {
    /// How many of the six inputs were selected.
    pub open spec fn selected(&self) -> nat {
        one_if(self.input_base64 is Some) + one_if(self.input_hex is Some) + one_if(
            self.input_file is Some,
        ) + one_if(self.input_string is Some) + one_if(self.input_random) + one_if(
            self.input_stdin is Some,
        )
    }

    /// The input that the arguments select. The inputs exclude each other:
    /// more than one is no selection. Random input has no input of its own.
    pub open spec fn choice(&self) -> Choice {
        if self.selected() > 1 {
            Choice::Several
        } else if let Some(text) = self.input_base64 {
            Choice::Input(InputDataType::Base64(text))
        } else if let Some(text) = self.input_hex {
            Choice::Input(InputDataType::Hex(text))
        } else if let Some(path) = self.input_file {
            Choice::Input(InputDataType::File(path))
        } else if let Some(text) = self.input_string {
            Choice::Input(InputDataType::U8String(text))
        } else if self.input_random {
            Choice::Input(InputDataType::Unresolved)
        } else if let Some(text) = self.input_stdin {
            match decimal_within(text@, usize::MAX as nat) {
                Some(max) => Choice::Input(InputDataType::Sin(max as usize)),
                None => Choice::BadBound,
            }
        } else {
            Choice::Nothing
        }
    }

    /// Counts the inputs that were selected.
    fn count_selected(&self) -> (selected: u8)
        ensures
            selected == self.selected(),
    {
        let mut selected: u8 = 0;
        if self.input_base64.is_some() {
            selected = selected + 1;
        }
        if self.input_hex.is_some() {
            selected = selected + 1;
        }
        if self.input_file.is_some() {
            selected = selected + 1;
        }
        if self.input_string.is_some() {
            selected = selected + 1;
        }
        if self.input_random {
            selected = selected + 1;
        }
        if self.input_stdin.is_some() {
            selected = selected + 1;
        }
        selected
    }
}

/// The source that the one selected input gives, with nothing resolved yet.
/// It is random exactly if random input was selected. No input and more
/// than one input are both rejected as an unknown input, before anything is
/// looked at.
pub fn get_inputvalue(args: &Arguments) -> (r: Result<InputData, AppError>)
    ensures
        match args.choice() {
            Choice::Input(input) => r matches Ok(source) && source@ == (InputDataView {
                input_data_type: input,
                cached: None,
                is_random: args.input_random,
            }),
            Choice::BadBound => r matches Err(AppError::DecimalParseError(_)),
            Choice::Nothing => r matches Err(AppError::UnknownInputError),
            Choice::Several => r matches Err(AppError::UnknownInputError),
        },
{
    if args.count_selected() != 1 {
        return Err(AppError::UnknownInputError);
    }
    let inputdata = if let Some(b64) = &args.input_base64 {
        InputDataType::Base64(b64.clone())
    } else if let Some(hex) = &args.input_hex {
        InputDataType::Hex(hex.clone())
    } else if let Some(f) = &args.input_file {
        InputDataType::File(f.clone())
    } else if let Some(s) = &args.input_string {
        InputDataType::U8String(s.clone())
    } else if let Some(s) = &args.input_stdin {
        match parse_usize(s.as_str()) {
            Ok(max) => InputDataType::Sin(max),
            Err(e) => {
                return Err(AppError::DecimalParseError(e));
            },
        }
    } else {
        InputDataType::Unresolved
    };
    Ok(InputData::new(inputdata, args.input_random))
}

/// A file and hexadecimal text together are no selection, whatever else
/// is given.
pub proof fn lemma_file_with_hex_is_rejected(args: Arguments)
    requires
        args.input_file is Some && args.input_hex is Some,
    ensures
        args.selected() >= 2,
        args.choice() is Several,
{
}

/// A source that comes of the arguments is random exactly if it has no
/// input of its own.
pub proof fn lemma_random_has_no_input(args: Arguments)
    requires
        args.choice() is Input,
    ensures
        args.input_random <==> args.choice()->Input_0 is Unresolved,
{
}

/// The delimiter: the bytes of the hexadecimal text that was given, and no
/// bytes where none was given.
pub fn get_delimiter(args: &Arguments) -> (r: Result<Vec<u8>, AppError>)
    ensures
        match args.delimiter {
            Some(text) => match hex_decoded(encode_utf8(text@)) {
                Ok(bytes) => r matches Ok(delimiter) && delimiter@ == bytes,
                Err(e) => r == Err::<Vec<u8>, AppError>(AppError::HexParse(e)),
            },
            None => r matches Ok(delimiter) && delimiter@ == Seq::<u8>::empty(),
        },
{
    if let Some(s) = &args.delimiter {
        match hex_decode(s.as_str().as_bytes()) {
            Ok(bytes) => Ok(bytes),
            Err(e) => Err(AppError::HexParse(e)),
        }
    } else {
        Ok(Vec::new())
    }
}

/// The repeat count. A count is required: one that was not given is read
/// as the empty text, which is no number.
pub fn get_count(args: &Arguments) -> (r: Result<u64, AppError>)
    ensures
        match args.count {
            Some(text) => match decimal_within(text@, u64::MAX as nat) {
                Some(count) => r == Ok::<u64, AppError>(count as u64),
                None => r matches Err(AppError::DecimalParseError(_)),
            },
            None => r matches Err(AppError::DecimalParseError(_)),
        },
{
    let text: &str = match &args.count {
        Some(s) => s.as_str(),
        None => "",
    };
    proof {
        reveal_strlit("");
    }
    match parse_u64(text) {
        Ok(count) => Ok(count),
        Err(e) => Err(AppError::DecimalParseError(e)),
    }
}

} // verus!
