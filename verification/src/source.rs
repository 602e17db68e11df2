//! Where the bytes of one unit come from.

use rand::RngCore;
use vstd::prelude::*;
use vstd::utf8::encode_utf8;
use crate::base64_text::{base64_result, decode_base64};
use crate::error::AppError;
use crate::hex_text::{hex_decode, hex_decoded};

verus! {

/// `rand::rngs::ThreadRng`, the handle to the thread's generator.
#[verifier::external_type_specification]
#[verifier::external_body]
pub struct ExThreadRng(rand::rngs::ThreadRng);

/// A read that only the caller can perform.
#[derive(Debug, PartialEq, Eq)]
pub enum Fetch {
    /// The whole content of the file at this path.
    File(String),
    /// At most this many bytes of standard input.
    Stdin(usize),
}

/// What a source answers when it is asked for its bytes.
#[derive(Debug, PartialEq, Eq)]
pub enum Extracted {
    /// The bytes of one unit.
    Bytes(Vec<u8>),
    /// Nothing yet: the caller has to make this read and supply what it gave.
    Pending(Fetch),
}

/// What a source answers, as contracts speak of it.
pub enum Outcome {
    /// The bytes of one unit.
    Bytes(Seq<u8>),
    /// Nothing yet: this read has to be made first.
    Pending(Fetch),
    /// The input cannot be resolved.
    Failed(AppError),
}

/// The outcome that a returned value stands for.
pub open spec fn outcome_of(r: Result<Extracted, AppError>) -> Outcome {
    match r {
        Ok(Extracted::Bytes(data)) => Outcome::Bytes(data@),
        Ok(Extracted::Pending(fetch)) => Outcome::Pending(fetch),
        Err(e) => Outcome::Failed(e),
    }
}

/// The input that was selected, as it was written on the command line.
#[derive(Debug, PartialEq, Eq)]
pub enum InputDataType {
    /// Hexadecimal text.
    Hex(String),
    /// Base64 text.
    Base64(String),
    /// The path of a file whose content is the input.
    File(String),
    /// Text whose UTF-8 encoding is the input.
    U8String(String),
    /// Standard input, of which at most this many bytes are read.
    Sin(usize),
    /// No input at all.
    Unresolved,
}

impl InputDataType {
    /// What this input resolves to. A text is decoded; a file and standard
    /// input are left to the caller; no input is an error.
    pub open spec fn outcome(&self) -> Outcome {
        match self {
            InputDataType::Hex(text) => match hex_decoded(encode_utf8(text@)) {
                Ok(bytes) => Outcome::Bytes(bytes),
                Err(e) => Outcome::Failed(AppError::HexParse(e)),
            },
            InputDataType::Base64(text) => match base64_result(encode_utf8(text@)) {
                Ok(bytes) => Outcome::Bytes(bytes),
                Err(e) => Outcome::Failed(AppError::Base64Parse(e)),
            },
            InputDataType::File(path) => Outcome::Pending(Fetch::File(*path)),
            InputDataType::U8String(text) => Outcome::Bytes(encode_utf8(text@)),
            InputDataType::Sin(max) => Outcome::Pending(Fetch::Stdin(*max)),
            InputDataType::Unresolved => Outcome::Failed(AppError::UnknownInputError),
        }
    }

    /// Resolves the input without looking at any cache.
    pub fn get_bytes(&self) -> (r: Result<Extracted, AppError>)
        ensures
            outcome_of(r) == self.outcome(),
    {
        match self {
            InputDataType::Hex(text) => match hex_decode(text.as_str().as_bytes()) {
                Ok(bytes) => Ok(Extracted::Bytes(bytes)),
                Err(e) => Err(AppError::HexParse(e)),
            },
            InputDataType::Base64(text) => match decode_base64(text.as_str().as_bytes()) {
                Ok(bytes) => Ok(Extracted::Bytes(bytes)),
                Err(e) => Err(AppError::Base64Parse(e)),
            },
            InputDataType::File(path) => Ok(Extracted::Pending(Fetch::File(path.clone()))),
            InputDataType::U8String(text) => {
                let mut data: Vec<u8> = Vec::new();
                append(&mut data, text.as_str().as_bytes());
                Ok(Extracted::Bytes(data))
            },
            InputDataType::Sin(max) => Ok(Extracted::Pending(Fetch::Stdin(*max))),
            InputDataType::Unresolved => Err(AppError::UnknownInputError),
        }
    }
}

/// Appends `bytes` to `buffer`.
pub(crate) fn append(buffer: &mut Vec<u8>, bytes: &[u8])
    ensures
        final(buffer)@ == old(buffer)@ + bytes@,
{
    buffer.extend_from_slice(bytes);
}

/// A copy of `bytes`.
fn duplicate(bytes: &Vec<u8>) -> (copy: Vec<u8>)
    ensures
        copy@ == bytes@,
{
    bytes.clone()
}

/// `rand::thread_rng`. Trusted, with nothing claimed of the handle. The
/// generator is seeded from the operating system when a thread first asks
/// for it, and the call panics if that fails.
#[verifier::external_body]
fn thread_rng() -> rand::rngs::ThreadRng {
    rand::thread_rng()
}

/// `RngCore::fill_bytes` of the thread's generator. Trusted: it overwrites
/// the bytes of `dest` and leaves their number as it is. Nothing is said of
/// the bytes themselves. The generator reseeds itself from the operating
/// system from time to time and panics if that fails.
#[verifier::external_body]
fn fill_bytes(rng: &mut rand::rngs::ThreadRng, dest: &mut Vec<u8>)
    ensures
        final(dest)@.len() == old(dest)@.len(),
{
    rng.fill_bytes(dest.as_mut_slice())
}

/// A source of units: the selected input, what it resolved to, and a random
/// generator that takes the place of both when `is_random` is set.
#[derive(Debug)]
pub struct InputData {
    input_data_type: InputDataType,
    cached: Option<Vec<u8>>,
    is_random: bool,
    rnd: rand::rngs::ThreadRng,
}

/// A source as contracts speak of it: all of it but the generator.
pub struct InputDataView {
    pub input_data_type: InputDataType,
    pub cached: Option<Seq<u8>>,
    pub is_random: bool,
}

impl View for InputData {
    type V = InputDataView;

    closed spec fn view(&self) -> InputDataView {
        InputDataView {
            input_data_type: self.input_data_type,
            cached: match self.cached {
                Some(bytes) => Some(bytes@),
                None => None,
            },
            is_random: self.is_random,
        }
    }
}

impl InputDataView {
    /// What a source that is not random answers: the cache if there is one,
    /// else what the input resolves to.
    pub open spec fn outcome(self) -> Outcome {
        match self.cached {
            Some(bytes) => Outcome::Bytes(bytes),
            None => self.input_data_type.outcome(),
        }
    }

    /// The source after it has answered: bytes that were resolved for the
    /// first time are now cached, and nothing else has changed.
    pub open spec fn settled(self) -> InputDataView {
        match (self.cached, self.input_data_type.outcome()) {
            (None, Outcome::Bytes(bytes)) => InputDataView { cached: Some(bytes), ..self },
            _ => self,
        }
    }

    /// The read that the caller has to make before this source can answer.
    pub open spec fn pending(self) -> Option<Fetch> {
        match self.outcome() {
            Outcome::Pending(fetch) if !self.is_random => Some(fetch),
            _ => None,
        }
    }

    /// The source after the caller supplied `data`: it is cached if a read
    /// was pending, and dropped otherwise.
    pub open spec fn supplied(self, data: Seq<u8>) -> InputDataView {
        if self.pending() is Some {
            InputDataView { cached: Some(data), ..self }
        } else {
            self
        }
    }
}

impl InputData {
    /// A source that has resolved nothing yet.
    pub fn new(input_data_type: InputDataType, is_random: bool) -> (source: InputData)
        ensures
            source@ == (InputDataView { input_data_type, cached: None, is_random }),
    {
        InputData { input_data_type, cached: None, is_random, rnd: thread_rng() }
    }

    /// The input that was selected.
    pub fn input_data_type(&self) -> (input: &InputDataType)
        ensures
            *input == self@.input_data_type,
    {
        &self.input_data_type
    }

    /// Whether the source is random.
    pub fn is_random(&self) -> (random: bool)
        ensures
            random == self@.is_random,
    {
        self.is_random
    }

    /// The bytes that the input resolved to, once it has.
    pub fn cached(&self) -> (cached: Option<&Vec<u8>>)
        ensures
            match cached {
                Some(bytes) => self@.cached == Some(bytes@),
                None => self@.cached is None,
            },
    {
        self.cached.as_ref()
    }

    /// The bytes of one unit.
    ///
    /// A random source draws `max_length` fresh bytes on every call and
    /// never touches the cache. Any other source ignores `max_length`: it
    /// resolves its input on the first call, keeps the bytes, and answers
    /// every later call with a copy of them.
    pub fn get_bytes(&mut self, max_length: usize) -> (r: Result<Extracted, AppError>)
        ensures
            if old(self)@.is_random {
                &&& final(self)@ == old(self)@
                &&& r matches Ok(Extracted::Bytes(data)) && data@.len() == max_length
            } else {
                &&& final(self)@ == old(self)@.settled()
                &&& outcome_of(r) == old(self)@.outcome()
            },
    {
        if self.is_random {
            let mut data: Vec<u8> = Vec::new();
            data.resize(max_length, 0u8);
            fill_bytes(&mut self.rnd, &mut data);
            return Ok(Extracted::Bytes(data));
        }
        if let Some(cached) = self.cached.as_ref() {
            return Ok(Extracted::Bytes(duplicate(cached)));
        }
        match self.input_data_type.get_bytes() {
            Ok(Extracted::Bytes(result)) => {
                self.cached = Some(duplicate(&result));
                Ok(Extracted::Bytes(result))
            },
            other => other,
        }
    }

    /// Takes what the pending read gave. Bytes are cached, so that the next
    /// call of `get_bytes` answers with them; a failed read is handed back
    /// as the error of the run and leaves the source as it was.
    pub fn supply(&mut self, read: Result<Vec<u8>, std::io::Error>) -> (r: Result<(), AppError>)
        ensures
            match read {
                Ok(data) => r is Ok && final(self)@ == old(self)@.supplied(data@),
                Err(e) => r == Err::<(), AppError>(AppError::Io(e)) && final(self)@ == old(self)@,
            },
    {
        match read {
            Ok(data) => {
                if !self.is_random && self.cached.is_none() {
                    match &self.input_data_type {
                        InputDataType::File(_) => {
                            self.cached = Some(data);
                        },
                        InputDataType::Sin(_) => {
                            self.cached = Some(data);
                        },
                        _ => {},
                    }
                }
                Ok(())
            },
            Err(e) => Err(AppError::Io(e)),
        }
    }
}

/// A source without input and without cache is rejected, unless it is
/// random.
pub proof fn lemma_unresolved_is_rejected(source: InputDataView)
    requires
        !source.is_random,
        source.cached is None,
        source.input_data_type is Unresolved,
    ensures
        source.outcome() == Outcome::Failed(AppError::UnknownInputError),
        source.settled() == source,
{
}

/// Bytes that are cached stay: neither an answer nor a supplied read
/// replaces them, and a source that is not random answers with them.
pub proof fn lemma_cache_is_kept(source: InputDataView, data: Seq<u8>)
    requires
        source.cached is Some,
    ensures
        source.settled() == source,
        source.supplied(data) == source,
        !source.is_random ==> source.outcome() == Outcome::Bytes(source.cached->0),
{
}

/// Asking a source that is not random a second time gives what the first
/// call gave, bytes or failure alike, and changes nothing any more.
pub proof fn lemma_second_answer_repeats_first(source: InputDataView)
    requires
        !source.is_random,
    ensures
        source.settled().outcome() == source.outcome(),
        source.settled().settled() == source.settled(),
{
}

} // verus!
