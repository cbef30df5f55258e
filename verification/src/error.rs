//! The error of the decoder and the relation between executable results and
//! their mathematical models.

use vstd::prelude::*;

verus! {

/// What was wrong with the text that a decoder rejected.
#[derive(Clone, Copy, PartialEq, Eq, Debug)]
pub enum ErrorKind {
    /// A record does not have the number of fields that its kind has.
    Arity { expected: usize, actual: usize },
    /// The record-kind field names no known kind of record.
    UnknownKind,
    /// Positional information has none of the four known shapes.
    Classification,
    /// A numeric field is not a decimal integer that fits 32 bits.
    IntegerParse,
    /// The score is not a decimal floating-point number.
    FloatParse,
    /// A group does not have the number of parts that it must have.
    Shape,
    /// A location or an abbreviation type is not one of the known spellings.
    EnumParse,
    /// A flag is neither `1` nor `0`.
    BooleanParse,
}

/// A value of the input was not what the record format allows.
#[derive(Debug)]
pub struct ValueError {
    /// What was wrong.
    pub kind: ErrorKind,
    /// The offending text: the field, sub-field or group that was rejected.
    pub text: String,
}

/// A [`ValueError`] as a mathematical value.
pub struct ErrorView {
    pub kind: ErrorKind,
    pub text: Seq<char>,
}

impl View for ValueError {
    type V = ErrorView;

    open spec fn view(&self) -> ErrorView {
        ErrorView { kind: self.kind, text: self.text@ }
    }
}

impl DeepView for ValueError {
    type V = ErrorView;

    open spec fn deep_view(&self) -> ErrorView {
        self@
    }
}

/// The error of the given kind about the given text.
pub open spec fn failure(kind: ErrorKind, text: Seq<char>) -> ErrorView {
    ErrorView { kind, text }
}

/// The executable result `r` is the modelled result `m`: both succeed with
/// the same value, or both fail with the same error.
pub open spec fn yields<T: DeepView>(r: Result<T, ValueError>, m: Result<T::V, ErrorView>) -> bool {
    match m {
        Ok(x) => r matches Ok(v) && v.deep_view() == x,
        Err(e) => r matches Err(f) && f@ == e,
    }
}

impl ValueError {
    /// The error of the given kind about the given text.
    pub fn new(kind: ErrorKind, text: &str) -> (e: ValueError)
        ensures
            e@ == failure(kind, text@),
    {
        ValueError { kind, text: text.to_owned() }
    }

    /// The error of the given kind that is about no text in particular.
    pub fn bare(kind: ErrorKind) -> (e: ValueError)
        ensures
            e@ == failure(kind, Seq::empty()),
    {
        ValueError { kind, text: String::new() }
    }

    /// The message shown for every error of the decoder.
    pub fn message(&self) -> (m: String)
        ensures
            m@ == "Received an unexpected value"@,
    {
        "Received an unexpected value".to_owned()
    }
}

} // verus!
