//! Abbreviation records: an acronym or abbreviation with its expansion.

use vstd::prelude::*;
use crate::error::{failure, yields, ErrorKind, ErrorView, ValueError};
use crate::number::{decode_i32, parse_integer};
use crate::text::{chars_of, is_word, spells, split_at, split_on};

verus! {

/// Who defined an abbreviation.
#[derive(Clone, Copy, PartialEq, Eq, Debug, Structural)]
pub enum AbbreviationType {
    /// MetaMap Acronyms and Abbreviations
    AA,
    /// User defined Acronyms and Abbreviations
    UA,
}

impl View for AbbreviationType {
    type V = AbbreviationType;

    open spec fn view(&self) -> AbbreviationType {
        *self
    }
}

impl DeepView for AbbreviationType {
    type V = AbbreviationType;

    open spec fn deep_view(&self) -> AbbreviationType {
        *self
    }
}

/// The abbreviation type that `s` spells: `AA` or `UA`, with every letter in
/// either case.
pub open spec fn abbreviation_type_of(s: Seq<char>) -> Option<AbbreviationType> {
    if is_word(s, "AA"@, "aa"@) {
        Some(AbbreviationType::AA)
    } else if is_word(s, "UA"@, "ua"@) {
        Some(AbbreviationType::UA)
    } else {
        None
    }
}

/// The abbreviation type that `s` spells, or the error about `s`.
pub open spec fn decode_abbreviation_type(s: Seq<char>) -> Result<AbbreviationType, ErrorView> {
    match abbreviation_type_of(s) {
        Some(t) => Ok(t),
        None => Err(failure(ErrorKind::EnumParse, s)),
    }
}

impl AbbreviationType {
    /// Reads an abbreviation type from its spelling, in any mix of cases.
    pub fn from_str(s: &str) -> (r: Result<AbbreviationType, ValueError>)
        ensures
            yields(r, decode_abbreviation_type(s@)),
    {
        let v = chars_of(s);
        assert(v@.skip(0) =~= s@);
        if spells(&v, 0, "AA", "aa") {
            Ok(AbbreviationType::AA)
        } else if spells(&v, 0, "UA", "ua") {
            Ok(AbbreviationType::UA)
        } else {
            Err(ValueError::new(ErrorKind::EnumParse, s))
        }
    }
}

/// Where the short form of an abbreviation stands in the source text.
#[derive(Clone, Copy, PartialEq, Eq, Debug, Structural)]
pub struct AaPosInfo {
    pub start: i32,
    pub length: i32,
}

impl View for AaPosInfo {
    type V = AaPosInfo;

    open spec fn view(&self) -> AaPosInfo {
        *self
    }
}

impl DeepView for AaPosInfo {
    type V = AaPosInfo;

    open spec fn deep_view(&self) -> AaPosInfo {
        *self
    }
}

/// The position that a start and a length write: both must be integers, and
/// the start is decoded first.
pub open spec fn decode_aa_pos_info(s: Seq<char>, l: Seq<char>) -> Result<AaPosInfo, ErrorView> {
    match decode_i32(s) {
        Err(e) => Err(e),
        Ok(start) => match decode_i32(l) {
            Err(e) => Err(e),
            Ok(length) => Ok(AaPosInfo { start, length }),
        },
    }
}

impl AaPosInfo {
    /// Makes a position from the texts of its start and its length.
    pub fn new(s: &str, l: &str) -> (r: Result<AaPosInfo, ValueError>)
        ensures
            yields(r, decode_aa_pos_info(s@, l@)),
    {
        let start = match parse_integer(s) {
            Err(e) => {
                return Err(e);
            },
            Ok(n) => n,
        };
        let length = match parse_integer(l) {
            Err(e) => {
                return Err(e);
            },
            Ok(n) => n,
        };
        Ok(AaPosInfo { start, length })
    }
}

/// The fields of an abbreviation record, by name, as they stand in the
/// record.
#[derive(PartialEq, Eq, Debug)]
pub struct AaFields {
    pub id: String,
    pub abbreviation_type: String,
    pub short_form: String,
    pub long_form: String,
    pub short_token_count: String,
    pub short_character_count: String,
    pub long_token_count: String,
    pub long_character_count: String,
    pub positional_info: String,
}

/// [`AaFields`] as a mathematical value.
pub struct AaFieldsView {
    pub id: Seq<char>,
    pub abbreviation_type: Seq<char>,
    pub short_form: Seq<char>,
    pub long_form: Seq<char>,
    pub short_token_count: Seq<char>,
    pub short_character_count: Seq<char>,
    pub long_token_count: Seq<char>,
    pub long_character_count: Seq<char>,
    pub positional_info: Seq<char>,
}

impl View for AaFields {
    type V = AaFieldsView;

    open spec fn view(&self) -> AaFieldsView {
        AaFieldsView {
            id: self.id@,
            abbreviation_type: self.abbreviation_type@,
            short_form: self.short_form@,
            long_form: self.long_form@,
            short_token_count: self.short_token_count@,
            short_character_count: self.short_character_count@,
            long_token_count: self.long_token_count@,
            long_character_count: self.long_character_count@,
            positional_info: self.positional_info@,
        }
    }
}

impl DeepView for AaFields {
    type V = AaFieldsView;

    open spec fn deep_view(&self) -> AaFieldsView {
        self@
    }
}

/// The number of fields of an abbreviation record.
pub const AA_FIELD_COUNT: usize = 9;

/// The named fields of an abbreviation record with the given parts: there
/// must be nine parts, and they are the fields in the order of the record.
pub open spec fn label_aa(parts: Seq<Seq<char>>) -> Result<AaFieldsView, ErrorView> {
    if parts.len() == 9 {
        Ok(
            AaFieldsView {
                id: parts[0],
                abbreviation_type: parts[1],
                short_form: parts[2],
                long_form: parts[3],
                short_token_count: parts[4],
                short_character_count: parts[5],
                long_token_count: parts[6],
                long_character_count: parts[7],
                positional_info: parts[8],
            },
        )
    } else {
        Err(
            failure(
                ErrorKind::Arity { expected: 9, actual: parts.len() as usize },
                Seq::empty(),
            ),
        )
    }
}

/// Labels AA records with the corresponding field names
pub fn label_aa_parts(parts: Vec<String>) -> (r: Result<AaFields, ValueError>)
    ensures
        yields(r, label_aa(parts.deep_view())),
{
    if parts.len() != AA_FIELD_COUNT {
        return Err(
            ValueError::bare(ErrorKind::Arity { expected: AA_FIELD_COUNT, actual: parts.len() }),
        );
    }
    Ok(
        AaFields {
            id: parts[0].clone(),
            abbreviation_type: parts[1].clone(),
            short_form: parts[2].clone(),
            long_form: parts[3].clone(),
            short_token_count: parts[4].clone(),
            short_character_count: parts[5].clone(),
            long_token_count: parts[6].clone(),
            long_character_count: parts[7].clone(),
            positional_info: parts[8].clone(),
        },
    )
}

/// An abbreviation record: an acronym or abbreviation that MetaMap found,
/// with its expansion.
#[derive(PartialEq, Eq, Debug)]
pub struct AaOutput {
    /// Unique identifier
    pub id: String,
    /// Abbreviation type: either MetaMap defined or User-defined
    pub abbreviation_type: AbbreviationType,
    /// Short form of the acronym/abbreviation
    pub short_form: String,
    /// Long form or expansion
    pub long_form: String,
    /// number of tokens (including whitespace) in short form
    pub short_token_count: i32,
    /// number of characters in short form
    pub short_character_count: i32,
    /// number of tokens (including whitespace) in long form
    pub long_token_count: i32,
    /// number of characters in long form
    pub long_character_count: i32,
    /// starting position of short form followed by ":" followed by character length of short form
    pub positional_info: AaPosInfo,
}

/// An [`AaOutput`] as a mathematical value.
pub struct AaOutputView {
    pub id: Seq<char>,
    pub abbreviation_type: AbbreviationType,
    pub short_form: Seq<char>,
    pub long_form: Seq<char>,
    pub short_token_count: i32,
    pub short_character_count: i32,
    pub long_token_count: i32,
    pub long_character_count: i32,
    pub positional_info: AaPosInfo,
}

impl View for AaOutput {
    type V = AaOutputView;

    open spec fn view(&self) -> AaOutputView {
        AaOutputView {
            id: self.id@,
            abbreviation_type: self.abbreviation_type,
            short_form: self.short_form@,
            long_form: self.long_form@,
            short_token_count: self.short_token_count,
            short_character_count: self.short_character_count,
            long_token_count: self.long_token_count,
            long_character_count: self.long_character_count,
            positional_info: self.positional_info,
        }
    }
}

impl DeepView for AaOutput {
    type V = AaOutputView;

    open spec fn deep_view(&self) -> AaOutputView {
        self@
    }
}

/// The position that the positional-information field of an abbreviation
/// record writes: a start and a length, separated by one colon.
pub open spec fn decode_aa_position(info: Seq<char>) -> Result<AaPosInfo, ErrorView> {
    let parts = split_on(info, ':');
    if parts.len() == 2 {
        decode_aa_pos_info(parts[0], parts[1])
    } else {
        Err(failure(ErrorKind::Shape, info))
    }
}

/// The four counts of an abbreviation record, decoded in the order of the
/// record; the first that is no integer decides the error.
pub open spec fn decode_aa_counts(fields: AaFieldsView) -> Result<(i32, i32, i32, i32), ErrorView> {
    match decode_i32(fields.short_token_count) {
        Err(e) => Err(e),
        Ok(short_tokens) => match decode_i32(fields.short_character_count) {
            Err(e) => Err(e),
            Ok(short_characters) => match decode_i32(fields.long_token_count) {
                Err(e) => Err(e),
                Ok(long_tokens) => match decode_i32(fields.long_character_count) {
                    Err(e) => Err(e),
                    Ok(long_characters) => Ok(
                        (short_tokens, short_characters, long_tokens, long_characters),
                    ),
                },
            },
        },
    }
}

/// The abbreviation record that the named fields write.  The abbreviation
/// type, the four counts and the position are decoded in this order, and the
/// first that cannot be decoded decides the error.  The identifier and the
/// two forms are taken as they stand.
pub open spec fn decode_aa(fields: AaFieldsView) -> Result<AaOutputView, ErrorView> {
    match decode_abbreviation_type(fields.abbreviation_type) {
        Err(e) => Err(e),
        Ok(abbreviation_type) => match decode_aa_counts(fields) {
            Err(e) => Err(e),
            Ok(counts) => match decode_aa_position(fields.positional_info) {
                Err(e) => Err(e),
                Ok(positional_info) => Ok(
                    AaOutputView {
                        id: fields.id,
                        abbreviation_type,
                        short_form: fields.short_form,
                        long_form: fields.long_form,
                        short_token_count: counts.0,
                        short_character_count: counts.1,
                        long_token_count: counts.2,
                        long_character_count: counts.3,
                        positional_info,
                    },
                ),
            },
        },
    }
}

/// Reads the positional-information field of an abbreviation record.
fn parse_aa_position(info: &str) -> (r: Result<AaPosInfo, ValueError>)
    ensures
        yields(r, decode_aa_position(info@)),
{
    let position_parts = split_at(info, ':');
    if position_parts.len() != 2 {
        return Err(ValueError::new(ErrorKind::Shape, info));
    }
    AaPosInfo::new(position_parts[0].as_str(), position_parts[1].as_str())
}

impl AaOutput {
    /// Makes an abbreviation record from its named fields.
    pub fn new(parts: AaFields) -> (r: Result<AaOutput, ValueError>)
        ensures
            yields(r, decode_aa(parts@)),
    {
        let abbreviation_type = match AbbreviationType::from_str(parts.abbreviation_type.as_str()) {
            Err(e) => {
                return Err(e);
            },
            Ok(t) => t,
        };
        let short_token_count = match parse_integer(parts.short_token_count.as_str()) {
            Err(e) => {
                return Err(e);
            },
            Ok(n) => n,
        };
        let short_character_count = match parse_integer(parts.short_character_count.as_str()) {
            Err(e) => {
                return Err(e);
            },
            Ok(n) => n,
        };
        let long_token_count = match parse_integer(parts.long_token_count.as_str()) {
            Err(e) => {
                return Err(e);
            },
            Ok(n) => n,
        };
        let long_character_count = match parse_integer(parts.long_character_count.as_str()) {
            Err(e) => {
                return Err(e);
            },
            Ok(n) => n,
        };
        let positional_info = match parse_aa_position(parts.positional_info.as_str()) {
            Err(e) => {
                return Err(e);
            },
            Ok(p) => p,
        };
        Ok(
            AaOutput {
                id: parts.id,
                abbreviation_type,
                short_form: parts.short_form,
                long_form: parts.long_form,
                short_token_count,
                short_character_count,
                long_token_count,
                long_character_count,
                positional_info,
            },
        )
    }
}

} // verus!
