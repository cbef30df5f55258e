//! Whole records: a line of fielded output is taken apart at its pipes, its
//! second field says which kind of record it is, and the decoder of that
//! kind makes the record.

use vstd::prelude::*;
use crate::abbreviation::{
    abbreviation_type_of,
    decode_aa,
    decode_aa_position,
    label_aa,
    label_aa_parts,
    AaOutput,
    AaOutputView,
    AbbreviationType,
};
use crate::concept::{
    decode_mmi,
    is_semantic_types_field,
    label_mmi,
    label_mmi_parts,
    tree_codes_of,
    MmiOutput,
    MmiOutputView,
};
use crate::error::{failure, yields, ErrorKind, ErrorView, ValueError};
use crate::number::{i32_of, is_float_text};
use crate::position::{decode_positions, is_positional_info, lemma_positional_info_decodes};
use crate::split::split_text;
use crate::text::{chars_of, delimiter_cuts, is_word, lemma_pieces_nonempty, spells, split_on};
use crate::trigger::{
    decode_triggers,
    is_triggers_field,
    lemma_triggers_field_decodes,
    location_of,
};

verus! {

/// A decoded record of either kind.
#[derive(PartialEq, Eq, Debug)]
pub enum Output {
    /// A concept record.
    MMI(MmiOutput),
    /// An abbreviation record.
    AA(AaOutput),
}

/// An [`Output`] as a mathematical value.
pub enum OutputView {
    MMI(MmiOutputView),
    AA(AaOutputView),
}

impl View for Output {
    type V = OutputView;

    open spec fn view(&self) -> OutputView {
        match self {
            Output::MMI(record) => OutputView::MMI(record@),
            Output::AA(record) => OutputView::AA(record@),
        }
    }
}

impl DeepView for Output {
    type V = OutputView;

    open spec fn deep_view(&self) -> OutputView {
        self@
    }
}

/// `s` names the kind of the concept records: `MMI`, with every letter in
/// either case.
pub open spec fn is_concept_kind(s: Seq<char>) -> bool {
    is_word(s, "MMI"@, "mmi"@)
}

/// `s` names a kind of abbreviation records: `AA` or `UA`, with every letter
/// in either case.
pub open spec fn is_abbreviation_kind(s: Seq<char>) -> bool {
    abbreviation_type_of(s) is Some
}

/// The field that says which kind of record the parts make: the second, or
/// the empty text where there is none.
pub open spec fn discriminator(parts: Seq<Seq<char>>) -> Seq<char> {
    if parts.len() >= 2 {
        parts[1]
    } else {
        Seq::empty()
    }
}

/// The record that the line `text` writes.  A line of ten fields whose
/// second field names the concept kind is decoded as a concept record, and a
/// line of nine fields whose second field names an abbreviation kind as an
/// abbreviation record.  Every other line is rejected for its kind, with its
/// second field as the offending text.
pub open spec fn decode_record(text: Seq<char>) -> Result<OutputView, ErrorView> {
    let parts = split_on(text, '|');
    if parts.len() == 10 && is_concept_kind(parts[1]) {
        match label_mmi(parts) {
            Err(e) => Err(e),
            Ok(fields) => match decode_mmi(fields) {
                Err(e) => Err(e),
                Ok(record) => Ok(OutputView::MMI(record)),
            },
        }
    } else if parts.len() == 9 && is_abbreviation_kind(parts[1]) {
        match label_aa(parts) {
            Err(e) => Err(e),
            Ok(fields) => match decode_aa(fields) {
                Err(e) => Err(e),
                Ok(record) => Ok(OutputView::AA(record)),
            },
        }
    } else {
        Err(failure(ErrorKind::UnknownKind, discriminator(parts)))
    }
}

/// Whether `s` names the kind of the concept records.
fn names_concept_kind(s: &str) -> (b: bool)
    ensures
        b == is_concept_kind(s@),
{
    let v = chars_of(s);
    assert(v@.skip(0) =~= s@);
    spells(&v, 0, "MMI", "mmi")
}

/// Whether `s` names a kind of abbreviation records.
fn names_abbreviation_kind(s: &str) -> (b: bool)
    ensures
        b == is_abbreviation_kind(s@),
{
    match AbbreviationType::from_str(s) {
        Ok(_) => true,
        Err(_) => false,
    }
}

/// The error for a line of no known kind of record.
fn unknown_kind(parts: &Vec<String>) -> (e: ValueError)
    ensures
        e@ == failure(ErrorKind::UnknownKind, discriminator(parts.deep_view())),
{
    if parts.len() >= 2 {
        ValueError::new(ErrorKind::UnknownKind, parts[1].as_str())
    } else {
        ValueError::bare(ErrorKind::UnknownKind)
    }
}

/// Decodes one line of fielded output into a record.
pub fn parse_mmi(text: &str) -> (r: Result<Output, ValueError>)
    ensures
        yields(r, decode_record(text@)),
        r matches Ok(Output::MMI(record)) ==> record@.well_formed(),
{
    let parts = split_text(text);
    if parts.len() == 10 && names_concept_kind(parts[1].as_str()) {
        let fields = match label_mmi_parts(parts) {
            Err(e) => {
                return Err(e);
            },
            Ok(fields) => fields,
        };
        match MmiOutput::new(fields) {
            Err(e) => Err(e),
            Ok(output) => Ok(Output::MMI(output)),
        }
    } else if parts.len() == 9 && names_abbreviation_kind(parts[1].as_str()) {
        let fields = match label_aa_parts(parts) {
            Err(e) => {
                return Err(e);
            },
            Ok(fields) => fields,
        };
        match AaOutput::new(fields) {
            Err(e) => Err(e),
            Ok(output) => Ok(Output::AA(output)),
        }
    } else {
        Err(unknown_kind(&parts))
    }
}

/// `line` is a concept record: it has ten fields, of which the second names
/// the concept kind, the third is a decimal number, the sixth stands in
/// brackets, the seventh is a list of triggers, the eighth spells a location
/// and the ninth is positional information.  Its other fields may hold
/// anything but a pipe.
pub open spec fn is_concept_line(line: Seq<char>) -> bool {
    let parts = split_on(line, '|');
    &&& parts.len() == 10
    &&& is_concept_kind(parts[1])
    &&& is_float_text(parts[2])
    &&& is_semantic_types_field(parts[5])
    &&& is_triggers_field(parts[6])
    &&& location_of(parts[7]) is Some
    &&& is_positional_info(parts[8])
}

/// `line` is an abbreviation record: it has nine fields, of which the second
/// names an abbreviation kind, the fifth to the eighth are integers, and the
/// ninth is two integers separated by one colon.
pub open spec fn is_abbreviation_line(line: Seq<char>) -> bool {
    let parts = split_on(line, '|');
    &&& parts.len() == 9
    &&& is_abbreviation_kind(parts[1])
    &&& i32_of(parts[4]) is Some
    &&& i32_of(parts[5]) is Some
    &&& i32_of(parts[6]) is Some
    &&& i32_of(parts[7]) is Some
    &&& split_on(parts[8], ':').len() == 2
    &&& i32_of(split_on(parts[8], ':')[0]) is Some
    &&& i32_of(split_on(parts[8], ':')[1]) is Some
}

/// Decoding a line gives a concept record exactly when the line is a
/// well-formed concept record.  The record then holds the first, second,
/// third, fourth and fifth field as they stand, the decoded triggers,
/// location and positions, and the tree codes of the last field; its score
/// is a decimal number, and it has at least one semantic type and at least
/// one position.
pub proof fn lemma_concept_line_decodes(line: Seq<char>)
    ensures
        is_concept_line(line) <==> decode_record(line) matches Ok(OutputView::MMI(_)),
        decode_record(line) matches Ok(OutputView::MMI(record)) ==> {
            let parts = split_on(line, '|');
            &&& record.well_formed()
            &&& record.id == parts[0]
            &&& record.mmi == parts[1]
            &&& record.score == parts[2]
            &&& record.name == parts[3]
            &&& record.cui == parts[4]
            &&& record.semantic_types == split_on(
                parts[5].subrange(1, parts[5].len() - 1),
                ',',
            )
            &&& decode_triggers(parts[6]) == Ok::<_, ErrorView>(record.triggers)
            &&& location_of(parts[7]) == Some(record.location)
            &&& decode_positions(parts[8]) == Ok::<_, ErrorView>(record.positional_info)
            &&& record.tree_codes == tree_codes_of(parts[9])
        },
{
    let parts = split_on(line, '|');
    if parts.len() == 10 {
        lemma_triggers_field_decodes(parts[6]);
        lemma_positional_info_decodes(parts[8]);
        if is_semantic_types_field(parts[5]) {
            let inner = parts[5].subrange(1, parts[5].len() - 1);
            lemma_pieces_nonempty(inner, delimiter_cuts(inner, ','), inner.len() as int);
        }
    }
}

/// Decoding a line gives an abbreviation record exactly when the line is a
/// well-formed abbreviation record.  The record then holds the first, third
/// and fourth field as they stand, and the type, the counts and the position
/// that the other fields write.
pub proof fn lemma_abbreviation_line_decodes(line: Seq<char>)
    ensures
        is_abbreviation_line(line) <==> decode_record(line) matches Ok(OutputView::AA(_)),
        decode_record(line) matches Ok(OutputView::AA(record)) ==> {
            let parts = split_on(line, '|');
            &&& record.id == parts[0]
            &&& abbreviation_type_of(parts[1]) == Some(record.abbreviation_type)
            &&& record.short_form == parts[2]
            &&& record.long_form == parts[3]
            &&& i32_of(parts[4]) == Some(record.short_token_count)
            &&& i32_of(parts[5]) == Some(record.short_character_count)
            &&& i32_of(parts[6]) == Some(record.long_token_count)
            &&& i32_of(parts[7]) == Some(record.long_character_count)
            &&& decode_aa_position(parts[8]) == Ok::<_, ErrorView>(record.positional_info)
        },
{
}

/// A line that is neither a well-formed concept record nor a well-formed
/// abbreviation record is rejected, and a line is never both.
pub proof fn lemma_other_lines_are_rejected(line: Seq<char>)
    ensures
        !(is_concept_line(line) && is_abbreviation_line(line)),
        !is_concept_line(line) && !is_abbreviation_line(line) <==> decode_record(line) is Err,
{
    lemma_concept_line_decodes(line);
    lemma_abbreviation_line_decodes(line);
}

/// The line has the number of fields of the kind of record that its second
/// field names.
pub open spec fn has_known_kind(line: Seq<char>) -> bool {
    let parts = split_on(line, '|');
    (parts.len() == 10 && is_concept_kind(parts[1])) || (parts.len() == 9 && is_abbreviation_kind(
        parts[1],
    ))
}

/// A line is rejected for its kind exactly when its second field names no
/// kind of record, or the line has not the number of fields of the kind that
/// it names.  The error then holds the second field.
pub proof fn lemma_unknown_kind(line: Seq<char>)
    ensures
        !has_known_kind(line) <==> (decode_record(line) is Err && decode_record(line)->Err_0.kind
            == ErrorKind::UnknownKind),
        !has_known_kind(line) ==> decode_record(line) == Err::<OutputView, ErrorView>(
            failure(ErrorKind::UnknownKind, discriminator(split_on(line, '|'))),
        ),
{
    let parts = split_on(line, '|');
    if parts.len() == 10 && is_concept_kind(parts[1]) {
        lemma_no_unknown_kind_within_concept(parts);
    } else if parts.len() == 9 && is_abbreviation_kind(parts[1]) {
        lemma_no_unknown_kind_within_abbreviation(parts);
    }
}

/// The decoder of concept records never rejects a record for its kind.
proof fn lemma_no_unknown_kind_within_concept(parts: Seq<Seq<char>>)
    requires
        parts.len() == 10,
    ensures
        label_mmi(parts) matches Ok(fields) && (decode_mmi(fields) matches Err(e) ==> e.kind
            != ErrorKind::UnknownKind),
{
    let fields = label_mmi(parts)->Ok_0;
    crate::trigger::lemma_triggers_error_kind(fields.triggers);
    crate::position::lemma_positions_error_kind(fields.positional_info);
}

/// The decoder of abbreviation records never rejects a record for its kind.
proof fn lemma_no_unknown_kind_within_abbreviation(parts: Seq<Seq<char>>)
    requires
        parts.len() == 9,
    ensures
        label_aa(parts) matches Ok(fields) && (decode_aa(fields) matches Err(e) ==> e.kind
            != ErrorKind::UnknownKind),
{
}

/// Decoding is a function of the line: whatever two runs of the decoder on
/// the same line return, they return the same record or the same error.
pub proof fn lemma_decoding_is_stable(
    line: Seq<char>,
    first: Result<Output, ValueError>,
    second: Result<Output, ValueError>,
)
    requires
        yields(first, decode_record(line)),
        yields(second, decode_record(line)),
    ensures
        first is Ok <==> second is Ok,
        first matches Ok(a) ==> second matches Ok(b) && a@ == b@,
        first matches Err(e) ==> second matches Err(f) && e@ == f@,
{
}

} // verus!
