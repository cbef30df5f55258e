//! Concept records: one concept that MetaMap found in a document, with its
//! score, its triggers and its positions.

use vstd::prelude::*;
use crate::error::{failure, yields, ErrorKind, ErrorView, ValueError};
use crate::number::{is_float, is_float_text};
use crate::position::{decode_positions, parse_positional_info, Position};
use crate::text::{chars_of, lemma_pieces_nonempty, split_at, split_on, text_of};
use crate::trigger::{
    decode_location,
    decode_triggers,
    parse_triggers,
    Location,
    Trigger,
    TriggerView,
};

verus! {

/// The fields of a concept record, by name, as they stand in the record.
#[derive(PartialEq, Eq, Debug)]
pub struct MmiFields {
    pub id: String,
    pub mmi: String,
    pub score: String,
    pub name: String,
    pub cui: String,
    pub semantic_types: String,
    pub triggers: String,
    pub location: String,
    pub positional_info: String,
    pub tree_codes: String,
}

/// [`MmiFields`] as a mathematical value.
pub struct MmiFieldsView {
    pub id: Seq<char>,
    pub mmi: Seq<char>,
    pub score: Seq<char>,
    pub name: Seq<char>,
    pub cui: Seq<char>,
    pub semantic_types: Seq<char>,
    pub triggers: Seq<char>,
    pub location: Seq<char>,
    pub positional_info: Seq<char>,
    pub tree_codes: Seq<char>,
}

impl View for MmiFields {
    type V = MmiFieldsView;

    open spec fn view(&self) -> MmiFieldsView {
        MmiFieldsView {
            id: self.id@,
            mmi: self.mmi@,
            score: self.score@,
            name: self.name@,
            cui: self.cui@,
            semantic_types: self.semantic_types@,
            triggers: self.triggers@,
            location: self.location@,
            positional_info: self.positional_info@,
            tree_codes: self.tree_codes@,
        }
    }
}

impl DeepView for MmiFields {
    type V = MmiFieldsView;

    open spec fn deep_view(&self) -> MmiFieldsView {
        self@
    }
}

/// The number of fields of a concept record.
pub const MMI_FIELD_COUNT: usize = 10;

/// The named fields of a concept record with the given parts: there must be
/// ten parts, and they are the fields in the order of the record.
pub open spec fn label_mmi(parts: Seq<Seq<char>>) -> Result<MmiFieldsView, ErrorView> {
    if parts.len() == 10 {
        Ok(
            MmiFieldsView {
                id: parts[0],
                mmi: parts[1],
                score: parts[2],
                name: parts[3],
                cui: parts[4],
                semantic_types: parts[5],
                triggers: parts[6],
                location: parts[7],
                positional_info: parts[8],
                tree_codes: parts[9],
            },
        )
    } else {
        Err(
            failure(
                ErrorKind::Arity { expected: 10, actual: parts.len() as usize },
                Seq::empty(),
            ),
        )
    }
}

/// Labels the parts of a pipe-split concept record with the field names.
pub fn label_mmi_parts(parts: Vec<String>) -> (r: Result<MmiFields, ValueError>)
    ensures
        yields(r, label_mmi(parts.deep_view())),
{
    if parts.len() != MMI_FIELD_COUNT {
        return Err(
            ValueError::bare(ErrorKind::Arity { expected: MMI_FIELD_COUNT, actual: parts.len() }),
        );
    }
    Ok(
        MmiFields {
            id: parts[0].clone(),
            mmi: parts[1].clone(),
            score: parts[2].clone(),
            name: parts[3].clone(),
            cui: parts[4].clone(),
            semantic_types: parts[5].clone(),
            triggers: parts[6].clone(),
            location: parts[7].clone(),
            positional_info: parts[8].clone(),
            tree_codes: parts[9].clone(),
        },
    )
}

/// The semantic types that the field `s` writes: the field stands in one
/// pair of square brackets, and the types are what stands between the commas
/// inside them.
pub open spec fn decode_semantic_types(s: Seq<char>) -> Result<Seq<Seq<char>>, ErrorView> {
    if s.len() >= 2 && s[0] == '[' && s.last() == ']' {
        Ok(split_on(s.subrange(1, s.len() - 1), ','))
    } else {
        Err(failure(ErrorKind::Shape, s))
    }
}

/// `s` is a semantic-types field: it stands in one pair of square brackets.
pub open spec fn is_semantic_types_field(s: Seq<char>) -> bool {
    s.len() >= 2 && s[0] == '[' && s.last() == ']'
}

/// Reads the semantic types of a concept: removes the brackets around the
/// field and splits what is left at the commas.
pub fn parse_semantic_types(semantic_types: &str) -> (r: Result<Vec<String>, ValueError>)
    ensures
        yields(r, decode_semantic_types(semantic_types@)),
        r matches Ok(types) ==> types.len() >= 1,
{
    let v = chars_of(semantic_types);
    let n = v.len();
    if n < 2 || v[0] != '[' || v[n - 1] != ']' {
        return Err(ValueError::new(ErrorKind::Shape, semantic_types));
    }
    let cleaned = text_of(&v, 1, n - 1);
    let types = split_at(cleaned.as_str(), ',');
    proof {
        lemma_pieces_nonempty(
            cleaned@,
            crate::text::delimiter_cuts(cleaned@, ','),
            cleaned@.len() as int,
        );
        assert(types.deep_view().len() == types.len());
    }
    Ok(types)
}

/// The tree codes that the field `s` writes: none where the field is empty,
/// and otherwise what stands between its semicolons.
pub open spec fn tree_codes_of(s: Seq<char>) -> Option<Seq<Seq<char>>> {
    if s.len() == 0 {
        None
    } else {
        Some(split_on(s, ';'))
    }
}

/// Reads the tree codes of a concept.  An empty field has no tree codes,
/// which is not the same as an empty list of them.
pub fn parse_tree_codes(codes: &str) -> (r: Option<Vec<String>>)
    ensures
        r.deep_view() == tree_codes_of(codes@),
{
    if codes.is_empty() {
        return None;
    }
    Some(split_at(codes, ';'))
}

/// A concept record: one concept that MetaMap found in a document.
#[derive(PartialEq, Eq, Debug)]
pub struct MmiOutput {
    /// unique identifier
    pub id: String,
    /// always MMI
    pub mmi: String,
    /// score of concept relevance, 0-1000, 1000 being perfect: the decimal
    /// number as the record writes it
    pub score: String,
    /// name of the concept matched
    pub name: String,
    /// CUI for identified UMLS concept
    pub cui: String,
    /// Semantic Type abbreviations
    pub semantic_types: Vec<String>,
    /// Triggers for MMI to flag this concept
    pub triggers: Vec<Trigger>,
    /// Location of concept
    pub location: Location,
    /// Positional information of concept
    pub positional_info: Vec<Position>,
    /// Optional MeSH tree code(s)
    pub tree_codes: Option<Vec<String>>,
}

/// An [`MmiOutput`] as a mathematical value.
pub struct MmiOutputView {
    pub id: Seq<char>,
    pub mmi: Seq<char>,
    pub score: Seq<char>,
    pub name: Seq<char>,
    pub cui: Seq<char>,
    pub semantic_types: Seq<Seq<char>>,
    pub triggers: Seq<TriggerView>,
    pub location: Location,
    pub positional_info: Seq<Position>,
    pub tree_codes: Option<Seq<Seq<char>>>,
}

impl MmiOutputView {
    /// What holds of every concept record that the decoder gives: the score
    /// is a decimal number, and there is at least one semantic type and at
    /// least one position.
    pub open spec fn well_formed(self) -> bool {
        &&& is_float_text(self.score)
        &&& self.semantic_types.len() >= 1
        &&& self.positional_info.len() >= 1
    }
}

impl View for MmiOutput {
    type V = MmiOutputView;

    open spec fn view(&self) -> MmiOutputView {
        MmiOutputView {
            id: self.id@,
            mmi: self.mmi@,
            score: self.score@,
            name: self.name@,
            cui: self.cui@,
            semantic_types: self.semantic_types.deep_view(),
            triggers: self.triggers.deep_view(),
            location: self.location,
            positional_info: self.positional_info.deep_view(),
            tree_codes: self.tree_codes.deep_view(),
        }
    }
}

impl DeepView for MmiOutput {
    type V = MmiOutputView;

    open spec fn deep_view(&self) -> MmiOutputView {
        self@
    }
}

/// The score that the field `s` writes: the field itself, which must be a
/// decimal floating-point number.
pub open spec fn decode_score(s: Seq<char>) -> Result<Seq<char>, ErrorView> {
    if is_float_text(s) {
        Ok(s)
    } else {
        Err(failure(ErrorKind::FloatParse, s))
    }
}

/// The concept record that the named fields write.  The score, the semantic
/// types, the triggers, the location and the positional information are
/// decoded in this order, and the first that cannot be decoded decides the
/// error.  The identifier, the record kind, the name and the concept
/// identifier are taken as they stand.
pub open spec fn decode_mmi(fields: MmiFieldsView) -> Result<MmiOutputView, ErrorView> {
    match decode_score(fields.score) {
        Err(e) => Err(e),
        Ok(score) => match decode_semantic_types(fields.semantic_types) {
            Err(e) => Err(e),
            Ok(semantic_types) => match decode_triggers(fields.triggers) {
                Err(e) => Err(e),
                Ok(triggers) => match decode_location(fields.location) {
                    Err(e) => Err(e),
                    Ok(location) => match decode_positions(fields.positional_info) {
                        Err(e) => Err(e),
                        Ok(positional_info) => Ok(
                            MmiOutputView {
                                id: fields.id,
                                mmi: fields.mmi,
                                score,
                                name: fields.name,
                                cui: fields.cui,
                                semantic_types,
                                triggers,
                                location,
                                positional_info,
                                tree_codes: tree_codes_of(fields.tree_codes),
                            },
                        ),
                    },
                },
            },
        },
    }
}

impl MmiOutput {
    /// Makes a concept record from its named fields.
    pub fn new(parts: MmiFields) -> (r: Result<MmiOutput, ValueError>)
        ensures
            yields(r, decode_mmi(parts@)),
            r matches Ok(record) ==> record@.well_formed(),
    {
        if !is_float(parts.score.as_str()) {
            return Err(ValueError::new(ErrorKind::FloatParse, parts.score.as_str()));
        }
        let semantic_types = match parse_semantic_types(parts.semantic_types.as_str()) {
            Err(e) => {
                return Err(e);
            },
            Ok(types) => types,
        };
        let triggers = match parse_triggers(parts.triggers.as_str()) {
            Err(e) => {
                return Err(e);
            },
            Ok(triggers) => triggers,
        };
        let location = match Location::from_str(parts.location.as_str()) {
            Err(e) => {
                return Err(e);
            },
            Ok(location) => location,
        };
        let positional_info = match parse_positional_info(parts.positional_info.as_str()) {
            Err(e) => {
                return Err(e);
            },
            Ok(positions) => positions,
        };
        let tree_codes = parse_tree_codes(parts.tree_codes.as_str());
        Ok(
            MmiOutput {
                id: parts.id,
                mmi: parts.mmi,
                score: parts.score,
                name: parts.name,
                cui: parts.cui,
                semantic_types,
                triggers,
                location,
                positional_info,
                tree_codes,
            },
        )
    }
}

} // verus!
