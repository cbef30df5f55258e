//! Decoder for fielded MetaMap Indexing (MMI) output.
//!
//! Every line of fielded output is a pipe-delimited record: either a concept
//! record (`MMI`) or an abbreviation record (`AA` / `UA`).  The decoder turns
//! one line into one typed record, or into a [`ValueError`] that says what was
//! wrong with the line.

use vstd::prelude::*;

pub mod abbreviation;
pub mod concept;
pub mod error;
pub mod list;
pub mod number;
pub mod position;
pub mod record;
pub mod split;
pub mod text;
pub mod trigger;

pub use crate::abbreviation::{label_aa_parts, AaFields, AaOutput, AaPosInfo, AbbreviationType};
pub use crate::concept::{
    label_mmi_parts,
    parse_semantic_types,
    parse_tree_codes,
    MmiFields,
    MmiOutput,
};
pub use crate::error::{ErrorKind, ValueError};
pub use crate::position::{
    categorize_positional_info,
    parse_bracketed_info,
    parse_positional_info,
    tag_pos_info,
    Position,
    PositionalInfoType,
};
pub use crate::record::{parse_mmi, Output};
pub use crate::split::{split_text, split_with_bracket_context, split_with_quote_context};
pub use crate::trigger::{parse_bool, parse_triggers, Location, Trigger};

verus! {

} // verus!
