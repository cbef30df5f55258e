//! Triggers: the pieces of text that made the indexer flag a concept, and
//! the part of the document in which text was found.

use vstd::prelude::*;
use crate::error::{failure, yields, ErrorKind, ErrorView, ValueError};
use crate::list::{decode_all, lemma_decode_all_error, lemma_decode_all_items, lemma_decode_all_step};
use crate::number::{decode_i32, i32_of, parse_integer};
use crate::split::{quote_split, split_with_quote_context};
use crate::text::{chars_of, is_word, spells, trim_brackets, unquoted, without_brackets, without_quotes};

verus! {

/// The part of a document in which text was found.
#[derive(Clone, Copy, PartialEq, Eq, Debug, Structural)]
pub enum Location {
    /// The title.
    TI,
    /// The abstract.
    AB,
    /// The running text.
    TX,
    /// Title and abstract.
    Tiab,
}

impl View for Location {
    type V = Location;

    open spec fn view(&self) -> Location {
        *self
    }
}

impl DeepView for Location {
    type V = Location;

    open spec fn deep_view(&self) -> Location {
        *self
    }
}

/// The location that `s` spells: `TI`, `AB`, `TX` or `TI;AB`, with every
/// letter in either case.  No other text spells a location.
pub open spec fn location_of(s: Seq<char>) -> Option<Location> {
    if is_word(s, "TI"@, "ti"@) {
        Some(Location::TI)
    } else if is_word(s, "AB"@, "ab"@) {
        Some(Location::AB)
    } else if is_word(s, "TX"@, "tx"@) {
        Some(Location::TX)
    } else if is_word(s, "TI;AB"@, "ti;ab"@) {
        Some(Location::Tiab)
    } else {
        None
    }
}

/// The location that `s` spells, or the error about `s`.
pub open spec fn decode_location(s: Seq<char>) -> Result<Location, ErrorView> {
    match location_of(s) {
        Some(l) => Ok(l),
        None => Err(failure(ErrorKind::EnumParse, s)),
    }
}

impl Location {
    /// Reads a location from its spelling, in any mix of cases.
    pub fn from_str(s: &str) -> (r: Result<Location, ValueError>)
        ensures
            yields(r, decode_location(s@)),
    {
        let v = chars_of(s);
        assert(v@.skip(0) =~= s@);
        if spells(&v, 0, "TI", "ti") {
            Ok(Location::TI)
        } else if spells(&v, 0, "AB", "ab") {
            Ok(Location::AB)
        } else if spells(&v, 0, "TX", "tx") {
            Ok(Location::TX)
        } else if spells(&v, 0, "TI;AB", "ti;ab") {
            Ok(Location::Tiab)
        } else {
            Err(ValueError::new(ErrorKind::EnumParse, s))
        }
    }
}

/// The flag that `s` writes: `1` is true and `0` is false, and nothing else
/// is a flag.
pub open spec fn decode_bool(s: Seq<char>) -> Result<bool, ErrorView> {
    if s == seq!['1'] {
        Ok(true)
    } else if s == seq!['0'] {
        Ok(false)
    } else {
        Err(failure(ErrorKind::BooleanParse, s))
    }
}

/// Reads a flag: `1` or `0`.
pub fn parse_bool(x: &str) -> (r: Result<bool, ValueError>)
    ensures
        yields(r, decode_bool(x@)),
{
    let v = chars_of(x);
    if v.len() == 1 && v[0] == '1' {
        assert(x@ =~= seq!['1']);
        Ok(true)
    } else if v.len() == 1 && v[0] == '0' {
        assert(x@ =~= seq!['0']);
        assert(seq!['1'][0] == '1');
        Ok(false)
    } else {
        assert(x@ != seq!['1']) by {
            if x@ == seq!['1'] {
                assert(seq!['1'][0] == '1');
                assert(seq!['1'].len() == 1);
            }
        }
        assert(x@ != seq!['0']) by {
            if x@ == seq!['0'] {
                assert(seq!['0'][0] == '0');
                assert(seq!['0'].len() == 1);
            }
        }
        Err(ValueError::new(ErrorKind::BooleanParse, x))
    }
}

/// One trigger of a concept.
#[derive(PartialEq, Eq, Debug)]
pub struct Trigger {
    /// UMLS concept name
    pub name: String,
    /// location of text
    pub loc: Location,
    /// number of the utterance within the location (starting with 1)
    pub loc_position: i32,
    /// the actual text
    pub text: String,
    /// determined by MedPost Tagger or Lexical Lookup
    pub part_of_speech: String,
    /// True if text is considered negated by MetaMap
    pub negation: bool,
}

/// A [`Trigger`] as a mathematical value.
pub struct TriggerView {
    pub name: Seq<char>,
    pub loc: Location,
    pub loc_position: i32,
    pub text: Seq<char>,
    pub part_of_speech: Seq<char>,
    pub negation: bool,
}

impl View for Trigger {
    type V = TriggerView;

    open spec fn view(&self) -> TriggerView {
        TriggerView {
            name: self.name@,
            loc: self.loc,
            loc_position: self.loc_position,
            text: self.text@,
            part_of_speech: self.part_of_speech@,
            negation: self.negation,
        }
    }
}

impl DeepView for Trigger {
    type V = TriggerView;

    open spec fn deep_view(&self) -> TriggerView {
        self@
    }
}

/// The trigger that six sub-fields write.  Name, text and part of speech are
/// taken without their double quotes.  The location, the position and the
/// negation flag are decoded in this order, and the first of them that
/// cannot be decoded decides the error.
pub open spec fn decode_trigger(
    n: Seq<char>,
    loc: Seq<char>,
    loc_pos: Seq<char>,
    t: Seq<char>,
    part_of_speech: Seq<char>,
    negation: Seq<char>,
) -> Result<TriggerView, ErrorView> {
    match decode_location(loc) {
        Err(e) => Err(e),
        Ok(l) => match decode_i32(loc_pos) {
            Err(e) => Err(e),
            Ok(p) => match decode_bool(negation) {
                Err(e) => Err(e),
                Ok(b) => Ok(
                    TriggerView {
                        name: unquoted(n),
                        loc: l,
                        loc_position: p,
                        text: unquoted(t),
                        part_of_speech: unquoted(part_of_speech),
                        negation: b,
                    },
                ),
            },
        },
    }
}

impl Trigger {
    /// Makes a trigger from its six sub-fields as they stand in a record.
    pub fn new(
        n: &str,
        loc: &str,
        loc_pos: &str,
        t: &str,
        part_of_speech: &str,
        negation: &str,
    ) -> (r: Result<Trigger, ValueError>)
        ensures
            yields(r, decode_trigger(n@, loc@, loc_pos@, t@, part_of_speech@, negation@)),
    {
        let location = match Location::from_str(loc) {
            Err(e) => {
                return Err(e);
            },
            Ok(l) => l,
        };
        let loc_position = match parse_integer(loc_pos) {
            Err(e) => {
                return Err(e);
            },
            Ok(p) => p,
        };
        let negated = match parse_bool(negation) {
            Err(e) => {
                return Err(e);
            },
            Ok(b) => b,
        };
        Ok(
            Trigger {
                name: without_quotes(n),
                loc: location,
                loc_position,
                text: without_quotes(t),
                part_of_speech: without_quotes(part_of_speech),
                negation: negated,
            },
        )
    }
}

/// The trigger that one group of the triggers field writes.  The brackets
/// around the group are removed, and what is left is split at the hyphens
/// outside double quotes into exactly six sub-fields: name, location,
/// position, text, part of speech and negation.
pub open spec fn decode_trigger_group(group: Seq<char>) -> Result<TriggerView, ErrorView> {
    let parts = quote_split(trim_brackets(group), '-');
    if parts.len() == 6 {
        decode_trigger(parts[0], parts[1], parts[2], parts[3], parts[4], parts[5])
    } else {
        Err(failure(ErrorKind::Shape, group))
    }
}

/// The decoder of one group, as a value.
pub open spec fn trigger_decoder() -> spec_fn(Seq<char>) -> Result<TriggerView, ErrorView> {
    |group: Seq<char>| decode_trigger_group(group)
}

/// The triggers that the field `info` writes: its groups are separated by
/// the commas outside double quotes, and the first group that is no trigger
/// decides the error.  The empty field writes no trigger.
pub open spec fn decode_triggers(info: Seq<char>) -> Result<Seq<TriggerView>, ErrorView> {
    decode_all(quote_split(info, ','), trigger_decoder())
}

/// Reads one group of the triggers field.
fn parse_trigger_group(group: &str) -> (r: Result<Trigger, ValueError>)
    ensures
        yields(r, decode_trigger_group(group@)),
{
    let clean = without_brackets(group);
    let parts = split_with_quote_context(clean.as_str(), '-');
    if parts.len() != 6 {
        return Err(ValueError::new(ErrorKind::Shape, group));
    }
    Trigger::new(
        parts[0].as_str(),
        parts[1].as_str(),
        parts[2].as_str(),
        parts[3].as_str(),
        parts[4].as_str(),
        parts[5].as_str(),
    )
}

/// Reads the triggers of a triggers field.
pub fn parse_triggers(info: &str) -> (r: Result<Vec<Trigger>, ValueError>)
    ensures
        yields(r, decode_triggers(info@)),
{
    let groups = split_with_quote_context(info, ',');
    let ghost items = groups.deep_view();
    let mut triggers: Vec<Trigger> = Vec::new();
    let mut i: usize = 0;
    assert(items.take(0) =~= Seq::<Seq<char>>::empty());
    assert(triggers.deep_view() =~= Seq::<TriggerView>::empty());
    while i < groups.len()
        invariant
            i <= groups.len(),
            items == groups.deep_view(),
            items == quote_split(info@, ','),
            decode_all(items.take(i as int), trigger_decoder()) == Ok::<
                Seq<TriggerView>,
                ErrorView,
            >(triggers.deep_view()),
        decreases groups.len() - i,
    {
        proof {
            lemma_decode_all_step(items, trigger_decoder(), i as int);
        }
        match parse_trigger_group(groups[i].as_str()) {
            Err(e) => {
                proof {
                    lemma_decode_all_error(items, trigger_decoder(), i + 1);
                }
                return Err(e);
            },
            Ok(trigger) => {
                let ghost before = triggers.deep_view();
                let ghost added = trigger@;
                triggers.push(trigger);
                assert(triggers.deep_view() =~= before.push(added));
            },
        }
        i += 1;
    }
    assert(items.take(groups.len() as int) =~= items);
    Ok(triggers)
}

/// `s` is a flag: `1` or `0`.
pub open spec fn is_flag(s: Seq<char>) -> bool {
    s == seq!['1'] || s == seq!['0']
}

/// `group` is a trigger: without the brackets around it, it has six
/// sub-fields between the hyphens outside double quotes, of which the second
/// spells a location, the third is an integer and the sixth is a flag.
pub open spec fn is_trigger_group(group: Seq<char>) -> bool {
    let parts = quote_split(trim_brackets(group), '-');
    &&& parts.len() == 6
    &&& location_of(parts[1]) is Some
    &&& i32_of(parts[2]) is Some
    &&& is_flag(parts[5])
}

/// The trigger that a well-formed group writes.
pub open spec fn group_trigger(group: Seq<char>) -> TriggerView {
    let parts = quote_split(trim_brackets(group), '-');
    TriggerView {
        name: unquoted(parts[0]),
        loc: location_of(parts[1])->0,
        loc_position: i32_of(parts[2])->0,
        text: unquoted(parts[3]),
        part_of_speech: unquoted(parts[4]),
        negation: parts[5] == seq!['1'],
    }
}

/// `info` is a triggers field: every group between its commas outside double
/// quotes is a trigger.
pub open spec fn is_triggers_field(info: Seq<char>) -> bool {
    forall|i: int|
        0 <= i < quote_split(info, ',').len() ==> is_trigger_group(
            #[trigger] quote_split(info, ',')[i],
        )
}

/// A group is decoded exactly when it is a trigger, and then to the trigger
/// that it writes.
pub proof fn lemma_trigger_group_decodes(group: Seq<char>)
    ensures
        decode_trigger_group(group) is Ok <==> is_trigger_group(group),
        is_trigger_group(group) ==> decode_trigger_group(group) == Ok::<TriggerView, ErrorView>(
            group_trigger(group),
        ),
{
}

/// A triggers field is decoded exactly when every one of its groups is a
/// trigger.  The triggers are then those that the groups write, in the order
/// of the groups.
pub proof fn lemma_triggers_field_decodes(info: Seq<char>)
    ensures
        decode_triggers(info) is Ok <==> is_triggers_field(info),
        decode_triggers(info) matches Ok(triggers) ==> {
            let groups = quote_split(info, ',');
            triggers.len() == groups.len() && forall|i: int|
                0 <= i < groups.len() ==> #[trigger] triggers[i] == group_trigger(groups[i])
        },
{
    let groups = quote_split(info, ',');
    let f = trigger_decoder();
    lemma_decode_all_items(groups, f);
    assert forall|i: int| 0 <= i < groups.len() implies ((#[trigger] f(groups[i])) is Ok
        <==> is_trigger_group(groups[i])) by {
        lemma_trigger_group_decodes(groups[i]);
    }
    if is_triggers_field(info) {
        assert forall|i: int| 0 <= i < groups.len() implies (#[trigger] f(groups[i])) is Ok by {
            assert(is_trigger_group(groups[i]));
        }
    }
    if let Ok(triggers) = decode_all(groups, f) {
        assert forall|i: int| 0 <= i < groups.len() implies #[trigger] triggers[i]
            == group_trigger(groups[i]) by {
            lemma_trigger_group_decodes(groups[i]);
            assert(f(groups[i]) == Ok::<TriggerView, ErrorView>(triggers[i]));
        }
        assert forall|i: int| 0 <= i < groups.len() implies is_trigger_group(
            #[trigger] groups[i],
        ) by {
            assert(f(groups[i]) is Ok);
        }
    }
}

/// The errors of a triggers field: for the shape of a group, or for a
/// location, an integer or a flag in it.
pub proof fn lemma_triggers_error_kind(info: Seq<char>)
    ensures
        decode_triggers(info) matches Err(e) ==> e.kind == ErrorKind::Shape || e.kind
            == ErrorKind::EnumParse || e.kind == ErrorKind::IntegerParse || e.kind
            == ErrorKind::BooleanParse,
{
    lemma_decode_all_items(quote_split(info, ','), trigger_decoder());
}

} // verus!
