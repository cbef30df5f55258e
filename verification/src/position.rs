//! Positional information: where in the source text a concept was matched.
//!
//! The field is a list of `start/length` pairs in one of four shapes, which
//! differ in how brackets and commas group the pairs.

use vstd::prelude::*;
use crate::error::{failure, yields, ErrorKind, ErrorView, ValueError};
use crate::list::{decode_all, lemma_decode_all_error, lemma_decode_all_items, lemma_decode_all_step};
use crate::number::{decode_i32, i32_of, parse_integer};
use crate::split::{bracket_split, split_with_bracket_context};
use crate::text::{chars_of, split_at, split_on, trim_brackets, without_brackets};

verus! {

/// The four shapes of positional information.
#[derive(Clone, Copy, PartialEq, Eq, Debug, Structural)]
pub enum PositionalInfoType {
    /// Pairs separated by semicolons: `7/5;13/4`.
    A,
    /// Pairs separated by commas, in entries separated by semicolons:
    /// `7/5,13/4`.
    B,
    /// Bracketed pairs separated by commas: `[7/5],[13/4]`.
    C,
    /// Bracketed groups of pairs, separated by commas: `[7/5,13/4],[20/3,30/2]`.
    D,
}

/// One match: where it starts, how long it is, and the shape of the field
/// in which it was written.
#[derive(Clone, Copy, PartialEq, Eq, Debug, Structural)]
pub struct Position {
    /// Start position
    pub start: i32,
    /// Length of matched text
    pub length: i32,
    /// Shape of the field that held the match
    pub case: PositionalInfoType,
}

impl View for Position {
    type V = Position;

    open spec fn view(&self) -> Position {
        *self
    }
}

impl DeepView for Position {
    type V = Position;

    open spec fn deep_view(&self) -> Position {
        *self
    }
}

impl Position {
    /// The position with the given start, length and shape.
    pub fn new(start: i32, length: i32, case: PositionalInfoType) -> (p: Position)
        ensures
            p == (Position { start, length, case }),
    {
        Position { start, length, case }
    }
}

/// Whether a scan of the first `n` characters of `s` ends inside brackets:
/// the last bracket among them, if there is one, is an opening bracket.
pub open spec fn bracketed(s: Seq<char>, n: int) -> bool
    decreases n,
{
    if n <= 0 {
        false
    } else if s[n - 1] == '[' {
        true
    } else if s[n - 1] == ']' {
        false
    } else {
        bracketed(s, n - 1)
    }
}

/// `s` holds an opening bracket.
pub open spec fn has_bracket(s: Seq<char>) -> bool {
    exists|i: int| 0 <= i < s.len() && #[trigger] s[i] == '['
}

/// `s` holds a comma inside brackets.
pub open spec fn has_comma_inside(s: Seq<char>) -> bool {
    exists|i: int| 0 <= i < s.len() && #[trigger] s[i] == ',' && bracketed(s, i)
}

/// `s` holds a comma outside brackets.
pub open spec fn has_comma_outside(s: Seq<char>) -> bool {
    exists|i: int| 0 <= i < s.len() && #[trigger] s[i] == ',' && !bracketed(s, i)
}

/// Scans `x` once and reports whether it holds an opening bracket, a comma
/// inside brackets, and a comma outside brackets.
pub fn tag_pos_info(x: &str) -> (tags: (bool, bool, bool))
    ensures
        tags.0 == has_bracket(x@),
        tags.1 == has_comma_inside(x@),
        tags.2 == has_comma_outside(x@),
{
    let v = chars_of(x);
    let mut has_brackets = false;
    let mut has_comma_inside_brackets = false;
    let mut has_comma_outside_brackets = false;
    let mut in_bracket = false;
    let ghost s = v@;
    let mut i: usize = 0;
    while i < v.len()
        invariant
            i <= v.len(),
            s == v@,
            in_bracket == bracketed(s, i as int),
            has_brackets == (exists|k: int| 0 <= k < i && #[trigger] s[k] == '['),
            has_comma_inside_brackets == (exists|k: int|
                0 <= k < i && #[trigger] s[k] == ',' && bracketed(s, k)),
            has_comma_outside_brackets == (exists|k: int|
                0 <= k < i && #[trigger] s[k] == ',' && !bracketed(s, k)),
        decreases v.len() - i,
    {
        let c = v[i];
        assert(c == s[i as int]);
        if c == '[' {
            has_brackets = true;
            in_bracket = true;
        } else if c == ']' {
            in_bracket = false;
        } else if c == ',' && !in_bracket {
            has_comma_outside_brackets = true;
        } else if c == ',' && in_bracket {
            has_comma_inside_brackets = true;
        }
        i += 1;
    }
    (has_brackets, has_comma_inside_brackets, has_comma_outside_brackets)
}

/// The shape that the three findings of the scan select, if they select one.
/// Without brackets and commas the shape is A; without brackets and with
/// commas it is B; with brackets and commas only outside them it is C; with
/// brackets and commas both inside and outside them it is D.  Brackets with
/// no comma outside them select no shape.
pub open spec fn shape_of(
    has_brackets: bool,
    has_comma_inside_brackets: bool,
    has_comma_outside_brackets: bool,
) -> Option<PositionalInfoType> {
    if !has_brackets {
        if !has_comma_inside_brackets && !has_comma_outside_brackets {
            Some(PositionalInfoType::A)
        } else {
            Some(PositionalInfoType::B)
        }
    } else if !has_comma_outside_brackets {
        None
    } else if has_comma_inside_brackets {
        Some(PositionalInfoType::D)
    } else {
        Some(PositionalInfoType::C)
    }
}

/// Selects the shape of positional information from the findings of
/// [`tag_pos_info`].
pub fn categorize_positional_info(
    has_brackets: bool,
    has_comma_inside_brackets: bool,
    has_comma_outside_brackets: bool,
) -> (shape: Option<PositionalInfoType>)
    ensures
        shape == shape_of(has_brackets, has_comma_inside_brackets, has_comma_outside_brackets),
{
    if !has_brackets && !has_comma_outside_brackets && !has_comma_inside_brackets {
        Some(PositionalInfoType::A)
    } else if !has_brackets {
        Some(PositionalInfoType::B)
    } else if !has_comma_inside_brackets && has_comma_outside_brackets {
        Some(PositionalInfoType::C)
    } else if has_comma_outside_brackets && has_comma_inside_brackets {
        Some(PositionalInfoType::D)
    } else {
        None
    }
}

/// The decoder of one integer, as a value.
pub open spec fn integer_decoder() -> spec_fn(Seq<char>) -> Result<i32, ErrorView> {
    |t: Seq<char>| decode_i32(t)
}

/// The integers that `t` writes between its slashes, or the error of the
/// first part that is no integer.
pub open spec fn decode_numbers(t: Seq<char>) -> Result<Seq<i32>, ErrorView> {
    decode_all(split_on(t, '/'), integer_decoder())
}

/// Reads the integers that `x` writes between its slashes.
fn parse_numbers(x: &str) -> (r: Result<Vec<i32>, ValueError>)
    ensures
        yields(r, decode_numbers(x@)),
{
    let parts = split_at(x, '/');
    let ghost items = parts.deep_view();
    let mut numbers: Vec<i32> = Vec::new();
    let mut i: usize = 0;
    assert(items.take(0) =~= Seq::<Seq<char>>::empty());
    assert(numbers.deep_view() =~= Seq::<i32>::empty());
    while i < parts.len()
        invariant
            i <= parts.len(),
            items == parts.deep_view(),
            items == split_on(x@, '/'),
            decode_all(items.take(i as int), integer_decoder()) == Ok::<Seq<i32>, ErrorView>(
                numbers.deep_view(),
            ),
        decreases parts.len() - i,
    {
        proof {
            lemma_decode_all_step(items, integer_decoder(), i as int);
        }
        match parse_integer(parts[i].as_str()) {
            Err(e) => {
                proof {
                    lemma_decode_all_error(items, integer_decoder(), i + 1);
                }
                return Err(e);
            },
            Ok(n) => {
                let ghost before = numbers.deep_view();
                numbers.push(n);
                assert(numbers.deep_view() =~= before.push(n));
            },
        }
        i += 1;
    }
    assert(items.take(parts.len() as int) =~= items);
    Ok(numbers)
}

/// Reads the integers of a pair that may stand in brackets: the brackets
/// around `x` are removed, and what is left is read between its slashes.
pub fn parse_bracketed_info(x: &str) -> (r: Result<Vec<i32>, ValueError>)
    ensures
        yields(r, decode_numbers(trim_brackets(x@))),
{
    let bare = without_brackets(x);
    parse_numbers(bare.as_str())
}

/// Whether the pairs of a shape are written in brackets.
pub open spec fn is_bracketed_shape(case: PositionalInfoType) -> bool {
    case == PositionalInfoType::C || case == PositionalInfoType::D
}

/// The position that the token `t` writes in a field of shape `case`: in the
/// bracketed shapes the brackets around the token are removed first; then
/// every part between slashes must be an integer, and there must be exactly
/// two of them, the start and the length.
pub open spec fn decode_position(t: Seq<char>, case: PositionalInfoType) -> Result<
    Position,
    ErrorView,
> {
    let bare = if is_bracketed_shape(case) {
        trim_brackets(t)
    } else {
        t
    };
    match decode_numbers(bare) {
        Err(e) => Err(e),
        Ok(numbers) => if numbers.len() == 2 {
            Ok(Position { start: numbers[0], length: numbers[1], case })
        } else {
            Err(failure(ErrorKind::Shape, t))
        },
    }
}

/// Reads one token of a field of shape `case` as a position.
fn parse_position(token: &str, case: PositionalInfoType) -> (r: Result<Position, ValueError>)
    ensures
        yields(r, decode_position(token@, case)),
{
    let bracketed_shape = match case {
        PositionalInfoType::A => false,
        PositionalInfoType::B => false,
        PositionalInfoType::C => true,
        PositionalInfoType::D => true,
    };
    let parsed = if bracketed_shape {
        parse_bracketed_info(token)
    } else {
        parse_numbers(token)
    };
    match parsed {
        Err(e) => Err(e),
        Ok(numbers) => {
            if numbers.len() == 2 {
                Ok(Position::new(numbers[0], numbers[1], case))
            } else {
                Err(ValueError::new(ErrorKind::Shape, token))
            }
        },
    }
}

/// The pieces of every entry between its delimiters `d`, entry after entry.
pub open spec fn split_each(entries: Seq<Seq<char>>, d: char) -> Seq<Seq<char>>
    decreases entries.len(),
{
    if entries.len() == 0 {
        Seq::empty()
    } else {
        split_each(entries.drop_last(), d) + split_on(entries.last(), d)
    }
}

/// The pieces of every entry between its commas outside brackets, entry
/// after entry.
pub open spec fn bracket_split_each(entries: Seq<Seq<char>>) -> Seq<Seq<char>>
    decreases entries.len(),
{
    if entries.len() == 0 {
        Seq::empty()
    } else {
        bracket_split_each(entries.drop_last()) + bracket_split(entries.last())
    }
}

/// The tokens of a field of the given shape, in the order in which they are
/// written.  The entries of every shape are separated by semicolons.  In
/// shape A an entry is one token; in shapes B and C an entry holds tokens
/// separated by commas; in shape D an entry holds bracketed groups, separated
/// by the commas outside brackets, and a group holds tokens separated by
/// commas.
pub open spec fn tokens_of(info: Seq<char>, case: PositionalInfoType) -> Seq<Seq<char>> {
    let entries = split_on(info, ';');
    match case {
        PositionalInfoType::A => entries,
        PositionalInfoType::B => split_each(entries, ','),
        PositionalInfoType::C => split_each(entries, ','),
        PositionalInfoType::D => split_each(bracket_split_each(entries), ','),
    }
}

/// The decoder of one token of a field of shape `case`, as a value.
pub open spec fn position_decoder(case: PositionalInfoType) -> spec_fn(Seq<char>) -> Result<
    Position,
    ErrorView,
> {
    |t: Seq<char>| decode_position(t, case)
}

/// The shape of the field `info`, if it has one of the four.
pub open spec fn shape_of_info(info: Seq<char>) -> Option<PositionalInfoType> {
    shape_of(has_bracket(info), has_comma_inside(info), has_comma_outside(info))
}

/// The positions that the field `info` writes.  A field of none of the four
/// shapes is rejected as such.  Otherwise every token of the field must be a
/// position, and the first that is none decides the error.  A field that
/// holds no token at all is rejected for its shape.
pub open spec fn decode_positions(info: Seq<char>) -> Result<Seq<Position>, ErrorView> {
    match shape_of_info(info) {
        None => Err(failure(ErrorKind::Classification, info)),
        Some(case) => match decode_all(tokens_of(info, case), position_decoder(case)) {
            Err(e) => Err(e),
            Ok(positions) => if positions.len() == 0 {
                Err(failure(ErrorKind::Shape, info))
            } else {
                Ok(positions)
            },
        },
    }
}

/// The texts of a list that is two lists one after the other are the texts
/// of the first followed by the texts of the second.
proof fn lemma_deep_view_add(whole: Vec<String>, first: Vec<String>, second: Vec<String>)
    requires
        whole@ == first@ + second@,
    ensures
        whole.deep_view() == first.deep_view() + second.deep_view(),
{
    assert(whole.deep_view() =~= first.deep_view() + second.deep_view());
}

/// Splits every entry at the delimiter `d` and lists the pieces, entry after
/// entry.
fn split_entries(entries: &Vec<String>, d: char) -> (tokens: Vec<String>)
    ensures
        tokens.deep_view() == split_each(entries.deep_view(), d),
{
    let ghost items = entries.deep_view();
    let mut tokens: Vec<String> = Vec::new();
    let mut i: usize = 0;
    assert(items.take(0) =~= Seq::<Seq<char>>::empty());
    assert(tokens.deep_view() =~= Seq::<Seq<char>>::empty());
    while i < entries.len()
        invariant
            i <= entries.len(),
            items == entries.deep_view(),
            tokens.deep_view() == split_each(items.take(i as int), d),
        decreases entries.len() - i,
    {
        let mut parts = split_at(entries[i].as_str(), d);
        let ghost before = tokens;
        let ghost added = parts;
        tokens.append(&mut parts);
        proof {
            lemma_deep_view_add(tokens, before, added);
            assert(items.take(i + 1).drop_last() =~= items.take(i as int));
            assert(items.take(i + 1).last() == entries@[i as int]@);
        }
        i += 1;
    }
    assert(items.take(entries.len() as int) =~= items);
    tokens
}

/// Splits every entry at its commas outside brackets and lists the pieces,
/// entry after entry.
fn split_entries_outside_brackets(entries: &Vec<String>) -> (groups: Vec<String>)
    ensures
        groups.deep_view() == bracket_split_each(entries.deep_view()),
{
    let ghost items = entries.deep_view();
    let mut groups: Vec<String> = Vec::new();
    let mut i: usize = 0;
    assert(items.take(0) =~= Seq::<Seq<char>>::empty());
    assert(groups.deep_view() =~= Seq::<Seq<char>>::empty());
    while i < entries.len()
        invariant
            i <= entries.len(),
            items == entries.deep_view(),
            groups.deep_view() == bracket_split_each(items.take(i as int)),
        decreases entries.len() - i,
    {
        let mut parts = split_with_bracket_context(entries[i].as_str());
        let ghost before = groups;
        let ghost added = parts;
        groups.append(&mut parts);
        proof {
            lemma_deep_view_add(groups, before, added);
            assert(items.take(i + 1).drop_last() =~= items.take(i as int));
            assert(items.take(i + 1).last() == entries@[i as int]@);
        }
        i += 1;
    }
    assert(items.take(entries.len() as int) =~= items);
    groups
}

/// The tokens of a field of shape A: its entries.
fn tokens_of_shape_a(info: &str) -> (tokens: Vec<String>)
    ensures
        tokens.deep_view() == tokens_of(info@, PositionalInfoType::A),
{
    split_at(info, ';')
}

/// The tokens of a field of shape B or C: the pieces of its entries between
/// commas.
fn tokens_of_shape_b_c(info: &str) -> (tokens: Vec<String>)
    ensures
        tokens.deep_view() == tokens_of(info@, PositionalInfoType::B),
        tokens.deep_view() == tokens_of(info@, PositionalInfoType::C),
{
    let entries = split_at(info, ';');
    split_entries(&entries, ',')
}

/// The tokens of a field of shape D: the pieces between commas of the
/// bracketed groups of its entries.
fn tokens_of_shape_d(info: &str) -> (tokens: Vec<String>)
    ensures
        tokens.deep_view() == tokens_of(info@, PositionalInfoType::D),
{
    let entries = split_at(info, ';');
    let groups = split_entries_outside_brackets(&entries);
    split_entries(&groups, ',')
}

/// Reads every token of a field of shape `case` as a position.
fn parse_tokens(tokens: &Vec<String>, case: PositionalInfoType) -> (r: Result<
    Vec<Position>,
    ValueError,
>)
    ensures
        yields(r, decode_all(tokens.deep_view(), position_decoder(case))),
{
    let ghost items = tokens.deep_view();
    let mut positions: Vec<Position> = Vec::new();
    let mut i: usize = 0;
    assert(items.take(0) =~= Seq::<Seq<char>>::empty());
    assert(positions.deep_view() =~= Seq::<Position>::empty());
    while i < tokens.len()
        invariant
            i <= tokens.len(),
            items == tokens.deep_view(),
            decode_all(items.take(i as int), position_decoder(case)) == Ok::<
                Seq<Position>,
                ErrorView,
            >(positions.deep_view()),
        decreases tokens.len() - i,
    {
        proof {
            lemma_decode_all_step(items, position_decoder(case), i as int);
        }
        match parse_position(tokens[i].as_str(), case) {
            Err(e) => {
                proof {
                    lemma_decode_all_error(items, position_decoder(case), i + 1);
                }
                return Err(e);
            },
            Ok(p) => {
                let ghost before = positions.deep_view();
                positions.push(p);
                assert(positions.deep_view() =~= before.push(p));
            },
        }
        i += 1;
    }
    assert(items.take(tokens.len() as int) =~= items);
    Ok(positions)
}

/// Reads the positions of a positional-information field: finds the shape of
/// the field, takes the field apart as that shape has it, and reads every
/// token as a `start/length` pair.
pub fn parse_positional_info(info: &str) -> (r: Result<Vec<Position>, ValueError>)
    ensures
        yields(r, decode_positions(info@)),
        r matches Ok(positions) ==> positions.len() >= 1,
{
    let tags = tag_pos_info(info);
    let case = match categorize_positional_info(tags.0, tags.1, tags.2) {
        None => {
            return Err(ValueError::new(ErrorKind::Classification, info));
        },
        Some(case) => case,
    };
    let tokens = match case {
        PositionalInfoType::A => tokens_of_shape_a(info),
        PositionalInfoType::B => tokens_of_shape_b_c(info),
        PositionalInfoType::C => tokens_of_shape_b_c(info),
        PositionalInfoType::D => tokens_of_shape_d(info),
    };
    match parse_tokens(&tokens, case) {
        Err(e) => Err(e),
        Ok(positions) => {
            if positions.len() == 0 {
                Err(ValueError::new(ErrorKind::Shape, info))
            } else {
                Ok(positions)
            }
        },
    }
}

/// `t` is a token of a field of shape `case`: without the brackets around
/// it, in the bracketed shapes, it is two integers separated by one slash.
pub open spec fn is_pair(t: Seq<char>, case: PositionalInfoType) -> bool {
    let bare = if is_bracketed_shape(case) {
        trim_brackets(t)
    } else {
        t
    };
    let parts = split_on(bare, '/');
    parts.len() == 2 && i32_of(parts[0]) is Some && i32_of(parts[1]) is Some
}

/// The position that a token of a field of shape `case` writes.
pub open spec fn pair_position(t: Seq<char>, case: PositionalInfoType) -> Position {
    let bare = if is_bracketed_shape(case) {
        trim_brackets(t)
    } else {
        t
    };
    let parts = split_on(bare, '/');
    Position { start: i32_of(parts[0])->0, length: i32_of(parts[1])->0, case }
}

/// `info` is positional information: it has one of the four shapes, it holds
/// at least one token, and every token is a pair.
pub open spec fn is_positional_info(info: Seq<char>) -> bool {
    shape_of_info(info) matches Some(case) && tokens_of(info, case).len() >= 1 && forall|i: int|
        0 <= i < tokens_of(info, case).len() ==> is_pair(#[trigger] tokens_of(info, case)[i], case)
}

/// A token is decoded exactly when it is a pair, and then to the position
/// that the pair writes.
pub proof fn lemma_pair_decodes(t: Seq<char>, case: PositionalInfoType)
    ensures
        decode_position(t, case) is Ok <==> is_pair(t, case),
        is_pair(t, case) ==> decode_position(t, case) == Ok::<Position, ErrorView>(
            pair_position(t, case),
        ),
{
    let bare = if is_bracketed_shape(case) {
        trim_brackets(t)
    } else {
        t
    };
    let parts = split_on(bare, '/');
    lemma_decode_all_items(parts, integer_decoder());
    if is_pair(t, case) {
        assert(integer_decoder()(parts[0]) is Ok);
        assert(integer_decoder()(parts[1]) is Ok);
        assert forall|i: int| 0 <= i < parts.len() implies (#[trigger] integer_decoder()(
            parts[i],
        )) is Ok by {
            if i == 0 {
            } else {
                assert(i == 1);
            }
        }
    }
    if decode_position(t, case) is Ok {
        let numbers = decode_numbers(bare)->Ok_0;
        assert(integer_decoder()(parts[0]) == Ok::<i32, ErrorView>(numbers[0]));
        assert(integer_decoder()(parts[1]) == Ok::<i32, ErrorView>(numbers[1]));
    }
}

/// Positional information is decoded exactly when it is well formed: when
/// it has one of the four shapes and all its tokens, of which there is at
/// least one, are pairs.  The positions are then those that the tokens
/// write, in the order of the tokens.
pub proof fn lemma_positional_info_decodes(info: Seq<char>)
    ensures
        decode_positions(info) is Ok <==> is_positional_info(info),
        decode_positions(info) matches Ok(positions) ==> {
            let case = shape_of_info(info)->0;
            let tokens = tokens_of(info, case);
            positions.len() == tokens.len() && forall|i: int|
                0 <= i < tokens.len() ==> #[trigger] positions[i] == pair_position(
                    tokens[i],
                    case,
                )
        },
{
    if let Some(case) = shape_of_info(info) {
        let tokens = tokens_of(info, case);
        let f = position_decoder(case);
        lemma_decode_all_items(tokens, f);
        assert forall|i: int| 0 <= i < tokens.len() implies ((#[trigger] f(tokens[i])) is Ok
            <==> is_pair(tokens[i], case)) by {
            lemma_pair_decodes(tokens[i], case);
        }
        if is_positional_info(info) {
            assert forall|i: int| 0 <= i < tokens.len() implies (#[trigger] f(tokens[i])) is Ok by {
                assert(is_pair(tokens[i], case));
            }
        }
        if let Ok(positions) = decode_all(tokens, f) {
            assert forall|i: int| 0 <= i < tokens.len() implies #[trigger] positions[i]
                == pair_position(tokens[i], case) by {
                lemma_pair_decodes(tokens[i], case);
                assert(f(tokens[i]) == Ok::<Position, ErrorView>(positions[i]));
            }
            assert forall|i: int| 0 <= i < tokens.len() implies is_pair(
                #[trigger] tokens[i],
                case,
            ) by {
                assert(f(tokens[i]) is Ok);
            }
        }
    }
}

/// The errors of positional information: for a field of no shape, for a
/// part of a token that is no integer, or for a token or a field that has
/// not the parts that it must have.
pub proof fn lemma_positions_error_kind(info: Seq<char>)
    ensures
        decode_positions(info) matches Err(e) ==> e.kind == ErrorKind::Classification || e.kind
            == ErrorKind::IntegerParse || e.kind == ErrorKind::Shape,
{
    if let Some(case) = shape_of_info(info) {
        let tokens = tokens_of(info, case);
        lemma_decode_all_items(tokens, position_decoder(case));
        if let Err(e) = decode_all(tokens, position_decoder(case)) {
            let k = choose|k: int|
                0 <= k < tokens.len() && #[trigger] position_decoder(case)(tokens[k]) == Err::<
                    Position,
                    ErrorView,
                >(e);
            let bare = if is_bracketed_shape(case) {
                trim_brackets(tokens[k])
            } else {
                tokens[k]
            };
            lemma_decode_all_items(split_on(bare, '/'), integer_decoder());
        }
    }
}

} // verus!
