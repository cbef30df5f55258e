//! The splitters of the record format: at pipes, and at a delimiter that
//! counts only outside quotes or outside square brackets.

use vstd::prelude::*;
use crate::text::{chars_of, cut_pieces, join, lemma_pieces_join, pieces, split_at, split_on};

verus! {

/// Whether a scan of the first `n` characters of `s` ends inside a span.  The
/// scan starts outside, and every occurrence of `open` or of `close` takes it
/// to the other side: spans do not nest.
pub open spec fn inside(s: Seq<char>, open: char, close: char, n: int) -> bool
    decreases n,
{
    if n <= 0 {
        false
    } else {
        inside(s, open, close, n - 1) != (s[n - 1] == open || s[n - 1] == close)
    }
}

/// The scan is inside a span exactly when it has passed an odd number of
/// span markers.
pub proof fn lemma_inside_counts_markers(s: Seq<char>, open: char, close: char, n: int)
    requires
        0 <= n <= s.len(),
    ensures
        inside(s, open, close, n) <==> s.take(n).filter(|c: char| c == open || c == close).len()
            % 2 == 1,
    decreases n,
{
    reveal(Seq::filter);
    if n > 0 {
        lemma_inside_counts_markers(s, open, close, n - 1);
        assert(s.take(n).drop_last() =~= s.take(n - 1));
        assert(s.take(n).last() == s[n - 1]);
    } else {
        assert(s.take(n) =~= Seq::<char>::empty());
    }
}

/// The flags of the positions at which `s` is cut: those that hold the
/// delimiter `d` outside every span.  A delimiter that is itself a span
/// marker never cuts.
pub open spec fn context_cuts(s: Seq<char>, open: char, close: char, d: char) -> Seq<bool> {
    Seq::new(
        s.len(),
        |i: int| s[i] == d && d != open && d != close && !inside(s, open, close, i),
    )
}

/// The pieces of `s` between the delimiters `d` that stand outside double
/// quotes.  The quotes stay in the pieces.  A text of `k` such delimiters has
/// `k + 1` pieces, the last of which runs to the end of the text whatever
/// the text ends with; only the empty text has no piece at all.
pub open spec fn quote_split(s: Seq<char>, d: char) -> Seq<Seq<char>> {
    if s.len() == 0 {
        Seq::empty()
    } else {
        pieces(s, context_cuts(s, '"', '"', d), s.len() as int)
    }
}

/// The pieces of `s` between the commas that stand outside square brackets.
/// The piece after the last such comma is given only where the text ends
/// with a closing bracket; otherwise the text after the last comma is left
/// out, and the empty text has no piece at all.
pub open spec fn bracket_split(s: Seq<char>) -> Seq<Seq<char>> {
    let all = pieces(s, context_cuts(s, '[', ']', ','), s.len() as int);
    if s.len() > 0 && s.last() == ']' {
        all
    } else {
        all.drop_last()
    }
}

/// Splitting outside quotes loses nothing but the delimiters at which it
/// cuts: the pieces of a text other than the empty one, joined by the
/// delimiter, are the text again.
pub proof fn lemma_quote_split_join(s: Seq<char>, d: char)
    requires
        s.len() > 0,
    ensures
        quote_split(s, d).len() >= 1,
        join(quote_split(s, d), d) == s,
{
    let cuts = context_cuts(s, '"', '"', d);
    lemma_pieces_join(s, cuts, d, s.len() as int);
    crate::text::lemma_pieces_nonempty(s, cuts, s.len() as int);
    assert(s.take(s.len() as int) =~= s);
}

/// Splitting outside brackets loses nothing of a text that ends with a
/// closing bracket but the commas at which it cuts: the pieces, joined by
/// commas, are the text again.
pub proof fn lemma_bracket_split_join(s: Seq<char>)
    requires
        s.len() > 0,
        s.last() == ']',
    ensures
        bracket_split(s).len() >= 1,
        join(bracket_split(s), ',') == s,
{
    let cuts = context_cuts(s, '[', ']', ',');
    lemma_pieces_join(s, cuts, ',', s.len() as int);
    crate::text::lemma_pieces_nonempty(s, cuts, s.len() as int);
    assert(s.take(s.len() as int) =~= s);
}

/// Scans `v` once and flags the delimiters `d` that stand outside the spans
/// marked by `open` and `close`.
fn context_flags(v: &Vec<char>, open: char, close: char, d: char) -> (cuts: Vec<bool>)
    ensures
        cuts@ == context_cuts(v@, open, close, d),
{
    let mut cuts: Vec<bool> = Vec::new();
    let mut within = false;
    let mut i: usize = 0;
    while i < v.len()
        invariant
            i <= v.len(),
            cuts.len() == i,
            within == inside(v@, open, close, i as int),
            forall|k: int|
                0 <= k < i ==> cuts@[k] == (v@[k] == d && d != open && d != close && !inside(
                    v@,
                    open,
                    close,
                    k,
                )),
        decreases v.len() - i,
    {
        let c = v[i];
        if c == open || c == close {
            cuts.push(false);
            within = !within;
        } else {
            cuts.push(c == d && !within);
        }
        i += 1;
    }
    assert(cuts@ =~= context_cuts(v@, open, close, d));
    cuts
}

/// Splits `x` at every `pattern` that stands outside double quotes.
pub fn split_with_quote_context(x: &str, pattern: char) -> (parts: Vec<String>)
    ensures
        parts.deep_view() == quote_split(x@, pattern),
{
    let v = chars_of(x);
    if v.len() == 0 {
        let parts: Vec<String> = Vec::new();
        assert(parts.deep_view() =~= Seq::<Seq<char>>::empty());
        return parts;
    }
    let cuts = context_flags(&v, '"', '"', pattern);
    cut_pieces(&v, &cuts)
}

/// Splits `x` at every comma that stands outside square brackets.
pub fn split_with_bracket_context(x: &str) -> (parts: Vec<String>)
    ensures
        parts.deep_view() == bracket_split(x@),
{
    let v = chars_of(x);
    let cuts = context_flags(&v, '[', ']', ',');
    let mut parts = cut_pieces(&v, &cuts);
    if v.len() > 0 && v[v.len() - 1] == ']' {
        parts
    } else {
        let ghost all = parts.deep_view();
        proof {
            crate::text::lemma_pieces_nonempty(v@, cuts@, v.len() as int);
        }
        parts.pop();
        assert(parts.deep_view() =~= all.drop_last());
        parts
    }
}

/// Splits a record at every pipe.
pub fn split_text(text: &str) -> (parts: Vec<String>)
    ensures
        parts.deep_view() == split_on(text@, '|'),
{
    split_at(text, '|')
}

} // verus!
