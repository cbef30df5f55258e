//! Character-level helpers shared by the decoders: texts as sequences of
//! characters, and cutting a text into pieces.

use vstd::prelude::*;

verus! {

/// Appending a character extends the text by exactly that character
/// (`String::push` of the standard library).
pub assume_specification[ String::push ](s: &mut String, ch: char)
    ensures
        final(s)@ == old(s)@.push(ch),
;

/// The characters of `s`, in order.
pub fn chars_of(s: &str) -> (v: Vec<char>)
    ensures
        v@ == s@,
{
    let mut v: Vec<char> = Vec::new();
    for c in it: s.chars()
        invariant
            it.seq() == s@,
            v@ == s@.take(it.index()),
    {
        v.push(c);
    }
    assert(s@.take(s@.len() as int) == s@);
    v
}

/// The text made of the characters `v[from..to]`.
pub fn text_of(v: &Vec<char>, from: usize, to: usize) -> (s: String)
    requires
        from <= to <= v.len(),
    ensures
        s@ == v@.subrange(from as int, to as int),
{
    let mut s = String::new();
    let mut i: usize = from;
    while i < to
        invariant
            from <= i <= to <= v.len(),
            s@ == v@.subrange(from as int, i as int),
        decreases to - i,
    {
        s.push(v[i]);
        i += 1;
        assert(v@.subrange(from as int, i as int) == v@.subrange(from as int, i - 1).push(
            v@[i - 1],
        ));
    }
    s
}

/// `s` spells the word that `upper` writes in capital letters and `lower` in
/// small letters: letter by letter, in either case.
pub open spec fn is_word(s: Seq<char>, upper: Seq<char>, lower: Seq<char>) -> bool {
    &&& s.len() == upper.len()
    &&& s.len() == lower.len()
    &&& forall|i: int| 0 <= i < s.len() ==> #[trigger] s[i] == upper[i] || s[i] == lower[i]
}

/// Whether the characters of `v` from `from` on spell the given word.
pub fn spells(v: &Vec<char>, from: usize, upper: &str, lower: &str) -> (b: bool)
    requires
        from <= v.len(),
    ensures
        b == is_word(v@.skip(from as int), upper@, lower@),
{
    let u = chars_of(upper);
    let l = chars_of(lower);
    let n = v.len() - from;
    if u.len() != n || l.len() != n {
        return false;
    }
    let ghost s = v@.skip(from as int);
    let mut i: usize = 0;
    while i < n
        invariant
            i <= n,
            from + n == v.len(),
            u.len() == n,
            l.len() == n,
            s == v@.skip(from as int),
            u@ == upper@,
            l@ == lower@,
            forall|k: int| 0 <= k < i ==> #[trigger] s[k] == u@[k] || s[k] == l@[k],
        decreases n - i,
    {
        let c = v[from + i];
        assert(c == s[i as int]);
        if c != u[i] && c != l[i] {
            return false;
        }
        i += 1;
    }
    true
}

/// The pieces of the first `n` characters of `s` when the text is cut at the
/// flagged positions.  A flagged character ends the current piece and belongs
/// to no piece; every other character extends the current piece.  So `k`
/// flagged positions give `k + 1` pieces, some of which may be empty.
pub open spec fn pieces(s: Seq<char>, cuts: Seq<bool>, n: int) -> Seq<Seq<char>>
    decreases n,
{
    if n <= 0 {
        seq![Seq::<char>::empty()]
    } else {
        let before = pieces(s, cuts, n - 1);
        if cuts[n - 1] {
            before.push(Seq::<char>::empty())
        } else {
            before.update(before.len() - 1, before.last().push(s[n - 1]))
        }
    }
}

/// There is always at least one piece.
pub proof fn lemma_pieces_nonempty(s: Seq<char>, cuts: Seq<bool>, n: int)
    ensures
        pieces(s, cuts, n).len() >= 1,
    decreases n,
{
    if n > 0 {
        lemma_pieces_nonempty(s, cuts, n - 1);
    }
}

/// There is one piece more than there are flagged positions.
pub proof fn lemma_pieces_count(s: Seq<char>, cuts: Seq<bool>, n: int)
    requires
        0 <= n <= cuts.len(),
    ensures
        pieces(s, cuts, n).len() == 1 + cuts.take(n).filter(|flag: bool| flag).len(),
    decreases n,
{
    reveal(Seq::filter);
    if n > 0 {
        lemma_pieces_count(s, cuts, n - 1);
        assert(cuts.take(n).drop_last() =~= cuts.take(n - 1));
        assert(cuts.take(n).last() == cuts[n - 1]);
    } else {
        assert(cuts.take(n) =~= Seq::<bool>::empty());
    }
}

/// The texts `parts` written one after the other with the delimiter `d`
/// between them.
pub open spec fn join(parts: Seq<Seq<char>>, d: char) -> Seq<char>
    decreases parts.len(),
{
    if parts.len() == 0 {
        Seq::empty()
    } else if parts.len() == 1 {
        parts[0]
    } else {
        join(parts.drop_last(), d) + seq![d] + parts.last()
    }
}

/// Where every flagged position holds the delimiter `d`, the pieces of a
/// text joined by `d` are the text again: cutting loses nothing but the
/// delimiters at which it cuts.
pub proof fn lemma_pieces_join(s: Seq<char>, cuts: Seq<bool>, d: char, n: int)
    requires
        0 <= n <= s.len(),
        forall|i: int| 0 <= i < n && cuts[i] ==> s[i] == d,
    ensures
        join(pieces(s, cuts, n), d) == s.take(n),
    decreases n,
{
    if n == 0 {
        assert(join(pieces(s, cuts, n), d) =~= s.take(n));
    } else {
        let before = pieces(s, cuts, n - 1);
        let now = pieces(s, cuts, n);
        lemma_pieces_join(s, cuts, d, n - 1);
        lemma_pieces_nonempty(s, cuts, n - 1);
        if cuts[n - 1] {
            assert(now.drop_last() =~= before);
            assert(join(now, d) =~= s.take(n));
        } else if before.len() == 1 {
            assert(join(now, d) =~= s.take(n));
        } else {
            assert(now.drop_last() =~= before.drop_last());
            assert(join(now, d) =~= s.take(n));
        }
    }
}

/// Cuts `v` at the flagged positions.
pub fn cut_pieces(v: &Vec<char>, cuts: &Vec<bool>) -> (parts: Vec<String>)
    requires
        cuts.len() == v.len(),
    ensures
        parts.deep_view() == pieces(v@, cuts@, v.len() as int),
{
    let mut parts: Vec<String> = Vec::new();
    let mut current = String::new();
    let mut i: usize = 0;
    assert(parts.deep_view().push(current@) =~= pieces(v@, cuts@, 0));
    while i < v.len()
        invariant
            i <= v.len() == cuts.len(),
            parts.deep_view().push(current@) == pieces(v@, cuts@, i as int),
        decreases v.len() - i,
    {
        let ghost done = parts.deep_view();
        let ghost piece = current@;
        if cuts[i] {
            parts.push(current);
            current = String::new();
            assert(parts.deep_view() =~= done.push(piece));
        } else {
            current.push(v[i]);
            assert(done.push(piece).update(done.len() as int, piece.push(v@[i as int]))
                =~= done.push(current@));
        }
        i += 1;
    }
    let ghost done = parts.deep_view();
    let ghost piece = current@;
    parts.push(current);
    assert(parts.deep_view() =~= done.push(piece));
    parts
}

/// The flags of the positions of `s` that hold the delimiter `d`.
pub open spec fn delimiter_cuts(s: Seq<char>, d: char) -> Seq<bool> {
    Seq::new(s.len(), |i: int| s[i] == d)
}

/// The pieces of `s` between the occurrences of the delimiter `d`.
pub open spec fn split_on(s: Seq<char>, d: char) -> Seq<Seq<char>> {
    pieces(s, delimiter_cuts(s, d), s.len() as int)
}

/// What splitting at a delimiter comes to: the pieces hold no delimiter, and
/// joined by the delimiter they are the text again.
pub proof fn lemma_split_on(s: Seq<char>, d: char)
    ensures
        join(split_on(s, d), d) == s,
        forall|i: int, j: int|
            0 <= i < split_on(s, d).len() && 0 <= j < split_on(s, d)[i].len() ==> #[trigger] split_on(
                s,
                d,
            )[i][j] != d,
{
    lemma_pieces_join(s, delimiter_cuts(s, d), d, s.len() as int);
    assert(s.take(s.len() as int) =~= s);
    lemma_pieces_hold_no_cut(s, d, s.len() as int);
}

/// The pieces of a text that is cut at every delimiter hold no delimiter.
proof fn lemma_pieces_hold_no_cut(s: Seq<char>, d: char, n: int)
    requires
        0 <= n <= s.len(),
    ensures
        forall|i: int, j: int|
            0 <= i < pieces(s, delimiter_cuts(s, d), n).len() && 0 <= j < pieces(
                s,
                delimiter_cuts(s, d),
                n,
            )[i].len() ==> #[trigger] pieces(s, delimiter_cuts(s, d), n)[i][j] != d,
    decreases n,
{
    if n > 0 {
        lemma_pieces_hold_no_cut(s, d, n - 1);
        lemma_pieces_nonempty(s, delimiter_cuts(s, d), n - 1);
        let before = pieces(s, delimiter_cuts(s, d), n - 1);
        let now = pieces(s, delimiter_cuts(s, d), n);
        assert forall|i: int, j: int| 0 <= i < now.len() && 0 <= j < now[i].len() implies #[trigger] now[i][j]
            != d by {
            if i < before.len() - 1 {
                assert(now[i] == before[i]);
                assert(before[i][j] != d);
            } else if i == before.len() - 1 && !delimiter_cuts(s, d)[n - 1] {
                if j < before[i].len() {
                    assert(before[i][j] != d);
                }
            } else if i == before.len() - 1 {
                assert(now[i] == before[i]);
                assert(before[i][j] != d);
            }
        }
    }
}

/// Splits `s` at every occurrence of the delimiter `d`.
pub fn split_at(s: &str, d: char) -> (parts: Vec<String>)
    ensures
        parts.deep_view() == split_on(s@, d),
{
    let v = chars_of(s);
    let mut cuts: Vec<bool> = Vec::new();
    let mut i: usize = 0;
    while i < v.len()
        invariant
            i <= v.len(),
            cuts.len() == i,
            forall|k: int| 0 <= k < i ==> cuts@[k] == (v@[k] == d),
        decreases v.len() - i,
    {
        cuts.push(v[i] == d);
        i += 1;
    }
    assert(cuts@ =~= delimiter_cuts(s@, d));
    cut_pieces(&v, &cuts)
}

/// `s` without the characters `c` that it starts with.
pub open spec fn trim_start(s: Seq<char>, c: char) -> Seq<char>
    decreases s.len(),
{
    if s.len() > 0 && s[0] == c {
        trim_start(s.drop_first(), c)
    } else {
        s
    }
}

/// `s` without the characters `c` that it ends with.
pub open spec fn trim_end(s: Seq<char>, c: char) -> Seq<char>
    decreases s.len(),
{
    if s.len() > 0 && s.last() == c {
        trim_end(s.drop_last(), c)
    } else {
        s
    }
}

/// `s` without the opening brackets that it starts with and, of what is
/// left, without the closing brackets that it ends with.
pub open spec fn trim_brackets(s: Seq<char>) -> Seq<char> {
    trim_end(trim_start(s, '['), ']')
}

/// Removes the opening brackets at the start of `x` and the closing brackets
/// at the end of what is left.
pub fn without_brackets(x: &str) -> (r: String)
    ensures
        r@ == trim_brackets(x@),
{
    let v = chars_of(x);
    let n = v.len();
    let mut a: usize = 0;
    assert(v@.subrange(0, n as int) =~= v@);
    while a < n && v[a] == '['
        invariant
            a <= n == v.len(),
            trim_start(v@, '[') == trim_start(v@.subrange(a as int, n as int), '['),
        decreases n - a,
    {
        assert(v@.subrange(a as int, n as int).drop_first() =~= v@.subrange(a + 1, n as int));
        a += 1;
    }
    let mut b: usize = n;
    while b > a && v[b - 1] == ']'
        invariant
            a <= b <= n == v.len(),
            trim_brackets(v@) == trim_end(v@.subrange(a as int, b as int), ']'),
        decreases b,
    {
        assert(v@.subrange(a as int, b as int).drop_last() =~= v@.subrange(a as int, b - 1));
        b -= 1;
    }
    text_of(&v, a, b)
}

/// `s` without its double quotes.
pub open spec fn unquoted(s: Seq<char>) -> Seq<char> {
    s.filter(|c: char| c != '"')
}

/// Removes every double quote from `x`.
pub fn without_quotes(x: &str) -> (r: String)
    ensures
        r@ == unquoted(x@),
{
    let v = chars_of(x);
    let mut r = String::new();
    let mut i: usize = 0;
    assert(v@.take(0) =~= Seq::<char>::empty());
    while i < v.len()
        invariant
            i <= v.len(),
            r@ == unquoted(v@.take(i as int)),
        decreases v.len() - i,
    {
        let c = v[i];
        proof {
            reveal(Seq::filter);
            assert(v@.take(i + 1).drop_last() =~= v@.take(i as int));
            assert(v@.take(i + 1).last() == c);
        }
        if c != '"' {
            r.push(c);
        }
        i += 1;
    }
    assert(v@.take(v.len() as int) =~= v@);
    r
}

} // verus!
