//! Cutting text into pieces, lines and words.
use crate::text::{copy_chars, is_space, trimmed_start, whitespace};
use vstd::prelude::*;

verus! {

/// The views of some character strings.
pub open spec fn texts(v: Seq<Vec<char>>) -> Seq<Seq<char>> {
    v.map_values(|x: Vec<char>| x@)
}

/// The first place at or after `from` with the character `c`; the length where there is none.
pub open spec fn place_of(s: Seq<char>, c: char, from: int) -> int
    decreases s.len() - from,
{
    if from >= s.len() || s[from] == c {
        from
    } else {
        place_of(s, c, from + 1)
    }
}

/// The first place at or after `from` with the character `c`.
pub fn find_char(s: &[char], c: char, from: usize) -> (r: usize)
    requires
        from <= s@.len(),
    ensures
        r == place_of(s@, c, from as int),
        from <= r <= s@.len(),
        r < s@.len() ==> s@[r as int] == c,
        forall|j: int| from <= j < r ==> s@[j] != c,
{
    let mut i: usize = from;
    while i < s.len() && s[i] != c
        invariant
            from <= i <= s@.len(),
            place_of(s@, c, from as int) == place_of(s@, c, i as int),
            forall|j: int| from <= j < i ==> s@[j] != c,
        decreases s@.len() - i,
    {
        i = i + 1;
    }
    i
}

proof fn lemma_place_shift(s: Seq<char>, c: char, from: int, i: int)
    requires
        0 <= from <= i <= s.len(),
    ensures
        place_of(s.skip(from), c, i - from) == place_of(s, c, i) - from,
    decreases s.len() - i,
{
    if i < s.len() && s[i] != c {
        lemma_place_shift(s, c, from, i + 1);
    }
}

/// The pieces of a text between the characters `sep`; without any it is the one piece.
pub open spec fn pieces(s: Seq<char>, sep: char) -> Seq<Seq<char>>
    decreases s.len(),
{
    let i = place_of(s, sep, 0);
    if i < 0 || i >= s.len() {
        seq![s]
    } else {
        seq![s.take(i)] + pieces(s.skip(i + 1), sep)
    }
}

/// Cuts a text at every `sep`.
pub fn split(s: &[char], sep: char) -> (out: Vec<Vec<char>>)
    ensures
        texts(out@) == pieces(s@, sep),
        out@.len() >= 1,
{
    let mut out: Vec<Vec<char>> = Vec::new();
    let mut from: usize = 0;
    let n: usize = s.len();
    assert(s@.skip(0) =~= s@);
    assert(texts(out@) =~= Seq::<Seq<char>>::empty());
    assert(texts(out@) + pieces(s@.skip(0), sep) =~= pieces(s@, sep));
    loop
        invariant_except_break
            n == s@.len(),
            from <= n,
            texts(out@) + pieces(s@.skip(from as int), sep) == pieces(s@, sep),
        ensures
            texts(out@) == pieces(s@, sep),
            out@.len() >= 1,
        decreases n - from,
    {
        let i: usize = find_char(s, sep, from);
        let ghost rest = s@.skip(from as int);
        proof {
            lemma_place_shift(s@, sep, from as int, from as int);
        }
        let piece = copy_chars(s, from, i);
        let ghost before = out@;
        out.push(piece);
        assert(texts(out@) =~= texts(before).push(piece@));
        if i >= n {
            assert(piece@ =~= rest);
            assert(texts(out@) =~= texts(before) + pieces(rest, sep));
            break;
        }
        assert(piece@ =~= rest.take(i - from));
        assert(rest.skip(i - from + 1) =~= s@.skip(i + 1));
        assert(texts(out@) + pieces(s@.skip(i + 1), sep) =~= texts(before) + pieces(rest, sep));
        from = i + 1;
    }
    out
}

/// A line without the carriage return that may end it.
pub open spec fn without_return(s: Seq<char>) -> Seq<char> {
    if s.len() > 0 && s.last() == '\r' {
        s.drop_last()
    } else {
        s
    }
}

/// The lines of a text. A line ends with a newline, or with a carriage return and a newline;
/// the last one may go without.
pub open spec fn lines_of(s: Seq<char>) -> Seq<Seq<char>>
    decreases s.len(),
{
    let i = place_of(s, '\n', 0);
    if s.len() == 0 {
        Seq::empty()
    } else if i < 0 || i >= s.len() {
        seq![s]
    } else {
        seq![without_return(s.take(i))] + lines_of(s.skip(i + 1))
    }
}

/// Cuts a text into its lines.
pub fn lines(s: &[char]) -> (out: Vec<Vec<char>>)
    ensures
        texts(out@) == lines_of(s@),
{
    let mut out: Vec<Vec<char>> = Vec::new();
    let mut from: usize = 0;
    let n: usize = s.len();
    assert(s@.skip(0) =~= s@);
    assert(texts(out@) + lines_of(s@.skip(0)) =~= lines_of(s@));
    while from < n
        invariant
            n == s@.len(),
            from <= n,
            texts(out@) + lines_of(s@.skip(from as int)) == lines_of(s@),
        decreases n - from,
    {
        let i: usize = find_char(s, '\n', from);
        let ghost rest = s@.skip(from as int);
        let ghost before = out@;
        proof {
            lemma_place_shift(s@, '\n', from as int, from as int);
        }
        if i >= n {
            let piece = copy_chars(s, from, n);
            out.push(piece);
            assert(piece@ =~= rest);
            assert(texts(out@) =~= texts(before).push(piece@));
            assert(texts(out@) =~= lines_of(s@));
            return out;
        }
        let end: usize = if i > from && s[i - 1] == '\r' {
            i - 1
        } else {
            i
        };
        let piece = copy_chars(s, from, end);
        out.push(piece);
        assert(texts(out@) =~= texts(before).push(piece@));
        assert(piece@ =~= without_return(rest.take(i - from)));
        assert(rest.skip(i - from + 1) =~= s@.skip(i + 1));
        assert(texts(out@) + lines_of(s@.skip(i + 1)) =~= texts(before) + lines_of(rest));
        from = i + 1;
    }
    assert(s@.skip(from as int) =~= Seq::<char>::empty());
    assert(texts(out@) =~= lines_of(s@));
    out
}

/// The first place at or after `from` with white space; the length where there is none.
pub open spec fn space_from(s: Seq<char>, from: int) -> int
    decreases s.len() - from,
{
    if from >= s.len() || is_space(s[from]) {
        from
    } else {
        space_from(s, from + 1)
    }
}

proof fn lemma_space_shift(s: Seq<char>, from: int, i: int)
    requires
        0 <= from <= i <= s.len(),
    ensures
        space_from(s.skip(from), i - from) == space_from(s, i) - from,
    decreases s.len() - i,
{
    if i < s.len() && !is_space(s[i]) {
        lemma_space_shift(s, from, i + 1);
    }
}

proof fn lemma_trim_shorter(s: Seq<char>)
    ensures
        trimmed_start(s).len() <= s.len(),
        trimmed_start(s).len() > 0 ==> !is_space(trimmed_start(s)[0]),
    decreases s.len(),
{
    if s.len() > 0 && is_space(s[0]) {
        lemma_trim_shorter(s.skip(1));
    }
}

/// The words of a text: what stands between white space.
pub open spec fn words_of(s: Seq<char>) -> Seq<Seq<char>>
    decreases s.len(),
    via words_of_decreases
{
    let t = trimmed_start(s);
    if t.len() == 0 {
        Seq::empty()
    } else {
        let i = space_from(t, 0);
        seq![t.take(i)] + words_of(t.skip(i))
    }
}

#[via_fn]
proof fn words_of_decreases(s: Seq<char>) {
    let t = trimmed_start(s);
    lemma_trim_shorter(s);
    if t.len() > 0 {
        lemma_space_bound(t, 0);
        assert(space_from(t, 0) >= 1) by {
            lemma_space_bound(t, 1);
        }
    }
}

proof fn lemma_space_bound(s: Seq<char>, from: int)
    requires
        0 <= from <= s.len(),
    ensures
        from <= space_from(s, from) <= s.len(),
    decreases s.len() - from,
{
    if from < s.len() && !is_space(s[from]) {
        lemma_space_bound(s, from + 1);
    }
}

/// Cuts a text into its words.
pub fn words(s: &[char]) -> (out: Vec<Vec<char>>)
    ensures
        texts(out@) == words_of(s@),
{
    let mut out: Vec<Vec<char>> = Vec::new();
    let mut from: usize = 0;
    let n: usize = s.len();
    assert(s@.skip(0) =~= s@);
    assert(texts(out@) + words_of(s@.skip(0)) =~= words_of(s@));
    loop
        invariant_except_break
            n == s@.len(),
            from <= n,
            texts(out@) + words_of(s@.skip(from as int)) == words_of(s@),
        ensures
            texts(out@) == words_of(s@),
        decreases n - from,
    {
        let ghost start = s@.skip(from as int);
        let mut i: usize = from;
        while i < n && whitespace(s[i])
            invariant
                n == s@.len(),
                from <= i <= n,
                trimmed_start(s@.skip(from as int)) == trimmed_start(s@.skip(i as int)),
            decreases n - i,
        {
            assert(s@.skip(i as int).skip(1) =~= s@.skip(i + 1));
            i = i + 1;
        }
        let ghost t = s@.skip(i as int);
        assert(trimmed_start(start) == t);
        if i >= n {
            assert(t.len() == 0);
            assert(texts(out@) + words_of(start) =~= texts(out@));
            break;
        }
        let mut j: usize = i;
        while j < n && !whitespace(s[j])
            invariant
                n == s@.len(),
                i <= j <= n,
                i < n,
                !is_space(s@[i as int]),
                space_from(s@, i as int) == space_from(s@, j as int),
            decreases n - j,
        {
            j = j + 1;
        }
        proof {
            lemma_space_shift(s@, i as int, i as int);
            assert(space_from(t, 0) == j - i);
        }
        let ghost before = out@;
        let word = copy_chars(s, i, j);
        out.push(word);
        assert(word@ =~= t.take(j - i));
        assert(texts(out@) =~= texts(before).push(word@));
        assert(t.skip(j - i) =~= s@.skip(j as int));
        assert(texts(out@) + words_of(s@.skip(j as int)) =~= texts(before) + words_of(start));
        assert(j > i);
        from = j;
    }
    out
}

} // verus!
