//! What holds of texts that are written and read back.
use crate::split::{lines_of, pieces, place_of, space_from, words_of};
use crate::text::{
    byte_len, chars_to, decimal, digit, digit_value, digits_value, hex_digit, hexadecimal, is_space,
    joined, numeral, signed_decimal, trimmed, trimmed_end, trimmed_start,
};
use vstd::prelude::*;

verus! {

/// Whether a character is a decimal digit.
pub open spec fn is_digit(c: char) -> bool {
    '0' <= c <= '9'
}

/// Whether a character is a digit of a hexadecimal numeral in small letters.
pub open spec fn is_hex_digit(c: char) -> bool {
    '0' <= c <= '9' || 'a' <= c <= 'f'
}

proof fn lemma_digits_step(s: Seq<char>, base: nat)
    requires
        s.len() > 0,
        base >= 1,
    ensures
        digits_value(s, base) == match (digits_value(s.drop_last(), base), digit_value(s.last(), base)) {
            (Some(hi), Some(lo)) => Some(hi * base + lo),
            _ => None,
        },
{
}

/// A decimal numeral is made of digits, and reading it gives the number.
pub proof fn law_decimal_reads_back(n: nat)
    ensures
        decimal(n).len() > 0,
        forall|i: int| 0 <= i < decimal(n).len() ==> is_digit(#[trigger] decimal(n)[i]),
        digits_value(decimal(n), 10) == Some(n),
        numeral(decimal(n), 10) == Some(n),
    decreases n,
{
    if n >= 10 {
        law_decimal_reads_back(n / 10);
        let hi = decimal(n / 10);
        assert(decimal(n).drop_last() =~= hi);
        assert(decimal(n).last() == digit(n % 10));
        assert forall|i: int| 0 <= i < decimal(n).len() implies is_digit(#[trigger] decimal(n)[i]) by {
            if i < hi.len() {
                assert(decimal(n)[i] == hi[i]);
            }
        }
        assert(n == (n / 10) * 10 + n % 10);
    } else {
        assert(decimal(n).drop_last() =~= Seq::<char>::empty());
        assert(digits_value(Seq::<char>::empty(), 10) == Some(0nat));
        assert(decimal(n).last() == digit(n));
    }
    lemma_digits_step(decimal(n), 10);
    assert(digits_value(decimal(n), 10) == Some(n));
    assert(is_digit(decimal(n)[0]));
}

/// A hexadecimal numeral is made of hexadecimal digits, and reading it gives the number.
pub proof fn law_hexadecimal_reads_back(n: nat)
    ensures
        hexadecimal(n).len() > 0,
        forall|i: int| 0 <= i < hexadecimal(n).len() ==> is_hex_digit(#[trigger] hexadecimal(n)[i]),
        digits_value(hexadecimal(n), 16) == Some(n),
        numeral(hexadecimal(n), 16) == Some(n),
    decreases n,
{
    if n >= 16 {
        law_hexadecimal_reads_back(n / 16);
        let hi = hexadecimal(n / 16);
        assert(hexadecimal(n).drop_last() =~= hi);
        assert(hexadecimal(n).last() == hex_digit(n % 16));
        assert forall|i: int| 0 <= i < hexadecimal(n).len() implies is_hex_digit(
            #[trigger] hexadecimal(n)[i],
        ) by {
            if i < hi.len() {
                assert(hexadecimal(n)[i] == hi[i]);
            }
        }
        assert(n == (n / 16) * 16 + n % 16);
    } else {
        assert(hexadecimal(n).drop_last() =~= Seq::<char>::empty());
        assert(digits_value(Seq::<char>::empty(), 16) == Some(0nat));
        assert(hexadecimal(n).last() == hex_digit(n));
    }
    lemma_digits_step(hexadecimal(n), 16);
    assert(digits_value(hexadecimal(n), 16) == Some(n));
    assert(is_hex_digit(hexadecimal(n)[0]));
}

/// The integer that a text with an optional minus sign stands for.
pub open spec fn integer_of(s: Seq<char>) -> Option<int> {
    if s.len() > 0 && s[0] == '-' {
        match digits_value(s.skip(1), 10) {
            Some(v) => Some(0 - v),
            None => None,
        }
    } else {
        match digits_value(s, 10) {
            Some(v) => Some(v as int),
            None => None,
        }
    }
}

/// Reading a signed numeral gives the number.
pub proof fn law_signed_reads_back(n: int)
    ensures
        integer_of(signed_decimal(n)) == Some(n),
        signed_decimal(n).len() > 0,
        forall|i: int|
            0 <= i < signed_decimal(n).len() ==> is_digit(#[trigger] signed_decimal(n)[i])
                || signed_decimal(n)[i] == '-',
{
    if n < 0 {
        law_decimal_reads_back((-n) as nat);
        assert(signed_decimal(n).skip(1) =~= decimal((-n) as nat));
    } else {
        law_decimal_reads_back(n as nat);
        assert(is_digit(decimal(n as nat)[0]));
    }
}

/// Whether a character does not occur in a text.
pub open spec fn lacks(s: Seq<char>, c: char) -> bool {
    forall|i: int| 0 <= i < s.len() ==> #[trigger] s[i] != c
}

/// A numeral holds none of the characters that stand between numbers.
pub proof fn lemma_decimal_lacks(n: nat, c: char)
    requires
        !is_digit(c),
    ensures
        lacks(decimal(n), c),
{
    law_decimal_reads_back(n);
}

pub proof fn lemma_place_of_first(a: Seq<char>, rest: Seq<char>, sep: char, k: int)
    requires
        lacks(a, sep),
        0 <= k <= a.len(),
    ensures
        place_of(a + seq![sep] + rest, sep, k) == a.len(),
        place_of(a, sep, k) == a.len(),
    decreases a.len() - k,
{
    let s = a + seq![sep] + rest;
    if k < a.len() {
        assert(s[k] == a[k]);
        lemma_place_of_first(a, rest, sep, k + 1);
    } else {
        assert(s[k] == sep);
    }
}

/// Splitting gives back what stands before the first separator, and then the pieces of the rest.
pub proof fn lemma_pieces_first(a: Seq<char>, rest: Seq<char>, sep: char)
    requires
        lacks(a, sep),
    ensures
        pieces(a + seq![sep] + rest, sep) == seq![a] + pieces(rest, sep),
        pieces(a, sep) == seq![a],
{
    lemma_place_of_first(a, rest, sep, 0);
    let s = a + seq![sep] + rest;
    assert(s.take(a.len() as int) =~= a);
    assert(s.skip(a.len() as int + 1) =~= rest);
}

/// Splitting at a separator undoes joining with it, where no part holds it.
pub proof fn law_split_undoes_join(parts: Seq<Seq<char>>, sep: char)
    requires
        parts.len() > 0,
        forall|i: int| 0 <= i < parts.len() ==> lacks(#[trigger] parts[i], sep),
    ensures
        pieces(joined(parts, seq![sep]), sep) == parts,
    decreases parts.len(),
{
    if parts.len() == 1 {
        lemma_pieces_first(parts[0], Seq::empty(), sep);
        assert(parts =~= seq![parts[0]]);
    } else {
        let rest = parts.skip(1);
        assert forall|i: int| 0 <= i < rest.len() implies lacks(#[trigger] rest[i], sep) by {
            assert(rest[i] == parts[i + 1]);
        }
        law_split_undoes_join(rest, sep);
        lemma_joined_first(parts, seq![sep]);
        lemma_pieces_first(parts[0], joined(rest, seq![sep]), sep);
        assert(parts =~= seq![parts[0]] + rest);
    }
}

/// Joining two parts or more starts with the first one.
pub proof fn lemma_joined_first(parts: Seq<Seq<char>>, sep: Seq<char>)
    requires
        parts.len() > 1,
    ensures
        joined(parts, sep) == parts[0] + sep + joined(parts.skip(1), sep),
    decreases parts.len(),
{
    let rest = parts.skip(1);
    if parts.len() == 2 {
        assert(parts.drop_last() =~= seq![parts[0]]);
        assert(rest.len() == 1);
        assert(rest[0] == parts[1]);
        assert(joined(parts.drop_last(), sep) == parts[0]);
    } else {
        let init = parts.drop_last();
        lemma_joined_first(init, sep);
        assert(init.skip(1) =~= rest.drop_last());
        assert(init[0] == parts[0]);
        assert(rest.last() == parts.last());
        assert(joined(parts, sep) =~= parts[0] + sep + joined(rest, sep));
    }
}

/// Four parts that lack a separator, joined with it, split into the four.
pub proof fn lemma_four_pieces(a: Seq<char>, b: Seq<char>, c: Seq<char>, d: Seq<char>, sep: char)
    requires
        lacks(a, sep),
        lacks(b, sep),
        lacks(c, sep),
        lacks(d, sep),
    ensures
        pieces(a + seq![sep] + (b + seq![sep] + (c + seq![sep] + d)), sep) == seq![a, b, c, d],
{
    lemma_pieces_first(d, Seq::empty(), sep);
    lemma_pieces_first(c, d, sep);
    lemma_pieces_first(b, c + seq![sep] + d, sep);
    lemma_pieces_first(a, b + seq![sep] + (c + seq![sep] + d), sep);
    assert(seq![a] + (seq![b] + (seq![c] + seq![d])) =~= seq![a, b, c, d]);
}

/// Whether a text is one word: it is not empty and holds no space.
pub open spec fn is_word(s: Seq<char>) -> bool {
    s.len() > 0 && forall|i: int| 0 <= i < s.len() ==> !is_space(#[trigger] s[i])
}

/// A word has nothing to trim, and a tab before it is trimmed.
pub proof fn lemma_trimmed_word(s: Seq<char>)
    requires
        is_word(s),
    ensures
        trimmed_start(s) == s,
        trimmed(s) == s,
        trimmed(seq!['\t'] + s) == s,
{
    assert(!is_space(s[0]));
    assert(!is_space(s[s.len() - 1]));
    let t = seq!['\t'] + s;
    assert(is_space(t[0]));
    assert(t.skip(1) =~= s);
    assert(trimmed_start(t) == trimmed_start(s));
}

proof fn lemma_space_from(a: Seq<char>, rest: Seq<char>, k: int)
    requires
        is_word(a),
        0 <= k <= a.len(),
        rest.len() > 0 ==> is_space(rest[0]),
    ensures
        space_from(a + rest, k) == a.len(),
    decreases a.len() - k,
{
    let s = a + rest;
    if k < a.len() {
        assert(s[k] == a[k]);
        lemma_space_from(a, rest, k + 1);
    } else if rest.len() > 0 {
        assert(s[k] == rest[0]);
    }
}

/// The words of a text that starts with a word and a space are that word and those behind it.
pub proof fn lemma_words_first(a: Seq<char>, rest: Seq<char>)
    requires
        is_word(a),
    ensures
        words_of(a + seq![' '] + rest) == seq![a] + words_of(rest),
        words_of(a) == seq![a],
{
    let s = a + seq![' '] + rest;
    let tail = seq![' '] + rest;
    assert(s =~= a + tail);
    assert(s[0] == a[0]);
    assert(!is_space(a[0]));
    assert(trimmed_start(s) == s);
    lemma_space_from(a, tail, 0);
    assert(s.take(a.len() as int) =~= a);
    assert(s.skip(a.len() as int) =~= tail);
    assert(words_of(tail) == words_of(rest)) by {
        assert(is_space(tail[0]));
        assert(tail.skip(1) =~= rest);
        assert(trimmed_start(tail) == trimmed_start(rest));
    }
    assert(trimmed_start(a) == a);
    let none = Seq::<char>::empty();
    lemma_space_from(a, none, 0);
    assert(a + none =~= a);
    assert(a.take(a.len() as int) =~= a);
    assert(a.skip(a.len() as int) =~= none);
    assert(words_of(none) =~= Seq::<Seq<char>>::empty());
    assert(seq![a] + Seq::<Seq<char>>::empty() =~= seq![a]);
}

/// The words of words that were joined with spaces are those words.
pub proof fn law_words_undo_join(ws: Seq<Seq<char>>)
    requires
        ws.len() > 0,
        forall|i: int| 0 <= i < ws.len() ==> is_word(#[trigger] ws[i]),
    ensures
        words_of(joined(ws, seq![' '])) == ws,
    decreases ws.len(),
{
    assert(is_word(ws[0]));
    if ws.len() == 1 {
        lemma_words_first(ws[0], Seq::empty());
        assert(ws =~= seq![ws[0]]);
    } else {
        let rest = ws.skip(1);
        assert forall|i: int| 0 <= i < rest.len() implies is_word(#[trigger] rest[i]) by {
            assert(rest[i] == ws[i + 1]);
        }
        law_words_undo_join(rest);
        lemma_joined_first(ws, seq![' ']);
        lemma_words_first(ws[0], joined(rest, seq![' ']));
        assert(seq![ws[0]] + rest =~= ws);
    }
}

/// Numerals are words, and read back as numbers that fit.
pub proof fn lemma_numerals_are_words(n: nat)
    ensures
        is_word(decimal(n)),
        is_word(hexadecimal(n)),
        is_word(signed_decimal(n as int)),
        is_word(signed_decimal(0 - n)),
{
    law_decimal_reads_back(n);
    law_hexadecimal_reads_back(n);
    let d = decimal(n);
    let h = hexadecimal(n);
    assert forall|i: int| 0 <= i < d.len() implies !is_space(#[trigger] d[i]) by {
        assert(is_digit(d[i]));
    }
    assert forall|i: int| 0 <= i < h.len() implies !is_space(#[trigger] h[i]) by {
        assert(is_hex_digit(h[i]));
    }
    let m = signed_decimal(0 - n);
    assert forall|i: int| 0 <= i < m.len() implies !is_space(#[trigger] m[i]) by {
        if n > 0 && i > 0 {
            assert(m[i] == d[i - 1]);
        }
    }
}

proof fn lemma_trimmed_start(s: Seq<char>)
    ensures
        trimmed_start(s).len() <= s.len(),
        trimmed_start(s).len() > 0 ==> !is_space(trimmed_start(s)[0]),
        trimmed_start(s) == s.skip(s.len() - trimmed_start(s).len()),
        forall|i: int| 0 <= i < s.len() - trimmed_start(s).len() ==> is_space(#[trigger] s[i]),
    decreases s.len(),
{
    if s.len() > 0 && is_space(s[0]) {
        let t = s.skip(1);
        lemma_trimmed_start(t);
        assert forall|i: int| 0 <= i < s.len() - trimmed_start(s).len() implies is_space(
            #[trigger] s[i],
        ) by {
            if i > 0 {
                assert(s[i] == t[i - 1]);
            }
        }
        assert(trimmed_start(s) =~= s.skip(s.len() - trimmed_start(s).len()));
    } else {
        assert(s.skip(0) =~= s);
    }
}

proof fn lemma_trimmed_end(s: Seq<char>)
    ensures
        trimmed_end(s).len() <= s.len(),
        trimmed_end(s).len() > 0 ==> !is_space(trimmed_end(s).last()),
        trimmed_end(s) == s.take(trimmed_end(s).len() as int),
        forall|i: int| trimmed_end(s).len() <= i < s.len() ==> is_space(#[trigger] s[i]),
    decreases s.len(),
{
    if s.len() > 0 && is_space(s.last()) {
        let t = s.drop_last();
        lemma_trimmed_end(t);
        assert forall|i: int| trimmed_end(s).len() <= i < s.len() implies is_space(
            #[trigger] s[i],
        ) by {
            if i < s.len() - 1 {
                assert(s[i] == t[i]);
            }
        }
        assert(trimmed_end(s) =~= s.take(trimmed_end(s).len() as int));
    } else {
        assert(s.take(s.len() as int) =~= s);
    }
}

/// A trimmed text is the text without the spaces at its ends, and nothing else is left out: what
/// stands before and behind it is spaces, and it neither starts nor ends with one.
pub proof fn law_trimmed(s: Seq<char>) -> (w: (int, int))
    ensures
        0 <= w.0 <= w.1 <= s.len(),
        trimmed(s) == s.subrange(w.0, w.1),
        forall|i: int| 0 <= i < w.0 || w.1 <= i < s.len() ==> is_space(#[trigger] s[i]),
        trimmed(s).len() > 0 ==> !is_space(trimmed(s)[0]) && !is_space(trimmed(s).last()),
{
    let t = trimmed_start(s);
    let r = trimmed(s);
    lemma_trimmed_start(s);
    lemma_trimmed_end(t);
    let from = s.len() - t.len();
    let to = from + r.len();
    assert(r =~= s.subrange(from, to));
    assert forall|i: int| 0 <= i < from || to <= i < s.len() implies is_space(#[trigger] s[i]) by {
        if i >= to {
            assert(t[i - from] == s[i]);
        }
    }
    if r.len() > 0 {
        assert(r[0] == t[0]);
    }
    (from, to)
}

/// A text that ends each of its lines with a newline has those lines.
pub open spec fn ended_lines(ls: Seq<Seq<char>>) -> Seq<char>
    decreases ls.len(),
{
    if ls.len() == 0 {
        Seq::empty()
    } else {
        ls[0] + seq!['\n'] + ended_lines(ls.skip(1))
    }
}

/// The lines of a text are those that it was written from, where none holds a newline or ends
/// with a carriage return.
pub proof fn law_lines_read_back(ls: Seq<Seq<char>>)
    requires
        forall|i: int|
            0 <= i < ls.len() ==> lacks(#[trigger] ls[i], '\n') && !(ls[i].len() > 0 && ls[i].last()
                == '\r'),
    ensures
        lines_of(ended_lines(ls)) == ls,
    decreases ls.len(),
{
    if ls.len() == 0 {
        assert(lines_of(ended_lines(ls)) =~= ls);
    } else {
        let rest = ls.skip(1);
        assert forall|i: int| 0 <= i < rest.len() implies lacks(#[trigger] rest[i], '\n') && !(
        rest[i].len() > 0 && rest[i].last() == '\r') by {
            assert(rest[i] == ls[i + 1]);
        }
        law_lines_read_back(rest);
        let s = ended_lines(ls);
        assert(lacks(ls[0], '\n'));
        lemma_place_of_first(ls[0], ended_lines(rest), '\n', 0);
        assert(s.take(ls[0].len() as int) =~= ls[0]);
        assert(s.skip(ls[0].len() as int + 1) =~= ended_lines(rest));
        assert(seq![ls[0]] + rest =~= ls);
    }
}

/// Where the `k`-th of some parts that were joined with commas stands: behind a comma, unless it
/// is the first, and before one, unless it is the last.
pub proof fn lemma_joined_at(all: Seq<Seq<char>>, k: int)
    requires
        0 <= k < all.len(),
    ensures
        ({
            let list = joined(all, seq![',']);
            let before = joined(all.take(k), seq![',']);
            let at = if k == 0 {
                0int
            } else {
                1 + before.len() as int
            };
            &&& at + all[k].len() <= list.len()
            &&& list.subrange(at, at + all[k].len() as int) == all[k]
            &&& k > 0 ==> list[at - 1] == ','
            &&& k == all.len() - 1 ==> at + all[k].len() == list.len()
            &&& k < all.len() - 1 ==> at + all[k].len() < list.len() && list[at
                + all[k].len() as int] == ','
        }),
    decreases all.len(),
{
    let list = joined(all, seq![',']);
    let before = joined(all.take(k), seq![',']);
    let at = if k == 0 {
        0int
    } else {
        1 + before.len() as int
    };
    if k == all.len() - 1 {
        assert(all.take(k) =~= all.drop_last());
        assert(list.subrange(at, at + all[k].len() as int) =~= all[k]);
    } else {
        let init = all.drop_last();
        lemma_joined_at(init, k);
        assert(init.take(k) =~= all.take(k));
        let short = joined(init, seq![',']);
        assert(list =~= short + seq![','] + all.last());
        assert(list.subrange(at, at + all[k].len() as int) =~= short.subrange(
            at,
            at + all[k].len() as int,
        ));
    }
}

/// A plain text has a byte for each character and is cut at a number of bytes after as many
/// characters.
pub proof fn law_plain_text_is_cut(s: Seq<char>, max: nat)
    requires
        forall|i: int| 0 <= i < s.len() ==> (#[trigger] s[i]) <= '\u{7f}',
    ensures
        byte_len(s) == s.len(),
        max <= s.len() ==> chars_to(s, max, 0) == max,
{
    lemma_plain_len(s);
    if max <= s.len() {
        lemma_plain_place(s, max, 0);
    }
}

proof fn lemma_plain_len(s: Seq<char>)
    requires
        forall|i: int| 0 <= i < s.len() ==> (#[trigger] s[i]) <= '\u{7f}',
    ensures
        byte_len(s) == s.len(),
    decreases s.len(),
{
    if s.len() > 0 {
        let init = s.drop_last();
        assert forall|i: int| 0 <= i < init.len() implies (#[trigger] init[i]) <= '\u{7f}' by {
            assert(init[i] == s[i]);
        }
        lemma_plain_len(init);
        assert(s.last() == s[s.len() - 1]);
    }
}

proof fn lemma_plain_place(s: Seq<char>, max: nat, k: int)
    requires
        forall|i: int| 0 <= i < s.len() ==> (#[trigger] s[i]) <= '\u{7f}',
        0 <= k <= max <= s.len(),
    ensures
        chars_to(s, max, k) == max,
    decreases max - k,
{
    let t = s.take(k);
    assert forall|i: int| 0 <= i < t.len() implies (#[trigger] t[i]) <= '\u{7f}' by {
        assert(t[i] == s[i]);
    }
    lemma_plain_len(t);
    if k < max {
        lemma_plain_place(s, max, k + 1);
    }
}

} // verus!
