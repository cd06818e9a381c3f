//! What the record of a traced call says.
use crate::api_trace::{
    arg_parts, array_json, as_signed, byte_numerals, call_parts, clipped, clips, extra_texts,
    format_arg, format_event, format_invoke_args_json, groups, hex_pairs, invoke_arg_parts,
    json_char, json_escaped, narrow_part, object_value_json, part_at, part_json, parts_json,
    ref_json, slots_of, text_of, wide, ArgPart, ArgText,
};
use crate::split::pieces;
use crate::text::{
    decimal, has_prefix, has_suffix, hex_digit, hexadecimal, is_control, joined, numeral,
    signed_decimal,
};
use crate::text_laws::{
    integer_of, is_digit, is_hex_digit, lacks, law_decimal_reads_back, law_hexadecimal_reads_back,
    law_plain_text_is_cut, law_signed_reads_back, law_split_undoes_join, lemma_decimal_lacks,
    lemma_four_pieces, lemma_joined_at, lemma_pieces_first,
};
use vstd::prelude::*;
use vstd::string::*;

verus! {

/// How many slots a parameter of a type takes.
pub open spec fn width(letter: char) -> int {
    if letter == 'J' || letter == 'D' {
        2
    } else {
        1
    }
}

/// How many slots the parameters from the `from`-th to before the `to`-th of a signature take.
pub open spec fn slots_between(shorty: Seq<char>, from: int, to: int) -> int
    decreases to - from,
{
    if to <= from {
        0
    } else {
        slots_between(shorty, from, to - 1) + width(shorty[to - 1])
    }
}

/// The first slot of the `k`-th parameter, counted from one: behind the receiver, where there is
/// one, and the parameters before it.
pub open spec fn slot_of(shorty: Seq<char>, k: int, is_static: bool) -> int {
    slots_between(shorty, 1, k) + if is_static {
        0int
    } else {
        1
    }
}

/// What stands in the place of the `k`-th parameter among the parts of a call.
pub open spec fn place_of_parameter(k: int, is_static: bool) -> int {
    k - if is_static {
        1int
    } else {
        0
    }
}

proof fn lemma_slots_grow(shorty: Seq<char>, from: int, to: int)
    ensures
        slots_between(shorty, from, to) >= 0,
        to >= from ==> slots_between(shorty, from, to) >= to - from,
    decreases to - from,
{
    if to > from {
        lemma_slots_grow(shorty, from, to - 1);
    }
}

proof fn lemma_slots_first(shorty: Seq<char>, from: int, to: int)
    requires
        from < to,
    ensures
        slots_between(shorty, from, to) == width(shorty[from]) + slots_between(
            shorty,
            from + 1,
            to,
        ),
    decreases to - from,
{
    if to > from + 1 {
        lemma_slots_first(shorty, from, to - 1);
    } else {
        assert(slots_between(shorty, from, from) == 0);
        assert(slots_between(shorty, from + 1, to) == 0);
    }
}

proof fn lemma_part(shorty: Seq<char>, words: Seq<u32>, from: int, i: int, k: int)
    requires
        0 <= i,
        0 <= from <= k < shorty.len(),
        i + slots_between(shorty, from, k) + width(shorty[k]) <= words.len(),
    ensures
        arg_parts(shorty, words, from, i).len() > k - from,
        arg_parts(shorty, words, from, i)[k - from] == part_at(
            shorty[k],
            words,
            i + slots_between(shorty, from, k),
        ),
    decreases k - from,
{
    lemma_slots_grow(shorty, from, k);
    if from < k {
        lemma_slots_first(shorty, from, k);
        lemma_slots_grow(shorty, from + 1, k);
        let p = part_at(shorty[from], words, i);
        assert(slots_of(p) == width(shorty[from]));
        lemma_part(shorty, words, from + 1, i + slots_of(p), k);
        assert(arg_parts(shorty, words, from, i) == seq![p] + arg_parts(
            shorty,
            words,
            from + 1,
            i + slots_of(p),
        ));
    }
}

proof fn lemma_parameter(shorty: Seq<char>, words: Seq<u32>, is_static: bool, k: int)
    requires
        1 <= k < shorty.len(),
        slot_of(shorty, k, is_static) + width(shorty[k]) <= words.len(),
    ensures
        call_parts(shorty, words, is_static).len() > place_of_parameter(k, is_static),
        call_parts(shorty, words, is_static)[place_of_parameter(k, is_static)] == part_at(
            shorty[k],
            words,
            slot_of(shorty, k, is_static),
        ),
{
    lemma_slots_grow(shorty, 1, k);
    if is_static {
        lemma_part(shorty, words, 1, 0, k);
    } else {
        lemma_part(shorty, words, 1, 1, k);
    }
}

/// What a member of an object that starts with `head` holds: the text up to the closing brace.
pub open spec fn value_behind(s: Seq<char>, head: Seq<char>) -> Seq<char> {
    s.subrange(head.len() as int, s.len() - 1)
}

/// Whether a text is an object that starts with `head` and holds one more value.
pub open spec fn is_object(s: Seq<char>, head: Seq<char>) -> bool {
    has_prefix(s, head) && s.len() > head.len() && s.last() == '}'
}

proof fn lemma_value(head: Seq<char>, v: Seq<char>, s: Seq<char>)
    requires
        s == head + v + "}"@,
    ensures
        is_object(s, head),
        value_behind(s, head) == v,
{
    reveal_strlit("}");
    assert(s.take(head.len() as int) =~= head);
    assert(value_behind(s, head) =~= v);
}

/// A boolean argument is shown as `true` where its slot is not zero and as `false` where it is.
pub proof fn law_boolean_reads_back(
    shorty: &str,
    words: &Vec<u32>,
    is_static: bool,
    parts: Vec<ArgPart>,
    k: int,
    text: &ArgText,
    s: String,
)
    requires
        call_ensures(invoke_arg_parts, (shorty, words, is_static), parts),
        1 <= k < shorty@.len(),
        shorty@[k] == 'Z',
        slot_of(shorty@, k, is_static) < words@.len(),
        call_ensures(format_arg, (parts@[place_of_parameter(k, is_static)], text, words), s),
    ensures
        is_object(s@, "{\"t\":\"boolean\",\"v\":"@),
        value_behind(s@, "{\"t\":\"boolean\",\"v\":"@) == "true"@ <==> words@[slot_of(
            shorty@,
            k,
            is_static,
        )] != 0,
        value_behind(s@, "{\"t\":\"boolean\",\"v\":"@) == "false"@ <==> words@[slot_of(
            shorty@,
            k,
            is_static,
        )] == 0,
{
    lemma_parameter(shorty@, words@, is_static, k);
    lemma_slots_grow(shorty@, 1, k);
    reveal_strlit("true");
    reveal_strlit("false");
    let v = if words@[slot_of(shorty@, k, is_static)] != 0 {
        "true"@
    } else {
        "false"@
    };
    lemma_value("{\"t\":\"boolean\",\"v\":"@, v, s@);
    assert("true"@.len() != "false"@.len());
}

/// The word of an argument, taken with a sign, is what a number of 2 to the `bits` values holds.
pub open spec fn stands_for(v: int, word: int, values: int) -> bool {
    -values <= 2 * v < values && (v - word) % values == 0
}

/// A number among the arguments is shown as its slot's value, taken with the sign and the size of
/// its type.
pub proof fn law_number_reads_back(
    shorty: &str,
    words: &Vec<u32>,
    is_static: bool,
    parts: Vec<ArgPart>,
    k: int,
    text: &ArgText,
    s: String,
)
    requires
        call_ensures(invoke_arg_parts, (shorty, words, is_static), parts),
        1 <= k < shorty@.len(),
        slot_of(shorty@, k, is_static) < words@.len(),
        call_ensures(format_arg, (parts@[place_of_parameter(k, is_static)], text, words), s),
    ensures
        ({
            let w = words@[slot_of(shorty@, k, is_static)] as int;
            &&& shorty@[k] == 'B' ==> {
                &&& is_object(s@, "{\"t\":\"byte\",\"v\":"@)
                &&& integer_of(value_behind(s@, "{\"t\":\"byte\",\"v\":"@)) matches Some(v)
                &&& stands_for(v, w, 0x100)
            }
            &&& shorty@[k] == 'S' ==> {
                &&& is_object(s@, "{\"t\":\"short\",\"v\":"@)
                &&& integer_of(value_behind(s@, "{\"t\":\"short\",\"v\":"@)) matches Some(v)
                &&& stands_for(v, w, 0x1_0000)
            }
            &&& shorty@[k] == 'I' ==> {
                &&& is_object(s@, "{\"t\":\"int\",\"v\":"@)
                &&& integer_of(value_behind(s@, "{\"t\":\"int\",\"v\":"@)) matches Some(v)
                &&& stands_for(v, w, 0x1_0000_0000)
            }
            &&& shorty@[k] == 'C' ==> {
                &&& is_object(s@, "{\"t\":\"char\",\"v\":"@)
                &&& numeral(value_behind(s@, "{\"t\":\"char\",\"v\":"@), 10) matches Some(v)
                &&& v < 0x1_0000
                &&& (v - w) % 0x1_0000 == 0
            }
        }),
{
    if shorty@[k] == 'B' || shorty@[k] == 'S' || shorty@[k] == 'I' || shorty@[k] == 'C' {
        lemma_parameter(shorty@, words@, is_static, k);
        lemma_slots_grow(shorty@, 1, k);
        let word = words@[slot_of(shorty@, k, is_static)];
        if shorty@[k] == 'B' {
            lemma_byte(word, *text, words@, s@);
        } else if shorty@[k] == 'S' {
            lemma_short(word, *text, words@, s@);
        } else if shorty@[k] == 'I' {
            lemma_int(word, *text, words@, s@);
        } else {
            lemma_char(word, *text, words@, s@);
        }
    }
}

proof fn lemma_byte(word: u32, text: ArgText, words: Seq<u32>, s: Seq<char>)
    requires
        s == part_json(narrow_part('B', word), text, words),
    ensures
        is_object(s, "{\"t\":\"byte\",\"v\":"@),
        integer_of(value_behind(s, "{\"t\":\"byte\",\"v\":"@)) matches Some(v) && stands_for(
            v,
            word as int,
            0x100,
        ),
{
    let low = (word % 0x100) as int;
    let v = as_signed(low, 0x100);
    law_signed_reads_back(v);
    lemma_value("{\"t\":\"byte\",\"v\":"@, signed_decimal(v), s);
}

proof fn lemma_short(word: u32, text: ArgText, words: Seq<u32>, s: Seq<char>)
    requires
        s == part_json(narrow_part('S', word), text, words),
    ensures
        is_object(s, "{\"t\":\"short\",\"v\":"@),
        integer_of(value_behind(s, "{\"t\":\"short\",\"v\":"@)) matches Some(v) && stands_for(
            v,
            word as int,
            0x1_0000,
        ),
{
    let low = (word % 0x1_0000) as int;
    let v = as_signed(low, 0x1_0000);
    law_signed_reads_back(v);
    lemma_value("{\"t\":\"short\",\"v\":"@, signed_decimal(v), s);
}

proof fn lemma_int(word: u32, text: ArgText, words: Seq<u32>, s: Seq<char>)
    requires
        s == part_json(narrow_part('I', word), text, words),
    ensures
        is_object(s, "{\"t\":\"int\",\"v\":"@),
        integer_of(value_behind(s, "{\"t\":\"int\",\"v\":"@)) matches Some(v) && stands_for(
            v,
            word as int,
            0x1_0000_0000,
        ),
{
    let low = word as int;
    let v = as_signed(low, 0x1_0000_0000);
    law_signed_reads_back(v);
    lemma_value("{\"t\":\"int\",\"v\":"@, signed_decimal(v), s);
}

proof fn lemma_char(word: u32, text: ArgText, words: Seq<u32>, s: Seq<char>)
    requires
        s == part_json(narrow_part('C', word), text, words),
    ensures
        is_object(s, "{\"t\":\"char\",\"v\":"@),
        numeral(value_behind(s, "{\"t\":\"char\",\"v\":"@), 10) matches Some(v) && v < 0x1_0000 && (
        v - word) % 0x1_0000 == 0,
{
    let low = (word % 0x1_0000) as nat;
    law_decimal_reads_back(low);
    lemma_value("{\"t\":\"char\",\"v\":"@, decimal(low), s);
}

/// A long argument is shown, in quotes, as the number whose low half is its first slot and whose
/// high half is its second.
pub proof fn law_long_reads_back(
    shorty: &str,
    words: &Vec<u32>,
    is_static: bool,
    parts: Vec<ArgPart>,
    k: int,
    text: &ArgText,
    s: String,
)
    requires
        call_ensures(invoke_arg_parts, (shorty, words, is_static), parts),
        1 <= k < shorty@.len(),
        shorty@[k] == 'J',
        slot_of(shorty@, k, is_static) + 1 < words@.len(),
        call_ensures(format_arg, (parts@[place_of_parameter(k, is_static)], text, words), s),
    ensures
        ({
            let at = slot_of(shorty@, k, is_static);
            let v = value_behind(s@, "{\"t\":\"long\",\"v\":"@);
            &&& is_object(s@, "{\"t\":\"long\",\"v\":"@)
            &&& v.len() >= 2
            &&& v[0] == '"'
            &&& v.last() == '"'
            &&& numeral(v.subrange(1, v.len() - 1), 10) == Some(
                (words@[at] + 0x1_0000_0000 * words@[at + 1]) as nat,
            )
        }),
{
    lemma_parameter(shorty@, words@, is_static, k);
    lemma_slots_grow(shorty@, 1, k);
    reveal_strlit("{\"t\":\"long\",\"v\":\"");
    reveal_strlit("{\"t\":\"long\",\"v\":");
    reveal_strlit("\"}");
    reveal_strlit("}");
    let at = slot_of(shorty@, k, is_static);
    let n = wide(words@, at) as nat;
    law_decimal_reads_back(n);
    let d = decimal(n);
    let v = seq!['"'] + d + seq!['"'];
    assert(s@ =~= "{\"t\":\"long\",\"v\":"@ + v + "}"@);
    lemma_value("{\"t\":\"long\",\"v\":"@, v, s@);
    assert(v.subrange(1, v.len() - 1) =~= d);
}

/// The receiver is the first slot, and no static call shows one; no other part is a receiver.
pub proof fn law_receiver_is_the_first_slot(
    shorty: &str,
    words: &Vec<u32>,
    is_static: bool,
    parts: Vec<ArgPart>,
    j: int,
)
    requires
        call_ensures(invoke_arg_parts, (shorty, words, is_static), parts),
        0 <= j < parts@.len(),
    ensures
        parts@[j] is This <==> j == 0 && !is_static && words@.len() > 0,
        parts@[j] matches ArgPart::This(w) ==> w == words@[0],
{
    if !is_static && words@.len() > 0 {
        if j > 0 {
            lemma_no_receiver(shorty@, words@, 1, 1, j - 1);
        }
    } else {
        lemma_no_receiver(shorty@, words@, 1, 0, j);
    }
}

proof fn lemma_no_receiver(shorty: Seq<char>, words: Seq<u32>, k: int, i: int, j: int)
    requires
        0 <= j < arg_parts(shorty, words, k, i).len(),
    ensures
        arg_parts(shorty, words, k, i)[j] !is This,
    decreases shorty.len() - k,
{
    if k < shorty.len() {
        let p = part_at(shorty[k], words, i);
        if j > 0 && !(p is LongCut || p is DoubleCut) {
            lemma_no_receiver(shorty, words, k + 1, i + slots_of(p), j - 1);
        }
    }
}

/// A string of a record read from behind its opening quote up to the closing one, with the
/// characters behind a backslash taken as they are.
pub open spec fn string_read(s: Seq<char>) -> Seq<char>
    decreases s.len(),
{
    if s.len() == 0 || s[0] == '"' {
        Seq::empty()
    } else if s[0] == '\\' && s.len() >= 2 {
        seq![s[1]] + string_read(s.skip(2))
    } else {
        seq![s[0]] + string_read(s.skip(1))
    }
}

/// A text without its control characters.
pub open spec fn without_control(s: Seq<char>) -> Seq<char>
    decreases s.len(),
{
    if s.len() == 0 {
        Seq::empty()
    } else if is_control(s[0]) {
        without_control(s.skip(1))
    } else {
        seq![s[0]] + without_control(s.skip(1))
    }
}

proof fn lemma_escaped_first(s: Seq<char>)
    requires
        s.len() > 0,
    ensures
        json_escaped(s) == json_char(s[0]) + json_escaped(s.skip(1)),
    decreases s.len(),
{
    if s.len() == 1 {
        assert(s.drop_last() =~= Seq::<char>::empty());
        assert(s.skip(1) =~= Seq::<char>::empty());
        assert(json_escaped(s) =~= json_char(s[0]) + json_escaped(s.skip(1)));
    } else {
        let init = s.drop_last();
        lemma_escaped_first(init);
        assert(s.skip(1).drop_last() =~= init.skip(1));
        assert(s.skip(1).last() == s.last());
        assert(json_escaped(s) =~= json_char(s[0]) + json_escaped(s.skip(1)));
    }
}

/// A string that was written into a record reads back up to its closing quote as what it was,
/// without its control characters.
pub proof fn law_string_reads_back(s: Seq<char>, rest: Seq<char>)
    ensures
        string_read(json_escaped(s) + seq!['"'] + rest) == without_control(s),
    decreases s.len(),
{
    let t = json_escaped(s) + seq!['"'] + rest;
    if s.len() == 0 {
        assert(t[0] == '"');
    } else {
        lemma_escaped_first(s);
        law_string_reads_back(s.skip(1), rest);
        let e = json_char(s[0]);
        let more = json_escaped(s.skip(1)) + seq!['"'] + rest;
        assert(t =~= e + more);
        assert(t.skip(e.len() as int) =~= more);
        if !is_control(s[0]) {
            assert(t[0] == e[0]);
        }
    }
}

/// A reference is shown as `null` exactly where it is zero; one whose contents are not known is
/// shown by its number.
pub proof fn law_reference_reads_back(compressed: u32, text: &ArgText, s: String)
    requires
        call_ensures(object_value_json, (compressed, text), s),
    ensures
        s@ == "null"@ <==> compressed == 0,
        compressed != 0 && text_of(*text) is None ==> {
            &&& has_prefix(s@, "\"0x"@)
            &&& numeral(s@.subrange(3, s@.len() - 1), 16) == Some(compressed as nat)
            &&& s@.last() == '"'
        },
        compressed != 0 ==> (text_of(*text) matches Some(t) ==> s@[0] == '"' && string_read(
            s@.skip(1),
        ) == without_control(clipped(t))),
{
    reveal_strlit("null");
    reveal_strlit("\"");
    reveal_strlit("0x");
    reveal_strlit("\"0x");
    if compressed != 0 {
        match text_of(*text) {
            Some(t) => {
                law_string_reads_back(clipped(t), Seq::empty());
                assert(s@.skip(1) =~= json_escaped(clipped(t)) + seq!['"'] + Seq::<char>::empty());
                assert(s@[0] == '"');
            },
            None => {
                let h = hexadecimal(compressed as nat);
                law_hexadecimal_reads_back(compressed as nat);
                assert(s@.subrange(3, s@.len() - 1) =~= h);
                assert(s@.take(3) =~= "\"0x"@);
                assert(s@[0] == '"');
            },
        }
    }
}

/// An argument that is a reference is shown as `null` exactly where its slot is zero, as its text
/// where it is a string, and by its number where nothing is known of it.
pub proof fn law_reference_argument_reads_back(
    shorty: &str,
    words: &Vec<u32>,
    is_static: bool,
    parts: Vec<ArgPart>,
    k: int,
    text: &ArgText,
    s: String,
)
    requires
        call_ensures(invoke_arg_parts, (shorty, words, is_static), parts),
        1 <= k < shorty@.len(),
        shorty@[k] == 'L' || shorty@[k] == '[',
        slot_of(shorty@, k, is_static) < words@.len(),
        call_ensures(format_arg, (parts@[place_of_parameter(k, is_static)], text, words), s),
    ensures
        ({
            let w = words@[slot_of(shorty@, k, is_static)];
            let head = "{\"t\":\"ref\",\"v\":"@;
            &&& w == 0 ==> is_object(s@, head) && value_behind(s@, head) == "null"@
            &&& w != 0 && text is Nothing ==> {
                let v = value_behind(s@, head);
                &&& is_object(s@, head)
                &&& has_prefix(v, "\"0x"@)
                &&& v.last() == '"'
                &&& numeral(v.subrange(3, v.len() - 1), 16) == Some(w as nat)
            }
            &&& w != 0 && shorty@[k] == 'L' ==> (*text matches ArgText::Text(t) ==> {
                let head = "{\"t\":\"string\",\"v\":\""@;
                &&& is_object(s@, head)
                &&& string_read(s@.skip(head.len() as int)) == without_control(clipped(t@))
            })
        }),
{
    lemma_parameter(shorty@, words@, is_static, k);
    lemma_slots_grow(shorty@, 1, k);
    let w = words@[slot_of(shorty@, k, is_static)];
    lemma_ref(w, shorty@[k] == '[', *text, s@);
}

proof fn lemma_ref(w: u32, array: bool, text: ArgText, s: Seq<char>)
    requires
        s == ref_json(w, array, text),
    ensures
        ({
            let head = "{\"t\":\"ref\",\"v\":"@;
            &&& w == 0 ==> is_object(s, head) && value_behind(s, head) == "null"@
            &&& w != 0 && text is Nothing ==> {
                let v = value_behind(s, head);
                &&& is_object(s, head)
                &&& has_prefix(v, "\"0x"@)
                &&& v.last() == '"'
                &&& numeral(v.subrange(3, v.len() - 1), 16) == Some(w as nat)
            }
            &&& w != 0 && !array ==> (text matches ArgText::Text(t) ==> {
                let head = "{\"t\":\"string\",\"v\":\""@;
                &&& is_object(s, head)
                &&& string_read(s.skip(head.len() as int)) == without_control(clipped(t@))
            })
        }),
{
    let head = "{\"t\":\"ref\",\"v\":"@;
    if w == 0 {
        reveal_strlit("{\"t\":\"ref\",\"v\":null}");
        reveal_strlit("{\"t\":\"ref\",\"v\":");
        reveal_strlit("null");
        reveal_strlit("}");
        assert(s =~= head + "null"@ + "}"@);
        lemma_value(head, "null"@, s);
    } else if text is Nothing {
        reveal_strlit("{\"t\":\"ref\",\"v\":\"");
        reveal_strlit("{\"t\":\"ref\",\"v\":");
        reveal_strlit("\"}");
        reveal_strlit("0x");
        reveal_strlit("\"0x");
        reveal_strlit("}");
        let h = hexadecimal(w as nat);
        law_hexadecimal_reads_back(w as nat);
        let v = "\"0x"@ + h + seq!['"'];
        assert(s =~= head + v + "}"@);
        lemma_value(head, v, s);
        assert(v.take(3) =~= "\"0x"@);
        assert(v.subrange(3, v.len() - 1) =~= h);
    } else if !array {
        if let ArgText::Text(t) = text {
            lemma_string_object(clipped(t@), s);
        }
    }
}

proof fn lemma_string_object(t: Seq<char>, s: Seq<char>)
    requires
        s == "{\"t\":\"string\",\"v\":\""@ + json_escaped(t) + "\"}"@,
    ensures
        ({
            let head = "{\"t\":\"string\",\"v\":\""@;
            &&& is_object(s, head)
            &&& string_read(s.skip(head.len() as int)) == without_control(t)
        }),
{
    let head = "{\"t\":\"string\",\"v\":\""@;
    reveal_strlit("\"}");
    law_string_reads_back(t, seq!['}']);
    assert(s.take(head.len() as int) =~= head);
    assert(s.skip(head.len() as int) =~= json_escaped(t) + seq!['"'] + seq!['}']);
}

/// The bytes of an array are shown as numbers in their order, split at the commas between the
/// brackets, and their count before them.
pub proof fn law_bytes_read_back(bytes: &Vec<u8>, s: String, k: int)
    requires
        call_ensures(array_json, (bytes,), s),
        0 <= k < bytes@.len(),
    ensures
        ({
            let open = pieces(s@, '[');
            let list = pieces(pieces(open[1], ']')[0], ',');
            let head = "{\"t\":\"bytes\",\"length\":"@;
            &&& list.len() == bytes@.len()
            &&& numeral(list[k], 10) == Some(bytes@[k] as nat)
            &&& has_prefix(open[0], head)
            &&& numeral(open[0].subrange(head.len() as int, open[0].len() - 5), 10) == Some(
                bytes@.len() as nat,
            )
        }),
{
    let b = bytes@;
    let head = "{\"t\":\"bytes\",\"length\":"@;
    let mid = ",\"v\":["@;
    let count = decimal(b.len());
    let all = byte_numerals(b);
    let list = joined(all, ","@);
    let tail = "],\"hex\":\""@ + hex_pairs(b) + crate::api_trace::ip_tail(b);
    reveal_strlit("{\"t\":\"bytes\",\"length\":");
    reveal_strlit(",\"v\":[");
    reveal_strlit("],\"hex\":\"");
    reveal_strlit(",");
    law_decimal_reads_back(b.len());
    lemma_decimal_lacks(b.len(), '[');
    let first = head + count + mid.drop_last();
    assert(lacks(first, '['));
    assert(s@ =~= first + seq!['['] + (list + tail));
    lemma_pieces_first(first, list + tail, '[');
    assert(first.take(head.len() as int) =~= head);
    assert(first.subrange(head.len() as int, first.len() - 5) =~= count);
    assert forall|i: int| 0 <= i < all.len() implies lacks(#[trigger] all[i], ',') by {
        lemma_decimal_lacks(b[i] as nat, ',');
    }
    assert(","@ =~= seq![',']);
    law_split_undoes_join(all, ',');
    lemma_list_lacks(b, '[');
    lemma_list_lacks(b, ']');
    lemma_rest_brackets(list, tail);
    law_decimal_reads_back(b[k] as nat);
}

/// Text that starts with a list and its closing bracket reads as that list, up to the bracket.
proof fn lemma_rest_brackets(list: Seq<char>, tail: Seq<char>)
    requires
        lacks(list, '['),
        lacks(list, ']'),
        tail.len() > 0,
        tail[0] == ']',
    ensures
        pieces(list + tail, '[').len() > 0,
        pieces(pieces(list + tail, '[')[0], ']')[0] == list,
{
    let t = list + tail;
    let at = crate::split::place_of(t, '[', 0);
    lemma_place_bounds(t, '[', 0);
    let first = pieces(t, '[')[0];
    assert(first =~= t.take(at));
    assert(at > list.len()) by {
        lemma_place_past(t, '[', 0, list.len() as int + 1);
    }
    let rest = first.skip(list.len() as int + 1);
    assert(first =~= list + seq![']'] + rest);
    lemma_pieces_first(list, rest, ']');
}

proof fn lemma_place_bounds(s: Seq<char>, c: char, k: int)
    requires
        0 <= k <= s.len(),
    ensures
        k <= crate::split::place_of(s, c, k) <= s.len(),
    decreases s.len() - k,
{
    if k < s.len() && s[k] != c {
        lemma_place_bounds(s, c, k + 1);
    }
}

proof fn lemma_place_past(s: Seq<char>, c: char, k: int, n: int)
    requires
        0 <= k <= n <= s.len(),
        forall|i: int| k <= i < n ==> s[i] != c,
    ensures
        crate::split::place_of(s, c, k) >= n,
    decreases s.len() - k,
{
    if k < n {
        lemma_place_past(s, c, k + 1, n);
    } else {
        lemma_place_bounds(s, c, k);
    }
}

proof fn lemma_joined_lacks(parts: Seq<Seq<char>>, sep: Seq<char>, c: char)
    requires
        lacks(sep, c),
        forall|i: int| 0 <= i < parts.len() ==> lacks(#[trigger] parts[i], c),
    ensures
        lacks(joined(parts, sep), c),
    decreases parts.len(),
{
    if parts.len() > 1 {
        let init = parts.drop_last();
        assert forall|i: int| 0 <= i < init.len() implies lacks(#[trigger] init[i], c) by {
            assert(init[i] == parts[i]);
        }
        lemma_joined_lacks(init, sep, c);
        assert(lacks(parts[parts.len() - 1], c));
    } else if parts.len() == 1 {
        assert(lacks(parts[0], c));
    }
}

proof fn lemma_list_lacks(b: Seq<u8>, c: char)
    requires
        !is_digit(c),
        c != ',',
    ensures
        lacks(joined(byte_numerals(b), ","@), c),
{
    reveal_strlit(",");
    let all = byte_numerals(b);
    assert forall|i: int| 0 <= i < all.len() implies lacks(#[trigger] all[i], c) by {
        lemma_decimal_lacks(b[i] as nat, c);
    }
    lemma_joined_lacks(all, ","@, c);
}

/// The value of a digit of a hexadecimal pair.
pub open spec fn nibble(c: char) -> int {
    if c <= '9' {
        c as int - 48
    } else {
        c as int - 87
    }
}

/// Bytes in hexadecimal have two digits each, in their order, the high one first.
pub proof fn law_hex_pairs_read_back(bytes: Seq<u8>, k: int)
    requires
        0 <= k < bytes.len(),
    ensures
        hex_pairs(bytes).len() == 2 * bytes.len(),
        16 * nibble(hex_pairs(bytes)[2 * k]) + nibble(hex_pairs(bytes)[2 * k + 1]) == bytes[k],
    decreases bytes.len(),
{
    let init = bytes.drop_last();
    if init.len() > 0 {
        law_hex_pairs_read_back(init, if k < init.len() {
            k
        } else {
            0
        });
    } else {
        assert(hex_pairs(init).len() == 0);
    }
    let b = bytes.last();
    assert(nibble(hex_digit((b / 16) as nat)) == b / 16);
    assert(nibble(hex_digit((b % 16) as nat)) == b % 16);
}

proof fn lemma_hex_pairs_lacks(b: Seq<u8>, c: char)
    requires
        !is_hex_digit(c),
    ensures
        lacks(hex_pairs(b), c),
    decreases b.len(),
{
    if b.len() > 0 {
        lemma_hex_pairs_lacks(b.drop_last(), c);
        assert(is_hex_digit(hex_digit((b.last() / 16) as nat)));
        assert(is_hex_digit(hex_digit((b.last() % 16) as nat)));
    }
}

/// An array of four bytes is shown as an address too: split at the dots, its text holds the four
/// bytes in their order, the first behind the quote that opens the address and the last before
/// the quote that closes it.
pub proof fn law_four_bytes_are_an_address(bytes: &Vec<u8>, s: String)
    requires
        call_ensures(array_json, (bytes,), s),
        bytes@.len() == 4,
    ensures
        ({
            let ip = pieces(s@, '.');
            &&& ip.len() == 4
            &&& has_suffix(ip[0], "\",\"ip\":\""@ + decimal(bytes@[0] as nat))
            &&& numeral(ip[1], 10) == Some(bytes@[1] as nat)
            &&& numeral(ip[2], 10) == Some(bytes@[2] as nat)
            &&& has_suffix(ip[3], "\"}"@)
            &&& numeral(ip[3].take(ip[3].len() - 2), 10) == Some(bytes@[3] as nat)
        }),
{
    let b = bytes@;
    let body = "{\"t\":\"bytes\",\"length\":"@ + decimal(b.len()) + ",\"v\":["@ + joined(
        byte_numerals(b),
        ","@,
    ) + "],\"hex\":\""@ + hex_pairs(b);
    assert(lacks(body, '.')) by {
        reveal_strlit("{\"t\":\"bytes\",\"length\":");
        reveal_strlit(",\"v\":[");
        reveal_strlit("],\"hex\":\"");
        lemma_decimal_lacks(b.len(), '.');
        lemma_list_lacks(b, '.');
        lemma_hex_pairs_lacks(b, '.');
    }
    lemma_address_text(b, body, s@);
}

proof fn lemma_address_text(b: Seq<u8>, body: Seq<char>, s: Seq<char>)
    requires
        b.len() == 4,
        lacks(body, '.'),
        s == body + ("\",\"ip\":\""@ + joined(byte_numerals(b), "."@) + "\"}"@),
    ensures
        ({
            let ip = pieces(s, '.');
            &&& ip.len() == 4
            &&& has_suffix(ip[0], "\",\"ip\":\""@ + decimal(b[0] as nat))
            &&& numeral(ip[1], 10) == Some(b[1] as nat)
            &&& numeral(ip[2], 10) == Some(b[2] as nat)
            &&& has_suffix(ip[3], "\"}"@)
            &&& numeral(ip[3].take(ip[3].len() - 2), 10) == Some(b[3] as nat)
        }),
{
    let mark = "\",\"ip\":\""@;
    let close = "\"}"@;
    assert(lacks(mark, '.') && lacks(close, '.') && close.len() == 2) by {
        reveal_strlit("\",\"ip\":\"");
        reveal_strlit("\"}");
    }
    lemma_four_joined(b);
    law_decimal_reads_back(b[1] as nat);
    law_decimal_reads_back(b[2] as nat);
    law_decimal_reads_back(b[3] as nat);
    let d0 = decimal(b[0] as nat);
    let d1 = decimal(b[1] as nat);
    let d2 = decimal(b[2] as nat);
    let d3 = decimal(b[3] as nat);
    let dot = seq!['.'];
    let p0 = body + mark + d0;
    let p3 = d3 + close;
    assert(s =~= p0 + dot + (d1 + dot + (d2 + dot + p3)));
    lemma_decimal_lacks(b[0] as nat, '.');
    lemma_decimal_lacks(b[1] as nat, '.');
    lemma_decimal_lacks(b[2] as nat, '.');
    lemma_decimal_lacks(b[3] as nat, '.');
    assert(lacks(p0, '.'));
    assert(lacks(p3, '.'));
    lemma_four_pieces(p0, d1, d2, p3, '.');
    let first = mark + d0;
    assert(p0.skip(p0.len() - first.len()) =~= first);
    assert(p3.skip(p3.len() - 2) =~= close);
    assert(p3.take(p3.len() - 2) =~= d3);
}

proof fn lemma_four_joined(b: Seq<u8>)
    requires
        b.len() == 4,
    ensures
        joined(byte_numerals(b), "."@) == decimal(b[0] as nat) + seq!['.'] + decimal(b[1] as nat)
            + seq!['.'] + decimal(b[2] as nat) + seq!['.'] + decimal(b[3] as nat),
{
    reveal_strlit(".");
    assert("."@ =~= seq!['.']);
    let nums = byte_numerals(b);
    let n3 = nums.drop_last();
    let n2 = n3.drop_last();
    let n1 = n2.drop_last();
    assert(joined(n1, "."@) == nums[0]);
    assert(joined(n2, "."@) == joined(n1, "."@) + "."@ + nums[1]);
    assert(joined(n3, "."@) == joined(n2, "."@) + "."@ + nums[2]);
    assert(joined(nums, "."@) == joined(n3, "."@) + "."@ + nums[3]);
}

/// The bytes of an array are shown in hexadecimal behind the list of them.
pub proof fn law_array_hexadecimal_reads_back(bytes: &Vec<u8>, s: String, k: int)
    requires
        call_ensures(array_json, (bytes,), s),
        0 <= k < bytes@.len(),
    ensures
        ({
            let rest = pieces(s@, ']')[1];
            &&& has_prefix(rest, ",\"hex\":\""@)
            &&& 16 * nibble(rest[8 + 2 * k]) + nibble(rest[8 + 2 * k + 1]) == bytes@[k]
            &&& bytes@.len() != 4 && bytes@.len() != 16 ==> rest.len() == 10 + 2 * bytes@.len()
        }),
{
    let b = bytes@;
    reveal_strlit("{\"t\":\"bytes\",\"length\":");
    reveal_strlit(",\"v\":[");
    reveal_strlit("],\"hex\":\"");
    reveal_strlit(",\"hex\":\"");
    let list = joined(byte_numerals(b), ","@);
    let first = "{\"t\":\"bytes\",\"length\":"@ + decimal(b.len()) + ",\"v\":["@ + list;
    assert(lacks(first, ']')) by {
        lemma_decimal_lacks(b.len(), ']');
        lemma_list_lacks(b, ']');
    }
    let hex = hex_pairs(b);
    let rest = ",\"hex\":\""@ + hex + crate::api_trace::ip_tail(b);
    assert(s@ =~= first + seq![']'] + rest);
    lemma_pieces_first(first, rest, ']');
    law_hex_pairs_read_back(b, k);
    lemma_hex_pairs_lacks(b, ']');
    let n = 8 + hex.len() as int;
    assert forall|i: int| 0 <= i < n implies rest[i] != ']' by {
        if i >= 8 {
            assert(rest[i] == hex[i - 8]);
        }
    }
    lemma_place_past(rest, ']', 0, n);
    lemma_place_bounds(rest, ']', 0);
    let at = crate::split::place_of(rest, ']', 0);
    let shown = pieces(rest, ']')[0];
    assert(shown =~= rest.take(at));
    assert(shown.take(8) =~= ",\"hex\":\""@);
    assert(shown[8 + 2 * k] == hex[2 * k]);
    assert(shown[8 + 2 * k + 1] == hex[2 * k + 1]);
    if b.len() != 4 && b.len() != 16 {
        reveal_strlit("\"}");
        assert(lacks(rest, ']'));
        lemma_pieces_first(rest, Seq::empty(), ']');
    }
}

/// The record of a call tells which call it is, whether it is static, and ends with its
/// arguments; its method and its signature read back from between their quotes.
pub proof fn law_event_reads_back(
    n: u64,
    label: &str,
    shorty: &str,
    is_static: bool,
    args: &str,
    s: String,
)
    requires
        call_ensures(format_event, (n, label, shorty, is_static, args), s),
    ensures
        ({
            let head = "{\"type\":\"android-api\",\"n\":"@;
            let digits = decimal(n as nat).len() as int;
            let method = head.len() + digits + 11;
            let signature = method + json_escaped(label@).len() + 12;
            &&& has_prefix(s@, head)
            &&& numeral(s@.subrange(head.len() as int, head.len() + digits), 10) == Some(n as nat)
            &&& s@.subrange(head.len() + digits, method) == ",\"method\":\""@
            &&& string_read(s@.skip(method)) == without_control(label@)
            &&& s@.subrange(signature - 12, signature) == "\",\"shorty\":\""@
            &&& string_read(s@.skip(signature)) == without_control(shorty@)
            &&& has_suffix(s@, ",\"static\":true,\"args\":"@ + args@ + "}"@) <==> is_static
            &&& has_suffix(s@, ",\"static\":false,\"args\":"@ + args@ + "}"@) <==> !is_static
        }),
{
    let head = "{\"type\":\"android-api\",\"n\":"@;
    let count = decimal(n as nat);
    law_decimal_reads_back(n as nat);
    let flag = if is_static {
        "true"@
    } else {
        "false"@
    };
    let names = head + count + ",\"method\":\""@ + json_escaped(label@) + "\",\"shorty\":\""@
        + json_escaped(shorty@);
    lemma_event_tail(names, is_static, args@, s@);
    let tail = "\",\"static\":"@ + flag + ",\"args\":"@ + args@ + "}"@;
    assert(s@ =~= names + tail);
    assert(tail.len() > 0 && tail[0] == '"') by {
        reveal_strlit("\",\"static\":");
    }
    lemma_event_names(head, count, label@, shorty@, tail, s@);
}

proof fn lemma_event_names(
    head: Seq<char>,
    count: Seq<char>,
    label: Seq<char>,
    shorty: Seq<char>,
    tail: Seq<char>,
    s: Seq<char>,
)
    requires
        tail.len() > 0,
        tail[0] == '"',
        s == head + count + ",\"method\":\""@ + json_escaped(label) + "\",\"shorty\":\""@
            + json_escaped(shorty) + tail,
    ensures
        ({
            let method = head.len() + count.len() as int + 11;
            let signature = method + json_escaped(label).len() + 12;
            &&& has_prefix(s, head)
            &&& s.subrange(head.len() as int, head.len() + count.len() as int) == count
            &&& s.subrange(head.len() + count.len() as int, method) == ",\"method\":\""@
            &&& string_read(s.skip(method)) == without_control(label)
            &&& s.subrange(signature - 12, signature) == "\",\"shorty\":\""@
            &&& string_read(s.skip(signature)) == without_control(shorty)
        }),
{
    reveal_strlit(",\"method\":\"");
    reveal_strlit("\",\"shorty\":\"");
    assert(s.take(head.len() as int) =~= head);
    assert(s.subrange(head.len() as int, head.len() + count.len() as int) =~= count);
    let method = head.len() + count.len() as int + 11;
    let signature = method + json_escaped(label).len() + 12;
    assert(s.subrange(head.len() + count.len() as int, method) =~= ",\"method\":\""@);
    assert(s.subrange(signature - 12, signature) =~= "\",\"shorty\":\""@);
    let rest = "\",\"shorty\":\""@.skip(1) + json_escaped(shorty) + tail;
    assert(s.skip(method) =~= json_escaped(label) + seq!['"'] + rest);
    law_string_reads_back(label, rest);
    assert(s.skip(signature) =~= json_escaped(shorty) + seq!['"'] + tail.skip(1));
    law_string_reads_back(shorty, tail.skip(1));
}

proof fn lemma_event_tail(names: Seq<char>, is_static: bool, args: Seq<char>, s: Seq<char>)
    requires
        s == names + "\",\"static\":"@ + (if is_static {
            "true"@
        } else {
            "false"@
        }) + ",\"args\":"@ + args + "}"@,
    ensures
        has_suffix(s, ",\"static\":true,\"args\":"@ + args + "}"@) <==> is_static,
        has_suffix(s, ",\"static\":false,\"args\":"@ + args + "}"@) <==> !is_static,
{
    reveal_strlit("\",\"static\":");
    reveal_strlit("true");
    reveal_strlit("false");
    reveal_strlit(",\"args\":");
    reveal_strlit("}");
    reveal_strlit(",\"static\":true,\"args\":");
    reveal_strlit(",\"static\":false,\"args\":");
    let yes = ",\"static\":true,\"args\":"@ + args + "}"@;
    let no = ",\"static\":false,\"args\":"@ + args + "}"@;
    if is_static {
        assert(s.skip(s.len() - yes.len()) =~= yes);
        assert(s.skip(s.len() - no.len())[1] == ',');
        assert(no[1] == '"');
    } else {
        assert(s.skip(s.len() - no.len()) =~= no);
        assert(s.skip(s.len() - yes.len())[0] == '"');
        assert(yes[0] == ',');
    }
}

/// The arguments of a call are the texts of its parts in their order, in brackets.
pub proof fn law_arguments_in_order(
    parts: &Vec<ArgPart>,
    texts: &Vec<ArgText>,
    words: &Vec<u32>,
    s: String,
    k: int,
    part: String,
)
    requires
        call_ensures(format_invoke_args_json, (true, parts, texts, words), s),
        parts@.len() == texts@.len(),
        0 <= k < parts@.len(),
        call_ensures(format_arg, (parts@[k], &texts@[k], words), part),
    ensures
        s@[0] == '[',
        s@.last() == ']',
        ({
            let all = parts_json(parts@, texts@, words@);
            let before = joined(all.take(k), ","@);
            let from = if k == 0 {
                1int
            } else {
                2 + before.len() as int
            };
            &&& s@.subrange(from, from + part@.len() as int) == part@
            &&& k > 0 ==> s@[from - 1] == ','
            &&& s@[from + part@.len() as int] == if k == parts@.len() - 1 {
                ']'
            } else {
                ','
            }
        }),
{
    reveal_strlit("[");
    reveal_strlit("]");
    reveal_strlit(",");
    let all = parts_json(parts@, texts@, words@);
    assert(","@ =~= seq![',']);
    lemma_joined_at(all, k);
    let list = joined(all, ","@);
    assert(s@ =~= "["@ + list + "]"@);
    let before = joined(all.take(k), ","@);
    let at = if k == 0 {
        0int
    } else {
        1 + before.len() as int
    };
    assert(all[k] == part@);
    assert(list.subrange(at, at + part@.len() as int) == part@);
    assert(s@.subrange(at + 1, at + 1 + part@.len() as int) =~= list.subrange(
        at,
        at + part@.len() as int,
    ));
}

/// A plain text that is shown stays as it is up to 512 characters, and is cut behind them with
/// an ellipsis where it is longer.
pub proof fn law_shown_text_is_cut(s: Seq<char>)
    requires
        forall|i: int| 0 <= i < s.len() ==> (#[trigger] s[i]) <= '\u{7f}',
    ensures
        clips(s),
        s.len() <= 512 ==> clipped(s) == s,
        s.len() > 512 ==> clipped(s) == s.take(512).push('\u{2026}'),
{
    law_plain_text_is_cut(s, 512);
    if s.len() > 512 {
        let t = s.take(512);
        assert forall|i: int| 0 <= i < t.len() implies (#[trigger] t[i]) <= '\u{7f}' by {
            assert(t[i] == s[i]);
        }
        law_plain_text_is_cut(t, 0);
    }
}

/// Sixteen bytes are shown as an address too: eight numbers of two bytes each, in order.
pub proof fn law_sixteen_bytes_are_an_address(bytes: &Vec<u8>, s: String) -> (all: Seq<Seq<char>>)
    requires
        call_ensures(array_json, (bytes,), s),
        bytes@.len() == 16,
    ensures
        has_suffix(s@, "\",\"ip\":\""@ + joined(all, ":"@) + "\"}"@),
        all.len() == 8,
        forall|i: int|
            0 <= i < 8 ==> numeral(#[trigger] all[i], 16) == Some(
                (bytes@[2 * i] * 256 + bytes@[2 * i + 1]) as nat,
            ),
{
    let b = bytes@;
    let all = groups(b);
    let tail = "\",\"ip\":\""@ + joined(all, ":"@) + "\"}"@;
    assert forall|i: int| 0 <= i < 8 implies numeral(#[trigger] all[i], 16) == Some(
        (b[2 * i] * 256 + b[2 * i + 1]) as nat,
    ) by {
        law_hexadecimal_reads_back((b[2 * i] * 256 + b[2 * i + 1]) as nat);
    }
    assert(s@.skip(s@.len() - tail.len()) =~= tail);
    all
}

/// Slots that no parameter takes are shown in order, eight at most, and their number with all.
pub proof fn law_left_over_slots_read_back(i: usize, t: ArgText, words: Seq<u32>) -> (all: Seq<
    Seq<char>,
>)
    requires
        i < words.len(),
    ensures
        part_json(ArgPart::Extra(i), t, words) == "{\"t\":\"extra_slots\",\"v\":["@ + joined(
            all,
            ","@,
        ) + "],\"words_total\":"@ + decimal(words.len()) + "}"@,
        all.len() <= 8,
        i + all.len() <= words.len(),
        all.len() < 8 ==> i + all.len() == words.len(),
        forall|k: int|
            0 <= k < all.len() ==> has_prefix(#[trigger] all[k], "\"0x"@) && all[k].last() == '"'
                && numeral(all[k].subrange(3, all[k].len() - 1), 16) == Some(words[i + k] as nat),
{
    let all = extra_texts(words, i as int);
    reveal_strlit("\"");
    reveal_strlit("0x");
    reveal_strlit("\"0x");
    assert forall|k: int| 0 <= k < all.len() implies has_prefix(#[trigger] all[k], "\"0x"@)
        && all[k].last() == '"' && numeral(all[k].subrange(3, all[k].len() - 1), 16) == Some(
        words[i + k] as nat,
    ) by {
        let n = words[i + k] as nat;
        law_hexadecimal_reads_back(n);
        assert(all[k].take(3) =~= "\"0x"@);
        assert(all[k].subrange(3, all[k].len() - 1) =~= hexadecimal(n));
    }
    all
}

} // verus!
