//! What signatures, classes and stored values read back as.
use crate::art::ArtError;
use crate::java_types::{
    array_end, concatenated, find_app_class, is_primitive, jni_sig_param_classes, letter_of,
    method_jni_signature, params_from, params_view, past_brackets, primitive_class, replaced,
    semicolon_from, type_jni_name, wrapper_of, Param, ParamView, SigFault,
};
use crate::java_walk::{prefs_after, push_loader, ClassWalk, Got, PrefsPhase};
use crate::json::{bool_of, json_char, json_chars, json_quoted};
use crate::split::place_of;
use crate::storage::{file_json, java_value_to_json, pref_name, without_xml, FileEntry};
use crate::text::{decimal, has_prefix, has_suffix, hex_digit, numeral, views};
use crate::text_laws::{lacks, law_decimal_reads_back};
use vstd::prelude::*;
use vstd::string::*;

verus! {

/// How a parameter is written in a signature.
pub open spec fn written(p: ParamView) -> Seq<char> {
    match p {
        ParamView::Primitive(c) => seq![c],
        ParamView::Object(n) => seq!['L'] + n + seq![';'],
        ParamView::Array(d) => d,
    }
}

/// Whether a text is the descriptor of an array: `n` brackets and what the array holds, a
/// primitive type or a class.
pub open spec fn is_array(d: Seq<char>, n: int) -> bool {
    &&& 0 < n < d.len()
    &&& forall|i: int| 0 <= i < n ==> #[trigger] d[i] == '['
    &&& if d[n] == 'L' {
        &&& n + 1 < d.len()
        &&& d.last() == ';'
        &&& forall|i: int| n < i < d.len() - 1 ==> #[trigger] d[i] != ';' && d[i] != ')'
    } else {
        is_primitive(d[n]) && d.len() == n + 1
    }
}

/// Whether a parameter is one that a signature can have.
pub open spec fn is_parameter(p: ParamView) -> bool {
    match p {
        ParamView::Primitive(c) => is_primitive(c),
        ParamView::Object(n) => lacks(n, ';') && lacks(n, ')'),
        ParamView::Array(d) => exists|n: int| is_array(d, n),
    }
}

/// Parameters as they are written one behind the other.
pub open spec fn all_written(ps: Seq<ParamView>) -> Seq<char>
    decreases ps.len(),
{
    if ps.len() == 0 {
        Seq::empty()
    } else {
        written(ps[0]) + all_written(ps.skip(1))
    }
}

proof fn lemma_written(p: ParamView)
    requires
        is_parameter(p),
    ensures
        written(p).len() > 0,
        lacks(written(p), ')'),
{
    if let ParamView::Array(d) = p {
        let n = choose|n: int| is_array(d, n);
        assert forall|i: int| 0 <= i < d.len() implies #[trigger] d[i] != ')' by {
            if i < n {
                assert(d[i] == '[');
            }
        }
    }
}

proof fn lemma_all_written(ps: Seq<ParamView>)
    requires
        forall|i: int| 0 <= i < ps.len() ==> is_parameter(#[trigger] ps[i]),
    ensures
        lacks(all_written(ps), ')'),
        ps.len() > 0 ==> all_written(ps).len() > 0,
    decreases ps.len(),
{
    if ps.len() > 0 {
        assert(is_parameter(ps[0]));
        lemma_written(ps[0]);
        let rest = ps.skip(1);
        assert forall|i: int| 0 <= i < rest.len() implies is_parameter(#[trigger] rest[i]) by {
            assert(rest[i] == ps[i + 1]);
        }
        lemma_all_written(rest);
    }
}

proof fn lemma_brackets(s: Seq<char>, i: int, j: int, end: int)
    requires
        0 <= i <= j < end <= s.len(),
        forall|k: int| i <= k < j ==> #[trigger] s[k] == '[',
        s[j] != '[',
    ensures
        past_brackets(s, i, end) == j,
    decreases j - i,
{
    if i < j {
        assert(s[i] == '[');
        lemma_brackets(s, i + 1, j, end);
    }
}

proof fn lemma_semicolon(s: Seq<char>, i: int, j: int, end: int)
    requires
        0 <= i <= j < end <= s.len(),
        forall|k: int| i <= k < j ==> #[trigger] s[k] != ';',
        s[j] == ';',
    ensures
        semicolon_from(s, i, end) == j,
    decreases j - i,
{
    if i < j {
        assert(s[i] != ';');
        lemma_semicolon(s, i + 1, j, end);
    }
}

proof fn lemma_place(s: Seq<char>, c: char, i: int, j: int)
    requires
        0 <= i <= j < s.len(),
        forall|k: int| i <= k < j ==> #[trigger] s[k] != c,
        s[j] == c,
    ensures
        place_of(s, c, i) == j,
    decreases j - i,
{
    if i < j {
        assert(s[i] != c);
        lemma_place(s, c, i + 1, j);
    }
}

proof fn lemma_array_end(s: Seq<char>, i: int, d: Seq<char>, n: int, end: int)
    requires
        is_array(d, n),
        0 <= i,
        i + d.len() <= end <= s.len(),
        s.subrange(i, i + d.len()) == d,
    ensures
        array_end(s, i, end) == i + d.len(),
        s[i] == '[',
{
    let j = i + n;
    assert forall|k: int| i <= k < j implies #[trigger] s[k] == '[' by {
        assert(s.subrange(i, i + d.len())[k - i] == d[k - i]);
    }
    assert(s.subrange(i, i + d.len())[n] == d[n]);
    assert(s[j] == d[n]);
    assert(s[i] == '[');
    lemma_brackets(s, i, j, end);
    if d[n] == 'L' {
        let last = i + d.len() - 1;
        assert(s.subrange(i, i + d.len())[d.len() - 1] == d[d.len() - 1]);
        assert forall|k: int| j <= k < last implies #[trigger] s[k] != ';' by {
            assert(s.subrange(i, i + d.len())[k - i] == d[k - i]);
        }
        lemma_semicolon(s, j, last, end);
    }
}

proof fn lemma_params_from(pre: Seq<char>, ps: Seq<ParamView>, tail: Seq<char>)
    requires
        forall|i: int| 0 <= i < ps.len() ==> is_parameter(#[trigger] ps[i]),
    ensures
        ({
            let s = pre + all_written(ps) + tail;
            params_from(s, pre.len() as int, (pre.len() + all_written(ps).len()) as int) == Ok::<
                Seq<ParamView>,
                SigFault,
            >(ps)
        }),
    decreases ps.len(),
{
    let s = pre + all_written(ps) + tail;
    let i = pre.len() as int;
    let end = (pre.len() + all_written(ps).len()) as int;
    if ps.len() == 0 {
        assert(ps =~= Seq::<ParamView>::empty());
    } else {
        let p = ps[0];
        let w = written(p);
        let rest = ps.skip(1);
        assert(is_parameter(ps[0]));
        lemma_written(p);
        assert forall|k: int| 0 <= k < rest.len() implies is_parameter(#[trigger] rest[k]) by {
            assert(rest[k] == ps[k + 1]);
        }
        lemma_all_written(rest);
        lemma_params_from(pre + w, rest, tail);
        assert(s =~= (pre + w) + all_written(rest) + tail);
        assert(seq![p] + rest =~= ps);
        let next = i + w.len() as int;
        assert(s.subrange(i, next) =~= w);
        assert(next == end ==> rest =~= Seq::<ParamView>::empty());
        match p {
            ParamView::Primitive(c) => {
                assert(s[i] == c);
            },
            ParamView::Object(n) => {
                assert(s[i] == 'L');
                assert forall|k: int| i <= k < next - 1 implies #[trigger] s[k] != ';' by {
                    if k > i {
                        assert(s[k] == n[k - i - 1]);
                    }
                }
                assert(s[next - 1] == ';');
                lemma_place(s, ';', i, next - 1);
                assert(s.subrange(i + 1, next - 1) =~= n);
            },
            ParamView::Array(d) => {
                let n = choose|n: int| is_array(d, n);
                lemma_array_end(s, i, d, n, end);
            },
        }
    }
}

/// The parameters that are read from the signature of a method are those that it was written
/// from, in their order, and it says that it returns nothing where its result is void.
pub proof fn law_signature_reads_back(
    params: &Vec<String>,
    ret: &str,
    sig: String,
    ps: Seq<ParamView>,
    read: &str,
    r: Result<(Vec<Param>, bool), ArtError>,
)
    requires
        call_ensures(method_jni_signature, (params, ret), sig),
        params@.len() == ps.len(),
        forall|i: int| 0 <= i < ps.len() ==> (#[trigger] params@[i])@ == written(ps[i]),
        forall|i: int| 0 <= i < ps.len() ==> is_parameter(#[trigger] ps[i]),
        ret@.len() > 0,
        read@ == sig@,
        call_ensures(jni_sig_param_classes, (read,), r),
    ensures
        r matches Ok(p) && params_view(p.0@) == ps && p.1 == (ret@.last() == 'V'),
{
    reveal_strlit("(");
    reveal_strlit(")");
    let s = sig@;
    let body = all_written(ps);
    lemma_concatenated(views(params@), ps);
    lemma_all_written(ps);
    assert(s =~= seq!['('] + body + (seq![')'] + ret@));
    lemma_params_from(seq!['('], ps, seq![')'] + ret@);
    assert(s[0] == '(');
    assert(place_of(s, '(', 0) == 0);
    let close = 1 + body.len() as int;
    assert forall|k: int| 0 <= k < close implies #[trigger] s[k] != ')' by {
        if k > 0 {
            assert(s[k] == body[k - 1]);
        }
    }
    lemma_place(s, ')', 0, close);
    assert(s.last() == ret@.last());
}

proof fn lemma_concatenated(parts: Seq<Seq<char>>, ps: Seq<ParamView>)
    requires
        parts.len() == ps.len(),
        forall|i: int| 0 <= i < ps.len() ==> #[trigger] parts[i] == written(ps[i]),
    ensures
        concatenated(parts) == all_written(ps),
    decreases ps.len(),
{
    if ps.len() > 0 {
        lemma_concatenated_first(parts);
        let rest = parts.skip(1);
        let more = ps.skip(1);
        assert forall|i: int| 0 <= i < more.len() implies #[trigger] rest[i] == written(more[i]) by {
            assert(parts[i + 1] == written(ps[i + 1]));
        }
        lemma_concatenated(rest, more);
        assert(parts[0] == written(ps[0]));
    }
}

proof fn lemma_concatenated_first(parts: Seq<Seq<char>>)
    requires
        parts.len() > 0,
    ensures
        concatenated(parts) == parts[0] + concatenated(parts.skip(1)),
    decreases parts.len(),
{
    if parts.len() == 1 {
        assert(parts.drop_last() =~= Seq::<Seq<char>>::empty());
        assert(parts.skip(1) =~= Seq::<Seq<char>>::empty());
        assert(concatenated(parts) =~= parts[0] + concatenated(parts.skip(1)));
    } else {
        let init = parts.drop_last();
        lemma_concatenated_first(init);
        assert(parts.skip(1).drop_last() =~= init.skip(1));
        assert(parts.skip(1).last() == parts.last());
        assert(concatenated(parts) =~= parts[0] + concatenated(parts.skip(1)));
    }
}

/// The name of a class in a signature gives the name back: between its letter and its semicolon,
/// with dots for slashes.
pub proof fn law_class_name_reads_back(name: &str, s: String)
    requires
        call_ensures(type_jni_name, (false, false, name), s),
        lacks(name@, '/'),
    ensures
        s@.len() == name@.len() + 2,
        s@[0] == 'L',
        s@.last() == ';',
        replaced(s@.subrange(1, s@.len() - 1), '/', '.') == name@,
        lacks(s@, '.'),
{
    reveal_strlit("L");
    reveal_strlit(";");
    let inner = replaced(name@, '.', '/');
    assert(s@.subrange(1, s@.len() - 1) =~= inner);
    assert(replaced(inner, '/', '.') =~= name@);
}

/// The name of a primitive type that is spelt with its own letter.
pub open spec fn keeps_its_letter(n: Seq<char>) -> bool {
    n == "byte"@ || n == "char"@ || n == "short"@ || n == "int"@ || n == "float"@ || n == "double"@
        || n == "void"@
}

/// The letter of a primitive type is its first, in capitals, but for `boolean` and `long`, whose
/// letters are others' or taken; its class starts with that letter too.
pub proof fn law_primitive_letters(n: &str, s: String, w: Result<&'static str, ArtError>)
    requires
        keeps_its_letter(n@) || n@ == "boolean"@ || n@ == "long"@,
        call_ensures(type_jni_name, (true, false, n), s),
        call_ensures(primitive_class, (n,), w),
    ensures
        s@.len() == 1,
        keeps_its_letter(n@) ==> s@[0] as int == n@[0] as int - 32,
        n@ == "boolean"@ ==> s@[0] == 'Z',
        n@ == "long"@ ==> s@[0] == 'J',
        w matches Ok(c) && has_prefix(c@, "java/lang/"@) && c@[10] as int == n@[0] as int - 32,
{
    lemma_letter(n@);
    let c = w->Ok_0@;
    lemma_wrapper(n@, c);
}

proof fn lemma_letter(n: Seq<char>)
    requires
        keeps_its_letter(n) || n == "boolean"@ || n == "long"@,
    ensures
        letter_of(n).len() == 1,
        keeps_its_letter(n) ==> letter_of(n)[0] as int == n[0] as int - 32,
        n == "boolean"@ ==> letter_of(n)[0] == 'Z',
        n == "long"@ ==> letter_of(n)[0] == 'J',
{
    lemma_lengths();
    reveal_strlit("boolean");
    reveal_strlit("long");
    if n == "void"@ {
        reveal_strlit("void");
        reveal_strlit("V");
        assert(letter_of(n) == "V"@);
        assert(letter_of(n)[0] == 'V');
        assert(n[0] == 'v');
    } else if n == "boolean"@ {
        reveal_strlit("boolean");
        reveal_strlit("Z");
        assert(letter_of(n) == "Z"@);
        assert(letter_of(n)[0] == 'Z');
        assert(n[0] == 'b');
        reveal_strlit("byte");
        reveal_strlit("char");
        reveal_strlit("short");
        reveal_strlit("int");
        reveal_strlit("float");
        reveal_strlit("double");
        reveal_strlit("void");
        assert(n.len() == 7);
        assert("double"@.len() == 6);
        assert(!keeps_its_letter(n));
    } else if n == "byte"@ {
        reveal_strlit("byte");
        reveal_strlit("B");
        assert(letter_of(n) == "B"@);
        assert(letter_of(n)[0] == 'B');
        assert(n[0] == 'b');
    } else if n == "char"@ {
        reveal_strlit("char");
        reveal_strlit("C");
        assert(letter_of(n) == "C"@);
        assert(letter_of(n)[0] == 'C');
        assert(n[0] == 'c');
    } else if n == "short"@ {
        reveal_strlit("short");
        reveal_strlit("S");
        assert(letter_of(n) == "S"@);
        assert(letter_of(n)[0] == 'S');
        assert(n[0] == 's');
    } else if n == "int"@ {
        reveal_strlit("int");
        reveal_strlit("I");
        assert(letter_of(n) == "I"@);
        assert(letter_of(n)[0] == 'I');
        assert(n[0] == 'i');
    } else if n == "long"@ {
        reveal_strlit("long");
        reveal_strlit("J");
        assert(letter_of(n) == "J"@);
        assert(letter_of(n)[0] == 'J');
        assert(n[0] == 'l');
        reveal_strlit("short");
        reveal_strlit("int");
        reveal_strlit("float");
        reveal_strlit("double");
        assert(n.len() == 4);
        assert("short"@.len() == 5);
        assert("int"@.len() == 3);
        assert("float"@.len() == 5);
        assert("double"@.len() == 6);
        assert(!keeps_its_letter(n));
    } else if n == "float"@ {
        reveal_strlit("float");
        reveal_strlit("F");
        assert(letter_of(n) == "F"@);
        assert(letter_of(n)[0] == 'F');
        assert(n[0] == 'f');
    } else if n == "double"@ {
        reveal_strlit("double");
        reveal_strlit("D");
        assert(letter_of(n) == "D"@);
        assert(letter_of(n)[0] == 'D');
        assert(n[0] == 'd');
    }
}

proof fn lemma_lengths()
    ensures
        "byte"@ != "char"@,
        "byte"@ != "void"@,
        "byte"@ != "long"@,
        "char"@ != "void"@,
        "char"@ != "long"@,
        "void"@ != "long"@,
        "short"@ != "float"@,
{
    reveal_strlit("byte");
    reveal_strlit("char");
    reveal_strlit("void");
    reveal_strlit("long");
    reveal_strlit("short");
    reveal_strlit("float");
    assert("byte"@[0] != "char"@[0]);
    assert("byte"@[0] != "void"@[0]);
    assert("byte"@[0] != "long"@[0]);
    assert("char"@[0] != "void"@[0]);
    assert("char"@[0] != "long"@[0]);
    assert("void"@[0] != "long"@[0]);
    assert("short"@[0] != "float"@[0]);
}

proof fn lemma_wrapper(n: Seq<char>, c: Seq<char>)
    requires
        wrapper_of(n) == Some(c),
    ensures
        has_prefix(c, "java/lang/"@),
        c[10] as int == n[0] as int - 32,
{
    reveal_strlit("java/lang/");
    let p = "java/lang/"@;
    if n == "int"@ {
        reveal_strlit("int");
        reveal_strlit("java/lang/Integer");
        assert(c.take(10) =~= p);
    } else if n == "boolean"@ {
        reveal_strlit("boolean");
        reveal_strlit("java/lang/Boolean");
        assert(c.take(10) =~= p);
    } else if n == "byte"@ {
        reveal_strlit("byte");
        reveal_strlit("java/lang/Byte");
        assert(c.take(10) =~= p);
    } else if n == "char"@ {
        reveal_strlit("char");
        reveal_strlit("java/lang/Character");
        assert(c.take(10) =~= p);
    } else if n == "short"@ {
        reveal_strlit("short");
        reveal_strlit("java/lang/Short");
        assert(c.take(10) =~= p);
    } else if n == "long"@ {
        reveal_strlit("long");
        reveal_strlit("java/lang/Long");
        assert(c.take(10) =~= p);
    } else if n == "float"@ {
        reveal_strlit("float");
        reveal_strlit("java/lang/Float");
        assert(c.take(10) =~= p);
    } else if n == "double"@ {
        reveal_strlit("double");
        reveal_strlit("java/lang/Double");
        assert(c.take(10) =~= p);
    } else {
        reveal_strlit("void");
        reveal_strlit("java/lang/Void");
        assert(c.take(10) =~= p);
    }
}

/// A class that is looked for is named with dots and with slashes, the same otherwise.
pub proof fn law_class_names(class: &str, r: (String, String, bool), i: int)
    requires
        call_ensures(find_app_class, (class,), r),
        0 <= i < class@.len(),
    ensures
        r.0@.len() == class@.len(),
        r.1@.len() == class@.len(),
        r.0@[i] != '/',
        r.1@[i] != '.',
        class@[i] != '/' && class@[i] != '.' ==> r.0@[i] == class@[i] && r.1@[i] == class@[i],
        class@[i] == '/' || class@[i] == '.' ==> r.0@[i] == '.' && r.1@[i] == '/',
{
}

/// The classes of a loader are named one after the other: while there are more, the next is asked
/// for and read, and the walk is back where it asks for more.
pub proof fn law_walk_reads_each_name(w: ClassWalk, a: Got)
    requires
        w.phase is More,
        w.index < w.count,
    ensures
        w.after(Got::Yes).phase is Next,
        w.after(Got::Yes).after(Got::Yes).phase is Text,
        w.after(Got::Yes).after(Got::Yes).after(a) == w,
        w.after(Got::No).index == w.index + 1,
        w.after(Got::No).phase is Element <==> w.index + 1 < w.count,
        w.after(Got::No).phase is Finished <==> w.index + 1 == w.count,
{
}

/// Every preference is read: while there are more, the next one's key and value, and the reading
/// is back where it asks for more.
pub proof fn law_preferences_are_read(a: Got)
    ensures
        prefs_after(PrefsPhase::More, Got::Yes) is Next,
        prefs_after(PrefsPhase::Next, Got::Yes) is Key,
        prefs_after(PrefsPhase::Key, Got::Yes) is Value,
        prefs_after(PrefsPhase::Value, a) is More,
        prefs_after(PrefsPhase::More, Got::No) is Finished,
{
}

/// A loader is kept once.
pub proof fn law_loaders_are_distinct(seen: &mut Vec<u64>, ptr: u64, r: bool)
    requires
        old(seen)@.no_duplicates(),
        !old(seen)@.contains(0u64),
        call_ensures(push_loader, (seen, ptr), r),
    ensures
        final(seen)@.no_duplicates(),
        !final(seen)@.contains(0u64),
        ptr != 0 ==> final(seen)@.contains(ptr),
{
    if r {
        assert(final(seen)@[final(seen)@.len() - 1] == ptr);
        assert forall|i: int| 0 <= i < final(seen)@.len() implies final(seen)@[i] != 0 by {
            if i < old(seen)@.len() {
                assert(old(seen)@.contains(old(seen)@[i]));
            }
        }
    }
}

/// The value of a digit of an escape.
pub open spec fn digit_of(c: char) -> int {
    if c <= '9' {
        c as int - 48
    } else {
        c as int - 87
    }
}

/// A string of a JSON text read from behind its opening quote up to the closing one.
pub open spec fn string_value(s: Seq<char>) -> Seq<char>
    decreases s.len(),
{
    if s.len() == 0 || s[0] == '"' {
        Seq::empty()
    } else if s[0] != '\\' || s.len() < 2 {
        seq![s[0]] + string_value(s.skip(1))
    } else if s[1] == 'b' {
        seq!['\u{8}'] + string_value(s.skip(2))
    } else if s[1] == 't' {
        seq!['\t'] + string_value(s.skip(2))
    } else if s[1] == 'n' {
        seq!['\n'] + string_value(s.skip(2))
    } else if s[1] == 'f' {
        seq!['\u{c}'] + string_value(s.skip(2))
    } else if s[1] == 'r' {
        seq!['\r'] + string_value(s.skip(2))
    } else if s[1] == 'u' && s.len() >= 6 {
        seq![
            (digit_of(s[2]) * 4096 + digit_of(s[3]) * 256 + digit_of(s[4]) * 16 + digit_of(
                s[5],
            )) as char,
        ] + string_value(s.skip(6))
    } else {
        seq![s[1]] + string_value(s.skip(2))
    }
}

proof fn lemma_value_first(c: char, rest: Seq<char>)
    ensures
        string_value(json_char(c) + rest) == seq![c] + string_value(rest),
{
    reveal_strlit("\\\"");
    reveal_strlit("\\\\");
    reveal_strlit("\\b");
    reveal_strlit("\\t");
    reveal_strlit("\\n");
    reveal_strlit("\\f");
    reveal_strlit("\\r");
    reveal_strlit("\\u00");
    let e = json_char(c);
    let s = e + rest;
    assert(s.skip(e.len() as int) =~= rest);
    if e.len() == 6 {
        let n = c as int;
        assert(s[4] == hex_digit((n / 16) as nat));
        assert(s[5] == hex_digit((n % 16) as nat));
        assert(digit_of(hex_digit((n / 16) as nat)) == n / 16);
        assert(digit_of(hex_digit((n % 16) as nat)) == n % 16);
        assert((n / 16) * 16 + n % 16 == n);
    }
}

proof fn lemma_chars_first(s: Seq<char>)
    requires
        s.len() > 0,
    ensures
        json_chars(s) == json_char(s[0]) + json_chars(s.skip(1)),
    decreases s.len(),
{
    if s.len() == 1 {
        assert(s.drop_last() =~= Seq::<char>::empty());
        assert(s.skip(1) =~= Seq::<char>::empty());
        assert(json_chars(s) =~= json_char(s[0]) + json_chars(s.skip(1)));
    } else {
        let init = s.drop_last();
        lemma_chars_first(init);
        assert(s.skip(1).drop_last() =~= init.skip(1));
        assert(s.skip(1).last() == s.last());
        assert(json_chars(s) =~= json_char(s[0]) + json_chars(s.skip(1)));
    }
}

proof fn lemma_chars_read_back(s: Seq<char>, rest: Seq<char>)
    ensures
        string_value(json_chars(s) + seq!['"'] + rest) == s,
    decreases s.len(),
{
    let t = json_chars(s) + seq!['"'] + rest;
    if s.len() == 0 {
        assert(t[0] == '"');
    } else {
        lemma_chars_first(s);
        let more = json_chars(s.skip(1)) + seq!['"'] + rest;
        assert(t =~= json_char(s[0]) + more);
        lemma_value_first(s[0], more);
        lemma_chars_read_back(s.skip(1), rest);
        assert(seq![s[0]] + s.skip(1) =~= s);
    }
}

/// A quoted text reads back as the text, whatever stands behind it.
pub proof fn law_quoted_text_reads_back(s: Seq<char>, rest: Seq<char>)
    ensures
        (json_quoted(s) + rest)[0] == '"',
        string_value((json_quoted(s) + rest).skip(1)) == s,
{
    reveal_strlit("\"");
    lemma_chars_read_back(s, rest);
    assert((json_quoted(s) + rest).skip(1) =~= json_chars(s) + seq!['"'] + rest);
}

/// A stored value is shown as its kind has it: a string in quotes, a truth value as one, a number
/// as it is written.
pub proof fn law_stored_value_reads_back(class: &str, text: &Option<String>, r: String, t: String)
    requires
        *text == Some(t),
        call_ensures(java_value_to_json, (false, class, text), r),
    ensures
        class@ == "java.lang.String"@ ==> r@[0] == '"' && string_value(r@.skip(1)) == t@,
        class@ == "java.lang.Boolean"@ ==> r@ == if t@ == "true"@ {
            "true"@
        } else {
            "false"@
        },
        class@ == "java.lang.Integer"@ || class@ == "java.lang.Long"@ ==> r@ == t@,
{
    reveal_strlit("java.lang.String");
    reveal_strlit("java.lang.Boolean");
    reveal_strlit("java.lang.Integer");
    reveal_strlit("java.lang.Long");
    assert("java.lang.String"@.len() == 16);
    assert("java.lang.Boolean"@.len() == 17);
    assert("java.lang.Integer"@[10] != "java.lang.Boolean"@[10]);
    assert("java.lang.Long"@.len() == 14);
    law_quoted_text_reads_back(t@, Seq::empty());
    assert(json_quoted(t@) + Seq::<char>::empty() =~= json_quoted(t@));
}

/// An entry of a directory tells whether it is one, its name and its size.
pub proof fn law_file_entry_reads_back(f: FileEntry)
    ensures
        ({
            let s = file_json(f);
            let flag = if f.is_dir {
                4int
            } else {
                5
            };
            let size = s.len() - 1 - decimal(f.size as nat).len();
            &&& has_prefix(s, "{\"isDir\":true,"@) <==> f.is_dir
            &&& has_prefix(s, "{\"isDir\":false,"@) <==> !f.is_dir
            &&& s[17 + flag] == '"'
            &&& string_value(s.skip(18 + flag)) == f.name@
            &&& s.last() == '}'
            &&& numeral(s.subrange(size, s.len() - 1), 10) == Some(f.size as nat)
            &&& s.subrange(size - 8, size) == ",\"size\":"@
        }),
{
    let s = file_json(f);
    let flag = bool_of(f.is_dir);
    let d = decimal(f.size as nat);
    law_decimal_reads_back(f.size as nat);
    let rest = ",\"size\":"@ + d + "}"@;
    let name = ",\"name\":"@ + json_quoted(f.name@);
    assert(s =~= "{\"isDir\":"@ + flag + (name + rest));
    assert(name[0] == ',' && name.len() > 0) by {
        reveal_strlit(",\"name\":");
    }
    lemma_file_flag(f.is_dir, name + rest, s);
    assert(s =~= "{\"isDir\":"@ + flag + name + ",\"size\":"@ + d + "}"@);
    lemma_file_size("{\"isDir\":"@ + flag + name, d, s);
    assert(s =~= "{\"isDir\":"@ + flag + ",\"name\":"@ + (json_quoted(f.name@) + rest));
    lemma_file_name(flag, f.name@, rest, s);
    assert(flag.len() == if f.is_dir {
        4int
    } else {
        5
    }) by {
        reveal_strlit("true");
        reveal_strlit("false");
    }
}

proof fn lemma_file_name(flag: Seq<char>, name: Seq<char>, rest: Seq<char>, s: Seq<char>)
    requires
        s == "{\"isDir\":"@ + flag + ",\"name\":"@ + (json_quoted(name) + rest),
    ensures
        s[17 + flag.len() as int] == '"',
        string_value(s.skip(18 + flag.len() as int)) == name,
{
    reveal_strlit("{\"isDir\":");
    reveal_strlit(",\"name\":");
    let q = json_quoted(name) + rest;
    law_quoted_text_reads_back(name, rest);
    assert(q.len() > 0) by {
        reveal_strlit("\"");
    }
    assert(s.skip(18 + flag.len() as int) =~= q.skip(1));
    assert(s[17 + flag.len() as int] == q[0]);
}

proof fn lemma_file_size(head: Seq<char>, d: Seq<char>, s: Seq<char>)
    requires
        s == head + ",\"size\":"@ + d + "}"@,
    ensures
        s.last() == '}',
        s.subrange(s.len() - 1 - d.len(), s.len() - 1) == d,
        s.subrange(s.len() - 9 - d.len(), s.len() - 1 - d.len()) == ",\"size\":"@,
{
    reveal_strlit(",\"size\":");
    reveal_strlit("}");
    assert(s.subrange(s.len() - 1 - d.len(), s.len() - 1) =~= d);
    assert(s.subrange(s.len() - 9 - d.len(), s.len() - 1 - d.len()) =~= ",\"size\":"@);
}

proof fn lemma_file_flag(is_dir: bool, rest: Seq<char>, s: Seq<char>)
    requires
        rest.len() > 0,
        rest[0] == ',',
        s == "{\"isDir\":"@ + bool_of(is_dir) + rest,
    ensures
        has_prefix(s, "{\"isDir\":true,"@) <==> is_dir,
        has_prefix(s, "{\"isDir\":false,"@) <==> !is_dir,
{
    reveal_strlit("{\"isDir\":");
    reveal_strlit("true");
    reveal_strlit("false");
    reveal_strlit("{\"isDir\":true,");
    reveal_strlit("{\"isDir\":false,");
    if is_dir {
        assert(s.take(14) =~= "{\"isDir\":true,"@);
        assert(s.len() >= 15 ==> s.take(15)[9] == 't');
        assert("{\"isDir\":false,"@[9] == 'f');
    } else {
        assert(s.take(15) =~= "{\"isDir\":false,"@);
        assert(s.take(14)[9] == 'f');
        assert("{\"isDir\":true,"@[9] == 't');
    }
}

/// The name of a file of preferences is its name without the ending, which it has not any more.
pub proof fn law_preferences_name(file: &str, r: Option<String>)
    requires
        call_ensures(pref_name, (file,), r),
    ensures
        r is Some <==> has_suffix(file@, ".xml"@),
        r matches Some(s) ==> has_prefix(file@, s@) && !has_suffix(s@, ".xml"@) && s@.len() + 4
            <= file@.len(),
{
    reveal_strlit(".xml");
    lemma_without_xml(file@);
}

proof fn lemma_without_xml(s: Seq<char>)
    ensures
        has_prefix(s, without_xml(s)),
        !has_suffix(without_xml(s), ".xml"@),
        has_suffix(s, ".xml"@) ==> without_xml(s).len() + 4 <= s.len(),
    decreases s.len(),
{
    reveal_strlit(".xml");
    if has_suffix(s, ".xml"@) {
        let t = s.take(s.len() - 4);
        lemma_without_xml(t);
        assert(s.take(without_xml(t).len() as int) =~= t.take(without_xml(t).len() as int));
    } else {
        assert(s.take(s.len() as int) =~= s);
    }
}

/// A class belongs to the system by the start of its name, with dots or with slashes.
pub proof fn law_system_classes(class: &str, r: (String, String, bool), rest: Seq<char>)
    requires
        call_ensures(find_app_class, (class,), r),
    ensures
        r.0@ == "android."@ + rest || r.0@ == "java."@ + rest || r.0@ == "javax."@ + rest || r.0@
            == "dalvik."@ + rest || r.0@ == "org.apache."@ + rest || r.0@ == "kotlin."@ + rest
            ==> r.2,
        r.2 ==> has_prefix(r.0@, "android."@) || has_prefix(r.0@, "java."@) || has_prefix(
            r.0@,
            "javax."@,
        ) || has_prefix(r.0@, "dalvik."@) || has_prefix(r.0@, "org.apache."@) || has_prefix(
            r.0@,
            "kotlin."@,
        ),
{
    lemma_starts("android."@, rest);
    lemma_starts("java."@, rest);
    lemma_starts("javax."@, rest);
    lemma_starts("dalvik."@, rest);
    lemma_starts("org.apache."@, rest);
    lemma_starts("kotlin."@, rest);
}

proof fn lemma_starts(p: Seq<char>, rest: Seq<char>)
    ensures
        has_prefix(p + rest, p),
{
    assert((p + rest).take(p.len() as int) =~= p);
}

/// A parameter of every primitive type is read, by its letter.
pub proof fn law_primitive_parameters(read: &str, r: Result<(Vec<Param>, bool), ArtError>, c: char)
    requires
        call_ensures(jni_sig_param_classes, (read,), r),
        c == 'Z' || c == 'B' || c == 'C' || c == 'S' || c == 'I' || c == 'J' || c == 'F' || c == 'D',
        read@ == seq!['(', c, ')', 'V'],
    ensures
        r matches Ok(p) && params_view(p.0@) == seq![ParamView::Primitive(c)] && p.1,
{
    let ps = seq![ParamView::Primitive(c)];
    let s = read@;
    assert(ps.skip(1) =~= Seq::<ParamView>::empty());
    assert(all_written(ps.skip(1)) =~= Seq::<char>::empty());
    assert(all_written(ps) == written(ps[0]) + all_written(ps.skip(1)));
    assert(all_written(ps) =~= seq![c]);
    assert(s =~= seq!['('] + all_written(ps) + seq![')', 'V']);
    lemma_params_from(seq!['('], ps, seq![')', 'V']);
    assert(place_of(s, '(', 0) == 0);
    lemma_place(s, ')', 0, 2);
}

} // verus!
