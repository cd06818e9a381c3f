//! Java types in the forms that the runtime uses.
use crate::art::{says, ArtError, MethodDesc};
use crate::remote::{hex_of, push_hex_of};
use crate::split::{find_char, place_of};
use crate::text::{
    chars_of, copy_chars, has_prefix, push_char, spells, starts_with, string_of, views,
};
use vstd::prelude::*;
use vstd::string::*;

verus! {

/// A parameter of a method.
#[derive(Debug)]
pub enum Param {
    /// A primitive type, by its letter.
    Primitive(char),
    /// A class, by its name with slashes.
    Object(String),
    /// An array, by its descriptor.
    Array(String),
}

/// A parameter, as contracts speak of it.
pub enum ParamView {
    Primitive(char),
    Object(Seq<char>),
    Array(Seq<char>),
}

impl View for Param {
    type V = ParamView;

    open spec fn view(&self) -> ParamView {
        match self {
            Param::Primitive(c) => ParamView::Primitive(*c),
            Param::Object(s) => ParamView::Object(s@),
            Param::Array(s) => ParamView::Array(s@),
        }
    }
}

/// The views of some parameters.
pub open spec fn params_view(v: Seq<Param>) -> Seq<ParamView> {
    v.map_values(|p: Param| p@)
}

/// What is wrong with a signature.
pub enum SigFault {
    /// It has no parameter list.
    Bad,
    /// A class without its semicolon.
    Object,
    /// A character that stands for no type.
    Letter(char),
}

/// Whether a letter stands for a primitive type.
pub open spec fn is_primitive(c: char) -> bool {
    c == 'I' || c == 'Z' || c == 'B' || c == 'C' || c == 'S' || c == 'J' || c == 'F' || c == 'D'
}

/// The first place at or after `i` that holds no bracket, or the end.
pub open spec fn past_brackets(s: Seq<char>, i: int, end: int) -> int
    decreases end - i,
{
    if i < end && s[i] == '[' {
        past_brackets(s, i + 1, end)
    } else {
        i
    }
}

/// The first place at or after `i` with a semicolon, or the end.
pub open spec fn semicolon_from(s: Seq<char>, i: int, end: int) -> int
    decreases end - i,
{
    if i < end && s[i] != ';' {
        semicolon_from(s, i + 1, end)
    } else {
        i
    }
}

/// Where an array's descriptor ends.
pub open spec fn array_end(s: Seq<char>, i: int, end: int) -> int {
    let j = past_brackets(s, i, end);
    if j < end && s[j] == 'L' {
        semicolon_from(s, j, end) + 1
    } else {
        j + 1
    }
}

/// The first byte of a character in UTF-8, as a character.
pub open spec fn first_byte(c: char) -> char {
    let n = c as int;
    if n < 0x80 {
        c
    } else if n < 0x800 {
        (0xc0 + n / 64) as char
    } else if n < 0x1_0000 {
        (0xe0 + n / 4096) as char
    } else {
        (0xf0 + n / 262144) as char
    }
}

/// The parameters of a signature from the `i`th character up to the end of its list.
pub open spec fn params_from(s: Seq<char>, i: int, end: int) -> Result<Seq<ParamView>, SigFault>
    decreases end - i,
    via params_from_decreases
{
    if i >= end {
        Ok(Seq::empty())
    } else if is_primitive(s[i]) {
        with_param(ParamView::Primitive(s[i]), params_from(s, i + 1, end))
    } else if s[i] == 'L' {
        let semi = place_of(s, ';', i);
        if semi >= s.len() {
            Err(SigFault::Object)
        } else {
            with_param(
                ParamView::Object(s.subrange(i + 1, semi)),
                if semi + 1 >= end {
                    Ok(Seq::empty())
                } else {
                    params_from(s, semi + 1, end)
                },
            )
        }
    } else if s[i] == '[' {
        let j = array_end(s, i, end);
        with_param(
            ParamView::Array(s.subrange(i, j)),
            if j >= end {
                Ok(Seq::empty())
            } else {
                params_from(s, j, end)
            },
        )
    } else {
        Err(SigFault::Letter(first_byte(s[i])))
    }
}

/// A parameter before others.
pub open spec fn with_param(p: ParamView, rest: Result<Seq<ParamView>, SigFault>) -> Result<
    Seq<ParamView>,
    SigFault,
> {
    match rest {
        Ok(v) => Ok(seq![p] + v),
        Err(f) => Err(f),
    }
}

#[via_fn]
proof fn params_from_decreases(s: Seq<char>, i: int, end: int) {
    if i < end {
        lemma_place_bound(s, ';', i);
        lemma_array_end(s, i, end);
    }
}

proof fn lemma_place_bound(s: Seq<char>, c: char, i: int)
    ensures
        place_of(s, c, i) >= i,
        i < s.len() && s[i] != c ==> place_of(s, c, i) > i,
    decreases s.len() - i,
{
    if i < s.len() && s[i] != c {
        lemma_place_bound(s, c, i + 1);
    }
}

proof fn lemma_array_end(s: Seq<char>, i: int, end: int)
    requires
        i < end,
    ensures
        i < array_end(s, i, end) <= end + 1,
        past_brackets(s, i, end) >= i,
        past_brackets(s, i, end) <= end,
{
    lemma_past_brackets(s, i, end);
    lemma_semicolon(s, past_brackets(s, i, end), end);
}

proof fn lemma_past_brackets(s: Seq<char>, i: int, end: int)
    requires
        i <= end,
    ensures
        i <= past_brackets(s, i, end) <= end,
    decreases end - i,
{
    if i < end && s[i] == '[' {
        lemma_past_brackets(s, i + 1, end);
    }
}

proof fn lemma_semicolon(s: Seq<char>, i: int, end: int)
    requires
        i <= end,
    ensures
        i <= semicolon_from(s, i, end) <= end,
    decreases end - i,
{
    if i < end && s[i] != ';' {
        lemma_semicolon(s, i + 1, end);
    }
}

/// The parameters from the `i`th character on that come before a fault.
pub open spec fn sound_from(s: Seq<char>, i: int, end: int) -> Seq<ParamView>
    decreases end - i,
    via sound_from_decreases
{
    if i >= end {
        Seq::empty()
    } else if is_primitive(s[i]) {
        seq![ParamView::Primitive(s[i])] + sound_from(s, i + 1, end)
    } else if s[i] == 'L' {
        let semi = place_of(s, ';', i);
        if semi >= s.len() {
            Seq::empty()
        } else {
            seq![ParamView::Object(s.subrange(i + 1, semi))] + if semi + 1 >= end {
                Seq::empty()
            } else {
                sound_from(s, semi + 1, end)
            }
        }
    } else if s[i] == '[' {
        let j = array_end(s, i, end);
        seq![ParamView::Array(s.subrange(i, j))] + if j >= end {
            Seq::empty()
        } else {
            sound_from(s, j, end)
        }
    } else {
        Seq::empty()
    }
}

#[via_fn]
proof fn sound_from_decreases(s: Seq<char>, i: int, end: int) {
    if i < end {
        lemma_place_bound(s, ';', i);
        lemma_array_end(s, i, end);
    }
}

/// The parameters of a signature that come before a fault.
pub open spec fn sound_params(sig: Seq<char>) -> Seq<ParamView> {
    let open = place_of(sig, '(', 0);
    let close = place_of(sig, ')', 0);
    if open >= sig.len() || close >= sig.len() {
        Seq::empty()
    } else {
        sound_from(sig, open + 1, close)
    }
}

/// The parameters of a signature.
pub open spec fn params_of(sig: Seq<char>) -> Result<Seq<ParamView>, SigFault> {
    let open = place_of(sig, '(', 0);
    let close = place_of(sig, ')', 0);
    if open >= sig.len() || close >= sig.len() {
        Err(SigFault::Bad)
    } else {
        params_from(sig, open + 1, close)
    }
}

/// The text of a fault in a signature.
pub open spec fn fault_text(f: SigFault, sig: Seq<char>) -> Seq<char> {
    match f {
        SigFault::Bad => "bad sig "@ + sig,
        SigFault::Object => "bad object in "@ + sig,
        SigFault::Letter(c) => "unsupported sig char "@ + seq![c] + " in "@ + sig,
    }
}

/// Whether the arrays among the parameters from the `i`th character on are of types that start
/// with an ASCII character. What follows a fault is not looked at.
pub open spec fn plain_from(s: Seq<char>, i: int, end: int) -> bool
    decreases end - i,
    via plain_from_decreases
{
    if i >= end {
        true
    } else if is_primitive(s[i]) {
        plain_from(s, i + 1, end)
    } else if s[i] == 'L' {
        let next = place_of(s, ';', i) + 1;
        next > s.len() || next >= end || plain_from(s, next, end)
    } else if s[i] == '[' {
        let next = array_end(s, i, end);
        s[past_brackets(s, i, end)] <= '\u{7f}' && (next >= end || plain_from(s, next, end))
    } else {
        true
    }
}

#[via_fn]
proof fn plain_from_decreases(s: Seq<char>, i: int, end: int) {
    if i < end {
        lemma_place_bound(s, ';', i);
        lemma_array_end(s, i, end);
    }
}

/// Whether the arrays among the parameters of a signature are of types that start with an ASCII
/// character.
pub open spec fn has_plain_arrays(sig: Seq<char>) -> bool {
    let open = place_of(sig, '(', 0);
    let close = place_of(sig, ')', 0);
    open < sig.len() && close < sig.len() ==> plain_from(sig, open + 1, close)
}

fn lead(c: char) -> (r: char)
    ensures
        r == first_byte(c),
{
    let n: u32 = c as u32;
    if n < 0x80 {
        c
    } else if n < 0x800 {
        (0xc0 + n / 64) as u8 as char
    } else if n < 0x1_0000 {
        (0xe0 + n / 4096) as u8 as char
    } else {
        (0xf0 + n / 262144) as u8 as char
    }
}

fn skip_brackets(s: &Vec<char>, i: usize, end: usize) -> (j: usize)
    requires
        i < end < s@.len(),
    ensures
        j == past_brackets(s@, i as int, end as int),
        i <= j <= end,
{
    let mut j: usize = i;
    while j < end && s[j] == '['
        invariant
            i <= j <= end < s@.len(),
            past_brackets(s@, i as int, end as int) == past_brackets(s@, j as int, end as int),
        decreases end - j,
    {
        j = j + 1;
    }
    j
}

fn find_array_end(s: &Vec<char>, i: usize, end: usize) -> (r: usize)
    requires
        i < end < s@.len(),
        s@[i as int] == '[',
    ensures
        r == array_end(s@, i as int, end as int),
        i < r <= end + 1,
{
    proof {
        lemma_array_end(s@, i as int, end as int);
    }
    let n: usize = s.len();
    let mut j: usize = skip_brackets(s, i, end);
    if j < end && s[j] == 'L' {
        let ghost from = j;
        while j < end && s[j] != ';'
            invariant
                from <= j <= end < s@.len(),
                n == s@.len(),
                semicolon_from(s@, from as int, end as int) == semicolon_from(
                    s@,
                    j as int,
                    end as int,
                ),
            decreases end - j,
        {
            j = j + 1;
        }
    }
    j + 1
}

/// One parameter and where it ends.
fn read_param(s: &Vec<char>, i: usize, end: usize) -> (r: Result<(Param, usize), char>)
    requires
        i < end < s@.len(),
        s@[i as int] == 'L' ==> place_of(s@, ';', i as int) < s@.len(),
    ensures
        match r {
            Ok((p, next)) => i < next && (is_primitive(s@[i as int]) || s@[i as int] == 'L'
                || s@[i as int] == '[') && params_from(s@, i as int, end as int) == with_param(
                p@,
                if next >= end {
                    Ok(Seq::<ParamView>::empty())
                } else {
                    params_from(s@, next as int, end as int)
                },
            ) && sound_from(s@, i as int, end as int) == seq![p@] + if next >= end {
                Seq::<ParamView>::empty()
            } else {
                sound_from(s@, next as int, end as int)
            },
            Err(c) => params_from(s@, i as int, end as int) == Err::<Seq<ParamView>, SigFault>(
                SigFault::Letter(c),
            ) && sound_from(s@, i as int, end as int).len() == 0,
        },
{
    let c = s[i];
    if c == 'I' || c == 'Z' || c == 'B' || c == 'C' || c == 'S' || c == 'J' || c == 'F' || c
        == 'D' {
        assert(i + 1 >= end ==> sound_from(s@, i + 1, end as int) == Seq::<ParamView>::empty());
        return Ok((Param::Primitive(c), i + 1));
    }
    if c == 'L' {
        let n: usize = s.len();
        let semi: usize = find_char(s.as_slice(), ';', i);
        assert(semi < n);
        let name = copy_chars(s.as_slice(), i + 1, semi);
        let p = Param::Object(string_of(name.as_slice()));
        return Ok((p, semi + 1));
    }
    if c == '[' {
        let j: usize = find_array_end(s, i, end);
        let desc = copy_chars(s.as_slice(), i, j);
        let p = Param::Array(string_of(desc.as_slice()));
        return Ok((p, j));
    }
    Err(lead(c))
}

/// Whether the arrays among the parameters of a signature are of types that start with an ASCII
/// character.
pub fn arrays_are_plain(sig: &str) -> (r: bool)
    ensures
        r == has_plain_arrays(sig@),
{
    let cs = chars_of(sig);
    let open: usize = find_char(cs.as_slice(), '(', 0);
    let close: usize = find_char(cs.as_slice(), ')', 0);
    if open >= cs.len() || close >= cs.len() {
        return true;
    }
    let mut i: usize = open + 1;
    while i < close
        invariant
            close < cs@.len(),
            has_plain_arrays(cs@) == plain_from(cs@, i as int, close as int),
            cs@ == sig@,
        decreases
            if i < close {
                close - i
            } else {
                0
            },
    {
        let c = cs[i];
        if c == 'I' || c == 'Z' || c == 'B' || c == 'C' || c == 'S' || c == 'J' || c == 'F' || c
            == 'D' {
            i = i + 1;
        } else if c == 'L' {
            let semi: usize = find_char(cs.as_slice(), ';', i);
            if semi >= cs.len() {
                return true;
            }
            i = semi + 1;
        } else if c == '[' {
            if cs[skip_brackets(&cs, i, close)] > '\u{7f}' {
                return false;
            }
            i = find_array_end(&cs, i, close);
        } else {
            return true;
        }
    }
    true
}

/// The parameters of a signature that come before a fault, and the fault, or whether it gives
/// nothing back.
pub fn read_params(sig: &str) -> (r: (Vec<Param>, Result<bool, ArtError>))
    requires
        has_plain_arrays(sig@),
    ensures
        params_view(r.0@) == sound_params(sig@),
        match params_of(sig@) {
            Ok(v) => params_view(r.0@) == v && r.1 == Ok::<bool, ArtError>(
                sig@.len() > 0 && sig@.last() == 'V',
            ),
            Err(f) => says(r.1, fault_text(f, sig@)),
        },
{
    let cs = chars_of(sig);
    let open: usize = find_char(cs.as_slice(), '(', 0);
    let close: usize = find_char(cs.as_slice(), ')', 0);
    if open >= cs.len() || close >= cs.len() {
        let none: Vec<Param> = Vec::new();
        assert(params_view(none@) =~= Seq::<ParamView>::empty());
        return (none, Err(ArtError::Msg("bad sig ".to_owned().concat(sig))));
    }
    let mut out: Vec<Param> = Vec::new();
    let mut i: usize = open + 1;
    assert(params_view(out@) =~= Seq::<ParamView>::empty());
    assert(params_view(out@) + sound_params(sig@) =~= sound_params(sig@));
    let ghost all = params_of(sig@);
    proof {
        match all {
            Ok(v) => {
                assert(params_view(out@) + v =~= v);
            },
            Err(_) => {},
        }
    }
    while i < close
        invariant
            cs@ == sig@,
            close < cs@.len(),
            all == params_of(sig@),
            sound_params(sig@) == params_view(out@) + sound_from(cs@, i as int, close as int),
            match params_from(cs@, i as int, close as int) {
                Ok(v) => all == Ok::<Seq<ParamView>, SigFault>(params_view(out@) + v),
                Err(f) => all == Err::<Seq<ParamView>, SigFault>(f),
            },
        decreases
            if i < close {
                close - i
            } else {
                0
            },
    {
        if cs[i] == 'L' {
            let semi: usize = find_char(cs.as_slice(), ';', i);
            if semi >= cs.len() {
                assert(params_view(out@) + Seq::<ParamView>::empty() =~= params_view(out@));
                return (out, Err(ArtError::Msg("bad object in ".to_owned().concat(sig))));
            }
        }
        match read_param(&cs, i, close) {
            Ok((p, next)) => {
                let ghost before = out@;
                let ghost pv = p@;
                out.push(p);
                assert(params_view(out@) =~= params_view(before).push(pv));
                proof {
                    let rest = if next >= close {
                        Ok(Seq::<ParamView>::empty())
                    } else {
                        params_from(cs@, next as int, close as int)
                    };
                    assert(params_from(cs@, next as int, close as int) == rest);
                    let sound = sound_from(cs@, next as int, close as int);
                    assert(params_view(before) + (seq![pv] + sound) =~= params_view(out@) + sound);
                    match rest {
                        Ok(v) => {
                            assert(params_view(before) + (seq![pv] + v) =~= params_view(out@) + v);
                        },
                        Err(_) => {},
                    }
                }
                i = next;
            },
            Err(c) => {
                let mut m = "unsupported sig char ".to_owned();
                push_char(&mut m, c);
                m.append(" in ");
                m.append(sig);
                assert(m@ =~= fault_text(SigFault::Letter(c), sig@));
                assert(params_view(out@) + sound_from(cs@, i as int, close as int)
                    =~= params_view(out@));
                return (out, Err(ArtError::Msg(m)));
            },
        }
    }
    assert(params_from(cs@, i as int, close as int) == Ok::<Seq<ParamView>, SigFault>(
        Seq::empty(),
    ));
    assert(params_view(out@) + Seq::<ParamView>::empty() =~= params_view(out@));
    let n: usize = cs.len();
    let void = n > 0 && cs[n - 1] == 'V';
    (out, Ok(void))
}

/// The parameters of a signature, and whether it gives nothing back.
pub fn jni_sig_param_classes(sig: &str) -> (r: Result<(Vec<Param>, bool), ArtError>)
    requires
        has_plain_arrays(sig@),
    ensures
        match params_of(sig@) {
            Ok(v) => r matches Ok(p) && params_view(p.0@) == v && p.1 == (sig@.len() > 0
                && sig@.last() == 'V'),
            Err(f) => says(r, fault_text(f, sig@)),
        },
{
    let (params, end) = read_params(sig);
    match end {
        Ok(void) => Ok((params, void)),
        Err(e) => Err(e),
    }
}


/// The class that holds a primitive type, by the type's name.
pub open spec fn wrapper_of(name: Seq<char>) -> Option<Seq<char>> {
    if name == "int"@ {
        Some("java/lang/Integer"@)
    } else if name == "boolean"@ {
        Some("java/lang/Boolean"@)
    } else if name == "byte"@ {
        Some("java/lang/Byte"@)
    } else if name == "char"@ {
        Some("java/lang/Character"@)
    } else if name == "short"@ {
        Some("java/lang/Short"@)
    } else if name == "long"@ {
        Some("java/lang/Long"@)
    } else if name == "float"@ {
        Some("java/lang/Float"@)
    } else if name == "double"@ {
        Some("java/lang/Double"@)
    } else if name == "void"@ {
        Some("java/lang/Void"@)
    } else {
        None
    }
}

/// The class that holds a primitive type.
pub fn primitive_class(name: &str) -> (r: Result<&'static str, ArtError>)
    ensures
        match wrapper_of(name@) {
            Some(w) => r matches Ok(s) && s@ == w,
            None => says(r, "unknown primitive "@ + name@),
        },
{
    let v = chars_of(name);
    let n = v.as_slice();
    if spells(n, "int") {
        Ok("java/lang/Integer")
    } else if spells(n, "boolean") {
        Ok("java/lang/Boolean")
    } else if spells(n, "byte") {
        Ok("java/lang/Byte")
    } else if spells(n, "char") {
        Ok("java/lang/Character")
    } else if spells(n, "short") {
        Ok("java/lang/Short")
    } else if spells(n, "long") {
        Ok("java/lang/Long")
    } else if spells(n, "float") {
        Ok("java/lang/Float")
    } else if spells(n, "double") {
        Ok("java/lang/Double")
    } else if spells(n, "void") {
        Ok("java/lang/Void")
    } else {
        Err(ArtError::Msg("unknown primitive ".to_owned().concat(name)))
    }
}

/// The letter of a primitive type, by its name; the object class for others.
pub open spec fn letter_of(name: Seq<char>) -> Seq<char> {
    if name == "void"@ {
        "V"@
    } else if name == "boolean"@ {
        "Z"@
    } else if name == "byte"@ {
        "B"@
    } else if name == "char"@ {
        "C"@
    } else if name == "short"@ {
        "S"@
    } else if name == "int"@ {
        "I"@
    } else if name == "long"@ {
        "J"@
    } else if name == "float"@ {
        "F"@
    } else if name == "double"@ {
        "D"@
    } else {
        "Ljava/lang/Object;"@
    }
}

/// `s` with one character in place of another.
pub open spec fn replaced(s: Seq<char>, from: char, to: char) -> Seq<char> {
    s.map_values(
        |c: char|
            if c == from {
                to
            } else {
                c
            },
    )
}

/// `s` with one character in place of another.
pub fn replace(s: &str, from: char, to: char) -> (out: String)
    ensures
        out@ == replaced(s@, from, to),
{
    let cs = chars_of(s);
    let mut out = String::new();
    let mut i: usize = 0;
    while i < cs.len()
        invariant
            i <= cs@.len(),
            out@ == replaced(cs@, from, to).take(i as int),
        decreases cs@.len() - i,
    {
        if cs[i] == from {
            push_char(&mut out, to);
        } else {
            push_char(&mut out, cs[i]);
        }
        i = i + 1;
        assert(out@ =~= replaced(cs@, from, to).take(i as int));
    }
    assert(replaced(cs@, from, to).take(i as int) =~= replaced(cs@, from, to));
    out
}

/// The descriptor of a class, by its name and what it is.
pub open spec fn descriptor(primitive: bool, array: bool, name: Seq<char>) -> Seq<char> {
    if primitive {
        letter_of(name)
    } else if array {
        replaced(name, '.', '/')
    } else {
        "L"@ + replaced(name, '.', '/') + ";"@
    }
}

/// The descriptor of a class.
pub fn type_jni_name(primitive: bool, array: bool, name: &str) -> (s: String)
    ensures
        s@ == descriptor(primitive, array, name@),
{
    if primitive {
        let v = chars_of(name);
        let n = v.as_slice();
        return if spells(n, "void") {
            "V".to_owned()
        } else if spells(n, "boolean") {
            "Z".to_owned()
        } else if spells(n, "byte") {
            "B".to_owned()
        } else if spells(n, "char") {
            "C".to_owned()
        } else if spells(n, "short") {
            "S".to_owned()
        } else if spells(n, "int") {
            "I".to_owned()
        } else if spells(n, "long") {
            "J".to_owned()
        } else if spells(n, "float") {
            "F".to_owned()
        } else if spells(n, "double") {
            "D".to_owned()
        } else {
            "Ljava/lang/Object;".to_owned()
        };
    }
    let slashed = replace(name, '.', '/');
    if array {
        return slashed;
    }
    let mut s = "L".to_owned();
    s.append(slashed.as_str());
    s.append(";");
    s
}

/// The texts one after another.
pub open spec fn concatenated(parts: Seq<Seq<char>>) -> Seq<char>
    decreases parts.len(),
{
    if parts.len() == 0 {
        Seq::empty()
    } else {
        concatenated(parts.drop_last()) + parts.last()
    }
}

/// The signature of a method, given the descriptors of its parameters and of its result.
pub fn method_jni_signature(params: &Vec<String>, ret: &str) -> (s: String)
    ensures
        s@ == "("@ + concatenated(views(params@)) + ")"@ + ret@,
{
    let mut s = "(".to_owned();
    let mut i: usize = 0;
    let ghost all = views(params@);
    assert(all.take(0) =~= Seq::<Seq<char>>::empty());
    assert(s@ =~= "("@ + concatenated(all.take(0)));
    while i < params.len()
        invariant
            i <= params@.len(),
            all == views(params@),
            s@ == "("@ + concatenated(all.take(i as int)),
        decreases params@.len() - i,
    {
        s.append(params[i].as_str());
        i = i + 1;
        assert(all.take(i as int).drop_last() =~= all.take(i - 1));
        assert(s@ =~= "("@ + concatenated(all.take(i as int)));
    }
    assert(all.take(i as int) =~= all);
    s.append(")");
    s.append(ret);
    s
}

/// A method, by its name, signature and modifiers.
pub fn method_desc(name: String, sig: String, mods: u32) -> (m: MethodDesc)
    ensures
        m.name == name,
        m.sig == sig,
        m.is_static == ((mods / 8) % 2 == 1),
        m.flags == mods,
{
    MethodDesc { name, sig, is_static: (mods / 8) % 2 == 1, flags: mods }
}

/// A field, by its name, type and modifiers.
pub fn field_desc(name: String, ty: String, mods: u32) -> (f: crate::art::FieldDesc)
    ensures
        f.name == name,
        f.ty == ty,
        f.is_static == ((mods / 8) % 2 == 1),
        f.flags == mods,
{
    crate::art::FieldDesc { name, ty, is_static: (mods / 8) % 2 == 1, flags: mods }
}

/// A class loader as it is listed: its class, or the class of all loaders, and where it is.
pub fn loader_text(class: &Option<String>, ptr: u64) -> (s: String)
    ensures
        s@ == (match *class {
            Some(c) => c@,
            None => "java.lang.ClassLoader"@,
        }) + "@"@ + hex_of(ptr),
{
    let mut s = match class {
        Some(c) => c.clone(),
        None => "java.lang.ClassLoader".to_owned(),
    };
    s.append("@");
    push_hex_of(&mut s, ptr);
    s
}

/// Whether a class belongs to the system, by its name with dots.
pub open spec fn is_system_class(dotted: Seq<char>) -> bool {
    has_prefix(dotted, "android."@) || has_prefix(dotted, "java."@) || has_prefix(
        dotted,
        "javax."@,
    ) || has_prefix(dotted, "dalvik."@) || has_prefix(dotted, "org.apache."@) || has_prefix(
        dotted,
        "kotlin."@,
    )
}

/// The name of a class with dots and with slashes, and whether it belongs to the system.
pub fn find_app_class(class_name: &str) -> (r: (String, String, bool))
    ensures
        r.0@ == replaced(class_name@, '/', '.'),
        r.1@ == replaced(r.0@, '.', '/'),
        r.2 == is_system_class(r.0@),
{
    let dotted = replace(class_name, '/', '.');
    let slashed = replace(dotted.as_str(), '.', '/');
    let v = chars_of(dotted.as_str());
    let d = v.as_slice();
    let system = starts_with(d, "android.") || starts_with(d, "java.") || starts_with(d, "javax.")
        || starts_with(d, "dalvik.") || starts_with(d, "org.apache.") || starts_with(d, "kotlin.");
    (dotted, slashed, system)
}

} // verus!
