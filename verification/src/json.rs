//! Writing JSON texts.
use crate::ordered::{TextEntries, TextMap};
use crate::text::{hex_digit, join, joined, views};
use vstd::prelude::*;
use vstd::string::*;

verus! {

/// A character inside a JSON string.
pub open spec fn json_char(c: char) -> Seq<char> {
    if c == '"' {
        "\\\""@
    } else if c == '\\' {
        "\\\\"@
    } else if c == '\u{8}' {
        "\\b"@
    } else if c == '\t' {
        "\\t"@
    } else if c == '\n' {
        "\\n"@
    } else if c == '\u{c}' {
        "\\f"@
    } else if c == '\r' {
        "\\r"@
    } else if c <= '\u{1f}' {
        "\\u00"@.push(hex_digit((c as nat) / 16)).push(hex_digit((c as nat) % 16))
    } else {
        seq![c]
    }
}

/// The characters of a JSON string.
pub open spec fn json_chars(s: Seq<char>) -> Seq<char>
    decreases s.len(),
{
    if s.len() == 0 {
        Seq::empty()
    } else {
        json_chars(s.drop_last()) + json_char(s.last())
    }
}

/// A text as a JSON string.
pub open spec fn json_quoted(s: Seq<char>) -> Seq<char> {
    "\""@ + json_chars(s) + "\""@
}

/// `serde_json::to_string` on a string: the text between quotes, with quotes, backslashes and
/// the control characters below the space escaped.
#[verifier::external_body]
pub(crate) fn quote(s: &str) -> (r: String)
    ensures
        r@ == json_quoted(s@),
{
    serde_json::to_string(s).unwrap_or_default()
}

/// The text of a JSON value as `serde_json` writes it once it has read it.
pub uninterp spec fn json_normal(text: Seq<char>) -> Option<Seq<char>>;

/// `serde_json::from_str` and `Value::to_string`: the value of a text, written anew. `None`
/// where the text is no JSON value. What is written is left to the name.
#[verifier::external_body]
pub(crate) fn normalize(text: &str) -> (r: Option<String>)
    ensures
        crate::discover::text_view(r) == json_normal(text@),
{
    let v: serde_json::Value = serde_json::from_str(text).ok()?;
    Some(v.to_string())
}

/// The string that a JSON text is, as `serde_json` reads it.
pub uninterp spec fn json_string(text: Seq<char>) -> Option<Seq<char>>;

/// `serde_json::from_str` and `Value::as_str`: the string that a JSON text is. What was written
/// as a JSON string is read back unchanged; of other texts the result is left to the name.
#[verifier::external_body]
pub(crate) fn read_string(text: &str) -> (r: Option<String>)
    ensures
        crate::discover::text_view(r) == json_string(text@),
        forall|s: Seq<char>| text@ == #[trigger] json_quoted(s) ==> r is Some && r.unwrap()@ == s,
{
    let v: serde_json::Value = serde_json::from_str(text).ok()?;
    Some(v.as_str()?.to_string())
}

/// The members of an object: each key as a string, a colon and its value.
pub open spec fn members(e: TextEntries) -> Seq<Seq<char>> {
    Seq::new(e.keys.len(), |i: int| json_quoted(e.keys[i]) + ":"@ + e.values[i])
}

/// An object with the keys in order, given the texts of the values.
pub open spec fn object_of(e: TextEntries) -> Seq<char> {
    "{"@ + joined(members(e), ","@) + "}"@
}

/// An object with the keys in order, given the texts of the values.
pub fn object_text(m: &TextMap) -> (s: String)
    requires
        m@.wf(),
    ensures
        s@ == object_of(m@),
{
    let n: usize = m.len();
    let mut parts: Vec<String> = Vec::new();
    let mut i: usize = 0;
    let ghost want = members(m@);
    assert(views(parts@) =~= want.take(0));
    while i < n
        invariant
            n == m@.keys.len(),
            m@.wf(),
            i <= n,
            want == members(m@),
            views(parts@) == want.take(i as int),
        decreases n - i,
    {
        let (k, v) = m.entry(i);
        let mut s = quote(k.as_str());
        s.append(":");
        s.append(v.as_str());
        let ghost before = parts@;
        parts.push(s);
        assert(s@ == want[i as int]);
        i = i + 1;
        assert(views(parts@) =~= views(before).push(s@));
        assert(views(parts@) =~= want.take(i as int));
    }
    assert(want.take(i as int) =~= want);
    let mut s = "{".to_owned();
    s.append(join(&parts, ",").as_str());
    s.append("}");
    s
}

/// An array, given the texts of its items.
pub open spec fn array_of(items: Seq<Seq<char>>) -> Seq<char> {
    "["@ + joined(items, ","@) + "]"@
}

/// An array, given the texts of its items.
pub fn array_text(items: &Vec<String>) -> (s: String)
    ensures
        s@ == array_of(views(items@)),
{
    let mut s = "[".to_owned();
    s.append(join(items, ",").as_str());
    s.append("]");
    s
}

/// A truth value.
pub open spec fn bool_of(b: bool) -> Seq<char> {
    if b {
        "true"@
    } else {
        "false"@
    }
}

pub(crate) fn push_bool(s: &mut String, b: bool)
    ensures
        final(s)@ == old(s)@ + bool_of(b),
{
    if b {
        s.append("true");
    } else {
        s.append("false");
    }
}

/// The characters of a JSON string hold no control character below the space, and no quote
/// that does not follow a backslash.
pub proof fn law_quoted_has_no_control(s: Seq<char>, i: int)
    requires
        0 <= i < json_chars(s).len(),
    ensures
        json_chars(s)[i] >= ' ',
        json_chars(s)[i] == '"' ==> i > 0 && json_chars(s)[i - 1] == '\\',
    decreases s.len(),
{
    let front = json_chars(s.drop_last());
    if i < front.len() {
        law_quoted_has_no_control(s.drop_last(), i);
    } else {
        let c = s.last();
        let all = json_chars(s);
        let k = i - front.len();
        assert(all == front + json_char(c));
        lemma_json_char(c, k);
        assert(all[i] == json_char(c)[k]);
        if k > 0 {
            assert(all[i - 1] == json_char(c)[k - 1]);
        }
    }
}

proof fn lemma_json_char(c: char, k: int)
    requires
        0 <= k < json_char(c).len(),
    ensures
        json_char(c)[k] >= ' ',
        json_char(c)[k] == '"' ==> k > 0 && json_char(c)[k - 1] == '\\',
{
    reveal_strlit("\\\"");
    reveal_strlit("\\\\");
    reveal_strlit("\\b");
    reveal_strlit("\\t");
    reveal_strlit("\\n");
    reveal_strlit("\\f");
    reveal_strlit("\\r");
    reveal_strlit("\\u00");
    let t = json_char(c);
    if c == '"' {
        assert(t[0] == '\\' && t[1] == '"');
    } else if c == '\\' {
        assert(t[0] == '\\' && t[1] == '\\');
    } else if c == '\u{8}' {
        assert(t[0] == '\\' && t[1] == 'b');
    } else if c == '\t' {
        assert(t[0] == '\\' && t[1] == 't');
    } else if c == '\n' {
        assert(t[0] == '\\' && t[1] == 'n');
    } else if c == '\u{c}' {
        assert(t[0] == '\\' && t[1] == 'f');
    } else if c == '\r' {
        assert(t[0] == '\\' && t[1] == 'r');
    } else if c <= '\u{1f}' {
        assert(t[0] == '\\' && t[1] == 'u' && t[2] == '0' && t[3] == '0');
        assert(t.len() == 6);
        lemma_hex_digit((c as nat) / 16);
        lemma_hex_digit((c as nat) % 16);
        assert(t[4] == hex_digit((c as nat) / 16));
        assert(t[5] == hex_digit((c as nat) % 16));
    } else {
        assert(t[0] == c);
    }
}

proof fn lemma_hex_digit(d: nat)
    requires
        d < 16,
    ensures
        hex_digit(d) >= '0',
{
}

} // verus!
