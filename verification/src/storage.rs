//! What an app keeps, as JSON.
use crate::discover::text_view;
use crate::json::{
    array_of, array_text, bool_of, json_normal, json_quoted, json_string, normalize, object_of,
    object_text, push_bool, quote, read_string,
};
use crate::ordered::TextMap;
use crate::text::{
    chars_of, copy_chars, decimal, ends_with, has_suffix, push_char, push_decimal, spells,
    string_of, views,
};
use vstd::prelude::*;
use vstd::string::*;

verus! {

/// Whether a class is one of the numbers.
pub open spec fn is_number_class(c: Seq<char>) -> bool {
    c == "java.lang.Integer"@ || c == "java.lang.Long"@ || c == "java.lang.Short"@ || c
        == "java.lang.Byte"@ || c == "java.lang.Float"@ || c == "java.lang.Double"@
}

/// A Java value as JSON, by its class and its text: strings, truth values and numbers as such,
/// others as an object with both.
pub open spec fn value_json(class: Seq<char>, text: Option<Seq<char>>) -> Seq<char> {
    match text {
        Some(s) => if class == "java.lang.String"@ {
            json_quoted(s)
        } else if class == "java.lang.Boolean"@ {
            bool_of(s == "true"@)
        } else if is_number_class(class) {
            s
        } else {
            "{\"class\":"@ + json_quoted(class) + ",\"toString\":"@ + json_quoted(s) + "}"@
        },
        None => "{\"class\":"@ + json_quoted(class) + "}"@,
    }
}

/// A Java value as JSON; `null` where there is no object.
pub fn java_value_to_json(null: bool, class: &str, text: &Option<String>) -> (r: String)
    ensures
        r@ == if null {
            "null"@
        } else {
            value_json(class@, text_view(*text))
        },
{
    if null {
        return "null".to_owned();
    }
    let cv = chars_of(class);
    let c = cv.as_slice();
    match text {
        Some(s) => {
            if spells(c, "java.lang.String") {
                return quote(s.as_str());
            }
            if spells(c, "java.lang.Boolean") {
                let sv = chars_of(s.as_str());
                return if spells(sv.as_slice(), "true") {
                    "true".to_owned()
                } else {
                    "false".to_owned()
                };
            }
            if spells(c, "java.lang.Integer") || spells(c, "java.lang.Long") || spells(
                c,
                "java.lang.Short",
            ) || spells(c, "java.lang.Byte") || spells(c, "java.lang.Float") || spells(
                c,
                "java.lang.Double",
            ) {
                return s.clone();
            }
            let mut r = "{\"class\":".to_owned();
            r.append(quote(class).as_str());
            r.append(",\"toString\":");
            r.append(quote(s.as_str()).as_str());
            r.append("}");
            r
        },
        None => {
            let mut r = "{\"class\":".to_owned();
            r.append(quote(class).as_str());
            r.append("}");
            r
        },
    }
}

/// The key of a preference: the string that its JSON text is, else that text.
pub open spec fn pref_key(key: Seq<char>) -> Seq<char> {
    match json_string(key) {
        Some(s) => s,
        None => key,
    }
}

/// The value of a preference: its JSON text written anew, else that text as a string.
pub open spec fn pref_value(value: Seq<char>) -> Seq<char> {
    match json_normal(value) {
        Some(s) => s,
        None => json_quoted(value),
    }
}

/// The key of a preference. One that was written as a JSON string is that string.
pub fn preference_key(key: String) -> (r: String)
    ensures
        r@ == pref_key(key@),
        forall|s: Seq<char>| key@ == #[trigger] json_quoted(s) ==> r@ == s,
{
    match read_string(key.as_str()) {
        Some(s) => s,
        None => key,
    }
}

/// The value of a preference.
pub fn preference_value(value: String) -> (r: String)
    ensures
        r@ == pref_value(value@),
{
    match normalize(value.as_str()) {
        Some(s) => s,
        None => quote(value.as_str()),
    }
}

/// Takes a preference in.
pub fn add_preference(prefs: &mut TextMap, key: String, value: String)
    requires
        old(prefs)@.wf(),
    ensures
        final(prefs)@.wf(),
        forall|t: Seq<char>, v: Seq<char>| #[trigger]
            final(prefs)@.maps(t, v) <==> if t == pref_key(key@) {
                v == pref_value(value@)
            } else {
                old(prefs)@.maps(t, v)
            },
{
    let k = preference_key(key);
    let v = preference_value(value);
    prefs.insert(k.as_str(), v);
}

/// `s` without the suffixes `.xml`.
pub open spec fn without_xml(s: Seq<char>) -> Seq<char>
    decreases s.len(),
{
    if has_suffix(s, ".xml"@) && ".xml"@.len() > 0 {
        without_xml(s.take(s.len() - ".xml"@.len()))
    } else {
        s
    }
}

/// The name of the preferences in a file: without `.xml`. `None` for other files.
pub fn pref_name(file: &str) -> (r: Option<String>)
    ensures
        match r {
            Some(s) => has_suffix(file@, ".xml"@) && s@ == without_xml(file@),
            None => !has_suffix(file@, ".xml"@),
        },
{
    let mut cs = chars_of(file);
    if !ends_with(cs.as_slice(), ".xml") {
        return None;
    }
    proof {
        reveal_strlit(".xml");
    }
    while ends_with(cs.as_slice(), ".xml")
        invariant
            ".xml"@.len() == 4,
            without_xml(cs@) == without_xml(file@),
        decreases cs@.len(),
    {
        let n: usize = cs.len() - 4;
        let shorter = copy_chars(cs.as_slice(), 0, n);
        assert(shorter@ =~= cs@.take(cs@.len() - 4));
        cs = shorter;
    }
    Some(string_of(cs.as_slice()))
}

/// A file or directory in a listing.
#[derive(Debug)]
pub struct FileEntry {
    pub name: String,
    pub is_dir: bool,
    pub size: u64,
}

/// A file or directory as JSON.
pub open spec fn file_json(f: FileEntry) -> Seq<char> {
    "{\"isDir\":"@ + bool_of(f.is_dir) + ",\"name\":"@ + json_quoted(f.name@) + ",\"size\":"@
        + decimal(f.size as nat) + "}"@
}

/// How many entries of a directory are listed.
pub const MAX_ENTRIES: usize = 200;

/// The first entries of a directory as JSON.
pub open spec fn files_json(files: Seq<FileEntry>) -> Seq<Seq<char>> {
    Seq::new(
        (if files.len() <= MAX_ENTRIES {
            files.len() as int
        } else {
            MAX_ENTRIES as int
        }) as nat,
        |i: int| file_json(files[i]),
    )
}

/// A directory as JSON: its first entries and its path.
pub fn folder_text(path: &str, files: &Vec<FileEntry>) -> (s: String)
    ensures
        s@ == "{\"entries\":"@ + array_of(files_json(files@)) + ",\"path\":"@ + json_quoted(path@)
            + "}"@,
{
    let n: usize = if files.len() <= MAX_ENTRIES {
        files.len()
    } else {
        MAX_ENTRIES
    };
    let mut items: Vec<String> = Vec::new();
    let mut i: usize = 0;
    let ghost want = files_json(files@);
    assert(views(items@) =~= want.take(0));
    while i < n
        invariant
            i <= n,
            n <= files@.len(),
            n == want.len(),
            want == files_json(files@),
            views(items@) == want.take(i as int),
        decreases n - i,
    {
        let mut s = "{\"isDir\":".to_owned();
        push_bool(&mut s, files[i].is_dir);
        s.append(",\"name\":");
        s.append(quote(files[i].name.as_str()).as_str());
        s.append(",\"size\":");
        push_decimal(&mut s, files[i].size);
        s.append("}");
        let ghost before = items@;
        items.push(s);
        assert(s@ == want[i as int]);
        i = i + 1;
        assert(views(items@) =~= views(before).push(s@));
        assert(views(items@) =~= want.take(i as int));
    }
    assert(want.take(i as int) =~= want);
    let mut s = "{\"entries\":".to_owned();
    s.append(array_text(&items).as_str());
    s.append(",\"path\":");
    s.append(quote(path).as_str());
    s.append("}");
    s
}

/// The directories of an app that are listed: its own, then some below it.
pub open spec fn listed_dirs(root: Seq<char>) -> Seq<Seq<char>> {
    seq![
        root,
        root + "/"@ + "shared_prefs"@,
        root + "/"@ + "files"@,
        root + "/"@ + "databases"@,
        root + "/"@ + "cache"@,
    ]
}

fn below(root: &str, sub: &str) -> (s: String)
    ensures
        s@ == root@ + "/"@ + sub@,
{
    let mut s = root.to_owned();
    s.append("/");
    s.append(sub);
    s
}

/// The directories of an app that are listed; none where it has no directory.
pub fn dirs_to_list(root: &str) -> (out: Vec<String>)
    ensures
        views(out@) == if root@.len() == 0 {
            Seq::<Seq<char>>::empty()
        } else {
            listed_dirs(root@)
        },
{
    let mut out: Vec<String> = Vec::new();
    let rv = chars_of(root);
    if rv.len() == 0 {
        assert(views(out@) =~= Seq::<Seq<char>>::empty());
        return out;
    }
    out.push(root.to_owned());
    out.push(below(root, "shared_prefs"));
    out.push(below(root, "files"));
    out.push(below(root, "databases"));
    out.push(below(root, "cache"));
    assert(views(out@) =~= listed_dirs(root@));
    out
}

/// How many files of a directory are looked at for what they hold.
pub const MAX_SNIPPETS: usize = 32;

/// Whether the contents of a file are shown: up to four kilobytes.
pub fn is_small_file(is_file: bool, len: u64) -> (r: bool)
    ensures
        r == (is_file && len <= 4096),
{
    is_file && len <= 4096
}

/// `String::from_utf8`: the text that bytes are in UTF-8; `None` where they are none.
#[verifier::external_body]
fn utf8_text(bytes: Vec<u8>) -> (r: Option<String>)
    ensures
        match r {
            Some(s) => vstd::utf8::encode_utf8(s@) == bytes@,
            None => !vstd::utf8::valid_utf8(bytes@),
        },
{
    String::from_utf8(bytes).ok()
}

/// The contents of a file as JSON: its text, or its bytes in base 64 where it is no text.
pub fn snippet_text(bytes: Vec<u8>) -> (r: String)
    ensures
        r@ == if vstd::utf8::valid_utf8(bytes@) {
            json_quoted(vstd::utf8::decode_utf8(bytes@))
        } else {
            "{\"data\":"@ + json_quoted(base64(bytes@, 0)) + ",\"encoding\":\"base64\"}"@
        },
{
    let copy = crate::bytes::to_vec(bytes.as_slice());
    match utf8_text(bytes) {
        Some(s) => {
            proof {
                vstd::utf8::encode_utf8_valid_utf8(s@);
                vstd::utf8::encode_utf8_decode_utf8(s@);
            }
            quote(s.as_str())
        },
        None => {
            let mut r = "{\"data\":".to_owned();
            r.append(quote(base64_encode(copy.as_slice()).as_str()).as_str());
            r.append(",\"encoding\":\"base64\"}");
            r
        },
    }
}

/// A digit of base 64.
pub open spec fn digit64(d: int) -> char {
    if d < 26 {
        (65 + d) as char
    } else if d < 52 {
        (71 + d) as char
    } else if d < 62 {
        (d - 4) as char
    } else if d == 62 {
        '+'
    } else {
        '/'
    }
}

/// The byte at a place; zero behind the end.
pub open spec fn byte_or_zero(b: Seq<u8>, i: int) -> int {
    if i < b.len() {
        b[i] as int
    } else {
        0
    }
}

/// Four digits for three bytes; an equals sign for each digit that is missing.
pub open spec fn group64(b: Seq<u8>, i: int) -> Seq<char> {
    let n = byte_or_zero(b, i) * 65536 + byte_or_zero(b, i + 1) * 256 + byte_or_zero(b, i + 2);
    seq![
        digit64(n / 262144),
        digit64((n / 4096) % 64),
        if i + 1 < b.len() {
            digit64((n / 64) % 64)
        } else {
            '='
        },
        if i + 2 < b.len() {
            digit64(n % 64)
        } else {
            '='
        },
    ]
}

/// Bytes from the `i`th on in base 64.
pub open spec fn base64(b: Seq<u8>, i: int) -> Seq<char>
    decreases b.len() + 3 - i,
{
    if i >= b.len() {
        Seq::empty()
    } else {
        group64(b, i) + base64(b, i + 3)
    }
}

fn push_digit64(s: &mut String, d: u32)
    requires
        d < 64,
    ensures
        final(s)@ == old(s)@.push(digit64(d as int)),
{
    let c: char = if d < 26 {
        (65 + d) as u8 as char
    } else if d < 52 {
        (71 + d) as u8 as char
    } else if d < 62 {
        (d - 4) as u8 as char
    } else if d == 62 {
        '+'
    } else {
        '/'
    };
    push_char(s, c);
}

/// Bytes in base 64.
pub fn base64_encode(bytes: &[u8]) -> (s: String)
    ensures
        s@ == base64(bytes@, 0),
{
    let n: usize = bytes.len();
    let mut s = String::new();
    let mut i: usize = 0;
    assert(s@ + base64(bytes@, 0) =~= base64(bytes@, 0));
    while i < n
        invariant
            n == bytes@.len(),
            i <= n,
            s@ + base64(bytes@, i as int) == base64(bytes@, 0),
        decreases n - i,
    {
        let left: usize = n - i;
        let b0: u32 = bytes[i] as u32;
        let b1: u32 = if left > 1 {
            bytes[i + 1] as u32
        } else {
            0
        };
        let b2: u32 = if left > 2 {
            bytes[i + 2] as u32
        } else {
            0
        };
        let v: u32 = b0 * 65536 + b1 * 256 + b2;
        let ghost before = s@;
        push_digit64(&mut s, v / 262144);
        push_digit64(&mut s, (v / 4096) % 64);
        if left > 1 {
            push_digit64(&mut s, (v / 64) % 64);
        } else {
            push_char(&mut s, '=');
        }
        if left > 2 {
            push_digit64(&mut s, v % 64);
        } else {
            push_char(&mut s, '=');
        }
        assert(s@ =~= before + group64(bytes@, i as int));
        let ghost rest = base64(bytes@, i + 3);
        assert(before + (group64(bytes@, i as int) + rest) =~= s@ + rest);
        if left <= 3 {
            assert(rest =~= base64(bytes@, n as int));
            i = n;
        } else {
            i = i + 3;
        }
    }
    assert(s@ =~= base64(bytes@, 0));
    s
}

/// Base 64 takes four characters for every three bytes that were begun.
pub proof fn law_base64_length(b: Seq<u8>, i: int)
    requires
        0 <= i <= b.len() + 3,
    ensures
        base64(b, i).len() == if i >= b.len() {
            0
        } else {
            (b.len() - i + 2) / 3 * 4
        },
    decreases b.len() + 3 - i,
{
    if i < b.len() {
        law_base64_length(b, i + 3);
    }
}

/// The value of a digit of base 64; zero for the equals sign.
pub open spec fn value64(c: char) -> int {
    if 'A' <= c <= 'Z' {
        c as int - 65
    } else if 'a' <= c <= 'z' {
        c as int - 71
    } else if '0' <= c <= '9' {
        c as int + 4
    } else if c == '+' {
        62
    } else if c == '/' {
        63
    } else {
        0
    }
}

/// Bytes in base 64 can be told from it: three from each four digits.
pub proof fn law_base64_is_faithful(b: Seq<u8>, i: int)
    requires
        0 <= i < b.len(),
    ensures
        ({
            let g = group64(b, i);
            let n = value64(g[0]) * 262144 + value64(g[1]) * 4096 + value64(g[2]) * 64 + value64(
                g[3],
            );
            &&& n / 65536 == b[i]
            &&& (n / 256) % 256 == byte_or_zero(b, i + 1)
            &&& n % 256 == byte_or_zero(b, i + 2)
            &&& g[2] == '=' <==> i + 1 >= b.len()
            &&& g[3] == '=' <==> i + 2 >= b.len()
        }),
{
    let b0 = byte_or_zero(b, i);
    let b1 = byte_or_zero(b, i + 1);
    let b2 = byte_or_zero(b, i + 2);
    let n = b0 * 65536 + b1 * 256 + b2;
    let g = group64(b, i);
    lemma_digits64(b0, b1, b2);
    lemma_value64(n / 262144);
    lemma_value64((n / 4096) % 64);
    lemma_value64((n / 64) % 64);
    lemma_value64(n % 64);
    assert(g[0] == digit64(n / 262144));
    assert(g[1] == digit64((n / 4096) % 64));
    assert(value64(g[2]) == (n / 64) % 64);
    assert(value64(g[3]) == n % 64);
}

proof fn lemma_digits64(b0: int, b1: int, b2: int)
    requires
        0 <= b0 < 256,
        0 <= b1 < 256,
        0 <= b2 < 256,
    ensures
        ({
            let n = b0 * 65536 + b1 * 256 + b2;
            &&& 0 <= n / 262144 < 64
            &&& n / 262144 * 262144 + (n / 4096) % 64 * 4096 + (n / 64) % 64 * 64 + n % 64 == n
            &&& n / 65536 == b0
            &&& (n / 256) % 256 == b1
            &&& n % 256 == b2
            &&& b1 == 0 && b2 == 0 ==> (n / 64) % 64 == 0
            &&& b2 == 0 ==> n % 64 == 0
        }),
{
    let n = b0 * 65536 + b1 * 256 + b2;
    lemma_split64(n);
    lemma_bytes_back(b0, b1, b2);
    lemma_zero_digits(b0, b1, b2);
}

proof fn lemma_split64(n: int)
    requires
        0 <= n < 16777216,
    ensures
        0 <= n / 262144 < 64,
        n / 262144 * 262144 + (n / 4096) % 64 * 4096 + (n / 64) % 64 * 64 + n % 64 == n,
{
    vstd::arithmetic::div_mod::lemma_div_denominator(n, 64, 64);
    vstd::arithmetic::div_mod::lemma_div_denominator(n, 4096, 64);
    let x = n / 64;
    let y = n / 4096;
    assert(x / 64 == y);
    assert(y / 64 == n / 262144);
    assert(n == 64 * x + n % 64);
    assert(x == 64 * y + x % 64);
    assert(y == 64 * (y / 64) + y % 64);
}

proof fn lemma_bytes_back(b0: int, b1: int, b2: int)
    requires
        0 <= b0 < 256,
        0 <= b1 < 256,
        0 <= b2 < 256,
    ensures
        (b0 * 65536 + b1 * 256 + b2) / 65536 == b0,
        ((b0 * 65536 + b1 * 256 + b2) / 256) % 256 == b1,
        (b0 * 65536 + b1 * 256 + b2) % 256 == b2,
{
    let n = b0 * 65536 + b1 * 256 + b2;
    vstd::arithmetic::div_mod::lemma_fundamental_div_mod_converse(n, 65536, b0, b1 * 256 + b2);
    vstd::arithmetic::div_mod::lemma_fundamental_div_mod_converse(n, 256, b0 * 256 + b1, b2);
    vstd::arithmetic::div_mod::lemma_fundamental_div_mod_converse(b0 * 256 + b1, 256, b0, b1);
}

proof fn lemma_zero_digits(b0: int, b1: int, b2: int)
    requires
        0 <= b0 < 256,
        0 <= b1 < 256,
        0 <= b2 < 256,
    ensures
        b1 == 0 && b2 == 0 ==> ((b0 * 65536 + b1 * 256 + b2) / 64) % 64 == 0,
        b2 == 0 ==> (b0 * 65536 + b1 * 256 + b2) % 64 == 0,
{
    let n = b0 * 65536 + b1 * 256 + b2;
    if b2 == 0 {
        vstd::arithmetic::div_mod::lemma_fundamental_div_mod_converse(
            n,
            64,
            b0 * 1024 + b1 * 4,
            0,
        );
        if b1 == 0 {
            vstd::arithmetic::div_mod::lemma_fundamental_div_mod_converse(b0 * 1024, 64, b0 * 16, 0);
        }
    }
}

proof fn lemma_value64(d: int)
    requires
        0 <= d < 64,
    ensures
        value64(digit64(d)) == d,
        digit64(d) != '=',
{
}

/// What an app keeps, as JSON: its directory and what is in it, its package and its
/// preferences.
pub fn storage_json(
    package: &str,
    data_dir: &str,
    prefs: &TextMap,
    folders: &Vec<String>,
    snippets: &TextMap,
) -> (s: String)
    requires
        prefs@.wf(),
        snippets@.wf(),
    ensures
        s@ == "{\"dataDir\":"@ + json_quoted(data_dir@) + ",\"dataDirListing\":"@ + array_of(
            views(folders@),
        ) + ",\"filesSnippets\":"@ + object_of(snippets@) + ",\"package\":"@ + json_quoted(package@)
            + ",\"sharedPrefs\":"@ + object_of(prefs@) + "}"@,
{
    let mut s = "{\"dataDir\":".to_owned();
    s.append(quote(data_dir).as_str());
    s.append(",\"dataDirListing\":");
    s.append(array_text(folders).as_str());
    s.append(",\"filesSnippets\":");
    s.append(object_text(snippets).as_str());
    s.append(",\"package\":");
    s.append(quote(package).as_str());
    s.append(",\"sharedPrefs\":");
    s.append(object_text(prefs).as_str());
    s.append("}");
    s
}

} // verus!
