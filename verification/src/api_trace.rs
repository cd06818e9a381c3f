//! Trace of platform Java APIs: which calls are reported, and as what text.
//!
//! What has to be read from the traced process (descriptors, method names, string and array
//! contents) and the text of floating-point numbers come from the caller.
use crate::art::{says, ArtError};
use crate::elf::{lossy, utf8_lossy};
use crate::split::{pieces, split, texts};
use crate::text::{
    byte_len, chars_of, chars_to, copy_chars, cut_place, decimal, ends_with, exceeds, has_prefix,
    has_suffix, hex_digit, hexadecimal, is_control, join, joined, push_char, push_decimal,
    push_hex, push_hex_digit, push_signed, signed_decimal, spells, starts_with, string_of, trim,
    trimmed, views,
};
use vstd::prelude::*;
use vstd::string::*;

verus! {

/// Package prefixes of the platform, Jetpack and core Java APIs.
pub open spec fn default_prefixes() -> Seq<Seq<char>> {
    seq!["android."@, "androidx."@, "java."@, "javax."@, "com.android."@, "dalvik."@]
}

/// The default prefixes.
pub fn default_api_prefixes() -> (v: Vec<String>)
    ensures
        views(v@) == default_prefixes(),
{
    let mut v: Vec<String> = Vec::new();
    v.push("android.".to_owned());
    v.push("androidx.".to_owned());
    v.push("java.".to_owned());
    v.push("javax.".to_owned());
    v.push("com.android.".to_owned());
    v.push("dalvik.".to_owned());
    assert(views(v@) =~= default_prefixes());
    v
}

#[derive(Debug)]
pub struct AndroidApiTraceConfig {
    pub prefixes: Vec<String>,
    /// 0 = unlimited.
    pub max_events: u64,
    pub with_signature: bool,
}

impl Default for AndroidApiTraceConfig {
    fn default() -> (c: Self)
        ensures
            views(c.prefixes@) == default_prefixes(),
            c.max_events == 0,
            c.with_signature,
    {
        AndroidApiTraceConfig {
            prefixes: default_api_prefixes(),
            max_events: 0,
            with_signature: true,
        }
    }
}

/// Whether a trace runs, what it reports and how much it has reported.
pub struct ApiTrace {
    enabled: bool,
    max_events: u64,
    event_count: u64,
    with_signature: bool,
    prefixes: Vec<String>,
}

/// A trace, as contracts speak of it.
#[verifier::ext_equal]
pub struct TraceView {
    pub enabled: bool,
    pub max_events: u64,
    pub count: u64,
    pub with_signature: bool,
    pub prefixes: Seq<Seq<char>>,
}

impl View for ApiTrace {
    type V = TraceView;

    closed spec fn view(&self) -> TraceView {
        TraceView {
            enabled: self.enabled,
            max_events: self.max_events,
            count: self.event_count,
            with_signature: self.with_signature,
            prefixes: views(self.prefixes@),
        }
    }
}

/// A prefix as it is matched: trimmed, and with a dot at the end unless nothing is left.
pub open spec fn dotted_prefix(p: Seq<char>) -> Seq<char> {
    let s = trimmed(p);
    if s.len() > 0 && s.last() != '.' {
        s.push('.')
    } else {
        s
    }
}

/// The prefixes as they are matched; those with nothing in them drop out.
pub open spec fn clean_prefixes(ps: Seq<Seq<char>>) -> Seq<Seq<char>>
    decreases ps.len(),
{
    if ps.len() == 0 {
        Seq::empty()
    } else {
        let last = dotted_prefix(ps.last());
        if last.len() > 0 {
            clean_prefixes(ps.drop_last()).push(last)
        } else {
            clean_prefixes(ps.drop_last())
        }
    }
}

/// The prefixes that a trace is started with.
pub open spec fn started_prefixes(ps: Seq<Seq<char>>) -> Seq<Seq<char>> {
    if ps.len() == 0 {
        default_prefixes()
    } else {
        clean_prefixes(ps)
    }
}

fn normalise_prefixes(ps: &Vec<String>) -> (out: Vec<String>)
    ensures
        views(out@) == started_prefixes(views(ps@)),
{
    if ps.is_empty() {
        assert(views(ps@).len() == 0);
        return default_api_prefixes();
    }
    let mut out: Vec<String> = Vec::new();
    let mut i: usize = 0;
    assert(views(ps@.take(0)) =~= Seq::<Seq<char>>::empty());
    assert(views(out@) =~= clean_prefixes(views(ps@.take(0))));
    while i < ps.len()
        invariant
            i <= ps@.len(),
            views(out@) == clean_prefixes(views(ps@.take(i as int))),
        decreases ps@.len() - i,
    {
        let c = chars_of(ps[i].as_str());
        let mut s = trim(&c);
        let n: usize = s.len();
        if n > 0 && s[n - 1] != '.' {
            s.push('.');
        }
        let ghost before = out@;
        if s.len() > 0 {
            out.push(string_of(&s));
            assert(views(out@) =~= views(before).push(s@));
        }
        i = i + 1;
        assert(views(ps@.take(i as int)).drop_last() =~= views(ps@.take(i - 1)));
        assert(views(ps@.take(i as int)).last() == ps@[i - 1]@);
    }
    assert(ps@.take(i as int) =~= ps@);
    out
}

impl ApiTrace {
    /// No trace.
    pub fn new() -> (t: Self)
        ensures
            t@ == (TraceView {
                enabled: false,
                max_events: 0,
                count: 0,
                with_signature: true,
                prefixes: Seq::empty(),
            }),
    {
        let t = ApiTrace {
            enabled: false,
            max_events: 0,
            event_count: 0,
            with_signature: true,
            prefixes: Vec::new(),
        };
        assert(t@.prefixes =~= Seq::<Seq<char>>::empty());
        t
    }

    /// Whether names are reported with their signatures.
    pub fn with_signature(&self) -> (r: bool)
        ensures
            r == self@.with_signature,
    {
        self.with_signature
    }
}

/// Starts a trace with the invoke hook that was installed, or that failed to be. The settings
/// take effect either way; the trace runs only where the hook is there.
pub fn start_android_api_trace(
    trace: &mut ApiTrace,
    cfg: AndroidApiTraceConfig,
    hook: Result<u32, ArtError>,
) -> (r: Result<u32, ArtError>)
    ensures
        r == hook,
        final(trace)@ == (TraceView {
            enabled: if hook is Ok {
                true
            } else {
                old(trace)@.enabled
            },
            max_events: cfg.max_events,
            count: 0,
            with_signature: cfg.with_signature,
            prefixes: started_prefixes(views(cfg.prefixes@)),
        }),
{
    trace.prefixes = normalise_prefixes(&cfg.prefixes);
    trace.max_events = cfg.max_events;
    trace.event_count = 0;
    trace.with_signature = cfg.with_signature;
    if hook.is_ok() {
        trace.enabled = true;
    }
    hook
}

pub fn stop_android_api_trace(trace: &mut ApiTrace)
    ensures
        final(trace)@ == (TraceView { enabled: false, ..old(trace)@ }),
{
    trace.enabled = false;
}

/// Whether a limited trace has reported all it may.
pub open spec fn spent(t: TraceView) -> bool {
    t.max_events > 0 && t.count >= t.max_events
}

/// Decides whether an entry into a method is looked at: the trace runs, the thread is not in
/// the trace already, the limit is not reached and there is a method. Reaching the limit stops
/// the trace.
pub fn admits_invoke(trace: &mut ApiTrace, in_trace: bool, method: u64) -> (r: bool)
    ensures
        r == (old(trace)@.enabled && !in_trace && !spent(old(trace)@) && method != 0),
        final(trace)@ == if old(trace)@.enabled && !in_trace && spent(old(trace)@) {
            TraceView { enabled: false, ..old(trace)@ }
        } else {
            old(trace)@
        },
{
    if !trace.enabled {
        return false;
    }
    if in_trace {
        return false;
    }
    if trace.max_events > 0 && trace.event_count >= trace.max_events {
        trace.enabled = false;
        return false;
    }
    method != 0
}

/// Counts an event and gives its number; numbers start over after the last.
pub fn count_event(trace: &mut ApiTrace) -> (n: u64)
    ensures
        n == old(trace)@.count.wrapping_add(1),
        final(trace)@ == (TraceView { count: n, ..old(trace)@ }),
{
    trace.event_count = trace.event_count.wrapping_add(1);
    trace.event_count
}

/// A limited trace reports no more events than its limit.
pub proof fn law_limit_is_kept(t: TraceView)
    requires
        t.max_events > 0,
        t.count <= t.max_events,
        !spent(t),
    ensures
        t.count.wrapping_add(1) <= t.max_events,
        t.count.wrapping_add(1) == t.count + 1,
{
}

/// A character as it stands in a JSON string; control characters drop out.
pub open spec fn json_char(c: char) -> Seq<char> {
    if c == '"' {
        seq!['\\', '"']
    } else if c == '\\' {
        seq!['\\', '\\']
    } else if is_control(c) {
        Seq::empty()
    } else {
        seq![c]
    }
}

/// A text as it stands in a JSON string.
pub open spec fn json_escaped(s: Seq<char>) -> Seq<char>
    decreases s.len(),
{
    if s.len() == 0 {
        Seq::empty()
    } else {
        json_escaped(s.drop_last()) + json_char(s.last())
    }
}

/// Escapes a text for a JSON string.
pub fn escape_json_str(s: &str) -> (out: String)
    ensures
        out@ == json_escaped(s@),
{
    let cs = chars_of(s);
    let mut out = String::new();
    push_escaped(&mut out, &cs);
    assert(out@ =~= json_escaped(s@));
    out
}

/// Appends a text as it stands in a JSON string.
pub fn push_escaped(out: &mut String, cs: &[char])
    ensures
        final(out)@ == old(out)@ + json_escaped(cs@),
{
    let mut i: usize = 0;
    assert(cs@.take(0) =~= Seq::<char>::empty());
    assert(out@ =~= old(out)@ + json_escaped(cs@.take(0)));
    while i < cs.len()
        invariant
            i <= cs@.len(),
            out@ == old(out)@ + json_escaped(cs@.take(i as int)),
        decreases cs@.len() - i,
    {
        let c = cs[i];
        if c == '"' {
            push_char(out, '\\');
            push_char(out, '"');
        } else if c == '\\' {
            push_char(out, '\\');
            push_char(out, '\\');
        } else if c <= '\u{1f}' || ('\u{7f}' <= c && c <= '\u{9f}') {
        } else {
            push_char(out, c);
        }
        i = i + 1;
        assert(cs@.take(i as int).drop_last() =~= cs@.take(i - 1));
        assert(out@ =~= old(out)@ + json_escaped(cs@.take(i as int)));
    }
    assert(cs@.take(i as int) =~= cs@);
}

/// Escaped text holds no control character, and no quote that a backslash does not stand
/// before.
pub proof fn law_escaped_has_no_control(s: Seq<char>, i: int)
    requires
        0 <= i < json_escaped(s).len(),
    ensures
        !is_control(json_escaped(s)[i]),
        json_escaped(s)[i] == '"' ==> i > 0 && json_escaped(s)[i - 1] == '\\',
    decreases s.len(),
{
    if s.len() > 0 {
        let head = json_escaped(s.drop_last());
        if i < head.len() {
            law_escaped_has_no_control(s.drop_last(), i);
        } else {
            assert(json_escaped(s)[i] == json_char(s.last())[i - head.len()]);
        }
    }
}

/// The characters of a shorty.
pub open spec fn shorty_char(c: char) -> bool {
    c == 'V' || c == 'Z' || c == 'B' || c == 'C' || c == 'S' || c == 'I' || c == 'J' || c == 'F'
        || c == 'D' || c == 'L' || c == '['
}

/// Whether a text is a shorty: 1 to 64 type characters.
pub open spec fn is_shorty(s: Seq<char>) -> bool {
    1 <= s.len() <= 64 && forall|i: int| 0 <= i < s.len() ==> shorty_char(#[trigger] s[i])
}

/// The text, if it is a shorty.
pub fn validate_shorty(s: &str) -> (r: Option<String>)
    ensures
        if is_shorty(s@) {
            r matches Some(t) && t@ == s@
        } else {
            r is None
        },
{
    let cs = chars_of(s);
    if check_shorty(&cs) {
        Some(s.to_owned())
    } else {
        None
    }
}

fn check_shorty(cs: &Vec<char>) -> (r: bool)
    ensures
        r == is_shorty(cs@),
{
    if cs.len() == 0 || cs.len() > 64 {
        return false;
    }
    let mut i: usize = 0;
    while i < cs.len()
        invariant
            i <= cs@.len() <= 64,
            forall|j: int| 0 <= j < i ==> shorty_char(#[trigger] cs@[j]),
        decreases cs@.len() - i,
    {
        let c = cs[i];
        if !(c == 'V' || c == 'Z' || c == 'B' || c == 'C' || c == 'S' || c == 'I' || c == 'J' || c
            == 'F' || c == 'D' || c == 'L' || c == '[') {
            assert(!shorty_char(cs@[i as int]));
            return false;
        }
        i = i + 1;
    }
    true
}

/// The type character of a parameter; nothing for none and for `void`.
pub open spec fn param_letter(raw: Seq<char>) -> Seq<char> {
    let p = trimmed(raw);
    if p.len() == 0 {
        Seq::empty()
    } else if has_suffix(p, "[]"@) {
        seq!['[']
    } else if p == "boolean"@ {
        seq!['Z']
    } else if p == "byte"@ {
        seq!['B']
    } else if p == "char"@ {
        seq!['C']
    } else if p == "short"@ {
        seq!['S']
    } else if p == "int"@ {
        seq!['I']
    } else if p == "long"@ {
        seq!['J']
    } else if p == "float"@ {
        seq!['F']
    } else if p == "double"@ {
        seq!['D']
    } else if p == "void"@ {
        Seq::empty()
    } else {
        seq!['L']
    }
}

/// The type characters of some parameters.
pub open spec fn param_letters(ps: Seq<Seq<char>>) -> Seq<char>
    decreases ps.len(),
{
    if ps.len() == 0 {
        Seq::empty()
    } else {
        param_letters(ps.drop_last()) + param_letter(ps.last())
    }
}

/// The last place of a character below `to`; `-1` where there is none.
pub open spec fn last_place(s: Seq<char>, c: char, to: int) -> int
    decreases to,
{
    if to <= 0 || s[to - 1] == c {
        to - 1
    } else {
        last_place(s, c, to - 1)
    }
}

pub(crate) fn find_last(s: &Vec<char>, c: char) -> (r: Option<usize>)
    ensures
        match r {
            Some(i) => i < s@.len() && i == last_place(s@, c, s@.len() as int),
            None => last_place(s@, c, s@.len() as int) == -1,
        },
{
    let mut i: usize = s.len();
    while i > 0
        invariant
            i <= s@.len(),
            last_place(s@, c, s@.len() as int) == last_place(s@, c, i as int),
        decreases i,
    {
        if s[i - 1] == c {
            return Some(i - 1);
        }
        i = i - 1;
    }
    None
}

/// The shorty that a method text gives: an object for the return type, which it does not show,
/// then the parameters between its last parentheses.
pub open spec fn pretty_shorty(s: Seq<char>) -> Option<Seq<char>> {
    let open = last_place(s, '(', s.len() as int);
    let close = last_place(s, ')', s.len() as int);
    if open < 0 || close < 0 || close <= open {
        None
    } else {
        let params = s.subrange(open + 1, close);
        let out = if trimmed(params).len() == 0 {
            "L"@
        } else {
            "L"@ + param_letters(pieces(params, ','))
        };
        if is_shorty(out) {
            Some(out)
        } else {
            None
        }
    }
}

/// Builds a shorty from text like `java.net.InetAddress.getByAddress(java.lang.String, byte[])`.
pub fn shorty_from_pretty(pretty: &str) -> (r: Option<String>)
    ensures
        match pretty_shorty(pretty@) {
            Some(out) => r matches Some(t) && t@ == out,
            None => r is None,
        },
{
    let cs = chars_of(pretty);
    let open: usize = match find_last(&cs, '(') {
        Some(i) => i,
        None => {
            return None;
        },
    };
    let close: usize = match find_last(&cs, ')') {
        Some(i) => i,
        None => {
            return None;
        },
    };
    if close <= open {
        return None;
    }
    let params = copy_chars(&cs, open + 1, close);
    let bare = trim(&params);
    let mut out: Vec<char> = chars_of("L");
    if bare.len() > 0 {
        let ps = split(&params, ',');
        let mut i: usize = 0;
        assert(texts(ps@.take(0)) =~= Seq::<Seq<char>>::empty());
        assert(out@ =~= "L"@ + param_letters(texts(ps@.take(0))));
        while i < ps.len()
            invariant
                i <= ps@.len(),
                out@ == "L"@ + param_letters(texts(ps@.take(i as int))),
            decreases ps@.len() - i,
        {
            push_param_letter(&mut out, &ps[i]);
            i = i + 1;
            assert(texts(ps@.take(i as int)).drop_last() =~= texts(ps@.take(i - 1)));
            assert(texts(ps@.take(i as int)).last() == ps@[i - 1]@);
            assert(out@ =~= "L"@ + param_letters(texts(ps@.take(i as int))));
        }
        assert(ps@.take(i as int) =~= ps@);
    }
    if check_shorty(&out) {
        Some(string_of(&out))
    } else {
        None
    }
}

fn push_param_letter(out: &mut Vec<char>, raw: &Vec<char>)
    ensures
        final(out)@ == old(out)@ + param_letter(raw@),
{
    let p = trim(raw);
    let letter: Option<char> = if p.len() == 0 {
        None
    } else if ends_with(&p, "[]") {
        Some('[')
    } else if spells(&p, "boolean") {
        Some('Z')
    } else if spells(&p, "byte") {
        Some('B')
    } else if spells(&p, "char") {
        Some('C')
    } else if spells(&p, "short") {
        Some('S')
    } else if spells(&p, "int") {
        Some('I')
    } else if spells(&p, "long") {
        Some('J')
    } else if spells(&p, "float") {
        Some('F')
    } else if spells(&p, "double") {
        Some('D')
    } else if spells(&p, "void") {
        None
    } else {
        Some('L')
    };
    match letter {
        Some(c) => {
            out.push(c);
        },
        None => {},
    }
    assert(out@ =~= old(out)@ + param_letter(raw@));
}

/// Register layout of the invoke entry points.
#[derive(Debug, Clone, Copy, PartialEq, Eq, Structural)]
pub enum InvokeLayout {
    /// `art_quick_invoke_stub`: method in x0, arguments in x1 and their size in x2.
    QuickInstance,
    /// `art_quick_invoke_static_stub`: the same registers, no receiver.
    QuickStatic,
    /// `ArtMethod::Invoke`: method in x0, arguments in x2 and their size in x3.
    ArtInvoke,
}

/// The entry points to hook: the quick stubs that were found, or `ArtMethod::Invoke` where
/// neither was.
pub fn invoke_targets(stub: Option<u64>, static_stub: Option<u64>, invoke: Option<u64>) -> (r:
    Result<Vec<(u64, InvokeLayout)>, ArtError>)
    ensures
        match (stub, static_stub, invoke) {
            (Some(a), Some(b), _) => r matches Ok(v) && v@ == seq![
                (a, InvokeLayout::QuickInstance),
                (b, InvokeLayout::QuickStatic),
            ],
            (Some(a), None, _) => r matches Ok(v) && v@ == seq![(a, InvokeLayout::QuickInstance)],
            (None, Some(b), _) => r matches Ok(v) && v@ == seq![(b, InvokeLayout::QuickStatic)],
            (None, None, Some(c)) => r matches Ok(v) && v@ == seq![(c, InvokeLayout::ArtInvoke)],
            (None, None, None) => says(r, "no ArtMethod invoke entrypoints found"@),
        },
{
    let mut v: Vec<(u64, InvokeLayout)> = Vec::new();
    match stub {
        Some(a) => {
            v.push((a, InvokeLayout::QuickInstance));
        },
        None => {},
    }
    match static_stub {
        Some(b) => {
            v.push((b, InvokeLayout::QuickStatic));
        },
        None => {},
    }
    if v.is_empty() {
        match invoke {
            Some(c) => {
                v.push((c, InvokeLayout::ArtInvoke));
            },
            None => {
                return Err(
                    ArtError::Msg("no ArtMethod invoke entrypoints found".to_owned()),
                );
            },
        }
    }
    Ok(v)
}

/// The last hook number among some attempts.
pub open spec fn last_hook(ids: Seq<Option<u32>>) -> Option<u32>
    decreases ids.len(),
{
    if ids.len() == 0 {
        None
    } else if ids.last() is Some {
        ids.last()
    } else {
        last_hook(ids.drop_last())
    }
}

/// What hooking the entry points comes to: the number of the last hook, or an error where none
/// was made.
pub fn hooked_result(ids: &Vec<Option<u32>>) -> (r: Result<u32, ArtError>)
    ensures
        match last_hook(ids@) {
            Some(id) => r == Ok::<u32, ArtError>(id),
            None => says(r, "failed to hook any ART invoke entrypoint"@),
        },
{
    let mut i: usize = ids.len();
    assert(ids@.take(i as int) =~= ids@);
    while i > 0
        invariant
            i <= ids@.len(),
            last_hook(ids@) == last_hook(ids@.take(i as int)),
        decreases i,
    {
        assert(ids@.take(i as int).drop_last() =~= ids@.take(i - 1));
        match ids[i - 1] {
            Some(id) => {
                return Ok(id);
            },
            None => {},
        }
        i = i - 1;
    }
    Err(ArtError::Msg("failed to hook any ART invoke entrypoint".to_owned()))
}

/// Where the arguments are and how many bytes they take, by the registers at entry.
pub fn invoke_args(layout: InvokeLayout, x1: u64, x2: u64, x3: u64) -> (r: (u64, u32))
    ensures
        match layout {
            InvokeLayout::ArtInvoke => r.0 == x2 && r.1 == x3 % 0x1_0000_0000,
            _ => r.0 == x1 && r.1 == x2 % 0x1_0000_0000,
        },
{
    match layout {
        InvokeLayout::QuickInstance | InvokeLayout::QuickStatic => (
            x1,
            (x2 % 0x1_0000_0000) as u32,
        ),
        InvokeLayout::ArtInvoke => (x2, (x3 % 0x1_0000_0000) as u32),
    }
}

/// Whether access flags say that a method is static.
pub fn flags_say_static(flags: u32) -> (r: bool)
    ensures
        r == ((flags / 8) % 2 == 1),
{
    (flags / 8) % 2 == 1
}

/// One argument of a call, as its shorty describes it.
#[derive(Debug, Clone, Copy, PartialEq, Eq, Structural)]
pub enum ArgPart {
    This(u32),
    /// No slot is left for a parameter of this type.
    Missing(char),
    Boolean(bool),
    Byte(u8),
    Char(u16),
    Short(u16),
    Int(u32),
    /// Bits of a 32-bit float.
    Float(u32),
    Long(u64),
    LongCut,
    /// Bits of a 64-bit float.
    Double(u64),
    DoubleCut,
    Ref { word: u32, array: bool },
    Other(char, u32),
    /// Slots from this one on are left over.
    Extra(usize),
}

/// The value of two slots, low word first.
pub open spec fn wide(words: Seq<u32>, i: int) -> u64 {
    (words[i] + words[i + 1] * 0x1_0000_0000) as u64
}

/// The slots left over from `i` on.
pub open spec fn left_over(words: Seq<u32>, i: int) -> Seq<ArgPart> {
    if i < words.len() {
        seq![ArgPart::Extra(i as usize)]
    } else {
        Seq::empty()
    }
}

/// A one-slot argument.
pub open spec fn narrow_part(c: char, w: u32) -> ArgPart {
    if c == 'Z' {
        ArgPart::Boolean(w != 0)
    } else if c == 'B' {
        ArgPart::Byte((w % 0x100) as u8)
    } else if c == 'C' {
        ArgPart::Char((w % 0x1_0000) as u16)
    } else if c == 'S' {
        ArgPart::Short((w % 0x1_0000) as u16)
    } else if c == 'I' {
        ArgPart::Int(w)
    } else if c == 'F' {
        ArgPart::Float(w)
    } else if c == 'L' || c == '[' {
        ArgPart::Ref { word: w, array: c == '[' }
    } else {
        ArgPart::Other(c, w)
    }
}

/// The argument of a parameter of type `c`, taken from the slots from `i` on.
pub open spec fn part_at(c: char, words: Seq<u32>, i: int) -> ArgPart {
    if i >= words.len() {
        ArgPart::Missing(c)
    } else if c == 'J' {
        if i + 1 >= words.len() {
            ArgPart::LongCut
        } else {
            ArgPart::Long(wide(words, i))
        }
    } else if c == 'D' {
        if i + 1 >= words.len() {
            ArgPart::DoubleCut
        } else {
            ArgPart::Double(wide(words, i))
        }
    } else {
        narrow_part(c, words[i])
    }
}

/// How many slots an argument takes.
pub open spec fn slots_of(p: ArgPart) -> int {
    match p {
        ArgPart::Missing(_) => 0,
        ArgPart::LongCut => 0,
        ArgPart::DoubleCut => 0,
        ArgPart::Long(_) => 2,
        ArgPart::Double(_) => 2,
        _ => 1,
    }
}

/// The arguments of the parameters from the `k`th on, taken from the slots from `i` on. Longs
/// and doubles take two slots; one that is cut off ends the list.
pub open spec fn arg_parts(shorty: Seq<char>, words: Seq<u32>, k: int, i: int) -> Seq<ArgPart>
    decreases shorty.len() - k,
{
    if k >= shorty.len() {
        left_over(words, i)
    } else {
        let p = part_at(shorty[k], words, i);
        if p is LongCut || p is DoubleCut {
            seq![p] + left_over(words, i)
        } else {
            seq![p] + arg_parts(shorty, words, k + 1, i + slots_of(p))
        }
    }
}

/// All arguments of a call: the receiver unless the method is static, then the parameters that
/// follow the return type in the shorty.
pub open spec fn call_parts(shorty: Seq<char>, words: Seq<u32>, is_static: bool) -> Seq<ArgPart> {
    if !is_static && words.len() > 0 {
        seq![ArgPart::This(words[0])] + arg_parts(shorty, words, 1, 1)
    } else {
        arg_parts(shorty, words, 1, 0)
    }
}

fn narrow(c: char, w: u32) -> (p: ArgPart)
    ensures
        p == narrow_part(c, w),
{
    if c == 'Z' {
        ArgPart::Boolean(w != 0)
    } else if c == 'B' {
        ArgPart::Byte((w % 0x100) as u8)
    } else if c == 'C' {
        ArgPart::Char((w % 0x1_0000) as u16)
    } else if c == 'S' {
        ArgPart::Short((w % 0x1_0000) as u16)
    } else if c == 'I' {
        ArgPart::Int(w)
    } else if c == 'F' {
        ArgPart::Float(w)
    } else if c == 'L' || c == '[' {
        ArgPart::Ref { word: w, array: c == '[' }
    } else {
        ArgPart::Other(c, w)
    }
}

/// The argument of a parameter of type `c` and how many slots it takes.
fn take_part(c: char, words: &Vec<u32>, i: usize) -> (r: (ArgPart, usize))
    requires
        i <= words@.len(),
    ensures
        r.0 == part_at(c, words@, i as int),
        r.1 == slots_of(r.0),
        i + r.1 <= words@.len(),
        r.0 is LongCut || r.0 is DoubleCut ==> i < words@.len(),
{
    let n: usize = words.len();
    if i >= n {
        (ArgPart::Missing(c), 0)
    } else if c == 'J' || c == 'D' {
        if n - i < 2 {
            (
                if c == 'J' {
                    ArgPart::LongCut
                } else {
                    ArgPart::DoubleCut
                },
                0,
            )
        } else {
            let v: u64 = words[i] as u64 + words[i + 1] as u64 * 0x1_0000_0000;
            (
                if c == 'J' {
                    ArgPart::Long(v)
                } else {
                    ArgPart::Double(v)
                },
                2,
            )
        }
    } else {
        (narrow(c, words[i]), 1)
    }
}

/// How many argument slots are looked at, by the size of the argument array: 64 at most.
pub fn arg_slots(args_size: u32) -> (n: usize)
    ensures
        n == if args_size / 4 <= 64 {
            (args_size / 4) as int
        } else {
            64
        },
{
    if args_size / 4 <= 64 {
        (args_size / 4) as usize
    } else {
        64
    }
}

/// Takes the argument slots of a call apart.
pub fn invoke_arg_parts(shorty: &str, words: &Vec<u32>, is_static: bool) -> (out: Vec<ArgPart>)
    ensures
        out@ == call_parts(shorty@, words@, is_static),
{
    let cs = chars_of(shorty);
    let n: usize = words.len();
    let mut out: Vec<ArgPart> = Vec::new();
    let mut i: usize = 0;
    if !is_static && n > 0 {
        out.push(ArgPart::This(words[0]));
        i = 1;
    }
    let mut k: usize = 1;
    assert(out@ + arg_parts(shorty@, words@, 1, i as int) =~= call_parts(
        shorty@,
        words@,
        is_static,
    ));
    while k < cs.len()
        invariant
            n == words@.len(),
            cs@ == shorty@,
            1 <= k,
            k <= cs@.len() || k == 1,
            i <= n,
            out@ + arg_parts(shorty@, words@, k as int, i as int) == call_parts(
                shorty@,
                words@,
                is_static,
            ),
        decreases cs@.len() - k,
    {
        let ghost before = out@;
        let ghost rest = arg_parts(shorty@, words@, k as int, i as int);
        let (part, used) = take_part(cs[k], words, i);
        out.push(part);
        let ghost later = if part is LongCut || part is DoubleCut {
            left_over(words@, i as int)
        } else {
            arg_parts(shorty@, words@, k + 1, i + slots_of(part))
        };
        assert(rest == seq![part] + later);
        assert(out@ + later =~= before + rest);
        match part {
            ArgPart::LongCut | ArgPart::DoubleCut => {
                out.push(ArgPart::Extra(i));
                assert(out@ =~= before.push(part) + later);
                return out;
            },
            _ => {},
        }
        i = i + used;
        k = k + 1;
    }
    let ghost before = out@;
    if i < n {
        out.push(ArgPart::Extra(i));
    }
    assert(out@ =~= before + arg_parts(shorty@, words@, k as int, i as int));
    out
}

/// What the caller read or made for an argument: the text of a string or of a float, or the
/// bytes of an array.
#[derive(Debug)]
pub enum ArgText {
    Nothing,
    Text(String),
    Bytes(Vec<u8>),
}

/// A string as it is reported: at most 512 bytes of it, and an ellipsis where it was cut.
pub open spec fn clipped(s: Seq<char>) -> Seq<char> {
    if exceeds(s, 512) {
        s.take(chars_to(s, 512, 0)).push('\u{2026}')
    } else {
        s
    }
}

/// Whether a string can be cut at 512 bytes, should it be longer.
pub open spec fn clips(s: Seq<char>) -> bool {
    exceeds(s, 512) ==> byte_len(s.take(chars_to(s, 512, 0))) == 512
}

/// Whether `clip` may be used on a string.
pub fn can_clip(s: &str) -> (r: bool)
    ensures
        r == clips(s@),
{
    let cs = chars_of(s);
    match cut_place(&cs, 512) {
        None => true,
        Some((_, exact)) => exact,
    }
}

/// Cuts a string to 512 bytes, which must not fall inside a character.
fn clip(s: &str) -> (out: Vec<char>)
    requires
        clips(s@),
    ensures
        out@ == clipped(s@),
{
    let cs = chars_of(s);
    match cut_place(&cs, 512) {
        None => cs,
        Some((k, _)) => {
            let mut out = copy_chars(&cs, 0, k);
            assert(out@ =~= s@.take(k as int));
            out.push('\u{2026}');
            out
        },
    }
}

/// `0x` and the hexadecimal numeral.
pub open spec fn hex_text(n: nat) -> Seq<char> {
    "0x"@ + hexadecimal(n)
}

fn push_hex_text(s: &mut String, n: u64)
    ensures
        final(s)@ == old(s)@ + hex_text(n as nat),
{
    s.append("0x");
    push_hex(s, n);
    assert(s@ =~= old(s)@ + hex_text(n as nat));
}

/// An object as a JSON value: null, its text if it is a string, or its address.
pub open spec fn object_json(compressed: u32, text: Option<Seq<char>>) -> Seq<char> {
    if compressed == 0 {
        "null"@
    } else {
        match text {
            Some(t) => "\""@ + json_escaped(clipped(t)) + "\""@,
            None => "\""@ + hex_text(compressed as nat) + "\""@,
        }
    }
}

/// The text that was read for an object, if it is a string.
pub open spec fn text_of(t: ArgText) -> Option<Seq<char>> {
    match t {
        ArgText::Text(s) => Some(s@),
        _ => None,
    }
}

/// An object as a JSON value.
pub fn object_value_json(compressed: u32, text: &ArgText) -> (out: String)
    requires
        text_of(*text) matches Some(s) ==> clips(s),
    ensures
        out@ == object_json(compressed, text_of(*text)),
{
    if compressed == 0 {
        return "null".to_owned();
    }
    let mut out = "\"".to_owned();
    match text {
        ArgText::Text(s) => {
            let body = clip(s.as_str());
            push_escaped(&mut out, &body);
        },
        _ => {
            push_hex_text(&mut out, compressed as u64);
        },
    }
    out.append("\"");
    out
}

/// Two hexadecimal digits for each byte.
pub open spec fn hex_pairs(bytes: Seq<u8>) -> Seq<char>
    decreases bytes.len(),
{
    if bytes.len() == 0 {
        Seq::empty()
    } else {
        hex_pairs(bytes.drop_last()).push(hex_digit((bytes.last() / 16) as nat)).push(
            hex_digit((bytes.last() % 16) as nat),
        )
    }
}

/// The bytes as decimal numbers.
pub open spec fn byte_numerals(bytes: Seq<u8>) -> Seq<Seq<char>> {
    bytes.map_values(|b: u8| decimal(b as nat))
}

/// The 16-bit groups of an address, most significant byte first, in hexadecimal.
pub open spec fn groups(bytes: Seq<u8>) -> Seq<Seq<char>> {
    Seq::new(
        bytes.len() / 2,
        |i: int| hexadecimal((bytes[2 * i] * 256 + bytes[2 * i + 1]) as nat),
    )
}

/// What follows the hexadecimal text of an array: the address that 4 or 16 bytes are.
pub open spec fn ip_tail(bytes: Seq<u8>) -> Seq<char> {
    if bytes.len() == 4 {
        "\",\"ip\":\""@ + joined(byte_numerals(bytes), "."@) + "\"}"@
    } else if bytes.len() == 16 {
        "\",\"ip\":\""@ + joined(groups(bytes), ":"@) + "\"}"@
    } else {
        "\"}"@
    }
}

/// A byte array as a JSON object.
pub open spec fn bytes_json(bytes: Seq<u8>) -> Seq<char> {
    "{\"t\":\"bytes\",\"length\":"@ + decimal(bytes.len()) + ",\"v\":["@ + joined(
        byte_numerals(bytes),
        ","@,
    ) + "],\"hex\":\""@ + hex_pairs(bytes) + ip_tail(bytes)
}

fn numerals(bytes: &Vec<u8>) -> (out: Vec<String>)
    ensures
        views(out@) == byte_numerals(bytes@),
{
    let mut out: Vec<String> = Vec::new();
    let mut i: usize = 0;
    while i < bytes.len()
        invariant
            i <= bytes@.len(),
            views(out@) == byte_numerals(bytes@.take(i as int)),
        decreases bytes@.len() - i,
    {
        let mut s = String::new();
        push_decimal(&mut s, bytes[i] as u64);
        let ghost before = out@;
        out.push(s);
        i = i + 1;
        assert(s@ =~= decimal(bytes@[i - 1] as nat));
        assert(views(out@) =~= views(before).push(s@));
        assert(views(out@) =~= byte_numerals(bytes@.take(i as int)));
    }
    assert(bytes@.take(i as int) =~= bytes@);
    out
}

fn group_texts(bytes: &Vec<u8>) -> (out: Vec<String>)
    ensures
        views(out@) == groups(bytes@),
{
    let mut out: Vec<String> = Vec::new();
    let len: usize = bytes.len();
    let n: usize = len / 2;
    let mut i: usize = 0;
    assert(views(out@) =~= groups(bytes@).take(0));
    while i < n
        invariant
            len == bytes@.len(),
            n == len / 2,
            i <= n,
            views(out@) == groups(bytes@).take(i as int),
        decreases n - i,
    {
        let v: u64 = bytes[2 * i] as u64 * 256 + bytes[2 * i + 1] as u64;
        let mut s = String::new();
        push_hex(&mut s, v);
        let ghost before = out@;
        out.push(s);
        assert(s@ =~= groups(bytes@)[i as int]);
        i = i + 1;
        assert(views(out@) =~= views(before).push(s@));
        assert(views(out@) =~= groups(bytes@).take(i as int));
    }
    assert(groups(bytes@).take(i as int) =~= groups(bytes@));
    out
}

fn push_hex_pairs(s: &mut String, bytes: &Vec<u8>)
    ensures
        final(s)@ == old(s)@ + hex_pairs(bytes@),
{
    let mut i: usize = 0;
    assert(bytes@.take(0) =~= Seq::<u8>::empty());
    assert(s@ =~= old(s)@ + hex_pairs(bytes@.take(0)));
    while i < bytes.len()
        invariant
            i <= bytes@.len(),
            s@ == old(s)@ + hex_pairs(bytes@.take(i as int)),
        decreases bytes@.len() - i,
    {
        push_hex_digit(s, bytes[i] / 16);
        push_hex_digit(s, bytes[i] % 16);
        i = i + 1;
        assert(bytes@.take(i as int).drop_last() =~= bytes@.take(i - 1));
        assert(s@ =~= old(s)@ + hex_pairs(bytes@.take(i as int)));
    }
    assert(bytes@.take(i as int) =~= bytes@);
}

/// A byte array as a JSON object: its numbers, its hexadecimal text, and the network address
/// that 4 or 16 bytes are.
pub fn array_json(bytes: &Vec<u8>) -> (s: String)
    ensures
        s@ == bytes_json(bytes@),
{
    let mut s = "{\"t\":\"bytes\",\"length\":".to_owned();
    push_decimal(&mut s, bytes.len() as u64);
    s.append(",\"v\":[");
    let nums = numerals(bytes);
    s.append(join(&nums, ",").as_str());
    s.append("],\"hex\":\"");
    push_hex_pairs(&mut s, bytes);
    let ghost head = s@;
    if bytes.len() == 4 {
        s.append("\",\"ip\":\"");
        s.append(join(&nums, ".").as_str());
        s.append("\"}");
    } else if bytes.len() == 16 {
        s.append("\",\"ip\":\"");
        let gs = group_texts(bytes);
        s.append(join(&gs, ":").as_str());
        s.append("\"}");
    } else {
        s.append("\"}");
    }
    assert(s@ =~= head + ip_tail(bytes@));
    s
}

/// Whether a compressed reference can be one to an object: not too low, and aligned.
pub fn plausible_object(compressed: u32) -> (r: bool)
    ensures
        r == (compressed >= 0x1000 && compressed % 8 == 0),
{
    compressed >= 0x1000 && compressed % 8 == 0
}

/// The length of a Java array that is reported: 256 elements at most.
pub fn array_length(length: i32) -> (r: Option<usize>)
    ensures
        r == if 0 <= length <= 256 {
            Some(length as usize)
        } else {
            None
        },
{
    if 0 <= length && length <= 256 {
        Some(length as usize)
    } else {
        None
    }
}

/// Length of a Java string and whether it is stored in bytes, by its count field. From API 26
/// on, and where the level is not known, the lowest bit says how it is stored.
pub open spec fn string_shape(count: i32, sdk: u32) -> Option<(int, bool)> {
    let (len, narrow) = if 0 < sdk < 26 {
        (count as int, false)
    } else {
        (count as int / 2, count as int % 2 != 0)
    };
    if 0 <= len <= 512 {
        Some((len, narrow))
    } else {
        None
    }
}

/// Length and form of a Java string that is reported: 512 units at most.
pub fn string_layout(count: i32, sdk: u32) -> (r: Option<(usize, bool)>)
    ensures
        match string_shape(count, sdk) {
            Some((len, narrow)) => r == Some((len as usize, narrow)),
            None => r is None,
        },
{
    if count < 0 {
        return None;
    }
    let n: usize = count as usize;
    if sdk > 0 && sdk < 26 {
        if n > 512 {
            return None;
        }
        return Some((n, false));
    }
    if n / 2 > 512 {
        return None;
    }
    Some((n / 2, n % 2 != 0))
}

/// The text that `String::from_utf16_lossy` gives for some UTF-16 units.
pub uninterp spec fn utf16_lossy(units: Seq<u16>) -> Seq<char>;

/// `String::from_utf16_lossy`: the text of some UTF-16 units, with replacement characters for
/// what is not well-formed. The text itself is left to the name.
#[verifier::external_body]
fn from_utf16(units: &[u16]) -> (s: String)
    ensures
        s@ == utf16_lossy(units@),
{
    String::from_utf16_lossy(units)
}

/// The contents of a Java string: bytes or UTF-16 units.
pub enum JavaChars {
    Narrow(Vec<u8>),
    Wide(Vec<u16>),
}

/// The text of a Java string's contents.
pub fn java_string(contents: &JavaChars) -> (s: String)
    ensures
        s@ == match *contents {
            JavaChars::Narrow(b) => utf8_lossy(b@),
            JavaChars::Wide(u) => utf16_lossy(u@),
        },
{
    match contents {
        JavaChars::Narrow(b) => lossy(b.as_slice()),
        JavaChars::Wide(u) => from_utf16(u.as_slice()),
    }
}

/// A reference argument as a JSON object: null, a string, a byte array, or an address.
pub open spec fn ref_json(compressed: u32, array: bool, t: ArgText) -> Seq<char> {
    if compressed == 0 {
        "{\"t\":\"ref\",\"v\":null}"@
    } else {
        match (array, t) {
            (false, ArgText::Text(s)) => "{\"t\":\"string\",\"v\":\""@ + json_escaped(clipped(s@))
                + "\"}"@,
            (true, ArgText::Bytes(b)) => bytes_json(b@),
            _ => "{\"t\":\"ref\",\"v\":\""@ + hex_text(compressed as nat) + "\"}"@,
        }
    }
}

/// A reference argument as a JSON object.
pub fn format_object_arg(compressed: u32, hint_array: bool, text: &ArgText) -> (s: String)
    requires
        text_of(*text) matches Some(t) ==> clips(t),
    ensures
        s@ == ref_json(compressed, hint_array, *text),
{
    if compressed == 0 {
        return "{\"t\":\"ref\",\"v\":null}".to_owned();
    }
    match text {
        ArgText::Text(t) => {
            if !hint_array {
                let mut s = "{\"t\":\"string\",\"v\":\"".to_owned();
                let body = clip(t.as_str());
                push_escaped(&mut s, &body);
                s.append("\"}");
                return s;
            }
        },
        ArgText::Bytes(b) => {
            if hint_array {
                return array_json(b);
            }
        },
        ArgText::Nothing => {},
    }
    let mut s = "{\"t\":\"ref\",\"v\":\"".to_owned();
    push_hex_text(&mut s, compressed as u64);
    s.append("\"}");
    s
}

/// Up to eight of the slots from `i` on, in hexadecimal and quoted.
pub open spec fn extra_texts(words: Seq<u32>, i: int) -> Seq<Seq<char>> {
    Seq::new(
        (if words.len() - i <= 8 {
            words.len() - i
        } else {
            8
        }) as nat,
        |k: int| "\""@ + hex_text(words[i + k] as nat) + "\""@,
    )
}

/// `v` read as a signed number of `width` values.
pub open spec fn as_signed(v: int, width: int) -> int {
    if v < width / 2 {
        v
    } else {
        v - width
    }
}

/// An argument as a JSON object.
pub open spec fn part_json(p: ArgPart, t: ArgText, words: Seq<u32>) -> Seq<char> {
    match p {
        ArgPart::This(w) => "{\"t\":\"this\",\"v\":"@ + object_json(w, text_of(t)) + "}"@,
        ArgPart::Missing(c) => "{\"t\":\"missing\",\"shorty\":\""@ + seq![c] + "\"}"@,
        ArgPart::Boolean(b) => "{\"t\":\"boolean\",\"v\":"@ + (if b {
            "true"@
        } else {
            "false"@
        }) + "}"@,
        ArgPart::Byte(b) => "{\"t\":\"byte\",\"v\":"@ + signed_decimal(as_signed(b as int, 0x100))
            + "}"@,
        ArgPart::Char(c) => "{\"t\":\"char\",\"v\":"@ + decimal(c as nat) + "}"@,
        ArgPart::Short(v) => "{\"t\":\"short\",\"v\":"@ + signed_decimal(
            as_signed(v as int, 0x1_0000),
        ) + "}"@,
        ArgPart::Int(v) => "{\"t\":\"int\",\"v\":"@ + signed_decimal(
            as_signed(v as int, 0x1_0000_0000),
        ) + "}"@,
        ArgPart::Float(_) => "{\"t\":\"float\",\"v\":"@ + float_text(t) + "}"@,
        ArgPart::Long(v) => "{\"t\":\"long\",\"v\":\""@ + decimal(v as nat) + "\"}"@,
        ArgPart::LongCut => "{\"t\":\"long\",\"v\":null,\"err\":\"truncated\"}"@,
        ArgPart::Double(_) => "{\"t\":\"double\",\"v\":"@ + float_text(t) + "}"@,
        ArgPart::DoubleCut => "{\"t\":\"double\",\"v\":null,\"err\":\"truncated\"}"@,
        ArgPart::Ref { word, array } => ref_json(word, array, t),
        ArgPart::Other(c, w) => "{\"t\":\""@ + seq![c] + "\",\"v\":\""@ + hex_text(w as nat)
            + "\"}"@,
        ArgPart::Extra(i) => "{\"t\":\"extra_slots\",\"v\":["@ + joined(
            extra_texts(words, i as int),
            ","@,
        ) + "],\"words_total\":"@ + decimal(words.len()) + "}"@,
    }
}

/// The text of a float, which the caller made.
pub open spec fn float_text(t: ArgText) -> Seq<char> {
    match t {
        ArgText::Text(s) => s@,
        _ => Seq::empty(),
    }
}

fn push_float(s: &mut String, t: &ArgText)
    ensures
        final(s)@ == old(s)@ + float_text(*t),
{
    match t {
        ArgText::Text(f) => {
            s.append(f.as_str());
        },
        _ => {},
    }
    assert(s@ =~= old(s)@ + float_text(*t));
}

fn extra_slot_texts(words: &Vec<u32>, i: usize) -> (out: Vec<String>)
    requires
        i <= words@.len(),
    ensures
        views(out@) == extra_texts(words@, i as int),
{
    let total: usize = words.len();
    let left: usize = total - i;
    let n: usize = if left <= 8 {
        left
    } else {
        8
    };
    let mut out: Vec<String> = Vec::new();
    let mut k: usize = 0;
    assert(views(out@) =~= extra_texts(words@, i as int).take(0));
    while k < n
        invariant
            total == words@.len(),
            i + n <= total,
            n == extra_texts(words@, i as int).len(),
            k <= n,
            views(out@) == extra_texts(words@, i as int).take(k as int),
        decreases n - k,
    {
        let mut s = "\"".to_owned();
        push_hex_text(&mut s, words[i + k] as u64);
        s.append("\"");
        let ghost before = out@;
        out.push(s);
        assert(s@ =~= extra_texts(words@, i as int)[k as int]);
        k = k + 1;
        assert(views(out@) =~= views(before).push(s@));
        assert(views(out@) =~= extra_texts(words@, i as int).take(k as int));
    }
    assert(extra_texts(words@, i as int).take(k as int) =~= extra_texts(words@, i as int));
    out
}

/// `v` read as a signed number.
fn signed(v: u32, width: u64) -> (r: i64)
    requires
        width == 0x100 || width == 0x1_0000 || width == 0x1_0000_0000,
        v < width,
    ensures
        r == as_signed(v as int, width as int),
{
    if (v as u64) < width / 2 {
        v as i64
    } else {
        v as i64 - width as i64
    }
}

/// An argument as a JSON object.
pub fn format_arg(part: ArgPart, text: &ArgText, words: &Vec<u32>) -> (s: String)
    requires
        text_of(*text) matches Some(t) ==> clips(t),
        part matches ArgPart::Extra(i) ==> i <= words@.len(),
    ensures
        s@ == part_json(part, *text, words@),
{
    match part {
        ArgPart::This(w) => {
            let mut s = "{\"t\":\"this\",\"v\":".to_owned();
            s.append(object_value_json(w, text).as_str());
            s.append("}");
            s
        },
        ArgPart::Missing(c) => {
            let mut s = "{\"t\":\"missing\",\"shorty\":\"".to_owned();
            push_char(&mut s, c);
            s.append("\"}");
            assert(s@ =~= part_json(part, *text, words@));
            s
        },
        ArgPart::Boolean(b) => {
            let mut s = "{\"t\":\"boolean\",\"v\":".to_owned();
            if b {
                s.append("true");
            } else {
                s.append("false");
            }
            s.append("}");
            s
        },
        ArgPart::Byte(b) => {
            let mut s = "{\"t\":\"byte\",\"v\":".to_owned();
            push_signed(&mut s, signed(b as u32, 0x100));
            s.append("}");
            s
        },
        ArgPart::Char(c) => {
            let mut s = "{\"t\":\"char\",\"v\":".to_owned();
            push_decimal(&mut s, c as u64);
            s.append("}");
            s
        },
        ArgPart::Short(v) => {
            let mut s = "{\"t\":\"short\",\"v\":".to_owned();
            push_signed(&mut s, signed(v as u32, 0x1_0000));
            s.append("}");
            s
        },
        ArgPart::Int(v) => {
            let mut s = "{\"t\":\"int\",\"v\":".to_owned();
            push_signed(&mut s, signed(v, 0x1_0000_0000));
            s.append("}");
            s
        },
        ArgPart::Float(_) => {
            let mut s = "{\"t\":\"float\",\"v\":".to_owned();
            push_float(&mut s, text);
            s.append("}");
            s
        },
        ArgPart::Long(v) => {
            let mut s = "{\"t\":\"long\",\"v\":\"".to_owned();
            push_decimal(&mut s, v);
            s.append("\"}");
            s
        },
        ArgPart::LongCut => "{\"t\":\"long\",\"v\":null,\"err\":\"truncated\"}".to_owned(),
        ArgPart::Double(_) => {
            let mut s = "{\"t\":\"double\",\"v\":".to_owned();
            push_float(&mut s, text);
            s.append("}");
            s
        },
        ArgPart::DoubleCut => "{\"t\":\"double\",\"v\":null,\"err\":\"truncated\"}".to_owned(),
        ArgPart::Ref { word, array } => format_object_arg(word, array, text),
        ArgPart::Other(c, w) => {
            let mut s = "{\"t\":\"".to_owned();
            push_char(&mut s, c);
            s.append("\",\"v\":\"");
            push_hex_text(&mut s, w as u64);
            s.append("\"}");
            assert(s@ =~= part_json(part, *text, words@));
            s
        },
        ArgPart::Extra(i) => {
            let mut s = "{\"t\":\"extra_slots\",\"v\":[".to_owned();
            let extra = extra_slot_texts(words, i);
            s.append(join(&extra, ",").as_str());
            s.append("],\"words_total\":");
            push_decimal(&mut s, words.len() as u64);
            s.append("}");
            s
        },
    }
}

/// The arguments as JSON objects.
pub open spec fn parts_json(
    parts: Seq<ArgPart>,
    t: Seq<ArgText>,
    words: Seq<u32>,
) -> Seq<Seq<char>> {
    Seq::new(parts.len(), |i: int| part_json(parts[i], t[i], words))
}

/// The arguments of a call as a JSON array, given what was read or made for each of them. The
/// array is empty where there are no arguments (`has_args` false).
pub fn format_invoke_args_json(
    has_args: bool,
    parts: &Vec<ArgPart>,
    texts: &Vec<ArgText>,
    words: &Vec<u32>,
) -> (s: String)
    requires
        parts@.len() == texts@.len(),
        forall|i: int|
            0 <= i < texts@.len() ==> (text_of(#[trigger] texts@[i]) matches Some(t) ==> clips(t)),
        forall|i: int|
            0 <= i < parts@.len() ==> (#[trigger] parts@[i] matches ArgPart::Extra(k) ==> k
                <= words@.len()),
    ensures
        s@ == if has_args {
            "["@ + joined(parts_json(parts@, texts@, words@), ","@) + "]"@
        } else {
            "[]"@
        },
{
    if !has_args {
        return "[]".to_owned();
    }
    let mut out: Vec<String> = Vec::new();
    let mut i: usize = 0;
    let ghost all = parts_json(parts@, texts@, words@);
    assert(views(out@) =~= all.take(0));
    while i < parts.len()
        invariant
            i <= parts@.len(),
            parts@.len() == texts@.len(),
            all == parts_json(parts@, texts@, words@),
            views(out@) == all.take(i as int),
            forall|k: int|
                0 <= k < texts@.len() ==> (text_of(#[trigger] texts@[k]) matches Some(t) ==> clips(
                    t,
                )),
            forall|k: int|
                0 <= k < parts@.len() ==> (#[trigger] parts@[k] matches ArgPart::Extra(j) ==> j
                    <= words@.len()),
        decreases parts@.len() - i,
    {
        let s = format_arg(parts[i], &texts[i], words);
        let ghost before = out@;
        out.push(s);
        assert(s@ =~= all[i as int]);
        i = i + 1;
        assert(views(out@) =~= views(before).push(s@));
        assert(views(out@) =~= all.take(i as int));
    }
    assert(all.take(i as int) =~= all);
    let mut s = "[".to_owned();
    s.append(join(&out, ",").as_str());
    s.append("]");
    s
}

/// Every slot that is left over lies in the argument array.
pub proof fn law_extra_slots_exist(shorty: Seq<char>, words: Seq<u32>, k: int, i: int, j: int)
    requires
        0 <= i,
        0 <= k,
        words.len() <= usize::MAX,
        0 <= j < arg_parts(shorty, words, k, i).len(),
    ensures
        arg_parts(shorty, words, k, i)[j] matches ArgPart::Extra(at) ==> at < words.len(),
    decreases shorty.len() - k,
{
    if k < shorty.len() && j > 0 {
        let p = part_at(shorty[k], words, i);
        if !(p is LongCut || p is DoubleCut) {
            let later = arg_parts(shorty, words, k + 1, i + slots_of(p));
            assert(arg_parts(shorty, words, k, i) == seq![p] + later);
            assert((seq![p] + later)[j] == later[j - 1]);
            law_extra_slots_exist(shorty, words, k + 1, i + slots_of(p), j - 1);
        }
    }
}

/// Frame-pump classes. They are platform classes, but not what a script just called.
pub open spec fn noise_classes() -> Seq<Seq<char>> {
    seq![
        "android.view.DisplayEventReceiver"@,
        "android.view.Choreographer"@,
        "android.view.ViewRootImpl"@,
        "android.view.ThreadedRenderer"@,
        "android.view.SurfaceControl"@,
        "android.view.InsetsController"@,
        "android.view.SyncRtSurfaceTransactionApplier"@,
        "android.graphics.HardwareRenderer"@,
        "android.animation.AnimationHandler"@,
    ]
}

/// Whether a class is `p`, one of its nested classes, or below it as a package.
pub open spec fn in_class(c: Seq<char>, p: Seq<char>) -> bool {
    c == p || has_prefix(c, p.push('$')) || has_prefix(c, p.push('.'))
}

/// Whether a class is a frame-pump class.
pub open spec fn is_noise(c: Seq<char>) -> bool {
    exists|i: int| 0 <= i < noise_classes().len() && in_class(c, #[trigger] noise_classes()[i])
}

fn belongs_to(c: &Vec<char>, p: &str) -> (r: bool)
    ensures
        r == in_class(c@, p@),
{
    if !starts_with(c, p) {
        proof {
            if has_prefix(c@, p@.push('$')) {
                assert(c@.take(p@.len() as int) =~= c@.take(p@.len() as int + 1).take(
                    p@.len() as int,
                ));
                assert(p@.push('$').take(p@.len() as int) =~= p@);
            }
            if has_prefix(c@, p@.push('.')) {
                assert(c@.take(p@.len() as int) =~= c@.take(p@.len() as int + 1).take(
                    p@.len() as int,
                ));
                assert(p@.push('.').take(p@.len() as int) =~= p@);
            }
            if c@ == p@ {
                assert(c@.take(p@.len() as int) =~= p@);
            }
        }
        return false;
    }
    let pv = chars_of(p);
    let n: usize = pv.len();
    if c.len() == n {
        assert(c@.take(n as int) =~= c@);
        return true;
    }
    let next = c[n];
    proof {
        assert(c@.take(n as int + 1) =~= p@.push(c@[n as int]));
        if c@.take(n as int + 1) == p@.push('$') {
            assert(p@.push('$')[n as int] == '$');
        }
        if c@.take(n as int + 1) == p@.push('.') {
            assert(p@.push('.')[n as int] == '.');
        }
        assert(p@.push(c@[n as int])[n as int] == c@[n as int]);
    }
    next == '$' || next == '.'
}

/// Whether a class is a frame-pump class.
pub fn is_noisy_api_class(class_dotted: &str) -> (r: bool)
    ensures
        r == is_noise(class_dotted@),
{
    let c = chars_of(class_dotted);
    let r = belongs_to(&c, "android.view.DisplayEventReceiver") || belongs_to(
        &c,
        "android.view.Choreographer",
    ) || belongs_to(&c, "android.view.ViewRootImpl") || belongs_to(
        &c,
        "android.view.ThreadedRenderer",
    ) || belongs_to(&c, "android.view.SurfaceControl") || belongs_to(
        &c,
        "android.view.InsetsController",
    ) || belongs_to(&c, "android.view.SyncRtSurfaceTransactionApplier") || belongs_to(
        &c,
        "android.graphics.HardwareRenderer",
    ) || belongs_to(&c, "android.animation.AnimationHandler");
    proof {
        let ns = noise_classes();
        assert(ns[0] == "android.view.DisplayEventReceiver"@);
        assert(ns[1] == "android.view.Choreographer"@);
        assert(ns[2] == "android.view.ViewRootImpl"@);
        assert(ns[3] == "android.view.ThreadedRenderer"@);
        assert(ns[4] == "android.view.SurfaceControl"@);
        assert(ns[5] == "android.view.InsetsController"@);
        assert(ns[6] == "android.view.SyncRtSurfaceTransactionApplier"@);
        assert(ns[7] == "android.graphics.HardwareRenderer"@);
        assert(ns[8] == "android.animation.AnimationHandler"@);
        if is_noise(c@) {
            let i = choose|i: int| 0 <= i < ns.len() && in_class(c@, #[trigger] ns[i]);
            assert(0 <= i < 9);
        }
    }
    r
}

/// Whether some prefix of a list stands before a class name.
pub open spec fn some_prefix(prefixes: Seq<Seq<char>>, c: Seq<char>) -> bool {
    exists|i: int| 0 <= i < prefixes.len() && has_prefix(c, #[trigger] prefixes[i])
}

/// Whether a class is reported: not a frame-pump class, and below some prefix unless there are
/// none.
pub fn class_matches_filter(trace: &ApiTrace, class_dotted: &str) -> (r: bool)
    ensures
        r == (!is_noise(class_dotted@) && (trace@.prefixes.len() == 0 || some_prefix(
            trace@.prefixes,
            class_dotted@,
        ))),
{
    if is_noisy_api_class(class_dotted) {
        return false;
    }
    if trace.prefixes.is_empty() {
        return true;
    }
    let c = chars_of(class_dotted);
    let mut i: usize = 0;
    while i < trace.prefixes.len()
        invariant
            i <= trace.prefixes@.len(),
            c@ == class_dotted@,
            trace@.prefixes == views(trace.prefixes@),
            !is_noise(class_dotted@),
            forall|j: int| 0 <= j < i ==> !has_prefix(c@, #[trigger] trace@.prefixes[j]),
        decreases trace.prefixes@.len() - i,
    {
        assert(trace@.prefixes[i as int] == trace.prefixes@[i as int]@);
        if starts_with(&c, trace.prefixes[i].as_str()) {
            assert(some_prefix(trace@.prefixes, c@)) by {
                assert(has_prefix(c@, trace@.prefixes[i as int]));
            }
            return true;
        }
        i = i + 1;
    }
    false
}

/// `s` without the characters `L` it starts with.
pub open spec fn without_l(s: Seq<char>) -> Seq<char>
    decreases s.len(),
{
    if s.len() > 0 && s[0] == 'L' {
        without_l(s.skip(1))
    } else {
        s
    }
}

/// A descriptor with dots: without leading `L`s, up to the first semicolon, slashes as dots.
pub open spec fn dotted(desc: Seq<char>) -> Seq<char> {
    pieces(without_l(desc), ';')[0].map_values(
        |c: char|
            if c == '/' {
                '.'
            } else {
                c
            },
    )
}

/// `Landroid/app/Activity;` as `android.app.Activity`.
pub fn descriptor_to_dotted(desc: &str) -> (out: String)
    ensures
        out@ == dotted(desc@),
{
    let cs = chars_of(desc);
    let mut from: usize = 0;
    assert(cs@.skip(0) =~= cs@);
    while from < cs.len() && cs[from] == 'L'
        invariant
            from <= cs@.len(),
            without_l(cs@) == without_l(cs@.skip(from as int)),
        decreases cs@.len() - from,
    {
        assert(cs@.skip(from as int).skip(1) =~= cs@.skip(from + 1));
        from = from + 1;
    }
    let body = copy_chars(&cs, from, cs.len());
    assert(body@ =~= cs@.skip(from as int));
    let ps = split(&body, ';');
    let first = &ps[0];
    assert(first@ == texts(ps@)[0]);
    let mut out = String::new();
    let mut i: usize = 0;
    let ghost want = dotted(desc@);
    while i < first.len()
        invariant
            i <= first@.len(),
            want == first@.map_values(
                |c: char|
                    if c == '/' {
                        '.'
                    } else {
                        c
                    },
            ),
            out@ == want.take(i as int),
        decreases first@.len() - i,
    {
        if first[i] == '/' {
            push_char(&mut out, '.');
        } else {
            push_char(&mut out, first[i]);
        }
        i = i + 1;
        assert(out@ =~= want.take(i as int));
    }
    assert(want.take(i as int) =~= want);
    out
}

/// What the 32 bytes of a C++ string object say.
pub enum CppString {
    /// Too large, or without a pointer.
    Unreadable,
    /// Characters outside of the object: where and how many.
    Outside { ptr: u64, size: u64 },
    /// Characters inside of the object.
    Inline(Vec<u8>),
}

/// Reads a C++ string object: the lowest bit of its first byte says whether the characters are
/// outside, at most 4096 of them, or inside, up to a zero byte.
pub fn read_libcpp_string(buf: &[u8; 32]) -> (r: CppString)
    ensures
        ({
            let size = crate::bytes::quad_at(buf@, 8);
            let ptr = crate::bytes::quad_at(buf@, 16);
            if buf@[0] % 2 == 1 {
                if ptr == 0 || size > 4096 {
                    r is Unreadable
                } else {
                    r == (CppString::Outside { ptr, size })
                }
            } else {
                r matches CppString::Inline(b) && b@ == buf@.subrange(
                    1,
                    crate::elf::nul_from(buf@, 1, 24),
                )
            }
        }),
{
    let s = buf.as_slice();
    if buf[0] % 2 == 1 {
        let size: u64 = crate::bytes::get_u64(s, 8);
        let ptr: u64 = crate::bytes::get_u64(s, 16);
        if ptr == 0 || size > 4096 {
            return CppString::Unreadable;
        }
        return CppString::Outside { ptr, size };
    }
    let end: usize = crate::elf::find_nul(s, 1, 24);
    CppString::Inline(crate::bytes::copy_range(s, 1, end))
}

/// The text of a method name that was read; none where it is empty or says `null`.
pub fn method_text(bytes: &[u8]) -> (r: Option<String>)
    ensures
        ({
            let s = utf8_lossy(bytes@);
            if s.len() == 0 || s == "null"@ {
                r is None
            } else {
                r matches Some(t) && t@ == s
            }
        }),
{
    let s = lossy(bytes);
    let cs = chars_of(s.as_str());
    if cs.len() == 0 || spells(&cs, "null") {
        None
    } else {
        Some(s)
    }
}

/// The shorty that a call is decoded with: the one that its text gives, else the one in a
/// register, else the one that the method gives, else none.
pub fn choose_shorty(label: &str, register: Option<String>, method: Option<String>) -> (s: String)
    ensures
        s@ == match pretty_shorty(label@) {
            Some(p) => p,
            None => match register {
                Some(r) => r@,
                None => match method {
                    Some(m) => m@,
                    None => Seq::empty(),
                },
            },
        },
{
    match shorty_from_pretty(label) {
        Some(p) => p,
        None => match register {
            Some(r) => r,
            None => match method {
                Some(m) => m,
                None => String::new(),
            },
        },
    }
}

/// The report of a call.
pub open spec fn event_json(
    n: u64,
    label: Seq<char>,
    shorty: Seq<char>,
    is_static: bool,
    args: Seq<char>,
) -> Seq<char> {
    "{\"type\":\"android-api\",\"n\":"@ + decimal(n as nat) + ",\"method\":\""@ + json_escaped(
        label,
    ) + "\",\"shorty\":\""@ + json_escaped(shorty) + "\",\"static\":"@ + (if is_static {
        "true"@
    } else {
        "false"@
    }) + ",\"args\":"@ + args + "}"@
}

/// The report of a call as JSON.
pub fn format_event(n: u64, label: &str, shorty: &str, is_static: bool, args_json: &str) -> (s:
    String)
    ensures
        s@ == event_json(n, label@, shorty@, is_static, args_json@),
{
    let mut s = "{\"type\":\"android-api\",\"n\":".to_owned();
    push_decimal(&mut s, n);
    s.append(",\"method\":\"");
    let l = chars_of(label);
    push_escaped(&mut s, &l);
    s.append("\",\"shorty\":\"");
    let h = chars_of(shorty);
    push_escaped(&mut s, &h);
    s.append("\",\"static\":");
    if is_static {
        s.append("true");
    } else {
        s.append("false");
    }
    s.append(",\"args\":");
    s.append(args_json);
    s.append("}");
    s
}

/// The functions of the runtime that the trace calls.
#[derive(Debug, Clone, Copy, PartialEq, Eq, Structural)]
pub struct Helpers {
    pub pretty_method: u64,
    pub get_shorty: Option<u64>,
    pub get_component: Option<u64>,
    pub get_descriptor: Option<u64>,
    pub thread_current: Option<u64>,
    pub decode_object: Option<u64>,
}

/// The symbols to look up for them, in the order that `resolve_helpers` takes the addresses.
pub open spec fn helper_names() -> Seq<Seq<char>> {
    seq![
        "_ZN3art9ArtMethod12PrettyMethodEPS0_b"@,
        "_ZN3art9ArtMethod12PrettyMethodEb"@,
        "_ZN3art9ArtMethod9GetShortyEPj"@,
        "_ZNK3art9ArtMethod9GetShortyEPj"@,
        "_ZNK3art6mirror5Class16GetComponentTypeEv"@,
        "_ZN3art6mirror5Class16GetComponentTypeEv"@,
        "_ZN3art9ArtMethod27GetDeclaringClassDescriptorEv"@,
        "_ZN3art6Thread7CurrentEv"@,
        "_ZNK3art6Thread13DecodeJObjectEP8_jobject"@,
    ]
}

/// The symbols to look up.
pub fn helper_symbols() -> (v: Vec<String>)
    ensures
        v@.len() == helper_names().len(),
        forall|i: int| 0 <= i < v@.len() ==> (#[trigger] v@[i])@ == helper_names()[i],
{
    let mut v: Vec<String> = Vec::new();
    v.push("_ZN3art9ArtMethod12PrettyMethodEPS0_b".to_owned());
    v.push("_ZN3art9ArtMethod12PrettyMethodEb".to_owned());
    v.push("_ZN3art9ArtMethod9GetShortyEPj".to_owned());
    v.push("_ZNK3art9ArtMethod9GetShortyEPj".to_owned());
    v.push("_ZNK3art6mirror5Class16GetComponentTypeEv".to_owned());
    v.push("_ZN3art6mirror5Class16GetComponentTypeEv".to_owned());
    v.push("_ZN3art9ArtMethod27GetDeclaringClassDescriptorEv".to_owned());
    v.push("_ZN3art6Thread7CurrentEv".to_owned());
    v.push("_ZNK3art6Thread13DecodeJObjectEP8_jobject".to_owned());
    v
}

/// The first of two addresses that is known.
pub open spec fn either(a: Option<u64>, b: Option<u64>) -> Option<u64> {
    if a is Some {
        a
    } else {
        b
    }
}

fn first_known(a: Option<u64>, b: Option<u64>) -> (r: Option<u64>)
    ensures
        r == either(a, b),
{
    match a {
        Some(x) => Some(x),
        None => b,
    }
}

/// The functions that the trace calls, given the address of each symbol. Only the one that
/// names methods is needed.
pub fn resolve_helpers(found: &Vec<Option<u64>>) -> (r: Result<Helpers, ArtError>)
    requires
        found@.len() == helper_names().len(),
    ensures
        match either(found@[0], found@[1]) {
            None => says(r, "ArtMethod::PrettyMethod not found"@),
            Some(pretty_method) => r == Ok::<Helpers, ArtError>(
                (Helpers {
                    pretty_method,
                    get_shorty: either(found@[2], found@[3]),
                    get_component: either(found@[4], found@[5]),
                    get_descriptor: found@[6],
                    thread_current: found@[7],
                    decode_object: found@[8],
                }),
            ),
        },
{
    match first_known(found[0], found[1]) {
        None => Err(ArtError::Msg("ArtMethod::PrettyMethod not found".to_owned())),
        Some(pretty_method) => Ok(
            Helpers {
                pretty_method,
                get_shorty: first_known(found[2], found[3]),
                get_component: first_known(found[4], found[5]),
                get_descriptor: found[6],
                thread_current: found[7],
                decode_object: found[8],
            },
        ),
    }
}

} // verus!
