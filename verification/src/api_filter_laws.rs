//! Which calls a trace shows, and by which signature.
use crate::api_trace::{
    admits_invoke, arg_parts, arg_slots, array_length, choose_shorty, class_matches_filter,
    clean_prefixes, count_event, descriptor_to_dotted, dotted_prefix, flags_say_static,
    hooked_result, in_class, invoke_args, is_noise, is_shorty, last_hook, last_place, noise_classes,
    param_letter, param_letters, plausible_object, pretty_shorty, read_libcpp_string,
    resolve_helpers, shorty_char, shorty_from_pretty, some_prefix, start_android_api_trace,
    stop_android_api_trace, string_layout, without_l, AndroidApiTraceConfig, ApiTrace, ArgPart,
    CppString, Helpers, InvokeLayout,
};
use crate::art::ArtError;
use crate::bytes::quad_at;
use crate::elf::nul_from;
use crate::java_types::letter_of;
use crate::text::{
    has_prefix, has_suffix, is_space, joined, trimmed, trimmed_end, trimmed_start, views,
};
use crate::text_laws::{
    is_word, lacks, law_split_undoes_join, lemma_pieces_first, lemma_trimmed_word,
};
use vstd::prelude::*;
use vstd::string::*;

verus! {

/// A prefix that is asked for is one of whole packages: it ends with a dot.
pub proof fn law_prefix_ends_with_a_dot(p: Seq<char>)
    ensures
        dotted_prefix(p).len() > 0 ==> dotted_prefix(p).last() == '.',
        has_prefix(dotted_prefix(p), trimmed(p)),
        dotted_prefix(p).len() <= trimmed(p).len() + 1,
        trimmed(p).len() == 0 <==> dotted_prefix(p).len() == 0,
{
    let s = trimmed(p);
    assert(dotted_prefix(p).take(s.len() as int) =~= s);
}

proof fn lemma_clean(ps: Seq<Seq<char>>, i: int)
    requires
        0 <= i < clean_prefixes(ps).len(),
    ensures
        clean_prefixes(ps)[i].len() > 0,
        clean_prefixes(ps)[i].last() == '.',
        exists|j: int|
            0 <= j < ps.len() && clean_prefixes(ps)[i] == dotted_prefix(#[trigger] ps[j]),
    decreases ps.len(),
{
    let init = ps.drop_last();
    let all = clean_prefixes(ps);
    if i < clean_prefixes(init).len() {
        lemma_clean(init, i);
        let j = choose|j: int|
            0 <= j < init.len() && clean_prefixes(init)[i] == dotted_prefix(#[trigger] init[j]);
        assert(ps[j] == init[j]);
        assert(all[i] == dotted_prefix(ps[j]));
    } else {
        let n = ps.len() - 1;
        assert(all[i] == dotted_prefix(ps[n]));
    }
}

/// A trace that starts counts from nothing, with the limit and the prefixes that were asked for,
/// and runs only where its hook is in place.
pub proof fn law_trace_starts(
    trace: &mut ApiTrace,
    cfg: AndroidApiTraceConfig,
    hook: Result<u32, ArtError>,
    r: Result<u32, ArtError>,
    i: int,
)
    requires
        call_ensures(start_android_api_trace, (trace, cfg, hook), r),
        cfg.prefixes@.len() > 0,
    ensures
        r == hook,
        final(trace)@.count == 0,
        final(trace)@.max_events == cfg.max_events,
        final(trace)@.with_signature == cfg.with_signature,
        hook is Ok ==> final(trace)@.enabled,
        hook is Err ==> final(trace)@.enabled == old(trace)@.enabled,
        0 <= i < final(trace)@.prefixes.len() ==> final(trace)@.prefixes[i].len() > 0
            && final(trace)@.prefixes[i].last() == '.',
{
    assert(views(cfg.prefixes@).len() > 0);
    if 0 <= i < final(trace)@.prefixes.len() {
        lemma_clean(views(cfg.prefixes@), i);
    }
}

/// A trace that is stopped, or that has shown as many calls as it may, admits no call.
pub proof fn law_trace_stops(
    trace: &mut ApiTrace,
    later: &mut ApiTrace,
    in_trace: bool,
    method: u64,
    r: bool,
)
    requires
        call_ensures(stop_android_api_trace, (trace,), ()),
        call_ensures(admits_invoke, (later, in_trace, method), r),
    ensures
        !final(trace)@.enabled,
        !old(later)@.enabled ==> !r,
        in_trace ==> !r,
        old(later)@.max_events > 0 && old(later)@.count >= old(later)@.max_events ==> !r,
        old(later)@.max_events > 0 && old(later)@.count >= old(later)@.max_events && !in_trace
            ==> !final(later)@.enabled,
        r ==> final(later)@ == old(later)@,
        old(later)@.enabled && !in_trace && method != 0 && (old(later)@.max_events == 0
            || old(later)@.count < old(later)@.max_events) ==> r,
{
}

/// Events are numbered in turn.
pub proof fn law_events_in_turn(trace: &mut ApiTrace, n: u64)
    requires
        old(trace)@.count < u64::MAX,
        call_ensures(count_event, (trace,), n),
    ensures
        n == old(trace)@.count + 1,
        final(trace)@.count == n,
        final(trace)@.enabled == old(trace)@.enabled,
        final(trace)@.prefixes == old(trace)@.prefixes,
{
}

/// A class is shown where its name starts with one of the prefixes, unless it is one of those
/// that are never shown.
pub proof fn law_class_filter(trace: &ApiTrace, class: &str, r: bool, i: int, rest: Seq<char>)
    requires
        call_ensures(class_matches_filter, (trace, class), r),
        !is_noise(class@),
    ensures
        0 <= i < trace@.prefixes.len() && class@ == trace@.prefixes[i] + rest ==> r,
        trace@.prefixes.len() == 0 ==> r,
        trace@.prefixes.len() > 0 && (forall|j: int|
            0 <= j < trace@.prefixes.len() ==> !has_prefix(class@, #[trigger] trace@.prefixes[j]))
            ==> !r,
{
    if 0 <= i < trace@.prefixes.len() && class@ == trace@.prefixes[i] + rest {
        let p = trace@.prefixes[i];
        assert(class@.take(p.len() as int) =~= p);
        assert(has_prefix(class@, trace@.prefixes[i]));
        assert(some_prefix(trace@.prefixes, class@));
    }
}

/// A method is static where its flags have bit 3.
pub proof fn law_static_flag(flags: u32, r: bool)
    requires
        call_ensures(flags_say_static, (flags,), r),
    ensures
        r <==> flags & 8 != 0,
{
    assert((flags / 8) % 2 == 1 <==> flags & 8 != 0) by (bit_vector);
}

/// The slots that are read of a call's arguments lie in them, and are at most 64.
pub proof fn law_slots_lie_in_the_arguments(size: u32, n: usize)
    requires
        call_ensures(arg_slots, (size,), n),
    ensures
        4 * n <= size,
        n <= 64,
        n == 64 || size < 4 * n + 4,
{
}

/// The count of a string tells its length and, from level 26 on, how its characters are kept: in
/// the lowest bit, with the length above it.
pub proof fn law_string_layout(count: i32, sdk: u32, len: usize, narrow: bool)
    requires
        call_ensures(string_layout, (count, sdk), Some((len, narrow))),
    ensures
        0 < sdk < 26 ==> len == count && !narrow,
        sdk == 0 || sdk >= 26 ==> count == 2 * len + if narrow {
            1int
        } else {
            0
        },
        len <= 512,
{
}

/// Where the arguments of a call stand depends on what was called: behind the method, or behind
/// the method and the thread.
pub proof fn law_invoke_layout(layout: InvokeLayout, x1: u64, x2: u64, x3: u64, r: (u64, u32))
    requires
        call_ensures(invoke_args, (layout, x1, x2, x3), r),
    ensures
        layout is ArtInvoke ==> r.0 == x2 && (x3 <= u32::MAX ==> r.1 == x3),
        layout !is ArtInvoke ==> r.0 == x1 && (x2 <= u32::MAX ==> r.1 == x2),
{
}

/// The name of a primitive type that can be a parameter.
pub open spec fn is_primitive_name(n: Seq<char>) -> bool {
    n == "boolean"@ || n == "byte"@ || n == "char"@ || n == "short"@ || n == "int"@ || n == "long"@
        || n == "float"@ || n == "double"@
}

/// The letter of a primitive parameter is the one that signatures have for its type.
pub proof fn law_letters_agree(n: Seq<char>)
    requires
        is_primitive_name(n),
    ensures
        param_letter(n) == letter_of(n),
        param_letter(n).len() == 1,
{
    reveal_strlit("[]");
    reveal_strlit("void");
    if n == "boolean"@ {
        reveal_strlit("boolean");
        reveal_strlit("Z");
        lemma_plain_name(n);
        assert(n != "void"@);
        assert(param_letter(n) =~= letter_of(n));
    } else if n == "byte"@ {
        reveal_strlit("byte");
        reveal_strlit("boolean");
        reveal_strlit("B");
        lemma_plain_name(n);
        assert(n[0] != "void"@[0]);
        assert(n.len() != "boolean"@.len());
        assert(param_letter(n) =~= letter_of(n));
    } else if n == "char"@ {
        reveal_strlit("char");
        reveal_strlit("byte");
        reveal_strlit("boolean");
        reveal_strlit("C");
        lemma_plain_name(n);
        assert(n[0] != "void"@[0]);
        assert(n[0] != "byte"@[0]);
        assert(n.len() != "boolean"@.len());
        assert(param_letter(n) =~= letter_of(n));
    } else if n == "short"@ {
        reveal_strlit("short");
        reveal_strlit("S");
        lemma_plain_name(n);
        lemma_other_lengths(n, 5);
        assert(param_letter(n) =~= letter_of(n));
    } else if n == "int"@ {
        reveal_strlit("int");
        reveal_strlit("short");
        reveal_strlit("I");
        lemma_plain_name(n);
        lemma_other_lengths(n, 3);
        assert(n.len() != "short"@.len());
        assert(param_letter(n) =~= letter_of(n));
    } else if n == "long"@ {
        reveal_strlit("long");
        reveal_strlit("byte");
        reveal_strlit("char");
        reveal_strlit("short");
        reveal_strlit("int");
        reveal_strlit("boolean");
        reveal_strlit("J");
        lemma_plain_name(n);
        assert(n[0] != "void"@[0]);
        assert(n[0] != "byte"@[0]);
        assert(n[0] != "char"@[0]);
        assert(n.len() != "short"@.len());
        assert(n.len() != "int"@.len());
        assert(n.len() != "boolean"@.len());
        assert(param_letter(n) =~= letter_of(n));
    } else if n == "float"@ {
        reveal_strlit("float");
        reveal_strlit("short");
        reveal_strlit("int");
        reveal_strlit("long");
        reveal_strlit("F");
        lemma_plain_name(n);
        lemma_other_lengths(n, 5);
        assert(n[0] != "short"@[0]);
        assert(n.len() != "int"@.len());
        assert(n.len() != "long"@.len());
        assert(param_letter(n) =~= letter_of(n));
    } else {
        reveal_strlit("double");
        reveal_strlit("short");
        reveal_strlit("int");
        reveal_strlit("long");
        reveal_strlit("float");
        reveal_strlit("D");
        lemma_plain_name(n);
        lemma_other_lengths(n, 6);
        assert(n.len() != "short"@.len());
        assert(n.len() != "int"@.len());
        assert(n.len() != "long"@.len());
        assert(n.len() != "float"@.len());
        assert(param_letter(n) =~= letter_of(n));
    }
}

proof fn lemma_other_lengths(n: Seq<char>, len: nat)
    requires
        n.len() == len,
        len != 4,
        len != 7,
    ensures
        n != "void"@,
        n != "byte"@,
        n != "char"@,
        n != "boolean"@,
{
    reveal_strlit("void");
    reveal_strlit("byte");
    reveal_strlit("char");
    reveal_strlit("boolean");
}

proof fn lemma_plain_name(n: Seq<char>)
    requires
        n.len() > 0,
        forall|i: int| 0 <= i < n.len() ==> 'a' <= #[trigger] n[i] <= 'z',
    ensures
        trimmed(n) == n,
        !has_suffix(n, "[]"@),
{
    reveal_strlit("[]");
    assert(is_word(n));
    lemma_trimmed_word(n);
    if has_suffix(n, "[]"@) {
        assert(n.skip(n.len() - 2)[1] == ']');
        assert(n[n.len() - 1] == ']');
    }
}

/// The parameters of a method as it is shown have one letter each, behind that of the result.
pub proof fn law_shorty_of_a_shown_method(
    pretty: &str,
    r: Option<String>,
    head: Seq<char>,
    types: Seq<Seq<char>>,
    k: int,
)
    requires
        call_ensures(shorty_from_pretty, (pretty,), r),
        0 <= k < types.len() < 64,
        forall|i: int|
            0 <= i < types.len() ==> is_word(#[trigger] types[i]) && lacks(types[i], ',') && lacks(
                types[i],
                '(',
            ) && lacks(types[i], ')') && types[i] != "void"@,
        pretty@ == head + seq!['('] + joined(types, seq![',']) + seq![')'],
    ensures
        r matches Some(s) && s@.len() == types.len() + 1 && s@[0] == 'L' && s@[k + 1]
            == param_letter(types[k])[0],
{
    let list = joined(types, seq![',']);
    assert forall|i: int| 0 <= i < types.len() implies lacks(#[trigger] types[i], ',') by {
        assert(is_word(types[i]) && lacks(types[i], ','));
    }
    law_split_undoes_join(types, ',');
    lemma_joined_without(types, '(');
    lemma_joined_without(types, ')');
    let s = pretty@;
    let open = head.len() as int;
    let close = s.len() - 1;
    assert(s[close] == ')');
    assert(last_place(s, ')', s.len() as int) == close);
    assert forall|i: int| open < i < s.len() implies #[trigger] s[i] != '(' by {
        if i < close {
            assert(s[i] == list[i - open - 1]);
        }
    }
    assert(s[open] == '(');
    lemma_last_place(s, '(', s.len() as int, open);
    assert(s.subrange(open + 1, close) =~= list);
    lemma_letters(types);
    lemma_list_is_not_blank(types);
    let letters = param_letters(types);
    reveal_strlit("L");
    let out = "L"@ + letters;
    assert(is_shorty(out)) by {
        assert forall|i: int| 0 <= i < out.len() implies shorty_char(#[trigger] out[i]) by {
            if i > 0 {
                assert(out[i] == letters[i - 1]);
            }
        }
    }
    assert(out[k + 1] == letters[k]);
}

proof fn lemma_last_place(s: Seq<char>, c: char, to: int, at: int)
    requires
        0 <= at < to <= s.len(),
        s[at] == c,
        forall|i: int| at < i < to ==> #[trigger] s[i] != c,
    ensures
        last_place(s, c, to) == at,
    decreases to,
{
    if to - 1 > at {
        assert(s[to - 1] != c);
        lemma_last_place(s, c, to - 1, at);
    }
}

proof fn lemma_joined_without(types: Seq<Seq<char>>, c: char)
    requires
        c == '(' || c == ')',
        forall|i: int|
            0 <= i < types.len() ==> is_word(#[trigger] types[i]) && lacks(types[i], ',') && lacks(
                types[i],
                '(',
            ) && lacks(types[i], ')') && types[i] != "void"@,
    ensures
        lacks(joined(types, seq![',']), c),
    decreases types.len(),
{
    if types.len() > 0 {
        assert(lacks(types[types.len() - 1], c));
    }
    if types.len() > 1 {
        let init = types.drop_last();
        assert forall|i: int| 0 <= i < init.len() implies is_word(#[trigger] init[i]) && lacks(
            init[i],
            ',',
        ) && lacks(init[i], '(') && lacks(init[i], ')') && init[i] != "void"@ by {
            assert(is_word(types[i]));
        }
        lemma_joined_without(init, c);
    }
}

proof fn lemma_letters(types: Seq<Seq<char>>)
    requires
        forall|i: int|
            0 <= i < types.len() ==> is_word(#[trigger] types[i]) && lacks(types[i], ',') && lacks(
                types[i],
                '(',
            ) && lacks(types[i], ')') && types[i] != "void"@,
    ensures
        param_letters(types).len() == types.len(),
        forall|i: int|
            0 <= i < types.len() ==> #[trigger] param_letters(types)[i] == param_letter(types[i])[0]
                && shorty_char(param_letters(types)[i]),
    decreases types.len(),
{
    if types.len() > 0 {
        let init = types.drop_last();
        let last = types.last();
        assert(is_word(types[types.len() - 1]));
        assert(types[types.len() - 1] != "void"@);
        lemma_trimmed_word(last);
        assert forall|i: int| 0 <= i < init.len() implies is_word(#[trigger] init[i]) && lacks(
            init[i],
            ',',
        ) && lacks(init[i], '(') && lacks(init[i], ')') && init[i] != "void"@ by {
            assert(is_word(types[i]));
        }
        lemma_letters(init);
        assert(param_letter(last).len() == 1);
        let all = param_letters(types);
        assert forall|i: int| 0 <= i < types.len() implies #[trigger] all[i] == param_letter(
            types[i],
        )[0] && shorty_char(all[i]) by {
            if i < init.len() {
                assert(all[i] == param_letters(init)[i]);
                assert(types[i] == init[i]);
            }
        }
    }
}

proof fn lemma_list_is_not_blank(types: Seq<Seq<char>>)
    requires
        types.len() > 0,
        forall|i: int|
            0 <= i < types.len() ==> is_word(#[trigger] types[i]) && lacks(types[i], ',') && lacks(
                types[i],
                '(',
            ) && lacks(types[i], ')') && types[i] != "void"@,
    ensures
        trimmed(joined(types, seq![','])).len() > 0,
{
    let s = joined(types, seq![',']);
    lemma_joined_start(types);
    assert(is_word(types[0]));
    assert(s[0] == types[0][0]);
    assert(!is_space(s[0]));
    assert(trimmed_start(s) == s);
    lemma_trimmed_end(s);
}

proof fn lemma_joined_start(types: Seq<Seq<char>>)
    requires
        types.len() > 0,
        types[0].len() > 0,
    ensures
        joined(types, seq![',']).len() > 0,
        joined(types, seq![','])[0] == types[0][0],
    decreases types.len(),
{
    if types.len() > 1 {
        lemma_joined_start(types.drop_last());
    }
}

proof fn lemma_trimmed_end(s: Seq<char>)
    requires
        s.len() > 0,
        !is_space(s[0]),
    ensures
        trimmed_end(s).len() > 0,
    decreases s.len(),
{
    if is_space(s.last()) {
        lemma_trimmed_end(s.drop_last());
    }
}

/// The name of a class is what stands between the letter and the semicolon of its descriptor,
/// with dots for slashes.
pub proof fn law_descriptor_reads_back(desc: &str, out: String, name: Seq<char>, i: int)
    requires
        call_ensures(descriptor_to_dotted, (desc,), out),
        desc@ == seq!['L'] + name + seq![';'],
        name.len() > 0,
        name[0] != 'L',
        lacks(name, ';'),
        0 <= i < name.len(),
    ensures
        out@.len() == name.len(),
        name[i] != '/' ==> out@[i] == name[i],
        name[i] == '/' ==> out@[i] == '.',
{
    let rest = name + seq![';'];
    assert(desc@[0] == 'L');
    assert(desc@.skip(1) =~= rest);
    assert(rest[0] == name[0]);
    assert(without_l(rest) == rest);
    assert(without_l(desc@) == rest);
    lemma_pieces_first(name, Seq::empty(), ';');
    assert(rest =~= name + seq![';'] + Seq::<char>::empty());
}

/// A parameter for which no slot is left is shown as missing, by its letter.
pub proof fn law_missing_parameters(shorty: Seq<char>, words: Seq<u32>, k: int, i: int)
    requires
        0 <= k < shorty.len(),
        i >= words.len(),
    ensures
        arg_parts(shorty, words, k, i).len() == shorty.len() - k,
        arg_parts(shorty, words, k, i)[0] == ArgPart::Missing(shorty[k]),
    decreases shorty.len() - k,
{
    if k + 1 < shorty.len() {
        law_missing_parameters(shorty, words, k + 1, i);
    } else {
        assert(arg_parts(shorty, words, k + 1, i).len() == 0);
    }
}

/// Slots that no parameter takes are shown together, from the first of them on.
pub proof fn law_left_over_slots(shorty: Seq<char>, words: Seq<u32>, i: int)
    requires
        0 <= i < words.len() <= usize::MAX,
    ensures
        arg_parts(shorty, words, shorty.len() as int, i) == seq![ArgPart::Extra(i as usize)],
{
}

/// The hook that counts is the last one that is in place.
pub proof fn law_last_hook_counts(ids: &Vec<Option<u32>>, r: Result<u32, ArtError>, k: int, id: u32)
    requires
        call_ensures(hooked_result, (ids,), r),
        0 <= k < ids@.len(),
        ids@[k] == Some(id),
        forall|j: int| k < j < ids@.len() ==> (#[trigger] ids@[j]) is None,
    ensures
        r == Ok::<u32, ArtError>(id),
{
    lemma_last_hook(ids@, k);
}

proof fn lemma_last_hook(ids: Seq<Option<u32>>, k: int)
    requires
        0 <= k < ids.len(),
        ids[k] is Some,
        forall|j: int| k < j < ids.len() ==> (#[trigger] ids[j]) is None,
    ensures
        last_hook(ids) == ids[k],
    decreases ids.len(),
{
    if k < ids.len() - 1 {
        assert(ids[ids.len() - 1] is None);
        let init = ids.drop_last();
        assert forall|j: int| k < j < init.len() implies (#[trigger] init[j]) is None by {
            assert(ids[j] is None);
        }
        lemma_last_hook(init, k);
    }
}

/// A short string of the runtime is kept in the object itself, behind its first byte and up to a
/// zero; a long one elsewhere, where the object says, with the length that it says.
pub proof fn law_runtime_string(buf: &[u8; 32], r: CppString, n: int)
    requires
        call_ensures(read_libcpp_string, (buf,), r),
    ensures
        buf@[0] % 2 == 0 && 0 <= n <= 22 && buf@[n + 1] == 0 && (forall|i: int|
            1 <= i <= n ==> buf@[i] != 0) ==> (r matches CppString::Inline(b) && b@ == buf@.subrange(
            1,
            n + 1,
        )),
        buf@[0] % 2 == 1 && quad_at(buf@, 16) != 0 && quad_at(buf@, 8) <= 4096 ==> r == (
        CppString::Outside { ptr: quad_at(buf@, 16), size: quad_at(buf@, 8) }),
{
    if buf@[0] % 2 == 0 && 0 <= n <= 22 && buf@[n + 1] == 0 && (forall|i: int|
        1 <= i <= n ==> buf@[i] != 0) {
        lemma_zero_at(buf@, 1, n + 1, 24);
    }
}

proof fn lemma_zero_at(b: Seq<u8>, from: int, k: int, to: int)
    requires
        0 <= from <= k < to <= b.len(),
        b[k] == 0,
        forall|i: int| from <= i < k ==> b[i] != 0,
    ensures
        nul_from(b, from, to) == k,
    decreases k - from,
{
    if from < k {
        lemma_zero_at(b, from + 1, k, to);
    }
}

/// A class that is never shown is so with its nested classes, whatever the prefixes say.
pub proof fn law_noise_is_never_shown(
    trace: &ApiTrace,
    class: &str,
    r: bool,
    rest: Seq<char>,
    i: int,
)
    requires
        call_ensures(class_matches_filter, (trace, class), r),
        0 <= i < noise_classes().len(),
        class@ == noise_classes()[i] || class@ == noise_classes()[i] + seq!['$'] + rest,
    ensures
        !r,
{
    let p = noise_classes()[i];
    if class@ != p {
        assert(class@.take(p.len() as int + 1) =~= p.push('$'));
    }
    assert(in_class(class@, noise_classes()[i]));
}

/// A function that the runtime has under two names is taken by the first one, and by the second
/// where it has only that; without the one that names methods there is no trace.
pub proof fn law_helpers(found: &Vec<Option<u64>>, r: Result<Helpers, ArtError>)
    requires
        call_ensures(resolve_helpers, (found,), r),
        found@.len() == 9,
    ensures
        r is Ok <==> found@[0] is Some || found@[1] is Some,
        r matches Ok(h) ==> {
            &&& found@[0] matches Some(a) ==> h.pretty_method == a
            &&& found@[0] is None ==> found@[1] == Some(h.pretty_method)
            &&& found@[2] is Some ==> h.get_shorty == found@[2]
            &&& found@[2] is None ==> h.get_shorty == found@[3]
            &&& found@[4] is Some ==> h.get_component == found@[4]
            &&& found@[4] is None ==> h.get_component == found@[5]
            &&& h.get_descriptor == found@[6]
            &&& h.thread_current == found@[7]
            &&& h.decode_object == found@[8]
        },
{
}

/// A reference can be one to an object where it is aligned and behind the first page, and an
/// array is read where it has no more than 256 elements.
pub proof fn law_plausible_references(compressed: u32, r: bool, length: i32, n: Option<usize>)
    requires
        call_ensures(plausible_object, (compressed,), r),
        call_ensures(array_length, (length,), n),
    ensures
        r <==> compressed >= 4096 && compressed & 7 == 0,
        n matches Some(k) ==> k == length && k <= 256,
        n is None <==> length < 0 || length > 256,
{
    assert(compressed % 8 == 0 <==> compressed & 7 == 0) by (bit_vector);
}

/// The letters of a method are those that its shown form gives, else those that were registered,
/// else those of the runtime.
pub proof fn law_letters_are_chosen(label: &str, a: Option<String>, b: Option<String>, s: String)
    requires
        call_ensures(choose_shorty, (label, a, b), s),
    ensures
        pretty_shorty(label@) matches Some(p) ==> s@ == p,
        pretty_shorty(label@) is None ==> {
            &&& a matches Some(x) ==> s@ == x@
            &&& a is None ==> (b matches Some(y) ==> s@ == y@)
            &&& a is None && b is None ==> s@.len() == 0
        },
{
}

} // verus!
