//! What is read of processes and what is done to them.
use crate::bytes::{le64, quad_at, word_at};
use crate::discover::{
    arguments, cmdline_text, command, find_by_package, is_main, process_number, DiscoverError,
    ProcessInfo,
};
use crate::elf::{nul_from, utf8_lossy};
use crate::inject::{find_libc, find_libdl, libc_names, libdl_names, InjectError};
use crate::maps::{
    code_ranges, find_libart, find_so, first_word, gadget_ranges, in_code, is_code_line,
    is_gadget_line, last_libc, last_word, libart_from, libc_code, line_holds, line_range, literals,
    named, searched, so_line, so_place, SoFound, SoPlace,
};
use crate::numbers::{hex_or_zero, law_fault_iff_no_number, number_fault, signed_numeral};
use crate::procfs::{
    can_trace, cap_eff, field_from, is_blank, list_tids, numbers_in, parent_pid, proc_uid,
    tracer_pid, trim_attr, unblanked_end, unblanked_start, Ancestors,
};
use crate::remote::{
    after_stop, check_args, cont_until_pc, find_brk_gadget, find_svc_gadget, is_brk, is_death,
    is_exit, is_stop, looked_at, may_stop_tracer, plant_brk_in_libc, ptrace_rule, remote_call_stub,
    remote_call_with_lr, remote_syscall, rule_source, selinux_type, stop_signal, words_to_poke,
    Landing, PlantEnd, PlantPhase, PlantedBrk, Regs, Release, StopFault, StopPhase, TraceeError,
};
use crate::split::{lines_of, pieces, words_of};
use crate::text::{
    decimal, has_part, has_prefix, hexadecimal, is_space, joined, numeral, numeral_max,
    signed_decimal, trimmed_start, views,
};
use crate::text_laws::{
    is_digit, is_word, lacks, law_decimal_reads_back, law_hexadecimal_reads_back,
    law_words_undo_join, lemma_numerals_are_words, lemma_pieces_first, lemma_trimmed_word,
    lemma_words_first,
};
use crate::spawn::{wait_for_package, Awaited};
use vstd::prelude::*;
use vstd::string::*;

verus! {

/// A line of a map of memory: a range in hexadecimal and words behind it.
pub open spec fn map_line(start: u64, end: u64, rest: Seq<Seq<char>>) -> Seq<char> {
    joined(
        seq![hexadecimal(start as nat) + seq!['-'] + hexadecimal(end as nat)] + rest,
        seq![' '],
    )
}

/// Whether all are words.
pub open spec fn are_words(ws: Seq<Seq<char>>) -> bool {
    forall|i: int| 0 <= i < ws.len() ==> is_word(#[trigger] ws[i])
}

proof fn lemma_map_line(start: u64, end: u64, rest: Seq<Seq<char>>)
    requires
        are_words(rest),
    ensures
        ({
            let line = map_line(start, end, rest);
            let range = hexadecimal(start as nat) + seq!['-'] + hexadecimal(end as nat);
            &&& words_of(line) == seq![range] + rest
            &&& first_word(line) == range
            &&& pieces(range, '-') == seq![hexadecimal(start as nat), hexadecimal(end as nat)]
            &&& line_range(line) == (start, end)
            &&& hex_or_zero(hexadecimal(start as nat)) == start
            &&& number_fault(hexadecimal(start as nat), 16, u64::MAX as nat) is None
            &&& numeral_max(hexadecimal(start as nat), 16, u64::MAX as nat) == Some(start as nat)
        }),
{
    let a = hexadecimal(start as nat);
    let b = hexadecimal(end as nat);
    let range = a + seq!['-'] + b;
    law_hexadecimal_reads_back(start as nat);
    law_hexadecimal_reads_back(end as nat);
    lemma_numerals_are_words(start as nat);
    lemma_numerals_are_words(end as nat);
    assert(is_word(range)) by {
        assert forall|i: int| 0 <= i < range.len() implies !is_space(#[trigger] range[i]) by {
            if i < a.len() {
                assert(range[i] == a[i]);
            } else if i > a.len() {
                assert(range[i] == b[i - a.len() - 1]);
            }
        }
    }
    let ws = seq![range] + rest;
    assert forall|i: int| 0 <= i < ws.len() implies is_word(#[trigger] ws[i]) by {
        if i > 0 {
            assert(ws[i] == rest[i - 1]);
        }
    }
    law_words_undo_join(ws);
    assert(lacks(a, '-'));
    assert(lacks(b, '-'));
    lemma_pieces_first(b, Seq::empty(), '-');
    lemma_pieces_first(a, b, '-');
    assert(seq![a] + seq![b] =~= seq![a, b]);
    law_fault_iff_no_number(a, 16, u64::MAX as nat);
}

/// An address is in code where a line of the map holds it that may be run: from the start of the
/// line's range to before its end.
pub proof fn law_address_in_code(
    maps: &str,
    addr: u64,
    r: bool,
    k: int,
    start: u64,
    end: u64,
    rest: Seq<Seq<char>>,
)
    requires
        call_ensures(in_code, (maps, addr), r),
        0 <= k < lines_of(maps@).len(),
        lines_of(maps@)[k] == map_line(start, end, rest),
        are_words(rest),
        has_part(map_line(start, end, rest), "r-xp"@),
    ensures
        start <= addr < end ==> r,
        lines_of(maps@).len() == 1 ==> r == (start <= addr < end),
{
    lemma_map_line(start, end, rest);
    assert(line_holds(lines_of(maps@)[k], addr) == (start <= addr < end));
    if lines_of(maps@).len() == 1 && r {
        let i = choose|i: int|
            0 <= i < lines_of(maps@).len() && line_holds(#[trigger] lines_of(maps@)[i], addr);
        assert(i == k);
    }
}

/// The load address of a library is found from the first line that names it: that line starts as
/// far behind it as the line's offset in the file.
pub proof fn law_library_is_found(
    maps: &str,
    needles: &[&'static str],
    r: SoPlace,
    k: int,
    start: u64,
    end: u64,
    off: u64,
    mode: Seq<char>,
    rest: Seq<Seq<char>>,
)
    requires
        call_ensures(find_so, (maps, needles), r),
        0 <= k < lines_of(maps@).len(),
        rest.len() > 0,
        is_word(mode),
        are_words(rest),
        lines_of(maps@)[k] == map_line(start, end, seq![mode, hexadecimal(off as nat)] + rest),
        rest.last()[0] == '/',
        named(rest.last(), literals(needles@)),
        forall|j: int|
            0 <= j < k ==> !named(last_word(#[trigger] lines_of(maps@)[j]), literals(needles@)),
        off <= start,
    ensures
        r matches SoPlace::At(bias, path) && bias + off == start && path@ == rest.last(),
{
    let all = seq![mode, hexadecimal(off as nat)] + rest;
    lemma_numerals_are_words(off as nat);
    assert forall|i: int| 0 <= i < all.len() implies is_word(#[trigger] all[i]) by {
        if i >= 2 {
            assert(all[i] == rest[i - 2]);
        }
    }
    lemma_map_line(start, end, all);
    law_hexadecimal_reads_back(off as nat);
    law_fault_iff_no_number(hexadecimal(off as nat), 16, u64::MAX as nat);
    lemma_first_named(lines_of(maps@), literals(needles@), 0, k);
    let ws = words_of(lines_of(maps@)[k]);
    assert(ws.last() == rest.last());
    assert(ws[2] == hexadecimal(off as nat));
    assert(is_word(rest.last()));
}

proof fn lemma_first_named(ls: Seq<Seq<char>>, needles: Seq<Seq<char>>, i: int, k: int)
    requires
        0 <= i <= k < ls.len(),
        forall|j: int| i <= j < k ==> !named(last_word(#[trigger] ls[j]), needles),
    ensures
        so_place(ls, needles, i) == so_place(ls, needles, k),
    decreases k - i,
{
    if i < k {
        assert(!named(last_word(ls[i]), needles));
        lemma_first_named(ls, needles, i + 1, k);
    }
}

/// A library that was found is one that some line names, and its load address is that line's
/// start less its offset.
pub proof fn law_found_library(maps: &str, needles: &[&'static str], bias: u64, path: String) -> (k:
    int)
    requires
        call_ensures(find_so, (maps, needles), SoPlace::At(bias, path)),
    ensures
        0 <= k < lines_of(maps@).len(),
        path@ == last_word(lines_of(maps@)[k]),
        named(path@, literals(needles@)),
        path@[0] == '/',
        line_range(lines_of(maps@)[k]).0 >= bias,
{
    lemma_so_place(lines_of(maps@), literals(needles@), 0, bias, path@)
}

proof fn lemma_so_place(
    ls: Seq<Seq<char>>,
    needles: Seq<Seq<char>>,
    i: int,
    bias: u64,
    path: Seq<char>,
) -> (k: int)
    requires
        0 <= i,
        so_place(ls, needles, i) == SoFound::At(bias, path),
    ensures
        i <= k < ls.len(),
        path == last_word(ls[k]),
        named(path, needles),
        path[0] == '/',
        line_range(ls[k]).0 >= bias,
    decreases ls.len() - i,
{
    if so_line(ls[i], needles) is None {
        lemma_so_place(ls, needles, i + 1, bias, path)
    } else {
        i
    }
}

/// A range that is searched for instructions is the code of one of the loader's libraries, from
/// its start and no longer than it is.
pub proof fn law_searched_range(maps: &str, out: Vec<(u64, u64)>, i: int) -> (k: int)
    requires
        call_ensures(code_ranges, (maps,), out),
        0 <= i < out@.len(),
    ensures
        0 <= k < lines_of(maps@).len(),
        is_code_line(lines_of(maps@)[k]),
        has_part(lines_of(maps@)[k], "libc.so"@) || has_part(lines_of(maps@)[k], "libdl.so"@)
            || has_part(lines_of(maps@)[k], "/linker"@),
        out@[i].0 == line_range(lines_of(maps@)[k]).0,
        0 < out@[i].1 <= 0x20_0000,
        out@[i].0 + out@[i].1 <= line_range(lines_of(maps@)[k]).1,
        out@[i].1 < 0x20_0000 ==> out@[i].0 + out@[i].1 == line_range(lines_of(maps@)[k]).1,
{
    lemma_gadget_ranges(lines_of(maps@), 0, i)
}

proof fn lemma_gadget_ranges(ls: Seq<Seq<char>>, k: int, i: int) -> (j: int)
    requires
        0 <= k,
        0 <= i < gadget_ranges(ls, k).len(),
    ensures
        k <= j < ls.len(),
        is_gadget_line(ls[j]),
        gadget_ranges(ls, k)[i] == (
            line_range(ls[j]).0,
            searched(line_range(ls[j]).0, line_range(ls[j]).1),
        ),
    decreases ls.len() - k,
{
    if is_gadget_line(ls[k]) {
        if i == 0 {
            k
        } else {
            lemma_gadget_ranges(ls, k + 1, i - 1)
        }
    } else {
        lemma_gadget_ranges(ls, k + 1, i)
    }
}

/// The code of the C library is that of the last line that may be run and names it.
pub proof fn law_library_code(maps: &str, start: u64, end: u64) -> (k: int)
    requires
        call_ensures(libc_code, (maps,), Some((start, end))),
    ensures
        0 <= k < lines_of(maps@).len(),
        is_code_line(lines_of(maps@)[k]),
        has_part(lines_of(maps@)[k], "libc.so"@),
        line_range(lines_of(maps@)[k]) == (start, end),
        start + 4 < end,
{
    lemma_last_libc(lines_of(maps@), lines_of(maps@).len() as int)
}

proof fn lemma_last_libc(ls: Seq<Seq<char>>, n: int) -> (k: int)
    requires
        0 <= n <= ls.len(),
        last_libc(ls, n) is Some,
    ensures
        0 <= k < n,
        is_code_line(ls[k]),
        has_part(ls[k], "libc.so"@),
        Some(line_range(ls[k])) == last_libc(ls, n),
        line_range(ls[k]).0 + 4 < line_range(ls[k]).1,
    decreases n,
{
    let (start, end) = line_range(ls[n - 1]);
    if is_code_line(ls[n - 1]) && has_part(ls[n - 1], "libc.so"@) && end > start + 4 {
        n - 1
    } else {
        lemma_last_libc(ls, n - 1)
    }
}

/// A breakpoint is planted on an instruction that lies whole in the code of the C library, the
/// last one there, and its page holds it.
pub proof fn law_break_is_in_the_library(maps: &str, size: u64, p: PlantedBrk) -> (k: int)
    requires
        size > 0,
        call_ensures(plant_brk_in_libc, (maps, size), Ok::<PlantedBrk, TraceeError>(p)),
    ensures
        0 <= k < lines_of(maps@).len(),
        has_part(lines_of(maps@)[k], "libc.so"@),
        ({
            let (start, end) = line_range(lines_of(maps@)[k]);
            &&& start % 4 == 0 ==> start <= p.addr
            &&& p.addr + 4 <= end < p.addr + 8
        }),
        p.addr % 4 == 0,
        p.page <= p.addr < p.page + size,
        p.page % size == 0,
        p.page_len == size,
{
    let k = lemma_last_libc(lines_of(maps@), lines_of(maps@).len() as int);
    let (start, end) = line_range(lines_of(maps@)[k]);
    lemma_round_down(end as int, start as int, p.addr as int);
    lemma_page(p.addr as int, size as int, p.page as int);
    k
}

proof fn lemma_round_down(end: int, start: int, addr: int)
    requires
        0 <= start,
        start + 4 < end,
        addr == (end - 4) - (end - 4) % 4,
    ensures
        addr % 4 == 0,
        addr + 4 <= end < addr + 8,
        start % 4 == 0 ==> start <= addr,
{
}

proof fn lemma_page(addr: int, size: int, page: int)
    requires
        0 <= addr,
        size > 0,
        page == addr - addr % size,
    ensures
        page % size == 0,
        page <= addr < page + size,
{
    assert(page % size == 0 && 0 <= addr % size < size) by (nonlinear_arith)
        requires
            page == addr - addr % size,
            size > 0,
            addr >= 0,
    ;
}

/// The runtime's library is found by its name: its path is the last word of a line that names it,
/// and its load address no higher than the start of such a line.
pub proof fn law_found_runtime(maps: &str, bias: u64, path: String) -> (w: (int, int))
    requires
        call_ensures(find_libart, (maps,), Some((bias, path))),
    ensures
        ({
            let ls = lines_of(maps@);
            let (i, j) = w;
            &&& 0 <= i < ls.len()
            &&& 0 <= j < ls.len()
            &&& has_part(ls[i], "libart.so"@)
            &&& has_part(ls[j], "libart.so"@)
            &&& words_of(ls[i]).len() > 2
            &&& numeral(pieces(first_word(ls[i]), '-')[0], 16) matches Some(start)
            &&& numeral(words_of(ls[i])[2], 16) matches Some(off)
            &&& bias + off == start
            &&& path@ == words_of(ls[j]).last()
            &&& has_prefix(path@, "/"@)
        }),
{
    lemma_libart(lines_of(maps@), 0, None, None, bias, path@, 0, 0)
}

/// Whether a line gives the load address of the runtime's library.
spec fn gives_bias(ls: Seq<Seq<char>>, i: int, bias: u64) -> bool {
    &&& 0 <= i < ls.len()
    &&& has_part(ls[i], "libart.so"@)
    &&& words_of(ls[i]).len() > 2
    &&& numeral(pieces(first_word(ls[i]), '-')[0], 16) matches Some(start)
    &&& numeral(words_of(ls[i])[2], 16) matches Some(off)
    &&& bias + off == start
}

/// Whether a line gives the path of the runtime's library.
spec fn gives_path(ls: Seq<Seq<char>>, j: int, path: Seq<char>) -> bool {
    &&& 0 <= j < ls.len()
    &&& has_part(ls[j], "libart.so"@)
    &&& path == words_of(ls[j]).last()
    &&& has_prefix(path, "/"@)
}

proof fn lemma_libart(
    ls: Seq<Seq<char>>,
    k: int,
    bias: Option<u64>,
    path: Option<Seq<char>>,
    b: u64,
    p: Seq<char>,
    i: int,
    j: int,
) -> (w: (int, int))
    requires
        0 <= k,
        bias matches Some(v) ==> gives_bias(ls, i, v),
        path matches Some(v) ==> gives_path(ls, j, v),
        libart_from(ls, k, bias, path) == Some((b, p)),
    ensures
        gives_bias(ls, w.0, b),
        gives_path(ls, w.1, p),
    decreases ls.len() - k,
{
    if bias is Some && path is Some {
        (i, j)
    } else if !has_part(ls[k], "libart.so"@) {
        lemma_libart(ls, k + 1, bias, path, b, p, i, j)
    } else {
        let ws = words_of(ls[k]);
        let start = numeral_max(pieces(first_word(ls[k]), '-')[0], 16, u64::MAX as nat).unwrap();
        let off = numeral_max(ws[2], 16, u64::MAX as nat).unwrap();
        let (next_bias, ni) = if start >= off {
            (Some((start - off) as u64), k)
        } else {
            (bias, i)
        };
        let (next_path, nj) = if ws.len() > 3 && has_prefix(ws.last(), "/"@) {
            (Some(ws.last()), k)
        } else {
            (path, j)
        };
        lemma_libart(ls, k + 1, next_bias, next_path, b, p, ni, nj)
    }
}

proof fn lemma_field(ls: Seq<Seq<char>>, prefix: Seq<char>, i: int, k: int, v: Seq<char>)
    requires
        0 <= i <= k < ls.len(),
        forall|j: int| i <= j < k ==> !has_prefix(#[trigger] ls[j], prefix),
        ls[k] == prefix + v,
    ensures
        field_from(ls, prefix, i) == Some(v),
    decreases k - i,
{
    if i < k {
        assert(!has_prefix(ls[i], prefix));
        lemma_field(ls, prefix, i + 1, k, v);
    } else {
        assert(ls[k].take(prefix.len() as int) =~= prefix);
        assert(ls[k].skip(prefix.len() as int) =~= v);
    }
}

/// Whether a line of a status is the first with a label, and holds a value behind a tab.
pub open spec fn tells(status: Seq<char>, label: Seq<char>, v: Seq<char>) -> bool {
    exists|k: int|
        {
            &&& 0 <= k < lines_of(status).len()
            &&& #[trigger] lines_of(status)[k] == label + (seq!['\t'] + v)
            &&& forall|j: int|
                0 <= j < k ==> !has_prefix(#[trigger] lines_of(status)[j], label)
        }
}

proof fn lemma_told(status: Seq<char>, label: Seq<char>, v: Seq<char>)
    requires
        tells(status, label, v),
    ensures
        field_from(lines_of(status), label, 0) == Some(seq!['\t'] + v),
{
    let k = choose|k: int|
        {
            &&& 0 <= k < lines_of(status).len()
            &&& #[trigger] lines_of(status)[k] == label + (seq!['\t'] + v)
            &&& forall|j: int|
                0 <= j < k ==> !has_prefix(#[trigger] lines_of(status)[j], label)
        };
    lemma_field(lines_of(status), label, 0, k, seq!['\t'] + v);
}

/// The tracer, the parent and the capabilities of a process are read from its status as they
/// stand there.
pub proof fn law_status_reads_back(
    status: &str,
    tracer: Option<i32>,
    parent: u32,
    caps: u64,
    n: i32,
    m: u32,
    c: u64,
)
    requires
        call_ensures(tracer_pid, (status,), tracer),
        call_ensures(parent_pid, (status,), parent),
        call_ensures(cap_eff, (status,), caps),
    ensures
        tells(status@, "TracerPid:"@, signed_decimal(n as int)) ==> tracer == Some(n),
        tells(status@, "PPid:"@, decimal(m as nat)) ==> parent == m,
        tells(status@, "CapEff:"@, hexadecimal(c as nat)) ==> caps == c,
{
    if tells(status@, "TracerPid:"@, signed_decimal(n as int)) {
        lemma_told(status@, "TracerPid:"@, signed_decimal(n as int));
        lemma_signed_numeral(n);
        lemma_trimmed_word(signed_decimal(n as int));
    }
    if tells(status@, "PPid:"@, decimal(m as nat)) {
        lemma_told(status@, "PPid:"@, decimal(m as nat));
        lemma_numerals_are_words(m as nat);
        lemma_trimmed_word(decimal(m as nat));
        law_decimal_reads_back(m as nat);
    }
    if tells(status@, "CapEff:"@, hexadecimal(c as nat)) {
        lemma_told(status@, "CapEff:"@, hexadecimal(c as nat));
        lemma_numerals_are_words(c as nat);
        lemma_trimmed_word(hexadecimal(c as nat));
        law_hexadecimal_reads_back(c as nat);
    }
}

proof fn lemma_signed_numeral(n: i32)
    ensures
        signed_numeral(signed_decimal(n as int)) == Some(n),
        is_word(signed_decimal(n as int)),
{
    if n < 0 {
        let m = (0 - n) as nat;
        lemma_numerals_are_words(m);
        law_decimal_reads_back(m);
        assert(signed_decimal(n as int).skip(1) =~= decimal(m));
        assert(0 - m == n);
    } else {
        lemma_numerals_are_words(n as nat);
        law_decimal_reads_back(n as nat);
        assert(is_digit(decimal(n as nat)[0]));
    }
}

/// The user of a process is the first of those that its status tells.
pub proof fn law_user_reads_back(status: &str, uid: u32, n: u32, others: Seq<Seq<char>>)
    requires
        call_ensures(proc_uid, (status,), uid),
        are_words(others),
        tells(status@, "Uid:"@, joined(seq![decimal(n as nat)] + others, seq![' '])),
    ensures
        uid == n,
{
    let ws = seq![decimal(n as nat)] + others;
    let v = joined(ws, seq![' ']);
    lemma_told(status@, "Uid:"@, v);
    lemma_numerals_are_words(n as nat);
    assert forall|i: int| 0 <= i < ws.len() implies is_word(#[trigger] ws[i]) by {
        if i > 0 {
            assert(ws[i] == others[i - 1]);
        }
    }
    law_words_undo_join(ws);
    let t = seq!['\t'] + v;
    assert(words_of(t) == words_of(v)) by {
        assert(is_space(t[0]));
        assert(t.skip(1) =~= v);
        assert(trimmed_start(t) == trimmed_start(v));
    }
    law_decimal_reads_back(n as nat);
}

/// A process may trace others where its capabilities have bit 19.
pub proof fn law_trace_capability(caps: u64, r: bool)
    requires
        call_ensures(can_trace, (caps,), r),
    ensures
        r <==> caps & (1u64 << 19) != 0,
{
    assert((caps / 0x8_0000) % 2 == 1 <==> caps & (1u64 << 19) != 0) by (bit_vector);
}

/// The threads of a process are the numbers among the names that were listed, in their order.
pub proof fn law_threads_read_back(pid: i32, names: &Vec<String>, tids: Vec<i32>, ids: Seq<i32>)
    requires
        call_ensures(list_tids, (pid, names), tids),
        names@.len() == ids.len(),
        forall|i: int| 0 <= i < ids.len() ==> (#[trigger] names@[i])@ == signed_decimal(ids[i] as int),
    ensures
        ids.len() > 0 ==> tids@ == ids,
        ids.len() == 0 ==> tids@ == seq![pid],
{
    lemma_numbers_in(views(names@), ids);
}

proof fn lemma_numbers_in(names: Seq<Seq<char>>, ids: Seq<i32>)
    requires
        names.len() == ids.len(),
        forall|i: int| 0 <= i < ids.len() ==> #[trigger] names[i] == signed_decimal(ids[i] as int),
    ensures
        numbers_in(names) == ids,
    decreases ids.len(),
{
    if ids.len() > 0 {
        let n = ids.len() - 1;
        assert(names[n] == signed_decimal(ids[n] as int));
        lemma_signed_numeral(ids[n]);
        assert forall|i: int| 0 <= i < n implies #[trigger] names.drop_last()[i] == signed_decimal(
            ids.drop_last()[i] as int,
        ) by {
            assert(names[i] == signed_decimal(ids[i] as int));
        }
        lemma_numbers_in(names.drop_last(), ids.drop_last());
        assert(ids.drop_last().push(ids[n]) =~= ids);
    } else {
        assert(numbers_in(names) =~= ids);
    }
}

/// The ancestors of a process are listed once each, and none of them is the first process.
pub proof fn law_ancestors_are_distinct(a: &mut Ancestors, status: &str, r: Option<u32>)
    requires
        old(a).steps <= 32,
        old(a).pids@.no_duplicates(),
        call_ensures(Ancestors::next, (a, status), r),
    ensures
        final(a).pids@.no_duplicates(),
        r matches Some(p) ==> p > 1 && final(a).pids@.last() == p && !old(a).pids@.contains(p),
        final(a).pids@.len() <= old(a).pids@.len() + 1,
        final(a).steps <= 32,
        final(a).steps > old(a).steps || r is None,
{
}

proof fn lemma_unblanked_start(s: Seq<char>)
    ensures
        unblanked_start(s).len() <= s.len(),
        unblanked_start(s).len() > 0 ==> !is_blank(unblanked_start(s)[0]),
        unblanked_start(s) == s.skip(s.len() - unblanked_start(s).len()),
        forall|i: int| 0 <= i < s.len() - unblanked_start(s).len() ==> is_blank(#[trigger] s[i]),
    decreases s.len(),
{
    if s.len() > 0 && is_blank(s[0]) {
        let t = s.skip(1);
        lemma_unblanked_start(t);
        assert forall|i: int| 0 <= i < s.len() - unblanked_start(s).len() implies is_blank(
            #[trigger] s[i],
        ) by {
            if i > 0 {
                assert(s[i] == t[i - 1]);
            }
        }
        assert(unblanked_start(s) =~= s.skip(s.len() - unblanked_start(s).len()));
    } else {
        assert(s.skip(0) =~= s);
    }
}

proof fn lemma_unblanked_end(s: Seq<char>)
    ensures
        unblanked_end(s).len() <= s.len(),
        unblanked_end(s).len() > 0 ==> !is_blank(unblanked_end(s).last()),
        unblanked_end(s) == s.take(unblanked_end(s).len() as int),
        forall|i: int| unblanked_end(s).len() <= i < s.len() ==> is_blank(#[trigger] s[i]),
    decreases s.len(),
{
    if s.len() > 0 && is_blank(s.last()) {
        let t = s.drop_last();
        lemma_unblanked_end(t);
        assert forall|i: int| unblanked_end(s).len() <= i < s.len() implies is_blank(
            #[trigger] s[i],
        ) by {
            if i < s.len() - 1 {
                assert(s[i] == t[i]);
            }
        }
        assert(unblanked_end(s) =~= s.take(unblanked_end(s).len() as int));
    } else {
        assert(s.take(s.len() as int) =~= s);
    }
}

/// An attribute of a process is its text without the blanks and zeros at its ends, and nothing
/// else is left out.
pub proof fn law_attribute_is_trimmed(text: &str, out: String) -> (w: (int, int))
    requires
        call_ensures(trim_attr, (text,), out),
    ensures
        0 <= w.0 <= w.1 <= text@.len(),
        out@ == text@.subrange(w.0, w.1),
        forall|i: int| 0 <= i < w.0 || w.1 <= i < text@.len() ==> is_blank(#[trigger] text@[i]),
        out@.len() > 0 ==> !is_blank(out@[0]) && !is_blank(out@.last()),
{
    let s = text@;
    let t = unblanked_start(s);
    lemma_unblanked_start(s);
    lemma_unblanked_end(t);
    let from = s.len() - t.len();
    let to = from + out@.len();
    assert(out@ =~= s.subrange(from, to));
    assert forall|i: int| 0 <= i < from || to <= i < s.len() implies is_blank(#[trigger] s[i]) by {
        if i >= to {
            assert(t[i - from] == s[i]);
        }
    }
    if out@.len() > 0 {
        assert(out@[0] == t[0]);
    }
    (from, to)
}

/// The arguments of a process as they stand in its command line: each ends with a zero.
pub open spec fn zero_ended(args: Seq<Seq<u8>>) -> Seq<u8>
    decreases args.len(),
{
    if args.len() == 0 {
        Seq::empty()
    } else {
        args[0] + seq![0u8] + zero_ended(args.skip(1))
    }
}

/// The command line of a process is shown as its arguments with spaces between them.
pub proof fn law_command_line_reads_back(raw: &[u8], s: String, args: Seq<Seq<u8>>)
    requires
        call_ensures(cmdline_text, (raw,), s),
        raw@ == zero_ended(args),
        forall|i: int|
            0 <= i < args.len() ==> (#[trigger] args[i]).len() > 0 && !args[i].contains(0u8),
    ensures
        s@ == joined(args.map_values(|b: Seq<u8>| utf8_lossy(b)), " "@),
{
    lemma_arguments(Seq::empty(), args);
    assert(Seq::<u8>::empty() + raw@ =~= raw@);
}

proof fn lemma_arguments(done: Seq<u8>, args: Seq<Seq<u8>>)
    requires
        forall|i: int|
            0 <= i < args.len() ==> (#[trigger] args[i]).len() > 0 && !args[i].contains(0u8),
    ensures
        arguments(done + zero_ended(args), done.len() as int) == args,
    decreases args.len(),
{
    let raw = done + zero_ended(args);
    if args.len() == 0 {
        assert(arguments(raw, done.len() as int) =~= args);
    } else {
        let a = args[0];
        let rest = args.skip(1);
        let next = done + a + seq![0u8];
        assert(raw =~= next + zero_ended(rest));
        assert(a.len() > 0 && !a.contains(0u8));
        let end = done.len() + a.len() as int;
        assert forall|i: int| done.len() <= i < end implies raw[i] != 0 by {
            assert(raw[i] == a[i - done.len()]);
            assert(a.contains(a[i - done.len()]));
        }
        assert(raw[end] == 0);
        lemma_nul_place(raw, done.len() as int, end);
        assert forall|i: int| 0 <= i < rest.len() implies (#[trigger] rest[i]).len() > 0
            && !rest[i].contains(0u8) by {
            assert(rest[i] == args[i + 1]);
        }
        lemma_arguments(next, rest);
        assert(raw.subrange(done.len() as int, end) =~= a);
        assert(seq![a] + rest =~= args);
    }
}

proof fn lemma_nul_place(raw: Seq<u8>, from: int, end: int)
    requires
        0 <= from <= end < raw.len(),
        raw[end] == 0,
        forall|i: int| from <= i < end ==> raw[i] != 0,
    ensures
        nul_from(raw, from, raw.len() as int) == end,
    decreases end - from,
{
    if from < end {
        lemma_nul_place(raw, from + 1, end);
    }
}

/// The process that is found by the name of its package runs that package, is not one to skip,
/// and is an app's; a main process is taken before the others.
pub proof fn law_found_process(
    package: &str,
    procs: Vec<(u32, ProcessInfo)>,
    skip: &Vec<u32>,
    p: ProcessInfo,
) -> (i: int)
    requires
        call_ensures(find_by_package, (package, procs, skip), Ok::<ProcessInfo, DiscoverError>(p)),
    ensures
        0 <= i < procs@.len(),
        procs@[i].1 == p,
        procs@[i].0 >= 10_000,
        !skip@.contains(p.pid),
        command(p.cmdline@) matches Some(w) ==> w == package@ || has_prefix(w, package@.push(':')),
        forall|j: int|
            #![trigger procs@[j]]
            0 <= j < procs@.len() && procs@[j].0 >= 10_000 && !skip@.contains(procs@[j].1.pid)
                && command(procs@[j].1.cmdline@) == Some(package@) && package@.len() > 0 ==> command(
                p.cmdline@,
            ) == Some(package@) && procs@[i].0 <= procs@[j].0,
{
    let i = choose|i: int|
        #[trigger] crate::discover::is_choice(procs@, package@, skip@, i) && p == procs@[i].1;
    assert forall|j: int|
        #![trigger procs@[j]]
        0 <= j < procs@.len() && procs@[j].0 >= 10_000 && !skip@.contains(procs@[j].1.pid)
            && command(procs@[j].1.cmdline@) == Some(package@) && package@.len() > 0 implies command(
        p.cmdline@,
    ) == Some(package@) && procs@[i].0 <= procs@[j].0 by {
        assert(crate::discover::eligible(procs@[j], package@, skip@));
        assert(!crate::discover::before(procs@[j], procs@[i], package@));
        assert(is_main(procs@[j].1.cmdline@, package@));
    }
    i
}

/// A directory of the process table is that of a process where its name is its number.
pub proof fn law_process_number_reads_back(name: &str, n: u32, r: Option<u32>)
    requires
        name@ == decimal(n as nat),
        call_ensures(process_number, (name,), r),
    ensures
        r == Some(n),
{
    law_decimal_reads_back(n as nat);
    assert(is_digit(name@[0]));
}

/// A call in another process enters the function with its arguments in the first registers and
/// returns to where it is told; what is not an argument stays.
pub proof fn law_remote_call(
    regs: &Regs,
    func: u64,
    args: &[u64],
    lr: u64,
    stack: Option<u64>,
    r: Regs,
    i: int,
)
    requires
        args@.len() <= 8,
        call_ensures(remote_call_with_lr, (regs, func, args, lr, stack), r),
        0 <= i < 31,
    ensures
        r.pc == func,
        r.regs@[30] == lr,
        i < args@.len() ==> r.regs@[i] == args@[i],
        args@.len() <= i < 29 ==> r.regs@[i] == regs.regs@[i],
        r.sp == match stack {
            Some(sp) => sp,
            None => regs.sp,
        },
        stack is None ==> r.regs@[29] == regs.regs@[29],
{
}

/// A stub is entered with its arguments, and its end is two instructions further.
pub proof fn law_remote_stub(regs: &Regs, stub: u64, args: &[u64], r: (Regs, u64), i: int)
    requires
        args@.len() <= 8,
        stub + 8 <= u64::MAX,
        call_ensures(remote_call_stub, (regs, stub, args), r),
        0 <= i < 31,
    ensures
        r.0.pc == stub,
        r.1 == stub + 8,
        i < args@.len() ==> r.0.regs@[i] == args@[i],
        i >= args@.len() ==> r.0.regs@[i] == regs.regs@[i],
        r.0.sp == regs.sp,
{
}

/// A system call in another process has its number in X8 and its arguments in the first six
/// registers; the others stay.
pub proof fn law_remote_system_call(
    regs: &Regs,
    svc: u64,
    nr: u64,
    args: &[u64],
    r: Regs,
    i: int,
)
    requires
        call_ensures(remote_syscall, (regs, svc, nr, args), r),
        0 <= i < 31,
    ensures
        r.pc == svc,
        r.sp == regs.sp,
        r.regs@[8] == nr,
        i < 6 && i < args@.len() ==> r.regs@[i] == args@[i],
        i != 8 && (i >= 6 || i >= args@.len()) ==> r.regs@[i] == regs.regs@[i],
{
}

/// A remote call is over where the thread stands at the breakpoint, or behind it, and its result
/// is in X0; a thread elsewhere is let go on, unless it met a fault or stopped too often.
pub proof fn law_remote_result(step: u32, status: i32, pc: u64, x0: u64, want: u64, r: Landing)
    requires
        want <= u64::MAX - 4,
        call_ensures(cont_until_pc, (step, status, pc, x0, want), r),
    ensures
        r matches Landing::Done(v) ==> v == x0 && (pc == want || pc == want + 4),
        pc == want || pc == want + 4 ==> r is Done,
        pc != want && pc != want + 4 && step >= 63 ==> r is Failed,
{
}

/// What is poked into another process as words is the bytes, and zeros behind them.
pub proof fn law_poked_words_hold_the_bytes(data: &[u8], out: Vec<u64>, k: int)
    requires
        call_ensures(words_to_poke, (data,), out),
        0 <= k < data@.len(),
    ensures
        8 * out@.len() >= data@.len(),
        8 * out@.len() < data@.len() + 8,
        k / 8 < out@.len(),
        le64(out@[k / 8])[k % 8] == data@[k],
{
    let padded = data@ + Seq::new(8, |i: int| 0u8);
    let i = k / 8;
    let w = out@[i];
    assert(w == quad_at(padded, 8 * i));
    lemma_quad_bytes(padded, 8 * i, k % 8);
    assert(padded[k] == data@[k]);
    assert(8 * i + k % 8 == k);
}

proof fn lemma_quad_bytes(s: Seq<u8>, at: int, j: int)
    requires
        0 <= at,
        at + 8 <= s.len(),
        0 <= j < 8,
    ensures
        le64(quad_at(s, at))[j] == s[at + j],
{
    let lo = crate::bytes::word_at(s, at);
    let hi = crate::bytes::word_at(s, at + 4);
    let q = quad_at(s, at);
    assert(q == lo + hi * 0x1_0000_0000);
    assert(q % 0x1_0000_0000 == lo);
    assert(q / 0x1_0000_0000 == hi);
    lemma_word_bytes(s, at);
    lemma_word_bytes(s, at + 4);
}

proof fn lemma_word_bytes(s: Seq<u8>, at: int)
    requires
        0 <= at,
        at + 4 <= s.len(),
    ensures
        crate::bytes::le32(crate::bytes::word_at(s, at)) == s.subrange(at, at + 4),
{
    let a = s[at] as int;
    let b = s[at + 1] as int;
    let c = s[at + 2] as int;
    let d = s[at + 3] as int;
    let x = crate::bytes::word_at(s, at);
    assert(x == a + b * 0x100 + c * 0x1_0000 + d * 0x100_0000);
    assert(x % 0x100 == a);
    assert(x / 0x100 == b + c * 0x100 + d * 0x1_0000);
    assert((x / 0x100) % 0x100 == b);
    assert(x / 0x1_0000 == c + d * 0x100);
    assert((x / 0x1_0000) % 0x100 == c);
    assert(x / 0x100_0000 == d);
    assert(crate::bytes::le32(x) =~= s.subrange(at, at + 4));
}

/// The type of a security context is its third part.
pub proof fn law_context_type(
    ctx: &str,
    r: String,
    user: Seq<char>,
    role: Seq<char>,
    kind: Seq<char>,
)
    requires
        lacks(user, ':'),
        lacks(role, ':'),
        lacks(kind, ':'),
        ctx@ == user + seq![':'] + (role + seq![':'] + kind) || exists|level: Seq<char>|
            ctx@ == #[trigger] (user + seq![':'] + (role + seq![':'] + (kind + seq![':'] + level))),
        call_ensures(selinux_type, (ctx,), r),
    ensures
        r@ == kind,
{
    if ctx@ == user + seq![':'] + (role + seq![':'] + kind) {
        lemma_pieces_first(kind, Seq::empty(), ':');
        lemma_pieces_first(role, kind, ':');
        lemma_pieces_first(user, role + seq![':'] + kind, ':');
    } else {
        let level = choose|level: Seq<char>|
            ctx@ == #[trigger] (user + seq![':'] + (role + seq![':'] + (kind + seq![':'] + level)));
        lemma_pieces_first(kind, level, ':');
        lemma_pieces_first(role, kind + seq![':'] + level, ':');
        lemma_pieces_first(user, role + seq![':'] + (kind + seq![':'] + level), ':');
    }
}

/// A status that a wait gives is one of three: a stop with its signal, an exit with its code, or
/// a death of a signal.
pub proof fn law_wait_status(signal: int, code: int, status: i32)
    requires
        0 < signal < 0x7f,
        0 <= code < 0x100,
    ensures
        status == signal * 0x100 + 0x7f ==> is_stop(status) && stop_signal(status) == signal
            && !is_exit(status) && !is_death(status),
        status == code * 0x100 ==> is_exit(status) && !is_stop(status) && !is_death(status),
        status == signal || status == signal + 0x80 ==> is_death(status) && !is_stop(status)
            && !is_exit(status),
{
    let u = status as u32;
    if status == signal * 0x100 + 0x7f {
        assert(u == signal * 0x100 + 0x7f);
        assert(u as int / 256 == signal);
        assert(u as int % 256 == 0x7f);
        assert(u as int % 128 == 0x7f);
    } else if status == code * 0x100 {
        assert(u == code * 0x100);
        assert(u as int % 128 == 0);
        assert(u as int % 256 == 0);
    } else if status == signal || status == signal + 0x80 {
        assert(u as int % 128 == signal);
    }
}

/// A rule that allows tracing names who traces and who is traced, in this order.
pub proof fn law_trace_rule(source: &str, target: &str, r: String)
    requires
        call_ensures(ptrace_rule, (source, target), r),
        is_word(source@),
        is_word(target@),
    ensures
        words_of(r@) == seq!["allow"@, source@, target@, "process"@, "ptrace"@],
{
    reveal_strlit("allow ");
    reveal_strlit("allow");
    reveal_strlit(" ");
    reveal_strlit(" process ptrace");
    reveal_strlit("process");
    reveal_strlit("ptrace");
    let sp = seq![' '];
    lemma_words_first("ptrace"@, Seq::empty());
    lemma_words_first("process"@, "ptrace"@);
    lemma_words_first(target@, "process"@ + sp + "ptrace"@);
    lemma_words_first(source@, target@ + sp + ("process"@ + sp + "ptrace"@));
    let rest = source@ + sp + (target@ + sp + ("process"@ + sp + "ptrace"@));
    lemma_words_first("allow"@, rest);
    assert(r@ =~= "allow"@ + sp + rest);
    assert(seq!["allow"@] + (seq![source@] + (seq![target@] + (seq!["process"@] + seq!["ptrace"@])))
        =~= seq!["allow"@, source@, target@, "process"@, "ptrace"@]);
}

/// A tracer is stopped only where it is a leftover of this tool, and never the first process or
/// this one.
pub proof fn law_only_leftovers_are_stopped(
    target: i32,
    tracer: i32,
    own: i32,
    cmd: &str,
    comm: &str,
    r: Result<(), TraceeError>,
)
    requires
        call_ensures(may_stop_tracer, (target, tracer, own, cmd, comm), r),
    ensures
        r is Ok ==> tracer > 1 && tracer != own,
        r is Ok ==> has_part(cmd@, "goauld-injector"@) || has_prefix(comm@, "goauld-inject"@),
        tracer > 1 && tracer != own && has_part(cmd@, "goauld-injector"@) ==> r is Ok,
{
}

/// A process is free once nobody traces it, and is waited for while its old tracer still does.
pub proof fn law_release(
    target: i32,
    tracer: i32,
    alive: bool,
    now: Option<i32>,
    late: bool,
    r: Release,
)
    requires
        call_ensures(after_stop, (target, tracer, alive, now, late), r),
        tracer > 0,
    ensures
        r is Free <==> alive && (now is None || now == Some(0i32)),
        r is Wait <==> alive && now == Some(tracer) && !late,
        !alive ==> r is Failed,
{
}

/// The C library that was found is a file of that name that some line names.
pub proof fn law_found_c_library(maps: &str, bias: u64, path: String) -> (k: int)
    requires
        call_ensures(find_libc, (maps,), Ok::<(u64, String), InjectError>((bias, path))),
    ensures
        0 <= k < lines_of(maps@).len(),
        path@ == last_word(lines_of(maps@)[k]),
        has_part(path@, "/libc.so"@) || has_part(path@, "/bionic/libc.so"@),
        line_range(lines_of(maps@)[k]).0 >= bias,
{
    lemma_so_place(lines_of(maps@), libc_names(), 0, bias, path@)
}

/// The library with the loader's functions that was found is one of that name, or the loader.
pub proof fn law_found_loader(maps: &str, bias: u64, path: String) -> (k: int)
    requires
        call_ensures(find_libdl, (maps,), Ok::<(u64, String), InjectError>((bias, path))),
    ensures
        0 <= k < lines_of(maps@).len(),
        path@ == last_word(lines_of(maps@)[k]),
        has_part(path@, "libdl.so"@) || has_part(path@, "/libdl.so"@) || has_part(
            path@,
            "/linker64"@,
        ) || has_part(path@, "/linker"@),
        line_range(lines_of(maps@)[k]).0 >= bias,
{
    lemma_so_place(lines_of(maps@), libdl_names(), 0, bias, path@)
}

/// A thread is stopped by being seized and interrupted, or attached to where it cannot be seized,
/// and is then waited for; what fails in between is what is told.
pub proof fn law_thread_is_stopped()
    ensures
        StopPhase::Seize.after(true).after(true).after(true) == StopPhase::Stopped,
        StopPhase::Seize.after(false).after(true).after(true) == StopPhase::Stopped,
        StopPhase::Seize.after(true).after(false) == StopPhase::Failed(StopFault::Interrupt),
        StopPhase::Seize.after(false).after(false) == StopPhase::Failed(StopFault::Attach),
        StopPhase::Seize.after(true).after(true).after(false) == StopPhase::Failed(StopFault::Wait),
        StopPhase::Seize.after(true) is Interrupt,
        StopPhase::Seize.after(false) is Attach,
        StopPhase::Seize.after(true).after(true) is Wait,
{
}

/// A breakpoint is planted once the code was saved and can be written, and the call is made once
/// the code can run again. Whatever the call gives, the code is opened, restored and closed.
pub proof fn law_planted_break(
    saved: u64,
    written: u64,
    v: u64,
    a: Option<u64>,
    b: Option<u64>,
    c: Option<u64>,
    d: Option<u64>,
)
    ensures
        ({
            let open = PlantPhase::Save.after(Some(saved));
            let plant = open.after(Some(0));
            let close = plant.after(Some(written));
            let call = close.after(Some(0));
            &&& open is Open
            &&& plant is Plant
            &&& close is Close
            &&& call is Call
            &&& call.after(a) is Reopen
            &&& call.after(a).after(b) is Restore
            &&& call.after(a).after(b).after(c) is Reclose
            &&& call.after(a).after(b).after(c).after(d) == PlantPhase::Finished(PlantEnd::Called)
            &&& v != 0 ==> open.after(Some(v)) == PlantPhase::Finished(PlantEnd::NotWritable(v))
            &&& v != 0 ==> close.after(Some(v)).after(a) is Restore
            &&& v != 0 ==> close.after(Some(v)).after(a).after(b).after(c)
                == PlantPhase::Finished(PlantEnd::NotExecutable(v))
            &&& PlantPhase::Save.after(None) == PlantPhase::Finished(PlantEnd::Fault)
        }),
{
}

/// A call that stops elsewhere by an illegal instruction or a fault of memory or arithmetic has
/// failed, at once; by another signal it goes on while stops are left.
pub proof fn law_remote_fault(step: u32, status: i32, pc: u64, x0: u64, want: u64, r: Landing)
    requires
        want <= u64::MAX - 4,
        pc != want && pc != want + 4,
        is_stop(status),
        call_ensures(cont_until_pc, (step, status, pc, x0, want), r),
    ensures
        stop_signal(status) == 4 || stop_signal(status) == 7 || stop_signal(status) == 8
            || stop_signal(status) == 11 ==> r is Failed,
        stop_signal(status) != 4 && stop_signal(status) != 7 && stop_signal(status) != 8
            && stop_signal(status) != 11 && step < 63 ==> r is Again,
{
}

/// A breakpoint that was found is a breakpoint instruction, and the first one: none that stands
/// at a multiple of four and has code behind it is passed over, whatever its number.
pub proof fn law_found_break(code: &[u8], r: Option<usize>, at: int, number: u16)
    requires
        call_ensures(find_brk_gadget, (code,), r),
        0 <= at,
        at % 4 == 0,
        at + 4 < code@.len(),
        word_at(code@, at) == 0xd420_0000 + number * 0x20,
    ensures
        r matches Some(i) && i <= at && i % 4 == 0 && word_at(code@, i as int) as int / 0x20_0000
            == 0x6a1,
{
    assert(looked_at(code@, at));
    assert(is_brk(word_at(code@, at)));
}

/// A system call that was found is the first one.
pub proof fn law_found_system_call(code: &[u8], r: Option<usize>, at: int)
    requires
        call_ensures(find_svc_gadget, (code,), r),
        0 <= at,
        at % 4 == 0,
        at + 4 < code@.len(),
        word_at(code@, at) == 0xd400_0001,
    ensures
        r matches Some(i) && i <= at && i % 4 == 0 && word_at(code@, i as int) == 0xd400_0001,
{
    assert(looked_at(code@, at));
}

/// A rule speaks of what this process is now, else of what it was, and there is none where either
/// side of it is not known.
pub proof fn law_rule_source(own: &str, now: &str, target: &str, r: Option<String>)
    requires
        call_ensures(rule_source, (own, now, target), r),
    ensures
        target@.len() == 0 ==> r is None,
        target@.len() > 0 && now@.len() > 0 ==> (r matches Some(s) && s@ == now@),
        target@.len() > 0 && now@.len() == 0 && own@.len() > 0 ==> (r matches Some(s) && s@ == own@),
        now@.len() == 0 && own@.len() == 0 ==> r is None,
{
}

/// A remote call has as many arguments as there are registers for them.
pub proof fn law_remote_arguments(args: &[u64], r: Result<(), TraceeError>)
    requires
        call_ensures(check_args, (args,), r),
    ensures
        r is Ok <==> args@.len() <= 8,
{
}

/// A package that is waited for is found by its process.
pub proof fn law_package_is_awaited(package: &str, pid: u32, r: Awaited, late: Awaited)
    requires
        call_ensures(wait_for_package, (package, Some(Ok::<u32, InjectError>(pid))), r),
        call_ensures(wait_for_package, (package, None::<Result<u32, InjectError>>), late),
    ensures
        r == Awaited::Found(pid),
        late is Failed,
{
}

} // verus!
