//! What holds of caches, immediates and literals of code that was written.
use crate::bytes::{law_quad_round_trip, law_word_round_trip, le32, le64, quad_at, word_at};
use crate::decoder::{a64_kind, displaced, InsnKind};
use crate::encode::{
    b_word, branch_reaches, encode_ldr_lit_expanded, law_branch_round_trip,
    law_literal_round_trip, ldr_lit_word, lemma_delta_of_move, literal_reaches, word_imm,
};
use crate::icache::{
    cache_line_size, clear_cache, clear_icache, law_every_byte_is_covered, line_bytes, line_of,
    line_starts, CacheWork,
};
use crate::logical::{is_elem_size, run_field};
use crate::patch::page_span;
use vstd::arithmetic::power2::{lemma2_to64, lemma_pow2_pos, lemma_pow2_unfold};
use vstd::prelude::*;

verus! {

/// A line has four bytes or twice as many as one whose field is less by one, and the size that is
/// used is that of the larger line.
pub proof fn law_cache_line_size(ctr: u64, n: usize)
    requires
        call_ensures(cache_line_size, (Some(ctr),), n),
    ensures
        n >= line_bytes(ctr % 16),
        n >= line_bytes((ctr / 0x1_0000) % 16),
        n == line_bytes(ctr % 16) || n == line_bytes((ctr / 0x1_0000) % 16),
        line_bytes(0) == 4,
        forall|k: u64| 0 < k < 16 ==> #[trigger] line_bytes(k) == 2 * line_bytes((k - 1) as u64),
{
    lemma2_to64();
    assert forall|k: u64| 0 < k < 16 implies #[trigger] line_bytes(k) == 2 * line_bytes(
        (k - 1) as u64,
    ) by {
        lemma_pow2_unfold(k as nat);
    }
}

/// Whether some line of `line` bytes among `lines` holds the byte at an address.
pub open spec fn covers(lines: Seq<u64>, line: nat, at: int) -> bool {
    exists|i: int| 0 <= i < lines.len() && (#[trigger] lines[i]) <= at < lines[i] + line
}

/// Code that was written is made visible as a whole: every byte of it lies in a data line that is
/// cleaned and in an instruction line that is invalidated, unless the register says that this
/// need not be.
pub proof fn law_code_is_made_visible(
    start: u64,
    end: u64,
    ctr: u64,
    r: Option<CacheWork>,
    at: int,
)
    requires
        call_ensures(clear_cache, (start, end, ctr), r),
        0 < start,
        start <= at < end,
    ensures
        r matches Some(w) && ((ctr / 0x1000_0000) % 2 == 0 ==> (w.data matches Some(d) && covers(
            d@,
            line_bytes((ctr / 0x1_0000) % 16),
            at,
        ))) && ((ctr / 0x2000_0000) % 2 == 0 ==> (w.code matches Some(c) && covers(
            c@,
            line_bytes(ctr % 16),
            at,
        ))),
{
    lemma_pow2_pos(((ctr / 0x1_0000) % 16) as nat);
    lemma_pow2_pos((ctr % 16) as nat);
    let w = r.unwrap();
    if w.data is Some {
        lemma_covers(w.data.unwrap()@, start, end, line_bytes((ctr / 0x1_0000) % 16), at);
    }
    if w.code is Some {
        lemma_covers(w.code.unwrap()@, start, end, line_bytes(ctr % 16), at);
    }
}

proof fn lemma_covers(lines: Seq<u64>, start: u64, end: u64, line: nat, at: int)
    requires
        line > 0,
        start <= at < end,
        lines.map_values(|a: u64| a as int) == line_starts(
            line_of(start as int, line as int),
            end as int,
            line as int,
        ),
    ensures
        covers(lines, line, at),
{
    let from = line_of(start as int, line as int);
    let all = line_starts(from, end as int, line as int);
    assert(0 <= start as int % line as int) by (nonlinear_arith)
        requires
            line > 0,
    ;
    law_every_byte_is_covered(from, end as int, line as int, at);
    let i = choose|i: int| 0 <= i < all.len() && (#[trigger] all[i]) <= at < all[i] + line;
    assert(lines.map_values(|a: u64| a as int)[i] == lines[i] as int);
}

/// The field of a logical immediate tells its rotation, its run and its element size: the
/// rotation stands in the six bits above the lowest six; of the lowest six the ones at the top,
/// with the bit above the rotation for the largest size, tell the size, and what is left tells
/// the run.
pub proof fn law_logical_field(e: u32, len: u32, rot: u32)
    requires
        is_elem_size(e),
        1 <= len < e,
        rot < e,
    ensures
        run_field(e, len, rot) < 0x2000,
        (run_field(e, len, rot) / 64) % 64 == rot,
        run_field(e, len, rot) / 0x1000 == 1 <==> e == 64,
        e == 64 ==> run_field(e, len, rot) % 64 == len - 1,
        e < 64 ==> 64 - 2 * e <= run_field(e, len, rot) % 64 < 64 - e,
        e < 64 ==> run_field(e, len, rot) % 64 - (64 - 2 * e) == len - 1,
{
}

/// A literal that was moved next to its load: the load reads it, and what follows the load jumps
/// past it.
pub proof fn law_literal_behind_its_load(rt: u8, is64: bool, literal: u64, pc: u64, out: Vec<u8>)
    requires
        call_ensures(encode_ldr_lit_expanded, (rt, is64, literal), out),
        rt < 32,
    ensures
        out@.len() == 16,
        a64_kind(pc, word_at(out@, 0)) == (InsnKind::PcRelLoad {
            rt,
            target: displaced(pc, 8),
            is64,
            is_simd: false,
        }),
        a64_kind(displaced(pc, 4), word_at(out@, 4)) == (InsnKind::Branch {
            target: displaced(displaced(pc, 4), 12),
            link: false,
        }),
        quad_at(out@, 8) == literal,
{
    let none = Seq::<u8>::empty();
    let next = displaced(pc, 4);
    lemma_delta_of_move(pc, 8);
    lemma_delta_of_move(next, 12);
    let a = ldr_lit_word(rt, is64, pc, displaced(pc, 8));
    let b = b_word(next, displaced(next, 12));
    assert(a == (if is64 {
        0x5800_0040int
    } else {
        0x1800_0040
    }) + rt) by {
        reveal(ldr_lit_word);
        reveal(word_imm);
    }
    assert(b == 0x1400_0003) by {
        reveal(b_word);
        reveal(word_imm);
    }
    assert(literal_reaches(pc, displaced(pc, 8))) by {
        reveal(literal_reaches);
    }
    assert(branch_reaches(next, displaced(next, 12))) by {
        reveal(branch_reaches);
    }
    law_literal_round_trip(rt, is64, pc, displaced(pc, 8));
    law_branch_round_trip(next, displaced(next, 12));
    lemma_three_in_turn(out@, le32(a), le32(b), le64(literal));
    law_word_round_trip(none, a, le32(b) + le64(literal));
    law_word_round_trip(le32(a), b, le64(literal));
    law_quad_round_trip(le32(a) + le32(b), literal, none);
}

proof fn lemma_three_in_turn(s: Seq<u8>, a: Seq<u8>, b: Seq<u8>, c: Seq<u8>)
    requires
        s == a + b + c,
    ensures
        s == Seq::<u8>::empty() + a + (b + c),
        s == a + b + c + Seq::<u8>::empty(),
{
    assert(s =~= Seq::<u8>::empty() + a + (b + c));
    assert(s =~= a + b + c + Seq::<u8>::empty());
}

/// The lines that are maintained start at multiples of the line, one behind the other, and the
/// first of them holds the first byte.
pub proof fn law_lines_are_aligned(start: u64, len: u64, line: u64, out: Vec<u64>, i: int)
    requires
        call_ensures(clear_icache, (start, len, line), out),
        line > 0,
        len > 0,
        0 <= i < out@.len(),
    ensures
        out@[0] <= start < out@[0] + line,
        out@[i] % line == 0,
        out@[i] == out@[0] + i * line,
        out@[i] < start + len,
{
    let from = line_of(start as int, line as int);
    let all = line_starts(from, start + len, line as int);
    let over = start as int % line as int;
    assert(0 <= over < line && over <= start) by (nonlinear_arith)
        requires
            line > 0,
            start >= 0,
            over == start as int % line as int,
    ;
    assert(out@.map_values(|a: u64| a as int)[i] == out@[i] as int);
    assert(out@.map_values(|a: u64| a as int)[0] == out@[0] as int);
    lemma_line_at(from, start + len, line as int, i);
    lemma_line_at(from, start + len, line as int, 0);
    assert(0 * line == 0) by (nonlinear_arith);
    vstd::arithmetic::div_mod::lemma_fundamental_div_mod(start as int, line as int);
    let q = start as int / line as int;
    assert(from + i * line == (q + i) * line) by (nonlinear_arith)
        requires
            from == line * q,
    ;
    vstd::arithmetic::div_mod::lemma_mod_multiples_basic(q + i, line as int);
}

proof fn lemma_line_at(from: int, end: int, line: int, i: int)
    requires
        line > 0,
        0 <= i < line_starts(from, end, line).len(),
    ensures
        line_starts(from, end, line)[i] == from + i * line,
        line_starts(from, end, line)[i] < end,
    decreases i,
{
    if i > 0 {
        lemma_line_at(from + line, end, line, i - 1);
        assert(from + line + (i - 1) * line == from + i * line) by (nonlinear_arith);
    } else {
        assert(i * line == 0) by (nonlinear_arith)
            requires
                i == 0,
        ;
    }
}

/// The pages of some code are whole ones, hold all of it, and none of them could be left out.
pub proof fn law_pages_of_code(addr: u64, len: u64, page: u64, r: (u64, u64), at: int)
    requires
        call_ensures(page_span, (addr, len, page), r),
        page > 0,
        len > 0,
        addr + len + page - 1 <= u64::MAX,
    ensures
        r.0 % page == 0,
        r.1 % page == 0,
        addr <= at < addr + len ==> r.0 <= at < r.0 + r.1,
        addr < r.0 + page,
        r.0 + r.1 < addr + len + page,
{
    assert((addr as int) % (page as int) < page) by (nonlinear_arith)
        requires
            page > 0,
    ;
}

} // verus!
