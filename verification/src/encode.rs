//! AArch64 instruction encoders used by the relocator and patch stubs.
//!
//! Addresses are taken modulo the 64-bit address space, so a displacement is the signed
//! distance on the shorter way round.
use crate::bytes::{le32, le64, push_u32, push_u64, quad_at, word_at};
use crate::decoder::{
    a64_kind, cond_number, cond_of, displaced, field, sign_extended, Cond, InsnKind,
};
use vstd::prelude::*;

verus! {

/// The signed distance from `pc` to `target`.
#[verifier::opaque]
pub open spec fn delta(pc: u64, target: u64) -> int {
    let d = target - pc;
    if d < -0x8000_0000_0000_0000 {
        d + 0x1_0000_0000_0000_0000
    } else if d >= 0x8000_0000_0000_0000 {
        d - 0x1_0000_0000_0000_0000
    } else {
        d
    }
}

/// Moving by the distance to a target leads to the target.
pub proof fn law_delta_reaches_target(pc: u64, target: u64)
    ensures
        displaced(pc, delta(pc, target)) == target,
        -0x8000_0000_0000_0000 <= delta(pc, target) < 0x8000_0000_0000_0000,
{
    reveal(delta);
}

/// The distance to where a move leads is the move.
pub proof fn lemma_delta_of_move(pc: u64, by: int)
    requires
        -0x8000_0000_0000_0000 <= by < 0x8000_0000_0000_0000,
    ensures
        delta(pc, displaced(pc, by)) == by,
{
    reveal(delta);
}

/// The unsigned difference is the distance, or the distance once round.
pub proof fn lemma_delta(pc: u64, target: u64)
    ensures
        target.wrapping_sub(pc) == delta(pc, target) || target.wrapping_sub(pc) == delta(
            pc,
            target,
        ) + 0x1_0000_0000_0000_0000,
        -0x8000_0000_0000_0000 <= delta(pc, target) < 0x8000_0000_0000_0000,
{
    reveal(delta);
}

/// The low bits of the word displacement from `pc` to `target`, as a field of `width` values.
#[verifier::opaque]
pub open spec fn word_imm(pc: u64, target: u64, width: int) -> int {
    (delta(pc, target) / 4) % width
}

/// A field holds what fits it, and gives back a displacement that fits.
proof fn lemma_word_imm(pc: u64, target: u64, width: int)
    requires
        width == 0x4000 || width == 0x8_0000 || width == 0x400_0000,
    ensures
        0 <= word_imm(pc, target, width) < width,
        delta(pc, target) % 4 == 0 && -2 * width <= delta(pc, target) < 2 * width ==> 4
            * sign_extended(word_imm(pc, target, width), width) == delta(pc, target),
{
    reveal(word_imm);
}

/// LDR X17, #8
pub open spec fn ldr_x17_8() -> u32 {
    0x5800_0051u32
}

/// BR X17
pub open spec fn br_x17() -> u32 {
    0xD61F_0220u32
}

/// `LDR X17, #8; BR X17; <target>`.
pub open spec fn abs_branch(target: u64) -> Seq<u8> {
    le32(ldr_x17_8()) + le32(br_x17()) + le64(target)
}

/// `ADR X30, #20; LDR X17, #8; BR X17; <target>`.
pub open spec fn abs_call(emit_pc: u64, target: u64) -> Seq<u8> {
    le32(adr_word(30, emit_pc, displaced(emit_pc, 20))) + abs_branch(target)
}

/// ADR Xd, target.
#[verifier::opaque]
pub open spec fn adr_word(rd: u8, pc: u64, target: u64) -> u32 {
    let imm = delta(pc, target) % 0x20_0000;
    (0x1000_0000 + (imm % 4) * 0x2000_0000 + (imm / 4) * 0x20 + rd % 32) as u32
}

/// The number of 4 KiB pages from the page of `pc` to the page of `target`.
#[verifier::opaque]
pub open spec fn page_delta(pc: u64, target: u64) -> int {
    delta((pc - pc % 0x1000) as u64, (target - target % 0x1000) as u64) / 0x1000
}

/// ADRP Xd, page of target.
#[verifier::opaque]
pub open spec fn adrp_word(rd: u8, pc: u64, target: u64) -> u32 {
    let imm = page_delta(pc, target) % 0x20_0000;
    (0x9000_0000 + (imm % 4) * 0x2000_0000 + (imm / 4) * 0x20 + rd % 32) as u32
}

/// ADD Xd, Xn, #imm12.
#[verifier::opaque]
pub open spec fn add_imm_word(rd: u8, rn: u8, imm12: u32, is64: bool) -> u32 {
    (sf_bit(is64) + 0x1100_0000 + (imm12 % 0x1000) * 0x400 + (rn % 32) * 0x20 + rd % 32) as u32
}

/// The bit that selects the 64-bit form of an instruction.
pub open spec fn sf_bit(is64: bool) -> int {
    if is64 {
        0x8000_0000
    } else {
        0
    }
}

/// The bit that selects the non-zero form of a compare or test branch.
pub open spec fn nz_bit(nonzero: bool) -> int {
    if nonzero {
        0x100_0000
    } else {
        0
    }
}

/// ADR if the target is within 1 MiB, else ADRP and ADD.
pub open spec fn pc_rel_addr(rd: u8, emit_pc: u64, target: u64) -> Seq<u8> {
    if -0x10_0000 <= delta(emit_pc, target) < 0x10_0000 {
        le32(adr_word(rd, emit_pc, target))
    } else {
        le32(adrp_word(rd, emit_pc, target)) + le32(
            add_imm_word(rd, rd, (target % 0x1000) as u32, true),
        )
    }
}

/// B.cond
#[verifier::opaque]
pub open spec fn b_cond_word(cond: Cond, pc: u64, target: u64) -> u32 {
    (0x5400_0000 + word_imm(pc, target, 0x8_0000) * 0x20 + cond_number(cond)) as u32
}

/// CBZ / CBNZ
#[verifier::opaque]
pub open spec fn cbz_word(reg: u8, nonzero: bool, is64: bool, pc: u64, target: u64) -> u32 {
    (sf_bit(is64) + 0x3400_0000 + nz_bit(nonzero) + word_imm(pc, target, 0x8_0000) * 0x20 + reg
        % 32) as u32
}

/// TBZ / TBNZ
#[verifier::opaque]
pub open spec fn tbz_word(reg: u8, bit: u8, nonzero: bool, pc: u64, target: u64) -> u32 {
    (sf_bit((bit / 32) % 2 == 1) + 0x3600_0000 + nz_bit(nonzero) + (bit % 32) * 0x8_0000
        + word_imm(pc, target, 0x4000) * 0x20 + reg % 32) as u32
}

/// Whether a direct branch at `pc` reaches `target` (128 MiB either way).
pub open spec fn branch_reaches(pc: u64, target: u64) -> bool {
    -0x800_0000 <= delta(pc, target) < 0x800_0000
}

/// B
#[verifier::opaque]
pub open spec fn b_word(pc: u64, target: u64) -> u32 {
    (0x1400_0000 + word_imm(pc, target, 0x400_0000)) as u32
}

/// BL
#[verifier::opaque]
pub open spec fn bl_word(pc: u64, target: u64) -> u32 {
    (0x9400_0000 + word_imm(pc, target, 0x400_0000)) as u32
}

/// Whether a literal load at `pc` reaches `target` (1 MiB either way).
pub open spec fn literal_reaches(pc: u64, target: u64) -> bool {
    -0x10_0000 <= delta(pc, target) < 0x10_0000
}

/// LDR (literal)
#[verifier::opaque]
pub open spec fn ldr_lit_word(rt: u8, is64: bool, pc: u64, target: u64) -> u32 {
    (0x1800_0000 + if is64 {
        0x4000_0000int
    } else {
        0
    } + word_imm(pc, target, 0x8_0000) * 0x20 + rt % 32) as u32
}

/// `LDR Xt, #8; B #12; <literal>`.
pub open spec fn ldr_lit_expanded(rt: u8, is64: bool, literal: u64) -> Seq<u8> {
    le32(
        ((if is64 {
            0x5800_0040int
        } else {
            0x1800_0040
        }) + rt % 32) as u32,
    ) + le32(0x1400_0003u32) + le64(literal)
}

/// The low bits of the word displacement, computed on the unsigned difference.
fn word_bits(pc: u64, target: u64, width: u64) -> (bits: u32)
    requires
        width == 0x4000 || width == 0x8_0000 || width == 0x400_0000,
    ensures
        bits == word_imm(pc, target, width as int),
        bits < width,
{
    proof {
        reveal(word_imm);
        lemma_delta(pc, target);
    }
    let d: u64 = target.wrapping_sub(pc);
    if width == 0x4000 {
        ((d / 4) % 0x4000) as u32
    } else if width == 0x8_0000 {
        ((d / 4) % 0x8_0000) as u32
    } else {
        ((d / 4) % 0x400_0000) as u32
    }
}

/// Whether the distance from `pc` to `target` lies in `-limit..limit`.
pub fn within(pc: u64, target: u64, limit: u64) -> (r: bool)
    requires
        0 < limit < 0x8000_0000_0000_0000,
    ensures
        r == (-limit <= delta(pc, target) < limit),
{
    proof {
        lemma_delta(pc, target);
    }
    let d: u64 = target.wrapping_sub(pc);
    d < limit || d > u64::MAX - limit
}

/// Absolute branch: `LDR X17, #8; BR X17; <u64 target>` = 16 bytes.
pub fn encode_abs_branch(target: u64) -> (out: [u8; 16])
    ensures
        out@ == abs_branch(target),
{
    let lo: u32 = (target % 0x1_0000_0000) as u32;
    let hi: u32 = (target / 0x1_0000_0000) as u32;
    let out: [u8; 16] = [
        0x51,
        0x00,
        0x00,
        0x58,
        0x20,
        0x02,
        0x1F,
        0xD6,
        (lo % 0x100) as u8,
        ((lo / 0x100) % 0x100) as u8,
        ((lo / 0x1_0000) % 0x100) as u8,
        (lo / 0x100_0000) as u8,
        (hi % 0x100) as u8,
        ((hi / 0x100) % 0x100) as u8,
        ((hi / 0x1_0000) % 0x100) as u8,
        (hi / 0x100_0000) as u8,
    ];
    assert(out@ =~= abs_branch(target));
    out
}

/// Absolute call that sets LR to the address after this 20-byte sequence:
/// `ADR X30, #20; LDR X17, #8; BR X17; <u64 target>`.
pub fn encode_abs_call(emit_pc: u64, target: u64) -> (out: Vec<u8>)
    ensures
        out@ == abs_call(emit_pc, target),
{
    proof {
        lemma_delta_of_move(emit_pc, 20);
    }
    let mut out: Vec<u8> = Vec::new();
    let resume: u64 = emit_pc.wrapping_add(20);
    assert(resume == displaced(emit_pc, 20));
    push_u32(&mut out, adr(30, emit_pc, resume));
    push_u32(&mut out, 0x5800_0051);
    push_u32(&mut out, 0xD61F_0220);
    push_u64(&mut out, target);
    assert(out@ =~= abs_call(emit_pc, target));
    out
}

/// ADR Xd, target; `None` where the target is not within 1 MiB.
pub fn encode_adr(rd: u8, pc: u64, target: u64) -> (r: Option<u32>)
    ensures
        r == if -0x10_0000 <= delta(pc, target) < 0x10_0000 {
            Some(adr_word(rd, pc, target))
        } else {
            None
        },
{
    if !within(pc, target, 0x10_0000) {
        return None;
    }
    Some(adr(rd, pc, target))
}

/// ADR Xd, target, for a target within 1 MiB.
fn adr(rd: u8, pc: u64, target: u64) -> (word: u32)
    requires
        -0x10_0000 <= delta(pc, target) < 0x10_0000,
    ensures
        word == adr_word(rd, pc, target),
{
    proof {
        reveal(adr_word);
        lemma_delta(pc, target);
    }
    let d: u64 = target.wrapping_sub(pc);
    let imm: u32 = (d % 0x20_0000) as u32;
    0x1000_0000 + (imm % 4) * 0x2000_0000 + (imm / 4) * 0x20 + (rd % 32) as u32
}

/// The low page bits of a distance are those of its unsigned form.
proof fn lemma_page_bits(d: int, x: int)
    requires
        d == x || d == x + 0x1_0000_0000_0000_0000,
    ensures
        (d / 0x1000) % 0x20_0000 == (x / 0x1000) % 0x20_0000,
{
}

/// The three fields of a word with a 19-bit displacement in bits 5 to 23.
proof fn lemma_fields19(w: u32, hi: int, mid: int, lo: int)
    requires
        0 <= hi < 0x100,
        0 <= mid < 0x8_0000,
        0 <= lo < 0x20,
        w == hi * 0x100_0000 + mid * 0x20 + lo,
    ensures
        w as int / 0x100_0000 == hi,
        w as int / 0x400_0000 == hi / 4,
        field(w, 0x20, 0x8_0000) == mid,
        field(w, 1, 0x20) == lo,
        field(w, 0x10, 2) == lo / 0x10,
        field(w, 1, 0x10) == lo % 0x10,
        field(w, 0x2000_0000, 4) == (hi / 0x20) % 4,
        field(w, 0x20, 0x4000) == mid % 0x4000,
        field(w, 0x8_0000, 0x20) == mid / 0x4000,
{
}

/// ADRP Xd, page of target.
pub fn encode_adrp(rd: u8, pc: u64, target: u64) -> (word: u32)
    ensures
        word == adrp_word(rd, pc, target),
{
    proof {
        reveal(adrp_word);
        reveal(page_delta);
    }
    let page_pc: u64 = pc - pc % 0x1000;
    let page_target: u64 = target - target % 0x1000;
    let d: u64 = page_target.wrapping_sub(page_pc);
    proof {
        lemma_delta(page_pc, page_target);
        lemma_page_bits(d as int, delta(page_pc, page_target));
    }
    let imm: u32 = ((d / 0x1000) % 0x20_0000) as u32;
    0x9000_0000 + (imm % 4) * 0x2000_0000 + (imm / 4) * 0x20 + (rd % 32) as u32
}

/// ADR where it reaches, else ADRP and ADD (8 bytes).
pub fn encode_pc_rel_addr(rd: u8, emit_pc: u64, target: u64) -> (out: Vec<u8>)
    ensures
        out@ == pc_rel_addr(rd, emit_pc, target),
{
    let mut out: Vec<u8> = Vec::new();
    if let Some(word) = encode_adr(rd, emit_pc, target) {
        push_u32(&mut out, word);
        assert(out@ =~= pc_rel_addr(rd, emit_pc, target));
        return out;
    }
    push_u32(&mut out, encode_adrp(rd, emit_pc, target));
    push_u32(&mut out, encode_add_imm(rd, rd, (target % 0x1000) as u32, true));
    assert(out@ =~= pc_rel_addr(rd, emit_pc, target));
    out
}

/// ADD Xd, Xn, #imm12 (shift 0).
pub fn encode_add_imm(rd: u8, rn: u8, imm12: u32, is64: bool) -> (word: u32)
    ensures
        word == add_imm_word(rd, rn, imm12, is64),
{
    proof {
        reveal(add_imm_word);
    }
    let sf: u32 = if is64 {
        0x8000_0000
    } else {
        0
    };
    sf + 0x1100_0000 + (imm12 % 0x1000) * 0x400 + (rn % 32) as u32 * 0x20 + (rd % 32) as u32
}

/// B.cond with a 19-bit displacement.
pub fn encode_b_cond(cond: Cond, pc: u64, target: u64) -> (word: u32)
    ensures
        word == b_cond_word(cond, pc, target),
{
    proof {
        reveal(b_cond_word);
    }
    0x5400_0000 + word_bits(pc, target, 0x8_0000) * 0x20 + cond.number()
}

/// CBZ / CBNZ
pub fn encode_cbz(reg: u8, nonzero: bool, is64: bool, pc: u64, target: u64) -> (word: u32)
    ensures
        word == cbz_word(reg, nonzero, is64, pc, target),
{
    proof {
        reveal(cbz_word);
    }
    let sf: u32 = if is64 {
        0x8000_0000
    } else {
        0
    };
    let op: u32 = if nonzero {
        0x100_0000
    } else {
        0
    };
    sf + 0x3400_0000 + op + word_bits(pc, target, 0x8_0000) * 0x20 + (reg % 32) as u32
}

/// TBZ / TBNZ
pub fn encode_tbz(reg: u8, bit: u8, nonzero: bool, pc: u64, target: u64) -> (word: u32)
    ensures
        word == tbz_word(reg, bit, nonzero, pc, target),
{
    proof {
        reveal(tbz_word);
    }
    let b5: u32 = if (bit / 32) % 2 == 1 {
        0x8000_0000
    } else {
        0
    };
    let op: u32 = if nonzero {
        0x100_0000
    } else {
        0
    };
    b5 + 0x3600_0000 + op + (bit % 32) as u32 * 0x8_0000 + word_bits(pc, target, 0x4000) * 0x20 + (
    reg % 32) as u32
}

/// Unconditional B (26-bit displacement). `None` if out of range.
pub fn try_encode_b(pc: u64, target: u64) -> (r: Option<u32>)
    ensures
        r == if branch_reaches(pc, target) {
            Some(b_word(pc, target))
        } else {
            None
        },
{
    proof {
        reveal(b_word);
    }
    if !within(pc, target, 0x800_0000) {
        return None;
    }
    Some(0x1400_0000 + word_bits(pc, target, 0x400_0000))
}

/// BL (26-bit displacement). `None` if out of range.
pub fn try_encode_bl(pc: u64, target: u64) -> (r: Option<u32>)
    ensures
        r == if branch_reaches(pc, target) {
            Some(bl_word(pc, target))
        } else {
            None
        },
{
    proof {
        reveal(bl_word);
    }
    if !within(pc, target, 0x800_0000) {
        return None;
    }
    Some(0x9400_0000 + word_bits(pc, target, 0x400_0000))
}

/// LDR (literal) Xt, label (19-bit displacement). `None` if out of range.
pub fn try_encode_ldr_lit(rt: u8, is64: bool, pc: u64, target: u64) -> (r: Option<u32>)
    ensures
        r == if literal_reaches(pc, target) {
            Some(ldr_lit_word(rt, is64, pc, target))
        } else {
            None
        },
{
    proof {
        reveal(ldr_lit_word);
    }
    if !within(pc, target, 0x10_0000) {
        return None;
    }
    let opc: u32 = if is64 {
        0x4000_0000
    } else {
        0
    };
    Some(0x1800_0000 + opc + word_bits(pc, target, 0x8_0000) * 0x20 + (rt % 32) as u32)
}

/// Literal load with its own pool: `LDR Xt, #8; B #12; <u64 literal>`.
pub fn encode_ldr_lit_expanded(rt: u8, is64: bool, literal: u64) -> (out: Vec<u8>)
    ensures
        out@ == ldr_lit_expanded(rt, is64, literal),
{
    let mut out: Vec<u8> = Vec::new();
    let base: u32 = if is64 {
        0x5800_0040
    } else {
        0x1800_0040
    };
    push_u32(&mut out, base + (rt % 32) as u32);
    push_u32(&mut out, 0x1400_0003);
    push_u64(&mut out, literal);
    assert(out@ =~= ldr_lit_expanded(rt, is64, literal));
    out
}

/// A branch that reaches an aligned distance decodes back to a branch to its target.
pub proof fn law_branch_round_trip(pc: u64, target: u64)
    requires
        branch_reaches(pc, target),
        delta(pc, target) % 4 == 0,
    ensures
        a64_kind(pc, b_word(pc, target)) == (InsnKind::Branch { target, link: false }),
        a64_kind(pc, bl_word(pc, target)) == (InsnKind::Branch { target, link: true }),
{
    let imm = word_imm(pc, target, 0x400_0000);
    lemma_word_imm(pc, target, 0x400_0000);
    law_delta_reaches_target(pc, target);
    assert(b_word(pc, target) == 0x05 * 0x400_0000 + imm) by {
        reveal(b_word);
    }
    assert(bl_word(pc, target) == 0x25 * 0x400_0000 + imm) by {
        reveal(bl_word);
    }
    lemma_fields26(b_word(pc, target), 0x05, imm);
    lemma_fields26(bl_word(pc, target), 0x25, imm);
    reveal(a64_kind);
}

/// The two fields of a word with a 26-bit displacement.
proof fn lemma_fields26(w: u32, hi: int, lo: int)
    requires
        0 <= hi < 0x40,
        0 <= lo < 0x400_0000,
        w == hi * 0x400_0000 + lo,
    ensures
        w as int / 0x400_0000 == hi,
        field(w, 1, 0x400_0000) == lo,
{
}

/// What a word with top byte `hi`, displacement `mid` and low bits `lo` decodes to.
pub proof fn lemma_kind19(addr: u64, w: u32, hi: int, mid: int, lo: int)
    requires
        0 <= hi < 0x100,
        0 <= mid < 0x8_0000,
        0 <= lo < 0x20,
        w == hi * 0x100_0000 + mid * 0x20 + lo,
    ensures
        ({
            let near = displaced(addr, 4 * sign_extended(mid, 0x8_0000));
            &&& hi == 0x54 && lo < 0x10 ==> a64_kind(addr, w) == (InsnKind::BranchCond {
                target: near,
                cond: cond_of(lo),
            })
            &&& (hi == 0x34 || hi == 0x35 || hi == 0xB4 || hi == 0xB5) ==> a64_kind(addr, w) == (
            InsnKind::CompareBranch {
                target: near,
                reg: lo as u8,
                nonzero: hi % 2 == 1,
                is64: hi >= 0x80,
            })
            &&& (hi == 0x36 || hi == 0x37 || hi == 0xB6 || hi == 0xB7) ==> a64_kind(addr, w) == (
            InsnKind::TestBranch {
                target: displaced(addr, 4 * sign_extended(mid % 0x4000, 0x4000)),
                reg: lo as u8,
                bit: (mid / 0x4000 + if hi >= 0x80 {
                    32int
                } else {
                    0
                }) as u8,
                nonzero: hi % 2 == 1,
            })
            &&& (hi == 0x18 || hi == 0x58) ==> a64_kind(addr, w) == (InsnKind::PcRelLoad {
                rt: lo as u8,
                target: near,
                is64: hi == 0x58,
                is_simd: false,
            })
            &&& (hi == 0x10 || hi == 0x30 || hi == 0x50 || hi == 0x70) ==> a64_kind(addr, w) == (
            InsnKind::PcRelAddr {
                rd: lo as u8,
                target: displaced(addr, sign_extended(4 * mid + hi / 0x20, 0x20_0000)),
                is_page: false,
            })
            &&& (hi == 0x90 || hi == 0xB0 || hi == 0xD0 || hi == 0xF0) ==> a64_kind(addr, w) == (
            InsnKind::PcRelAddr {
                rd: lo as u8,
                target: displaced(
                    (addr - addr % 0x1000) as u64,
                    0x1000 * sign_extended(4 * mid + (hi / 0x20) % 4, 0x20_0000),
                ),
                is_page: true,
            })
        }),
{
    reveal(a64_kind);
    lemma_fields19(w, hi, mid, lo);
}

/// The conditional branches within 1 MiB decode back to what was encoded.
pub proof fn law_conditional_round_trip(
    cond: Cond,
    reg: u8,
    nonzero: bool,
    is64: bool,
    pc: u64,
    target: u64,
)
    requires
        -0x10_0000 <= delta(pc, target) < 0x10_0000,
        delta(pc, target) % 4 == 0,
        reg < 32,
    ensures
        a64_kind(pc, b_cond_word(cond, pc, target)) == (InsnKind::BranchCond { target, cond }),
        a64_kind(pc, cbz_word(reg, nonzero, is64, pc, target)) == (InsnKind::CompareBranch {
            target,
            reg,
            nonzero,
            is64,
        }),
{
    let imm = word_imm(pc, target, 0x8_0000);
    lemma_word_imm(pc, target, 0x8_0000);
    law_delta_reaches_target(pc, target);
    crate::decoder::law_cond_number_bijection(cond, 0);
    let w = b_cond_word(cond, pc, target);
    assert(w == 0x54 * 0x100_0000 + imm * 0x20 + cond_number(cond)) by {
        reveal(b_cond_word);
    }
    lemma_kind19(pc, w, 0x54, imm, cond_number(cond));
    let hi: int = 0x34 + (if nonzero {
        1int
    } else {
        0
    }) + if is64 {
        0x80int
    } else {
        0
    };
    let c = cbz_word(reg, nonzero, is64, pc, target);
    assert(c == hi * 0x100_0000 + imm * 0x20 + reg) by {
        reveal(cbz_word);
    }
    lemma_kind19(pc, c, hi, imm, reg as int);
}

/// A test branch within 32 KiB decodes back to what was encoded.
pub proof fn law_test_branch_round_trip(reg: u8, bit: u8, nonzero: bool, pc: u64, target: u64)
    requires
        -0x8000 <= delta(pc, target) < 0x8000,
        delta(pc, target) % 4 == 0,
        reg < 32,
        bit < 64,
    ensures
        a64_kind(pc, tbz_word(reg, bit, nonzero, pc, target)) == (InsnKind::TestBranch {
            target,
            reg,
            bit,
            nonzero,
        }),
{
    let imm = word_imm(pc, target, 0x4000);
    lemma_word_imm(pc, target, 0x4000);
    law_delta_reaches_target(pc, target);
    let w = tbz_word(reg, bit, nonzero, pc, target);
    let hi: int = 0x36 + (if nonzero {
        1int
    } else {
        0
    }) + if bit >= 32 {
        0x80int
    } else {
        0
    };
    let mid = (bit % 32) * 0x4000 + imm;
    assert(w == hi * 0x100_0000 + mid * 0x20 + reg) by {
        reveal(tbz_word);
    }
    assert(mid % 0x4000 == imm);
    assert(mid / 0x4000 == bit % 32);
    lemma_kind19(pc, w, hi, mid, reg as int);
}

/// ADR and ADRP decode back to the address, or the page, that was encoded.
pub proof fn law_address_round_trip(rd: u8, pc: u64, target: u64)
    requires
        rd < 32,
    ensures
        -0x10_0000 <= delta(pc, target) < 0x10_0000 ==> a64_kind(pc, adr_word(rd, pc, target)) == (
        InsnKind::PcRelAddr { rd, target, is_page: false }),
        -0x10_0000 <= page_delta(pc, target) < 0x10_0000 ==> a64_kind(
            pc,
            adrp_word(rd, pc, target),
        ) == (InsnKind::PcRelAddr {
            rd,
            target: (target - target % 0x1000) as u64,
            is_page: true,
        }),
{
    if -0x10_0000 <= delta(pc, target) < 0x10_0000 {
        lemma_adr_decodes(rd, pc, target);
    }
    if -0x10_0000 <= page_delta(pc, target) < 0x10_0000 {
        lemma_adrp_decodes(rd, pc, target);
    }
}

/// The split 21-bit immediate, put together again.
proof fn lemma_split21(d: int, top: int)
    requires
        -0x10_0000 <= d < 0x10_0000,
        top == 0x10 || top == 0x90,
    ensures
        ({
            let imm = d % 0x20_0000;
            let hi = top + (imm % 4) * 0x20;
            &&& sign_extended(4 * (imm / 4) + (hi / 0x20) % 4, 0x20_0000) == d
            &&& 0 <= imm / 4 < 0x8_0000
            &&& top == 0x10 ==> hi == 0x10 || hi == 0x30 || hi == 0x50 || hi == 0x70
            &&& top == 0x90 ==> hi == 0x90 || hi == 0xB0 || hi == 0xD0 || hi == 0xF0
        }),
{
    let imm = d % 0x20_0000;
    let hi = top + (imm % 4) * 0x20;
    assert((hi / 0x20) % 4 == imm % 4);
    assert(4 * (imm / 4) + imm % 4 == imm);
}

proof fn lemma_adr_decodes(rd: u8, pc: u64, target: u64)
    requires
        rd < 32,
        -0x10_0000 <= delta(pc, target) < 0x10_0000,
    ensures
        a64_kind(pc, adr_word(rd, pc, target)) == (InsnKind::PcRelAddr {
            rd,
            target,
            is_page: false,
        }),
{
    let imm = delta(pc, target) % 0x20_0000;
    let w = adr_word(rd, pc, target);
    let hi = 0x10 + (imm % 4) * 0x20;
    lemma_split21(delta(pc, target), 0x10);
    assert(w == hi * 0x100_0000 + (imm / 4) * 0x20 + rd) by {
        reveal(adr_word);
    }
    lemma_kind19(pc, w, hi, imm / 4, rd as int);
    law_delta_reaches_target(pc, target);
}

proof fn lemma_adrp_decodes(rd: u8, pc: u64, target: u64)
    requires
        rd < 32,
        -0x10_0000 <= page_delta(pc, target) < 0x10_0000,
    ensures
        a64_kind(pc, adrp_word(rd, pc, target)) == (InsnKind::PcRelAddr {
            rd,
            target: (target - target % 0x1000) as u64,
            is_page: true,
        }),
{
    let imm = page_delta(pc, target) % 0x20_0000;
    let w = adrp_word(rd, pc, target);
    let hi = 0x90 + (imm % 4) * 0x20;
    lemma_split21(page_delta(pc, target), 0x90);
    assert(w == hi * 0x100_0000 + (imm / 4) * 0x20 + rd) by {
        reveal(adrp_word);
    }
    lemma_kind19(pc, w, hi, imm / 4, rd as int);
    lemma_page_distance(pc, target);
    law_delta_reaches_target((pc - pc % 0x1000) as u64, (target - target % 0x1000) as u64);
}

/// The distance between two pages is a whole number of pages.
proof fn lemma_page_distance(pc: u64, target: u64)
    ensures
        0x1000 * page_delta(pc, target) == delta(
            (pc - pc % 0x1000) as u64,
            (target - target % 0x1000) as u64,
        ),
{
    reveal(delta);
    reveal(page_delta);
    let page_pc = (pc - pc % 0x1000) as u64;
    let page_target = (target - target % 0x1000) as u64;
    assert(page_pc % 0x1000 == 0);
    assert(page_target % 0x1000 == 0);
}

/// A literal load within 1 MiB of an aligned literal decodes back to what was encoded.
pub proof fn law_literal_round_trip(rt: u8, is64: bool, pc: u64, target: u64)
    requires
        literal_reaches(pc, target),
        delta(pc, target) % 4 == 0,
        rt < 32,
    ensures
        a64_kind(pc, ldr_lit_word(rt, is64, pc, target)) == (InsnKind::PcRelLoad {
            rt,
            target,
            is64,
            is_simd: false,
        }),
{
    let imm = word_imm(pc, target, 0x8_0000);
    lemma_word_imm(pc, target, 0x8_0000);
    law_delta_reaches_target(pc, target);
    let w = ldr_lit_word(rt, is64, pc, target);
    let hi: int = if is64 {
        0x58
    } else {
        0x18
    };
    assert(w == hi * 0x100_0000 + imm * 0x20 + rt) by {
        reveal(ldr_lit_word);
    }
    lemma_kind19(pc, w, hi, imm, rt as int);
}

proof fn lemma_abs_branch_bytes(target: u64)
    ensures
        abs_branch(target).len() == 16,
        word_at(abs_branch(target), 0) == ldr_x17_8(),
        word_at(abs_branch(target), 4) == br_x17(),
        quad_at(abs_branch(target), 8) == target,
{
    let s = abs_branch(target);
    let e = Seq::<u8>::empty();
    assert(s =~= e + le32(ldr_x17_8()) + (le32(br_x17()) + le64(target)));
    crate::bytes::law_word_round_trip(e, ldr_x17_8(), le32(br_x17()) + le64(target));
    crate::bytes::law_word_round_trip(le32(ldr_x17_8()), br_x17(), le64(target));
    crate::bytes::law_quad_round_trip(le32(ldr_x17_8()) + le32(br_x17()), target, e);
    assert(s =~= le32(ldr_x17_8()) + le32(br_x17()) + le64(target) + e);
}

proof fn lemma_abs_branch_load(pc: u64)
    ensures
        a64_kind(pc, ldr_x17_8()) == (InsnKind::PcRelLoad {
            rt: 17,
            target: displaced(pc, 8),
            is64: true,
            is_simd: false,
        }),
{
    reveal(a64_kind);
    assert(field(ldr_x17_8(), 0x20, 0x8_0000) == 2);
    assert(field(ldr_x17_8(), 1, 0x20) == 17);
}

proof fn lemma_abs_branch_jump(pc: u64)
    ensures
        a64_kind(pc, br_x17()) == (InsnKind::BranchReg { rn: 17 }),
{
    reveal(a64_kind);
    assert(field(br_x17(), 0x20, 0x20) == 17);
}

/// The absolute branch stub is 16 bytes: a load of X17 from the literal 8 bytes on, a branch
/// through X17, and the target as that literal.
pub proof fn law_abs_branch_layout(target: u64)
    ensures
        abs_branch(target).len() == 16,
        word_at(abs_branch(target), 0) == ldr_x17_8(),
        word_at(abs_branch(target), 4) == br_x17(),
        quad_at(abs_branch(target), 8) == target,
        forall|pc: u64|
            a64_kind(pc, ldr_x17_8()) == (InsnKind::PcRelLoad {
                rt: 17,
                target: displaced(pc, 8),
                is64: true,
                is_simd: false,
            }),
        forall|pc: u64| a64_kind(pc, br_x17()) == (InsnKind::BranchReg { rn: 17 }),
{
    lemma_abs_branch_bytes(target);
    assert forall|pc: u64|
        a64_kind(pc, ldr_x17_8()) == (InsnKind::PcRelLoad {
            rt: 17,
            target: displaced(pc, 8),
            is64: true,
            is_simd: false,
        }) by {
        lemma_abs_branch_load(pc);
    }
    assert forall|pc: u64| a64_kind(pc, br_x17()) == (InsnKind::BranchReg { rn: 17 }) by {
        lemma_abs_branch_jump(pc);
    }
}

} // verus!
