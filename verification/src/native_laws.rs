//! What holds of hooked code as a whole.
use crate::bytes::{law_quad_round_trip, law_word_round_trip, le32, le64, quad_at, word_at};
use crate::decoder::{
    a64_kind, cond_number, displaced, field, imm21, inverted, law_displaced_adds, sign_extended,
    Arm64Decoder, Cond, DecodedInsn, DisasmAdapter, InsnKind,
};
use crate::encode::{
    abs_branch, add_imm_word, adrp_word, b_word, delta, law_abs_branch_layout,
    law_address_round_trip, law_branch_round_trip, ldr_x17_8, lemma_delta_of_move, literal_reaches,
    page_delta,
};
use crate::patch::{attach_outcome, AttachPlan, HookError, RELOC_OFF};
use crate::relocator::{
    build_trampoline, first_insns, ldr_via_x17, relocate_one, relocated, relocated_all, RelocError,
    RelocatedBlock,
};
use crate::trampoline::{
    dispatch_call, enter_thunk, frame_pairs, law_simd_frame, law_thunk_layout, leave_thunk, reload,
    simd_thunk, spill, HookCallbacks, HookId,
};
use crate::writer::{pops, pushes};
use vstd::prelude::*;

verus! {

/// An instruction that does not depend on where it stands, or that goes where a register says,
/// is emitted as its own four bytes, wherever that is.
pub proof fn law_plain_instruction_is_copied(
    insn: &DecodedInsn,
    emit_pc: u64,
    r: Result<Vec<u8>, RelocError>,
)
    requires
        insn.kind is PcIndependent || insn.kind is BranchReg,
        call_ensures(relocate_one, (insn, emit_pc), r),
    ensures
        r matches Ok(b) && b@.len() == 4 && word_at(b@, 0) == insn.raw,
{
    reveal(relocated);
    let none = Seq::<u8>::empty();
    law_word_round_trip(none, insn.raw, none);
    assert(none + le32(insn.raw) + none =~= le32(insn.raw));
}

/// A word and the next ones of some bytes are those bytes.
proof fn lemma_bytes_of_word(s: Seq<u8>, at: int)
    requires
        0 <= at,
        at + 4 <= s.len(),
    ensures
        le32(word_at(s, at)) == s.subrange(at, at + 4),
{
    lemma_word_digits(s[at], s[at + 1], s[at + 2], s[at + 3], word_at(s, at));
    assert(le32(word_at(s, at)) =~= s.subrange(at, at + 4));
}

proof fn lemma_word_digits(a: u8, b: u8, c: u8, d: u8, w: u32)
    requires
        w == (a + b * 0x100 + c * 0x1_0000 + d * 0x100_0000) as u32,
    ensures
        w % 0x100 == a,
        (w / 0x100) % 0x100 == b,
        (w / 0x1_0000) % 0x100 == c,
        w / 0x100_0000 == d,
{
    assert(w == a + b * 0x100 + c * 0x1_0000 + d * 0x100_0000);
    assert(w as int / 0x100 == b + c * 0x100 + d * 0x1_0000);
    assert(w as int / 0x1_0000 == c + d * 0x100);
}

/// The code that goes on at a relocated instruction's own address.
proof fn lemma_relocated_grows(insns: Seq<DecodedInsn>, base: u64, k: int)
    requires
        0 <= k < insns.len(),
    ensures
        ({
            let before = relocated_all(insns.take(k), base);
            let here = relocated(insns[k], displaced(base, before.len() as int));
            &&& relocated_all(insns.take(k + 1), base) == before + here
        }),
{
    assert(insns.take(k + 1).drop_last() =~= insns.take(k));
    assert(insns.take(k + 1).last() == insns[k]);
}

/// Relocated instructions stand in the order of the displaced ones, and each is made for the
/// address that it comes to stand at.
pub proof fn law_relocated_in_order(insns: Seq<DecodedInsn>, base: u64, k: int)
    requires
        0 <= k < insns.len(),
    ensures
        ({
            let at = relocated_all(insns.take(k), base).len() as int;
            let here = relocated(insns[k], displaced(base, at));
            let all = relocated_all(insns, base);
            &&& at + here.len() <= all.len()
            &&& all.subrange(at, at + here.len()) == here
        }),
    decreases insns.len(),
{
    let at = relocated_all(insns.take(k), base).len() as int;
    let here = relocated(insns[k], displaced(base, at));
    let all = relocated_all(insns, base);
    if k == insns.len() - 1 {
        assert(insns.take(k) =~= insns.drop_last());
        assert(all.subrange(at, at + here.len()) =~= here);
    } else {
        let init = insns.drop_last();
        law_relocated_in_order(init, base, k);
        assert(init.take(k) =~= insns.take(k));
        let most = relocated_all(init, base);
        assert(all.subrange(at, at + here.len()) =~= most.subrange(
            at,
            at + here.len(),
        ));
    }
}

proof fn lemma_plain_prefix(target: u64, code: Seq<u8>, base: u64, k: int)
    requires
        code.len() >= 16,
        0 <= k <= 4,
        forall|i: int|
            0 <= i < 4 ==> a64_kind(displaced(target, 4 * i), #[trigger] word_at(code, 4 * i))
                is PcIndependent,
    ensures
        relocated_all(first_insns(&DisasmAdapter, target, code, 4).take(k), base) == code.take(
            4 * k,
        ),
    decreases k,
{
    let insns = first_insns(&DisasmAdapter, target, code, 4);
    if k == 0 {
        assert(insns.take(0) =~= Seq::<DecodedInsn>::empty());
        assert(code.take(0) =~= Seq::<u8>::empty());
    } else {
        lemma_plain_prefix(target, code, base, k - 1);
        lemma_relocated_grows(insns, base, k - 1);
        let w = word_at(code, 4 * (k - 1));
        assert(insns[k - 1].raw == w);
        assert(insns[k - 1].kind is PcIndependent);
        reveal(relocated);
        lemma_bytes_of_word(code, 4 * (k - 1));
        assert(code.take(4 * (k - 1)) + code.subrange(4 * (k - 1), 4 * k) =~= code.take(4 * k));
    }
}

/// Where the displaced instructions do not depend on their place, the trampoline starts with the
/// very bytes that the patch overwrites, and goes on at the first instruction behind them.
pub proof fn law_trampoline_keeps_plain_code(
    target: u64,
    code: &[u8],
    base: u64,
    r: Result<RelocatedBlock, RelocError>,
)
    requires
        code@.len() >= 16,
        forall|i: int|
            0 <= i < 4 ==> a64_kind(displaced(target, 4 * i), #[trigger] word_at(code@, 4 * i))
                is PcIndependent,
        call_ensures(build_trampoline::<DisasmAdapter>, (&DisasmAdapter, target, code, base), r),
    ensures
        r matches Ok(b) && b.code@.len() == 32 && b.code@.take(16) == code@.take(16)
            && b.patch_len == 16 && is_jump(b.code@, 16, displaced(target, 16)) && b.resume_addr
            == displaced(target, 16),
{
    let insns = first_insns(&DisasmAdapter, target, code@, 4);
    lemma_plain_prefix(target, code@, base, 4);
    assert(insns.take(4) =~= insns);
    let b = r->Ok_0;
    law_abs_branch_layout(displaced(target, 16));
    lemma_jump_at(code@.take(16), displaced(target, 16));
    assert(b.code@.take(16) =~= code@.take(16));
}

/// The last thing in any trampoline is the jump behind the patch, and the number of bytes that
/// it stands for is that of the patch.
pub proof fn law_trampoline_returns<D: Arm64Decoder>(
    decoder: &D,
    target: u64,
    code: &[u8],
    base: u64,
    r: Result<RelocatedBlock, RelocError>,
)
    requires
        call_ensures(build_trampoline::<D>, (decoder, target, code, base), r),
    ensures
        r is Err <==> code@.len() < 16,
        r matches Ok(b) ==> b.code@.len() >= 16 && is_jump(
            b.code@,
            b.code@.len() - 16,
            displaced(target, b.patch_len as int),
        ) && b.displaced@.len() * 4 == b.patch_len,
{
    if let Ok(b) = r {
        law_abs_branch_layout(b.resume_addr);
        lemma_jump_at(relocated_all(b.displaced@, base), b.resume_addr);
    }
}

/// Whether the code at a place loads X17 with an address that stands behind it, and branches
/// there: `LDR X17, #8; BR X17; <address>`.
pub open spec fn is_jump(code: Seq<u8>, at: int, address: u64) -> bool {
    &&& at + 16 <= code.len()
    &&& word_at(code, at) == 0x5800_0051
    &&& word_at(code, at + 4) == 0xD61F_0220
    &&& quad_at(code, at + 8) == address
}

proof fn lemma_jump_at(before: Seq<u8>, address: u64)
    ensures
        is_jump(before + abs_branch(address), before.len() as int, address),
{
    let none = Seq::<u8>::empty();
    let load = le32(0x5800_0051u32);
    let jump = le32(0xD61F_0220u32);
    let end = le64(address);
    lemma_three_behind(before, load, jump, end);
    law_word_round_trip(before, 0x5800_0051, jump + end);
    law_word_round_trip(before + load, 0xD61F_0220, end);
    law_quad_round_trip(before + load + jump, address, none);
}

proof fn lemma_three_behind(before: Seq<u8>, a: Seq<u8>, b: Seq<u8>, c: Seq<u8>)
    ensures
        before + (a + b + c) == before + a + (b + c),
        before + (a + b + c) == before + a + b + c,
        before + (a + b + c) == before + a + b + c + Seq::<u8>::empty(),
{
    assert(before + (a + b + c) =~= before + a + (b + c));
    assert(before + (a + b + c) =~= before + a + b + c);
    assert(before + (a + b + c) =~= before + a + b + c + Seq::<u8>::empty());
}

/// A jump goes through X17, which holds the address that stands 8 bytes on.
pub proof fn law_jump_goes_to_its_address(code: Seq<u8>, at: int, pc: u64, address: u64)
    requires
        is_jump(code, at, address),
    ensures
        a64_kind(pc, word_at(code, at)) == (InsnKind::PcRelLoad {
            rt: 17,
            target: displaced(pc, 8),
            is64: true,
            is_simd: false,
        }),
        a64_kind(displaced(pc, 4), word_at(code, at + 4)) == (InsnKind::BranchReg { rn: 17 }),
{
    law_abs_branch_layout(address);
}

/// A relocated branch jumps to the same target, and a relocated short conditional branch ends
/// with a jump to it.
pub proof fn law_relocated_branch_keeps_target(
    insn: &DecodedInsn,
    emit_pc: u64,
    r: Result<Vec<u8>, RelocError>,
)
    requires
        call_ensures(relocate_one, (insn, emit_pc), r),
    ensures
        ({
            let code = r->Ok_0@;
            &&& r is Ok
            &&& insn.kind matches InsnKind::Branch { target, link: false } ==> code.len() == 16
                && is_jump(code, 0, target)
            &&& insn.kind matches InsnKind::Branch { target, link: true } ==> code.len() == 20
                && is_jump(code, 4, target)
            &&& insn.kind matches InsnKind::BranchCond { target, .. } ==> code.len() == 20
                && is_jump(code, 4, target)
            &&& insn.kind matches InsnKind::CompareBranch { target, .. } ==> code.len() == 20
                && is_jump(code, 4, target)
            &&& insn.kind matches InsnKind::TestBranch { target, .. } ==> code.len() == 20
                && is_jump(code, 4, target)
        }),
{
    reveal(relocated);
    let code = relocated(*insn, emit_pc);
    match insn.kind {
        InsnKind::Branch { target, link } => {
            law_abs_branch_layout(target);
            if link {
                lemma_jump_at(code.take(4), target);
                assert(code =~= code.take(4) + abs_branch(target));
            } else {
                lemma_jump_at(Seq::empty(), target);
                assert(code =~= Seq::<u8>::empty() + abs_branch(target));
            }
        },
        InsnKind::BranchCond { target, .. } => {
            law_abs_branch_layout(target);
            lemma_jump_at(code.take(4), target);
            assert(code =~= code.take(4) + abs_branch(target));
        },
        InsnKind::CompareBranch { target, .. } => {
            law_abs_branch_layout(target);
            lemma_jump_at(code.take(4), target);
            assert(code =~= code.take(4) + abs_branch(target));
        },
        InsnKind::TestBranch { target, .. } => {
            law_abs_branch_layout(target);
            lemma_jump_at(code.take(4), target);
            assert(code =~= code.take(4) + abs_branch(target));
        },
        _ => {},
    }
}

/// An address that is out of the reach of ADR comes from ADRP, which gives its page, and an
/// addition of its place in the page to the same register.
pub proof fn law_far_address_is_kept(insn: &DecodedInsn, pc: u64, r: Result<Vec<u8>, RelocError>)
    requires
        call_ensures(relocate_one, (insn, pc), r),
    ensures
        ({
            let code = r->Ok_0@;
            insn.kind matches InsnKind::PcRelAddr { rd, target, .. } ==> rd < 32 && !(-0x10_0000
                <= delta(pc, target) < 0x10_0000) && -0x10_0000 <= page_delta(pc, target)
                < 0x10_0000 ==> {
                &&& r is Ok
                &&& code.len() == 8
                &&& a64_kind(pc, word_at(code, 0)) == (InsnKind::PcRelAddr {
                    rd,
                    target: (target - target % 0x1000) as u64,
                    is_page: true,
                })
                &&& adds_to_itself(word_at(code, 4), rd as int, target as int % 0x1000)
            }
        }),
{
    reveal(relocated);
    if let InsnKind::PcRelAddr { rd, target, .. } = insn.kind {
        if rd < 32 && !(-0x10_0000 <= delta(pc, target) < 0x10_0000) && -0x10_0000 <= page_delta(
            pc,
            target,
        ) < 0x10_0000 {
            let a = adrp_word(rd, pc, target);
            let b = add_imm_word(rd, rd, (target % 0x1000) as u32, true);
            law_address_round_trip(rd, pc, target);
            lemma_two_words(a, b);
            assert(relocated(*insn, pc) == le32(a) + le32(b));
            lemma_add_fields(rd, (target % 0x1000) as u32);
        }
    }
}

proof fn lemma_two_words(a: u32, b: u32)
    ensures
        (le32(a) + le32(b)).len() == 8,
        word_at(le32(a) + le32(b), 0) == a,
        word_at(le32(a) + le32(b), 4) == b,
{
    let none = Seq::<u8>::empty();
    let all = le32(a) + le32(b);
    law_word_round_trip(none, a, le32(b));
    assert(none + le32(a) + le32(b) =~= all);
    law_word_round_trip(le32(a), b, none);
    assert(all + none =~= all);
}

proof fn lemma_add_fields(rd: u8, imm: u32)
    requires
        rd < 32,
        imm < 0x1000,
    ensures
        adds_to_itself(add_imm_word(rd, rd, imm, true), rd as int, imm as int),
{
    reveal(add_imm_word);
    let w = add_imm_word(rd, rd, imm, true);
    assert(w == 0x9100_0000 + imm * 0x400 + rd * 0x20 + rd);
    assert(w as int / 0x40_0000 == 0x244);
    assert(w as int / 0x400 == 0x9100_0000int / 0x400 + imm);
    assert(w as int / 0x20 == 0x9100_0000int / 0x20 + imm * 0x20 + rd);
}

/// Whether a word is `ADD Xd, Xd, #imm`.
pub open spec fn adds_to_itself(word: u32, reg: int, imm: int) -> bool {
    &&& word as int / 0x40_0000 == 0x244
    &&& field(word, 1, 0x20) == reg
    &&& field(word, 0x20, 0x20) == reg
    &&& field(word, 0x400, 0x1000) == imm
}

/// A literal that is out of reach is loaded through its address: that goes to X17 from behind
/// the load, which is branched over, and the register is loaded from where X17 points.
pub proof fn law_far_literal_is_kept(insn: &DecodedInsn, pc: u64, r: Result<Vec<u8>, RelocError>)
    requires
        call_ensures(relocate_one, (insn, pc), r),
    ensures
        ({
            let code = r->Ok_0@;
            insn.kind matches InsnKind::PcRelLoad { rt, target, is64, .. } ==> rt < 32
                && !literal_reaches(pc, target) ==> {
                &&& r is Ok
                &&& code.len() == 20
                &&& a64_kind(pc, word_at(code, 0)) == (InsnKind::PcRelLoad {
                    rt: 17,
                    target: displaced(pc, 8),
                    is64: true,
                    is_simd: false,
                })
                &&& a64_kind(displaced(pc, 4), word_at(code, 4)) == (InsnKind::Branch {
                    target: displaced(pc, 16),
                    link: false,
                })
                &&& quad_at(code, 8) == target
                &&& field(word_at(code, 16), 1, 0x20) == rt
                &&& field(word_at(code, 16), 0x20, 0x20) == 17
                &&& field(word_at(code, 16), 0x400, 0x1000) == 0
                &&& word_at(code, 16) as int / 0x40_0000 == if is64 {
                    0x3E5int
                } else {
                    0x2E5
                }
            }
        }),
{
    reveal(relocated);
    if let InsnKind::PcRelLoad { rt, target, is64, .. } = insn.kind {
        if rt < 32 && !literal_reaches(pc, target) {
            let last = ldr_via_x17(rt, is64);
            law_abs_branch_layout(target);
            lemma_literal_parts(target, last);
            lemma_load_fields(rt, is64);
            lemma_branch_over(pc);
            assert(relocated(*insn, pc) == literal_stub(target, last));
        }
    }
}

/// `LDR X17, #8; B #12; <target>`, and one more word.
spec fn literal_stub(target: u64, last: u32) -> Seq<u8> {
    le32(ldr_x17_8()) + le32(0x1400_0003u32) + le64(target) + le32(last)
}

proof fn lemma_literal_parts(target: u64, last: u32)
    ensures
        ({
            let code = literal_stub(target, last);
            &&& code.len() == 20
            &&& word_at(code, 0) == ldr_x17_8()
            &&& word_at(code, 4) == 0x1400_0003
            &&& quad_at(code, 8) == target
            &&& word_at(code, 16) == last
        }),
{
    let none = Seq::<u8>::empty();
    let code = literal_stub(target, last);
    let a = le32(ldr_x17_8());
    let b = le32(0x1400_0003u32);
    law_word_round_trip(none, ldr_x17_8(), b + le64(target) + le32(last));
    assert(none + a + (b + le64(target) + le32(last)) =~= code);
    law_word_round_trip(a, 0x1400_0003u32, le64(target) + le32(last));
    assert(a + b + (le64(target) + le32(last)) =~= code);
    law_quad_round_trip(a + b, target, le32(last));
    law_word_round_trip(a + b + le64(target), last, none);
    assert(code + none =~= code);
}

proof fn lemma_load_fields(rt: u8, is64: bool)
    requires
        rt < 32,
    ensures
        ({
            let w = ldr_via_x17(rt, is64);
            &&& field(w, 1, 0x20) == rt
            &&& field(w, 0x20, 0x20) == 17
            &&& field(w, 0x400, 0x1000) == 0
            &&& w as int / 0x40_0000 == if is64 {
                0x3E5int
            } else {
                0x2E5
            }
        }),
{
    let w = ldr_via_x17(rt, is64);
    let base: int = if is64 {
        0xF940_0220
    } else {
        0xB940_0220
    };
    assert(w == base + rt);
    assert(w as int / 0x20 == base / 0x20);
    assert(w as int / 0x400 == base / 0x400);
}

proof fn lemma_branch_over(pc: u64)
    ensures
        a64_kind(displaced(pc, 4), 0x1400_0003u32) == (InsnKind::Branch {
            target: displaced(pc, 16),
            link: false,
        }),
{
    let at = displaced(pc, 4);
    let to = displaced(at, 12);
    lemma_delta_of_move(at, 12);
    law_branch_round_trip(at, to);
    law_displaced_adds(pc, 4, 12);
    reveal(b_word);
    reveal(crate::encode::word_imm);
    assert(b_word(at, to) == 0x1400_0003u32);
}

/// The condition flags.
pub struct Flags {
    pub n: bool,
    pub z: bool,
    pub c: bool,
    pub v: bool,
}

/// Whether a condition holds.
pub open spec fn holds(cond: Cond, f: Flags) -> bool {
    match cond {
        Cond::Eq => f.z,
        Cond::Ne => !f.z,
        Cond::Cs => f.c,
        Cond::Cc => !f.c,
        Cond::Mi => f.n,
        Cond::Pl => !f.n,
        Cond::Vs => f.v,
        Cond::Vc => !f.v,
        Cond::Hi => f.c && !f.z,
        Cond::Ls => !f.c || f.z,
        Cond::Ge => f.n == f.v,
        Cond::Lt => f.n != f.v,
        Cond::Gt => !f.z && f.n == f.v,
        Cond::Le => f.z || f.n != f.v,
        Cond::Al | Cond::Nv => true,
    }
}

/// Whether the condition with a four-bit encoding holds: the upper three bits choose a test, and
/// the lowest one turns it round, but for the last encoding.
pub open spec fn encoded_holds(n: int, f: Flags) -> bool {
    let test = n / 2;
    let plain = if test == 0 {
        f.z
    } else if test == 1 {
        f.c
    } else if test == 2 {
        f.n
    } else if test == 3 {
        f.v
    } else if test == 4 {
        f.c && !f.z
    } else if test == 5 {
        f.n == f.v
    } else if test == 6 {
        f.n == f.v && !f.z
    } else {
        true
    };
    if n % 2 == 1 && n != 15 {
        !plain
    } else {
        plain
    }
}

/// A condition and its inverse never hold together, and one of them always does, but for AL and
/// NV; and a condition means what its encoding does.
pub proof fn law_inverse_is_negation(c: Cond, f: Flags)
    ensures
        !(c is Al || c is Nv) ==> holds(inverted(c), f) == !holds(c, f),
        holds(c, f) == encoded_holds(cond_number(c), f),
{
}

/// Whether an instruction depends on its place does not depend on its place, and where the place
/// moves, what a branch or a load goes to moves with it.
pub proof fn law_targets_move_with_the_place(addr: u64, by: int, word: u32)
    ensures
        ({
            let here = a64_kind(addr, word);
            let there = a64_kind(displaced(addr, by), word);
            match here {
                InsnKind::Branch { target, link } => there == (InsnKind::Branch {
                    target: displaced(target, by),
                    link,
                }),
                InsnKind::BranchCond { target, cond } => there == (InsnKind::BranchCond {
                    target: displaced(target, by),
                    cond,
                }),
                InsnKind::CompareBranch { target, reg, nonzero, is64 } => there == (
                InsnKind::CompareBranch { target: displaced(target, by), reg, nonzero, is64 }),
                InsnKind::TestBranch { target, reg, bit, nonzero } => there == (
                InsnKind::TestBranch { target: displaced(target, by), reg, bit, nonzero }),
                InsnKind::PcRelLoad { rt, target, is64, is_simd } => there == (
                InsnKind::PcRelLoad { rt, target: displaced(target, by), is64, is_simd }),
                InsnKind::PcRelAddr { rd, target, is_page } => if is_page {
                    there matches InsnKind::PcRelAddr { rd: d, is_page: p, .. } && d == rd && p
                } else {
                    there == (InsnKind::PcRelAddr { rd, target: displaced(target, by), is_page })
                },
                InsnKind::BranchReg { .. } | InsnKind::PcIndependent => there == here,
            }
        }),
{
    let d26 = 4 * sign_extended(field(word, 1, 0x400_0000), 0x400_0000);
    let d19 = 4 * sign_extended(field(word, 0x20, 0x8_0000), 0x8_0000);
    let d14 = 4 * sign_extended(field(word, 0x20, 0x4000), 0x4000);
    let d21 = imm21(word);
    lemma_moves_commute(addr, by, d26);
    lemma_moves_commute(addr, by, d19);
    lemma_moves_commute(addr, by, d14);
    lemma_moves_commute(addr, by, d21);
    lemma_kind_by_word(addr, displaced(addr, by), word);
}

proof fn lemma_moves_commute(addr: u64, by: int, d: int)
    ensures
        displaced(displaced(addr, by), d) == displaced(displaced(addr, d), by),
{
    law_displaced_adds(addr, by, d);
    law_displaced_adds(addr, d, by);
}

/// Two places agree on everything about a word but where it leads, and that is told by the
/// distance in the word.
proof fn lemma_kind_by_word(a: u64, b: u64, word: u32)
    ensures
        ({
            let d26 = 4 * sign_extended(field(word, 1, 0x400_0000), 0x400_0000);
            let d19 = 4 * sign_extended(field(word, 0x20, 0x8_0000), 0x8_0000);
            let d14 = 4 * sign_extended(field(word, 0x20, 0x4000), 0x4000);
            let there = a64_kind(b, word);
            match a64_kind(a, word) {
                InsnKind::Branch { target, link } => target == displaced(a, d26) && there == (
                InsnKind::Branch { target: displaced(b, d26), link }),
                InsnKind::BranchCond { target, cond } => target == displaced(a, d19) && there == (
                InsnKind::BranchCond { target: displaced(b, d19), cond }),
                InsnKind::CompareBranch { target, reg, nonzero, is64 } => target == displaced(a, d19)
                    && there == (InsnKind::CompareBranch {
                    target: displaced(b, d19),
                    reg,
                    nonzero,
                    is64,
                }),
                InsnKind::TestBranch { target, reg, bit, nonzero } => target == displaced(a, d14)
                    && there == (InsnKind::TestBranch {
                    target: displaced(b, d14),
                    reg,
                    bit,
                    nonzero,
                }),
                InsnKind::PcRelLoad { rt, target, is64, is_simd } => target == displaced(a, d19)
                    && there == (InsnKind::PcRelLoad {
                    rt,
                    target: displaced(b, d19),
                    is64,
                    is_simd,
                }),
                InsnKind::PcRelAddr { rd, target, is_page } => if is_page {
                    there matches InsnKind::PcRelAddr { rd: d, is_page: p, .. } && d == rd && p
                } else {
                    target == displaced(a, imm21(word)) && there == (InsnKind::PcRelAddr {
                        rd,
                        target: displaced(b, imm21(word)),
                        is_page,
                    })
                },
                InsnKind::BranchReg { .. } | InsnKind::PcIndependent => there == a64_kind(a, word),
            }
        }),
{
    reveal(a64_kind);
}

/// The branches through a register are told by their words, whatever the register.
pub proof fn law_register_branches(addr: u64, rn: u32)
    requires
        rn < 32,
    ensures
        a64_kind(addr, (0xD61F_0000 + rn * 0x20) as u32) == (InsnKind::BranchReg { rn: rn as u8 }),
        a64_kind(addr, (0xD63F_0000 + rn * 0x20) as u32) == (InsnKind::BranchReg { rn: rn as u8 }),
        a64_kind(addr, (0xD65F_0000 + rn * 0x20) as u32) == (InsnKind::BranchReg { rn: rn as u8 }),
{
    lemma_register_branch(addr, 0xD61F_0000, rn);
    lemma_register_branch(addr, 0xD63F_0000, rn);
    lemma_register_branch(addr, 0xD65F_0000, rn);
}

proof fn lemma_register_branch(addr: u64, base: u32, rn: u32)
    requires
        rn < 32,
        base == 0xD61F_0000 || base == 0xD63F_0000 || base == 0xD65F_0000,
    ensures
        a64_kind(addr, (base + rn * 0x20) as u32) == (InsnKind::BranchReg { rn: rn as u8 }),
{
    let w = (base + rn * 0x20) as u32;
    assert(w == base + rn * 0x20);
    assert(w as int / 0x400_0000 == 0x35);
    assert(w as int / 0x100_0000 == 0xD6);
    assert(w as int / 0x400 == base as int / 0x400);
    assert(w as int / 0x20 == base as int / 0x20 + rn);
    assert(field(w, 1, 0x20) == 0);
    assert(field(w, 0x20, 0x20) == rn);
    reveal(a64_kind);
}

/// Whether a word stores, or loads, a pair of 64-bit registers at a place above SP, in units of
/// eight bytes, without moving it.
pub open spec fn moves_pair(word: u32, is_load: bool, first: int, at: int) -> bool {
    &&& word as int / 0x40_0000 == if is_load {
        0x2A5int
    } else {
        0x2A4
    }
    &&& field(word, 1, 0x20) == first
    &&& field(word, 0x400, 0x20) == first + 1
    &&& field(word, 0x20, 0x20) == 31
    &&& field(word, 0x8000, 0x80) == at
}

proof fn lemma_pair_fields(base: u32, is_load: bool, i: int)
    requires
        0 <= i < 15,
        base == if is_load {
            0xA940_0000u32
        } else {
            0xA900_0000u32
        },
    ensures
        moves_pair(
            (base + 2 * i * 0x8000 + (2 * i + 1) * 0x400 + 0x3E0 + 2 * i) as u32,
            is_load,
            2 * i,
            2 * i,
        ),
{
    let w = (base + 2 * i * 0x8000 + (2 * i + 1) * 0x400 + 0x3E0 + 2 * i) as u32;
    assert(w == base + 2 * i * 0x8000 + (2 * i + 1) * 0x400 + 0x3E0 + 2 * i);
    assert(w as int / 0x40_0000 == base as int / 0x40_0000);
    assert(w as int / 0x8000 == base as int / 0x8000 + 2 * i);
    assert(w as int / 0x400 == base as int / 0x400 + 2 * i * 0x20 + 2 * i + 1);
    assert(w as int / 0x20 == base as int / 0x20 + 2 * i * 0x400 + (2 * i + 1) * 0x20 + 31);
}

proof fn lemma_frame_word(base: u32, k: nat, i: int)
    requires
        0 <= i < k <= 15,
        base == 0xA940_0000 || base == 0xA900_0000,
    ensures
        frame_pairs(base, k).len() == 4 * k,
        word_at(frame_pairs(base, k), 4 * i) == (base + 2 * i * 0x8000 + (2 * i + 1) * 0x400 + 0x3E0
            + 2 * i) as u32,
    decreases k,
{
    let last = 2 * (k - 1);
    let w = (base + last * 0x8000 + (last + 1) * 0x400 + 0x3E0 + last) as u32;
    let before = frame_pairs(base, (k - 1) as nat);
    let none = Seq::<u8>::empty();
    lemma_frame_len(base, (k - 1) as nat);
    assert(frame_pairs(base, k) == before + le32(w));
    if i == k - 1 {
        law_word_round_trip(before, w, none);
        assert(before + le32(w) + none =~= before + le32(w));
    } else {
        lemma_frame_word(base, (k - 1) as nat, i);
        let all = before + le32(w);
        assert(all[4 * i] == before[4 * i]);
        assert(all[4 * i + 1] == before[4 * i + 1]);
        assert(all[4 * i + 2] == before[4 * i + 2]);
        assert(all[4 * i + 3] == before[4 * i + 3]);
    }
}

proof fn lemma_frame_len(base: u32, k: nat)
    ensures
        frame_pairs(base, k).len() == 4 * k,
    decreases k,
{
    if k > 0 {
        lemma_frame_len(base, (k - 1) as nat);
    }
}

/// The common part of the thunks: what they save, call and restore.
spec fn thunk_body(id: u32, dispatch: u64) -> Seq<u8> {
    spill() + dispatch_call(id, dispatch) + reload()
}

/// The word at a place of some bytes is that of the whole they stand in.
proof fn lemma_word_within(whole: Seq<u8>, part: Seq<u8>, from: int, at: int)
    requires
        0 <= from,
        from + part.len() <= whole.len(),
        whole.subrange(from, from + part.len()) == part,
        0 <= at,
        at + 4 <= part.len(),
    ensures
        word_at(whole, from + at) == word_at(part, at),
{
    let s = whole.subrange(from, from + part.len());
    assert(s[at] == whole[from + at]);
    assert(s[at + 1] == whole[from + at + 1]);
    assert(s[at + 2] == whole[from + at + 2]);
    assert(s[at + 3] == whole[from + at + 3]);
}

#[verifier::rlimit(60)]
#[verifier::spinoff_prover]
proof fn lemma_body_frame(id: u32, dispatch: u64, i: int)
    requires
        0 <= i < 15,
    ensures
        ({
            let t = thunk_body(id, dispatch);
            &&& t.len() == 180
            &&& moves_pair(word_at(t, 8 + 4 * i), false, 2 * i, 2 * i)
            &&& moves_pair(word_at(t, 100 + 4 * i), true, 2 * i, 2 * i)
        }),
{
    let t = thunk_body(id, dispatch);
    let stores = frame_pairs(0xA900_0000, 15);
    let loads = frame_pairs(0xA940_0000, 15);
    lemma_frame_word(0xA900_0000, 15, i);
    lemma_frame_word(0xA940_0000, 15, i);
    lemma_pair_fields(0xA900_0000, false, i);
    lemma_pair_fields(0xA940_0000, true, i);
    assert(t.subrange(8, 8 + stores.len() as int) =~= stores);
    assert(t.subrange(100, 100 + loads.len() as int) =~= loads);
    lemma_word_within(t, stores, 8, 4 * i);
    lemma_word_within(t, loads, 100, 4 * i);
}

/// The words of a call through X16 to an address that stands behind them, with a number in W1
/// and SP in X0.
pub open spec fn calls_with(code: Seq<u8>, at: int, number: int, address: u64) -> bool {
    &&& at + 28 <= code.len()
    &&& word_at(code, at) == 0x9100_03E0
    &&& word_at(code, at + 4) as int / 0x20_0000 == 0x5280_0000int / 0x20_0000
    &&& field(word_at(code, at + 4), 1, 0x20) == 1
    &&& field(word_at(code, at + 4), 0x20, 0x1_0000) == number
    &&& word_at(code, at + 8) == 0x5800_0070
    &&& word_at(code, at + 12) == 0xD63F_0200
    &&& word_at(code, at + 16) == 0x1400_0003
    &&& quad_at(code, at + 20) == address
}

proof fn lemma_call_parts(id: u32, dispatch: u64)
    ensures
        calls_with(dispatch_call(id, dispatch), 0, id as int % 0x1_0000, dispatch),
        dispatch_call(id, dispatch).len() == 28,
{
    let none = Seq::<u8>::empty();
    let w = (0x5280_0001 + (id % 0x1_0000) * 0x20) as u32;
    let c = dispatch_call(id, dispatch);
    let a0 = le32(0x9100_03E0u32);
    let a1 = le32(w);
    let a2 = le32(0x5800_0070u32);
    let a3 = le32(0xD63F_0200u32);
    let a4 = le32(0x1400_0003u32);
    let a5 = le64(dispatch);
    assert(c =~= a0 + a1 + a2 + a3 + a4 + a5);
    law_word_round_trip(none, 0x9100_03E0, a1 + a2 + a3 + a4 + a5);
    assert(none + a0 + (a1 + a2 + a3 + a4 + a5) =~= c);
    law_word_round_trip(a0, w, a2 + a3 + a4 + a5);
    assert(a0 + a1 + (a2 + a3 + a4 + a5) =~= c);
    law_word_round_trip(a0 + a1, 0x5800_0070, a3 + a4 + a5);
    assert(a0 + a1 + a2 + (a3 + a4 + a5) =~= c);
    law_word_round_trip(a0 + a1 + a2, 0xD63F_0200, a4 + a5);
    assert(a0 + a1 + a2 + a3 + (a4 + a5) =~= c);
    law_word_round_trip(a0 + a1 + a2 + a3, 0x1400_0003, a5);
    law_quad_round_trip(a0 + a1 + a2 + a3 + a4, dispatch, none);
    assert(c + none =~= c);
    assert(w == 0x5280_0001 + (id % 0x1_0000) * 0x20);
    assert(w as int / 0x20 == 0x5280_0000int / 0x20 + id % 0x1_0000);
    assert(w as int / 0x20_0000 == 0x5280_0000int / 0x20_0000);
}

proof fn lemma_calls_within(whole: Seq<u8>, part: Seq<u8>, from: int, number: int, address: u64)
    requires
        0 <= from,
        part.len() == 28,
        from + 28 <= whole.len(),
        whole.subrange(from, from + 28) == part,
        calls_with(part, 0, number, address),
    ensures
        calls_with(whole, from, number, address),
{
    lemma_word_within(whole, part, from, 0);
    lemma_word_within(whole, part, from, 4);
    lemma_word_within(whole, part, from, 8);
    lemma_word_within(whole, part, from, 12);
    lemma_word_within(whole, part, from, 16);
    lemma_word_within(whole, part, from, 20);
    lemma_word_within(whole, part, from, 24);
}

/// A thunk gives each general register back from where it saved it, and between the two it calls
/// its dispatch function with the hook's number and the saved registers. The enter thunk goes on
/// to the relocated code, or returns.
pub proof fn law_thunks_save_call_restore(
    id: u32,
    dispatch: u64,
    relocated_at: u64,
    replace_mode: bool,
    i: int,
)
    requires
        0 <= i < 15,
    ensures
        ({
            let enter = enter_thunk(id, dispatch, relocated_at, replace_mode);
            let leave = leave_thunk(id, dispatch);
            &&& moves_pair(word_at(enter, 8 + 4 * i), false, 2 * i, 2 * i)
            &&& moves_pair(word_at(enter, 100 + 4 * i), true, 2 * i, 2 * i)
            &&& moves_pair(word_at(leave, 8 + 4 * i), false, 2 * i, 2 * i)
            &&& moves_pair(word_at(leave, 100 + 4 * i), true, 2 * i, 2 * i)
            &&& calls_with(enter, 72, id as int % 0x1_0000, dispatch)
            &&& calls_with(leave, 72, id as int % 0x1_0000, dispatch)
            &&& word_at(leave, 180) == 0xD65F_03C0
            &&& replace_mode ==> word_at(enter, 180) == 0xD65F_03C0
            &&& !replace_mode ==> is_jump(enter, 180, relocated_at)
        }),
{
    reveal(enter_thunk);
    reveal(leave_thunk);
    let body = thunk_body(id, dispatch);
    let enter = enter_thunk(id, dispatch, relocated_at, replace_mode);
    let leave = leave_thunk(id, dispatch);
    let none = Seq::<u8>::empty();
    lemma_body_frame(id, dispatch, i);
    law_thunk_layout(id, dispatch, relocated_at);
    assert(enter.subrange(0, 0 + body.len() as int) =~= body);
    assert(leave.subrange(0, 0 + body.len() as int) =~= body);
    lemma_word_within(enter, body, 0, 8 + 4 * i);
    lemma_word_within(enter, body, 0, 100 + 4 * i);
    lemma_word_within(leave, body, 0, 8 + 4 * i);
    lemma_word_within(leave, body, 0, 100 + 4 * i);
    lemma_call_parts(id, dispatch);
    lemma_frame_len(0xA900_0000, 15);
    assert(spill().len() == 72);
    assert(body.subrange(72, 100) =~= dispatch_call(id, dispatch));
    assert(enter.subrange(72, 100) =~= dispatch_call(id, dispatch));
    assert(leave.subrange(72, 100) =~= dispatch_call(id, dispatch));
    lemma_calls_within(enter, dispatch_call(id, dispatch), 72, id as int % 0x1_0000, dispatch);
    lemma_calls_within(leave, dispatch_call(id, dispatch), 72, id as int % 0x1_0000, dispatch);
    law_word_round_trip(body, 0xD65F_03C0, none);
    assert(leave =~= body + le32(0xD65F_03C0u32) + none);
    if replace_mode {
        assert(enter =~= body + le32(0xD65F_03C0u32) + none);
    } else {
        lemma_jump_at(body, relocated_at);
        assert(enter =~= body + abs_branch(relocated_at));
    }
}

/// Whether a word stores (or loads) one X register at a multiple of eight bytes behind SP.
pub open spec fn moves_one(word: u32, is_load: bool, reg: int, at: int) -> bool {
    &&& word as int / 0x40_0000 == if is_load {
        0x3E5int
    } else {
        0x3E4
    }
    &&& field(word, 1, 0x20) == reg
    &&& field(word, 0x20, 0x20) == 31
    &&& field(word, 0x400, 0x1000) == at
}

/// Whether a word moves SP by a number of bytes: down, or up again.
pub open spec fn moves_sp(word: u32, up: bool, by: int) -> bool {
    &&& word as int / 0x40_0000 == if up {
        0x244int
    } else {
        0x344
    }
    &&& field(word, 1, 0x20) == 31
    &&& field(word, 0x20, 0x20) == 31
    &&& field(word, 0x400, 0x1000) == by
}

proof fn lemma_last_word(before: Seq<u8>, word: u32, behind: Seq<u8>, whole: Seq<u8>)
    requires
        whole == before + le32(word) + behind,
    ensures
        word_at(whole, before.len() as int) == word,
{
    law_word_round_trip(before, word, behind);
}

proof fn lemma_edge_words(id: u32, dispatch: u64)
    ensures
        ({
            let t = thunk_body(id, dispatch);
            &&& t.len() == 180
            &&& word_at(t, 0) == 0xA9BF_7BFDu32
            &&& word_at(t, 4) == 0xD104_03FFu32
            &&& word_at(t, 68) == 0xF900_7BFEu32
            &&& word_at(t, 160) == 0xF940_7BFEu32
            &&& word_at(t, 164) == 0xAA1E_03F0u32
            &&& word_at(t, 168) == 0x9104_03FFu32
            &&& word_at(t, 172) == 0xF900_07F0u32
            &&& word_at(t, 176) == 0xA8C1_7BFDu32
        }),
{
    let t = thunk_body(id, dispatch);
    let stores = frame_pairs(0xA900_0000, 15);
    let loads = frame_pairs(0xA940_0000, 15);
    lemma_frame_len(0xA900_0000, 15);
    lemma_frame_len(0xA940_0000, 15);
    lemma_call_parts(id, dispatch);
    let call = dispatch_call(id, dispatch);
    let none = Seq::<u8>::empty();
    let w0 = le32(0xA9BF_7BFDu32);
    let w1 = le32(0xD104_03FFu32);
    let w2 = le32(0xF900_7BFEu32);
    let r0 = le32(0xF940_7BFEu32);
    let r1 = le32(0xAA1E_03F0u32);
    let r2 = le32(0x9104_03FFu32);
    let r3 = le32(0xF900_07F0u32);
    let r4 = le32(0xA8C1_7BFDu32);
    let rest1 = stores + w2 + call + reload();
    assert(t =~= none + w0 + (w1 + rest1));
    lemma_last_word(none, 0xA9BF_7BFDu32, w1 + rest1, t);
    assert(t =~= w0 + w1 + rest1);
    lemma_last_word(w0, 0xD104_03FFu32, rest1, t);
    let a = w0 + w1 + stores;
    assert(t =~= a + w2 + (call + reload()));
    lemma_last_word(a, 0xF900_7BFEu32, call + reload(), t);
    let b = spill() + call + loads;
    assert(spill().len() == 72);
    assert(b.len() == 160);
    assert(t =~= b + r0 + (r1 + r2 + r3 + r4));
    lemma_last_word(b, 0xF940_7BFEu32, r1 + r2 + r3 + r4, t);
    assert(t =~= b + r0 + r1 + (r2 + r3 + r4));
    lemma_last_word(b + r0, 0xAA1E_03F0u32, r2 + r3 + r4, t);
    assert(t =~= b + r0 + r1 + r2 + (r3 + r4));
    lemma_last_word(b + r0 + r1, 0x9104_03FFu32, r3 + r4, t);
    assert(t =~= b + r0 + r1 + r2 + r3 + r4);
    lemma_last_word(b + r0 + r1 + r2, 0xF900_07F0u32, r4, t);
    assert(t =~= b + r0 + r1 + r2 + r3 + r4 + none);
    lemma_last_word(b + r0 + r1 + r2 + r3, 0xA8C1_7BFDu32, none, t);
}

/// A thunk takes its frame down as it puts it up: SP comes back to where it was, X30 is stored and
/// loaded at the same place, and what the context holds for it takes the place of the return
/// address that was pushed first and is popped last.
pub proof fn law_thunk_frame_balances(
    id: u32,
    dispatch: u64,
    relocated_at: u64,
    replace_mode: bool,
)
    ensures
        ({
            let t = enter_thunk(id, dispatch, relocated_at, replace_mode);
            let push = word_at(t, 0);
            let pop = word_at(t, 176);
            let by = field(word_at(t, 4), 0x400, 0x1000);
            &&& push as int / 0x40_0000 == 0x2A6
            &&& pop as int / 0x40_0000 == 0x2A3
            &&& field(push, 1, 0x40_0000) % 0x8000 == field(pop, 1, 0x40_0000) % 0x8000
            &&& (field(push, 0x8000, 0x80) + field(pop, 0x8000, 0x80)) % 0x80 == 0
            &&& field(pop, 1, 0x20) == 29
            &&& field(pop, 0x400, 0x20) == 30
            &&& moves_sp(word_at(t, 4), false, by)
            &&& moves_sp(word_at(t, 168), true, by)
            &&& by >= 31 * 8
            &&& moves_one(word_at(t, 68), false, 30, 30)
            &&& moves_one(word_at(t, 160), true, 30, 30)
            &&& word_at(t, 164) == 0xAA1E_03F0
            &&& moves_one(word_at(t, 172), false, 16, 1)
        }),
{
    lemma_enter_edges(id, dispatch, relocated_at, replace_mode);
    lemma_edge_fields();
}

proof fn lemma_edge_fields()
    ensures
        ({
            let push = 0xA9BF_7BFDu32;
            let pop = 0xA8C1_7BFDu32;
            &&& push as int / 0x40_0000 == 0x2A6
            &&& pop as int / 0x40_0000 == 0x2A3
            &&& field(push, 1, 0x40_0000) % 0x8000 == field(pop, 1, 0x40_0000) % 0x8000
            &&& (field(push, 0x8000, 0x80) + field(pop, 0x8000, 0x80)) % 0x80 == 0
            &&& field(pop, 1, 0x20) == 29
            &&& field(pop, 0x400, 0x20) == 30
            &&& field(0xD104_03FFu32, 0x400, 0x1000) == 0x100
            &&& moves_sp(0xD104_03FFu32, false, 0x100)
            &&& moves_sp(0x9104_03FFu32, true, 0x100)
            &&& moves_one(0xF900_7BFEu32, false, 30, 30)
            &&& moves_one(0xF940_7BFEu32, true, 30, 30)
            &&& moves_one(0xF900_07F0u32, false, 16, 1)
        }),
{
}

proof fn lemma_enter_edges(id: u32, dispatch: u64, relocated_at: u64, replace_mode: bool)
    ensures
        ({
            let t = enter_thunk(id, dispatch, relocated_at, replace_mode);
            &&& word_at(t, 0) == 0xA9BF_7BFDu32
            &&& word_at(t, 4) == 0xD104_03FFu32
            &&& word_at(t, 68) == 0xF900_7BFEu32
            &&& word_at(t, 160) == 0xF940_7BFEu32
            &&& word_at(t, 164) == 0xAA1E_03F0u32
            &&& word_at(t, 168) == 0x9104_03FFu32
            &&& word_at(t, 172) == 0xF900_07F0u32
            &&& word_at(t, 176) == 0xA8C1_7BFDu32
        }),
{
    reveal(enter_thunk);
    let t = enter_thunk(id, dispatch, relocated_at, replace_mode);
    let body = thunk_body(id, dispatch);
    lemma_edge_words(id, dispatch);
    law_thunk_layout(id, dispatch, relocated_at);
    assert(t.subrange(0, 0 + body.len() as int) =~= body);
    lemma_word_within(t, body, 0, 0);
    lemma_word_within(t, body, 0, 4);
    lemma_word_within(t, body, 0, 68);
    lemma_word_within(t, body, 0, 160);
    lemma_word_within(t, body, 0, 164);
    lemma_word_within(t, body, 0, 168);
    lemma_word_within(t, body, 0, 172);
    lemma_word_within(t, body, 0, 176);
}

/// What attaching plans hangs together: the hooked function jumps to the enter thunk, which calls
/// the dispatch function with the hook's number and goes on to the relocated code, which goes on
/// behind the patch. The bytes that the patch overwrites are kept, and the leave thunk is where
/// the hook says.
pub proof fn law_attached_code_hangs_together(
    id: HookId,
    target: u64,
    code: Seq<u8>,
    callbacks: HookCallbacks,
    scratch: u64,
    on_enter: u64,
    on_leave: u64,
    r: Result<AttachPlan, HookError>,
)
    requires
        code.len() >= 16,
        !callbacks.save_simd,
        attach_outcome(
            &DisasmAdapter,
            id,
            target,
            code,
            callbacks,
            Ok(scratch),
            on_enter,
            on_leave,
            r,
        ),
    ensures
        r matches Ok(plan) && ({
            let enter = plan.scratch@[0].bytes@;
            let body = plan.scratch@[1].bytes@;
            &&& plan.patch.addr == target
            &&& plan.patch.bytes@.len() == 16
            &&& is_jump(plan.patch.bytes@, 0, plan.scratch@[0].addr)
            &&& plan.entry@.original == code.take(16)
            &&& plan.entry@.target == target
            &&& plan.entry@.id == id
            &&& plan.entry@.callbacks == callbacks
            &&& plan.entry@.saved.dom() == Set::<u32>::empty()
            &&& calls_with(enter, 72, id as int % 0x1_0000, on_enter)
            &&& !callbacks.replace_mode ==> is_jump(enter, 180, plan.scratch@[1].addr)
            &&& is_jump(body, body.len() - 16, displaced(target, 16))
            &&& callbacks.on_leave is Some || callbacks.replace_mode ==> plan.scratch@.len() == 3
                && plan.entry@.leave_thunk == plan.scratch@[2].addr && calls_with(
                plan.scratch@[2].bytes@,
                72,
                id as int % 0x1_0000,
                on_leave,
            )
            &&& callbacks.on_leave is None && !callbacks.replace_mode ==> plan.entry@.leave_thunk
                == 0
        }),
{
    let plan = r->Ok_0;
    let none = Seq::<u8>::empty();
    lemma_jump_at(none, scratch);
    assert(none + abs_branch(scratch) =~= abs_branch(scratch));
    law_abs_branch_layout(scratch);
    let at = displaced(scratch, RELOC_OFF as int);
    law_thunks_save_call_restore(id, on_enter, at, callbacks.replace_mode, 0);
    law_thunks_save_call_restore(id, on_leave, at, callbacks.replace_mode, 0);
    let insns = first_insns(&DisasmAdapter, target, code, 4);
    law_abs_branch_layout(displaced(target, 16));
    lemma_jump_at(relocated_all(insns, at), displaced(target, 16));
    assert(plan.entry@.saved.dom() =~= Set::<u32>::empty());
}

/// A hook that saves the vector registers pushes them before its enter thunk and pops them behind
/// it, and is otherwise made of the same parts.
#[verifier::rlimit(40)]
pub proof fn law_saving_hook_hangs_together(
    id: HookId,
    target: u64,
    code: Seq<u8>,
    callbacks: HookCallbacks,
    scratch: u64,
    on_enter: u64,
    on_leave: u64,
    r: Result<AttachPlan, HookError>,
)
    requires
        code.len() >= 16,
        callbacks.save_simd,
        attach_outcome(
            &DisasmAdapter,
            id,
            target,
            code,
            callbacks,
            Ok(scratch),
            on_enter,
            on_leave,
            r,
        ),
    ensures
        r matches Ok(plan) && ({
            let enter = plan.scratch@[0].bytes@;
            let body = plan.scratch@[1].bytes@;
            &&& is_jump(plan.patch.bytes@, 0, plan.scratch@[0].addr)
            &&& plan.entry@.original == code.take(16)
            &&& plan.entry@.target == target
            &&& enter.take(64) == pushes(true, 16)
            &&& calls_with(enter, 136, id as int % 0x1_0000, on_enter)
            &&& enter.subrange(244, 308) == pops(true, 16)
            &&& !callbacks.replace_mode ==> is_jump(enter, 308, plan.scratch@[1].addr)
            &&& is_jump(body, body.len() - 16, displaced(target, 16))
            &&& callbacks.on_leave is Some || callbacks.replace_mode ==> plan.scratch@.len() == 3
                && plan.entry@.leave_thunk == plan.scratch@[2].addr && calls_with(
                plan.scratch@[2].bytes@,
                72,
                id as int % 0x1_0000,
                on_leave,
            )
        }),
{
    let plan = r->Ok_0;
    let at = plan.scratch@[1].addr;
    lemma_patch_jumps(scratch);
    lemma_saving_thunk(id, on_enter, at, callbacks.replace_mode);
    lemma_leave_calls(id, on_leave);
    let insns = first_insns(&DisasmAdapter, target, code, 4);
    lemma_body_goes_on(relocated_all(insns, at), displaced(target, 16));
}

proof fn lemma_patch_jumps(scratch: u64)
    ensures
        is_jump(abs_branch(scratch), 0, scratch),
{
    let none = Seq::<u8>::empty();
    lemma_jump_at(none, scratch);
    assert(none + abs_branch(scratch) =~= abs_branch(scratch));
}

proof fn lemma_body_goes_on(body: Seq<u8>, next: u64)
    ensures
        is_jump(body + abs_branch(next), (body + abs_branch(next)).len() - 16, next),
{
    law_abs_branch_layout(next);
    lemma_jump_at(body, next);
    assert((body + abs_branch(next)).len() - 16 == body.len());
}

proof fn lemma_leave_calls(id: u32, dispatch: u64)
    ensures
        calls_with(leave_thunk(id, dispatch), 72, id as int % 0x1_0000, dispatch),
{
    law_thunks_save_call_restore(id, dispatch, 0, true, 0);
}

proof fn lemma_saving_thunk(id: u32, dispatch: u64, at: u64, replace_mode: bool)
    ensures
        ({
            let saving = simd_thunk(id, dispatch, at, replace_mode);
            &&& saving.take(64) == pushes(true, 16)
            &&& calls_with(saving, 136, id as int % 0x1_0000, dispatch)
            &&& saving.subrange(244, 308) == pops(true, 16)
            &&& !replace_mode ==> is_jump(saving, 308, at)
        }),
{
    law_simd_frame(id, dispatch, at, replace_mode);
    law_thunk_layout(id, dispatch, at);
    let plain = enter_thunk(id, dispatch, at, replace_mode);
    let saving = simd_thunk(id, dispatch, at, replace_mode);
    let call = dispatch_call(id, dispatch);
    lemma_call_parts(id, dispatch);
    lemma_call_place(id, dispatch, at, replace_mode);
    assert(saving.subrange(136, 164) =~= saving.subrange(64, 244).subrange(72, 100));
    assert(plain.take(180).subrange(72, 100) =~= plain.subrange(72, 100));
    lemma_calls_within(saving, call, 136, id as int % 0x1_0000, dispatch);
    if !replace_mode {
        lemma_jump_at(saving.take(308), at);
        assert(saving =~= saving.take(308) + saving.skip(308));
    }
}

proof fn lemma_call_place(id: u32, dispatch: u64, relocated_at: u64, replace_mode: bool)
    ensures
        enter_thunk(id, dispatch, relocated_at, replace_mode).subrange(72, 100) == dispatch_call(
            id,
            dispatch,
        ),
{
    reveal(enter_thunk);
    lemma_frame_len(0xA900_0000, 15);
    lemma_call_parts(id, dispatch);
    assert(spill().len() == 72);
    assert(enter_thunk(id, dispatch, relocated_at, replace_mode).subrange(72, 100)
        =~= dispatch_call(id, dispatch));
}

} // verus!
