//! What the rest of the written code does: system registers, calls, labels and the bytes that
//! are handed over.
use crate::bytes::{law_quad_round_trip, law_word_round_trip, le32, le64, quad_at, word_at};
use crate::decoder::{a64_kind, displaced, field, inverted, InsnKind};
use crate::encode::{
    abs_branch, adr_word, branch_reaches, delta, encode_abs_branch, encode_abs_call,
    law_abs_branch_layout, law_address_round_trip, law_branch_round_trip,
};
use crate::instruction_laws::{new_word, one_word};
use crate::native_laws::is_jump;
use crate::text::{lowered, trimmed};
use crate::text_laws::{is_word, lemma_trimmed_word};
use crate::writer::{
    args_setup, cond_named, index_mode_named, mrs_nzcv_word, msr_nzcv_word, resolve_error,
    Arm64Writer, CallArg, CodeWrite, FixupKind, IndexMode, Reg, WriterError, WriterState,
};
use vstd::prelude::*;

verus! {

proof fn lemma_word(before: WriterState, after: WriterState, w: u32)
    requires
        after == before.emit_word(w),
    ensures
        one_word(before, after),
        new_word(before, after) == w,
{
    let none = Seq::<u8>::empty();
    law_word_round_trip(before.code, w, none);
    assert(before.code + le32(w) + none =~= after.code);
    assert(after.code.take(before.code.len() as int) =~= before.code);
}

/// The flags are read and written by words that differ only in the direction.
#[verifier::rlimit(40)]
#[verifier::spinoff_prover]
pub proof fn law_flags_are_moved(
    w: &mut Arm64Writer,
    v: &mut Arm64Writer,
    reg: Reg,
    r: Result<(), WriterError>,
)
    requires
        call_ensures(Arm64Writer::put_mov_reg_nzcv, (w, reg), r),
        call_ensures(Arm64Writer::put_mov_nzcv_reg, (v, reg), r),
        reg.n < 32,
    ensures
        ({
            let read = new_word(old(w)@, final(w)@);
            let write = new_word(old(v)@, final(v)@);
            &&& one_word(old(w)@, final(w)@)
            &&& one_word(old(v)@, final(v)@)
            &&& read - write == 0x20_0000
            &&& field(read, 0x20_0000, 2) == 1
            &&& field(read, 0x20, 0x8000) == 0x5A10
            &&& field(write, 0x20, 0x8000) == 0x5A10
            &&& field(read, 1, 0x20) == reg.n
            &&& field(write, 1, 0x20) == reg.n
        }),
{
    lemma_flag_words(reg);
    lemma_word(old(w)@, final(w)@, mrs_nzcv_word(reg));
    lemma_word(old(v)@, final(v)@, msr_nzcv_word(reg));
}

proof fn lemma_flag_words(reg: Reg)
    requires
        reg.n < 32,
    ensures
        mrs_nzcv_word(reg) - msr_nzcv_word(reg) == 0x20_0000,
        field(mrs_nzcv_word(reg), 0x20_0000, 2) == 1,
        field(mrs_nzcv_word(reg), 0x20, 0x8000) == 0x5A10,
        field(msr_nzcv_word(reg), 0x20, 0x8000) == 0x5A10,
        field(mrs_nzcv_word(reg), 1, 0x20) == reg.n,
        field(msr_nzcv_word(reg), 1, 0x20) == reg.n,
{
    lemma_system(mrs_nzcv_word(reg), 0xD53, 0x5A10, reg.n as int);
    lemma_system(msr_nzcv_word(reg), 0xD51, 0x5A10, reg.n as int);
}

proof fn lemma_system(w: u32, top: int, sys: int, n: int)
    requires
        0 <= sys < 0x8000,
        0 <= n < 32,
        w == top * 0x10_0000 + sys * 0x20 + n,
    ensures
        field(w, 0x20, 0x8000) == sys,
        field(w, 1, 0x20) == n,
        w as int / 0x10_0000 == top,
        field(w, 0x20_0000, 2) == (top / 2) % 2,
{
    let x = w as int;
    assert(x / 0x20 == top * 0x8000 + sys);
    assert(x / 0x10_0000 == top);
    assert(x / 0x20_0000 == top / 2);
}

/// A system register that is read is the one that was asked for.
pub proof fn law_system_register_is_read(
    w: &mut Arm64Writer,
    dst: Reg,
    sys: u16,
    r: Result<(), WriterError>,
)
    requires
        call_ensures(Arm64Writer::put_mrs, (w, dst, sys), r),
        dst.n < 32,
    ensures
        r is Ok <==> dst.is64 && sys < 0x8000,
        r is Err ==> final(w)@ == old(w)@,
        r is Ok ==> one_word(old(w)@, final(w)@) && ({
            let v = new_word(old(w)@, final(w)@);
            &&& v as int / 0x10_0000 == 0xD53
            &&& field(v, 0x20, 0x8000) == sys
            &&& field(v, 1, 0x20) == dst.n
        }),
{
    if r is Ok {
        let v = (0xD530_0000 + sys * 0x20 + dst.n % 32) as u32;
        lemma_word(old(w)@, final(w)@, v);
        lemma_system(v, 0xD53, sys as int, dst.n as int);
    }
}

/// A breakpoint holds its number.
pub proof fn law_breakpoint_is_written(w: &mut Arm64Writer, imm: u16)
    requires
        call_ensures(Arm64Writer::put_brk_imm, (w, imm), ()),
    ensures
        one_word(old(w)@, final(w)@),
        new_word(old(w)@, final(w)@) as int / 0x20_0000 == 0x6A1,
        field(new_word(old(w)@, final(w)@), 0x20, 0x1_0000) == imm,
        field(new_word(old(w)@, final(w)@), 1, 0x20) == 0,
{
    let v = (0xD420_0000 + imm * 0x20) as u32;
    lemma_word(old(w)@, final(w)@, v);
    let x = v as int;
    assert(x == 0x6A1 * 0x20_0000 + imm * 0x20);
    assert(x / 0x20 == 0x6A1 * 0x1_0000 + imm);
}

/// A call with arguments through a register ends with the branch to what the register holds,
/// behind what sets the arguments.
pub proof fn law_register_call_is_written(
    w: &mut Arm64Writer,
    reg: Reg,
    args: &[CallArg],
    r: Result<(), WriterError>,
)
    requires
        call_ensures(Arm64Writer::put_call_reg_with_arguments, (w, reg, args), r),
        reg.n < 32,
    ensures
        r is Ok,
        ({
            let code = final(w)@.code;
            let v = word_at(code, code.len() - 4);
            &&& code.len() == old(w)@.code.len() + args_setup(args@, 0).len() + 4
            &&& v as int / 0x400 == 0x358FC0
            &&& field(v, 0x20, 0x20) == reg.n
            &&& code.subrange(old(w)@.code.len() as int, code.len() - 4) == args_setup(args@, 0)
        }),
{
    let v = (0xD63F_0000 + reg.n * 0x20) as u32;
    let none = Seq::<u8>::empty();
    let front = old(w)@.code + args_setup(args@, 0);
    law_word_round_trip(front, v, none);
    assert(final(w)@.code =~= front + le32(v) + none);
    let x = v as int;
    assert(x == 0x358FC0 * 0x400 + reg.n * 0x20);
    assert(x / 0x20 == 0x358FC0 * 0x20 + reg.n);
    assert(final(w)@.code.subrange(old(w)@.code.len() as int, final(w)@.code.len() - 4)
        =~= args_setup(args@, 0));
}

/// A call with arguments to an address that a branch reaches goes there.
pub proof fn law_near_call_is_written(
    w: &mut Arm64Writer,
    func: u64,
    args: &[CallArg],
    r: Result<(), WriterError>,
)
    requires
        call_ensures(Arm64Writer::put_call_address_with_arguments, (w, func, args), r),
        ({
            let at = displaced(
                old(w)@.pc,
                (old(w)@.code.len() + args_setup(args@, 0).len()) as int,
            );
            branch_reaches(at, func) && delta(at, func) % 4 == 0
        }),
    ensures
        r is Ok,
        ({
            let code = final(w)@.code;
            let at = displaced(old(w)@.pc, code.len() - 4);
            &&& code.len() == old(w)@.code.len() + args_setup(args@, 0).len() + 4
            &&& a64_kind(at, word_at(code, code.len() - 4)) == (InsnKind::Branch {
                target: func,
                link: true,
            })
        }),
{
    let set = old(w)@.emit(args_setup(args@, 0));
    let at = set.next_pc();
    let v = crate::encode::bl_word(at, func);
    law_branch_round_trip(at, func);
    let none = Seq::<u8>::empty();
    law_word_round_trip(set.code, v, none);
    assert(final(w)@.code =~= set.code + le32(v) + none);
    assert(set.code.len() == old(w)@.code.len() + args_setup(args@, 0).len());
}

/// What was written is handed over at its address, with its labels resolved; code that goes
/// nowhere is only resolved.
pub proof fn law_code_is_handed_over(
    w: &mut Arm64Writer,
    r: Result<Option<CodeWrite>, WriterError>,
)
    requires
        call_ensures(Arm64Writer::flush, (w,), r),
    ensures
        r is Ok <==> resolve_error(old(w)@) is None,
        r matches Ok(Some(c)) ==> c.addr == old(w)@.base && c.bytes@ == final(w)@.code && c.addr != 0,
        r matches Ok(None) ==> old(w)@.base == 0,
        final(w)@.refs.len() == 0,
        old(w)@.refs.len() == 0 ==> final(w)@.code == old(w)@.code,
{
}

/// A label stands where the code goes on, and no code is written for it.
pub proof fn law_label_is_here(w: &mut Arm64Writer, id: &str, other: Seq<char>)
    requires
        call_ensures(Arm64Writer::put_label, (w, id), ()),
        other != id@,
    ensures
        final(w)@.code == old(w)@.code,
        final(w)@.labels.contains_key(id@) && final(w)@.labels[id@] == old(w)@.code.len(),
        final(w)@.labels.contains_key(other) <==> old(w)@.labels.contains_key(other),
        old(w)@.labels.contains_key(other) ==> final(w)@.labels[other] == old(w)@.labels[other],
{
}

/// A branch to a label refers to it from where it stands.
pub proof fn law_label_branch_refers(w: &mut Arm64Writer, label: &str)
    requires
        call_ensures(Arm64Writer::put_b_label, (w, label), ()),
    ensures
        final(w)@.code.len() == old(w)@.code.len() + 4,
        final(w)@.refs.len() == old(w)@.refs.len() + 1,
        final(w)@.refs.last().label == label@,
        final(w)@.refs.last().offset == old(w)@.code.len(),
        final(w)@.refs.last().kind == FixupKind::B,
{
}

/// Bytes are written as they are, and room as zeros.
pub proof fn law_bytes_are_written(
    w: &mut Arm64Writer,
    v: &mut Arm64Writer,
    data: &[u8],
    n: usize,
    i: int,
)
    requires
        call_ensures(Arm64Writer::put_bytes, (w, data), ()),
        call_ensures(Arm64Writer::skip, (v, n), ()),
    ensures
        final(w)@.code == old(w)@.code + data@,
        final(v)@.code.len() == old(v)@.code.len() + n,
        old(v)@.code.len() <= i < final(v)@.code.len() ==> final(v)@.code[i] == 0,
        final(v)@.code.take(old(v)@.code.len() as int) == old(v)@.code,
{
    assert(final(v)@.code.take(old(v)@.code.len() as int) =~= old(v)@.code);
}

/// An absolute branch goes to its address, whatever its own is.
pub proof fn law_absolute_branch(target: u64, out: [u8; 16])
    requires
        call_ensures(encode_abs_branch, (target,), out),
    ensures
        is_jump(out@, 0, target),
        out@.len() == 16,
{
    lemma_jump_here(target);
}

proof fn lemma_jump_here(address: u64)
    ensures
        is_jump(abs_branch(address), 0, address),
        abs_branch(address).len() == 16,
{
    let b = abs_branch(address);
    let none = Seq::<u8>::empty();
    law_abs_branch_layout(address);
    law_word_round_trip(none, 0x5800_0051u32, b.skip(4));
    law_word_round_trip(b.take(4), 0xD61F_0220u32, b.skip(8));
    law_quad_round_trip(b.take(8), address, none);
    assert(none + le32(0x5800_0051u32) + b.skip(4) =~= b);
    assert(b.take(4) + le32(0xD61F_0220u32) + b.skip(8) =~= b);
    assert(b.take(8) + le64(address) + none =~= b);
}

/// An absolute call goes to its address and comes back behind itself.
pub proof fn law_absolute_call(pc: u64, target: u64, out: Vec<u8>)
    requires
        call_ensures(encode_abs_call, (pc, target), out),
    ensures
        out@.len() == 20,
        a64_kind(pc, word_at(out@, 0)) == (InsnKind::PcRelAddr {
            rd: 30,
            target: displaced(pc, 20),
            is_page: false,
        }),
        is_jump(out@, 4, target),
{
    let back = displaced(pc, 20);
    let w = adr_word(30, pc, back);
    let none = Seq::<u8>::empty();
    crate::encode::lemma_delta_of_move(pc, 20);
    law_address_round_trip(30, pc, back);
    lemma_jump_here(target);
    law_word_round_trip(none, w, abs_branch(target));
    assert(none + le32(w) + abs_branch(target) =~= out@);
    let b = abs_branch(target);
    lemma_shifted(le32(w), b);
}

proof fn lemma_shifted(a: Seq<u8>, b: Seq<u8>)
    requires
        a.len() == 4,
        b.len() == 16,
    ensures
        word_at(a + b, 4) == word_at(b, 0),
        word_at(a + b, 8) == word_at(b, 4),
        quad_at(a + b, 12) == quad_at(b, 8),
{
    let s = a + b;
    assert forall|i: int| 0 <= i < 16 implies s[i + 4] == #[trigger] b[i] by {}
}

/// Whether two names are those of a condition and of its opposite.
pub open spec fn are_opposites(a: Seq<char>, b: Seq<char>) -> bool {
    &&& cond_named(a) is Some
    &&& cond_named(b) is Some
    &&& inverted(cond_named(a).unwrap()) == cond_named(b).unwrap()
    &&& inverted(cond_named(b).unwrap()) == cond_named(a).unwrap()
}

/// A condition has one name, or two, and the names of a condition and of its opposite name
/// opposites.
pub proof fn law_condition_names()
    ensures
        are_opposites("eq"@, "ne"@),
        are_opposites("cs"@, "cc"@),
        are_opposites("hs"@, "lo"@),
        are_opposites("mi"@, "pl"@),
        are_opposites("vs"@, "vc"@),
        are_opposites("hi"@, "ls"@),
        are_opposites("ge"@, "lt"@),
        are_opposites("gt"@, "le"@),
        cond_named("hs"@) == cond_named("cs"@),
{
    reveal_strlit("eq");
    reveal_strlit("ne");
    reveal_strlit("hs");
    reveal_strlit("cs");
    reveal_strlit("lo");
    reveal_strlit("cc");
    reveal_strlit("mi");
    reveal_strlit("pl");
    reveal_strlit("vs");
    reveal_strlit("vc");
    reveal_strlit("hi");
    reveal_strlit("ls");
    reveal_strlit("ge");
    reveal_strlit("lt");
    reveal_strlit("gt");
    reveal_strlit("le");
    assert forall|s: Seq<char>| s.len() == 2 && 'a' <= s[0] <= 'z' && 'a' <= s[1] <= 'z' implies #[trigger] lowered(
        trimmed(s),
    ) == s by {
        assert(is_word(s));
        lemma_trimmed_word(s);
        assert(lowered(s) =~= s);
    }
}

/// What a way of addressing is called.
pub proof fn law_index_mode_names(s: Seq<char>)
    ensures
        index_mode_named(s) == Some(IndexMode::PostAdjust) <==> s == "post-adjust"@ || s == "post"@,
        index_mode_named(s) == Some(IndexMode::SignedOffset) <==> s == "signed-offset"@ || s
            == "offset"@,
        index_mode_named(s) == Some(IndexMode::PreAdjust) <==> s == "pre-adjust"@ || s == "pre"@,
{
    reveal_strlit("post-adjust");
    reveal_strlit("post");
    reveal_strlit("signed-offset");
    reveal_strlit("offset");
    reveal_strlit("pre-adjust");
    reveal_strlit("pre");
    assert("post-adjust"@[0] == 'p' && "post-adjust"@[1] == 'o');
    assert("post"@[0] == 'p' && "post"@[1] == 'o');
    assert("signed-offset"@[0] == 's');
    assert("offset"@[0] == 'o');
    assert("pre-adjust"@[0] == 'p' && "pre-adjust"@[1] == 'r');
    assert("pre"@[0] == 'p' && "pre"@[1] == 'r');
}

} // verus!
