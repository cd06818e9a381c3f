//! What a relocator reads and hands on.
use crate::bytes::{law_word_round_trip, le32, word_at};
use crate::decoder::{a64_kind, displaced, DecodedInsn, DisasmAdapter, InsnKind};
use crate::instruction_laws::{new_word, one_word};
use crate::relocator::{compute_patch_insns, relocated, Arm64Relocator, RelocError};
use crate::writer::{Arm64Writer, WriterState};
use vstd::prelude::*;

verus! {

/// A relocator reads its source word by word: the instruction that is read stands where the last
/// one ended, and has the bytes of the source there.
pub proof fn law_next_word_is_read(
    r: &mut Arm64Relocator,
    n: Result<usize, RelocError>,
    source: Seq<u8>,
    off: int,
)
    requires
        old(r)@.bound(),
        !old(r)@.eoi,
        old(r)@.source == Some(source),
        0 <= off,
        old(r)@.input_pc == old(r)@.source_base + off,
        call_ensures(Arm64Relocator::read_one, (r,), n),
    ensures
        off + 4 <= source.len() ==> {
            let i = final(r)@.queue.last();
            &&& final(r)@.queue.drop_last() == old(r)@.queue
            &&& final(r)@.queue.len() == old(r)@.queue.len() + 1
            &&& i.raw == word_at(source, off)
            &&& i.addr == old(r)@.source_base + off
            &&& i.kind == a64_kind(i.addr, i.raw)
            &&& i.addr + 4 <= u64::MAX ==> final(r)@.input_pc == i.addr + 4
            &&& n == Ok::<usize, RelocError>((old(r)@.bytes_read + 4) as usize)
        },
        off + 4 > source.len() ==> final(r)@.eoi && final(r)@.queue == old(r)@.queue && n == Ok::<
            usize,
            RelocError,
        >(0),
        final(r)@.source == old(r)@.source,
{
    if off + 4 <= source.len() {
        assert(final(r)@.queue.drop_last() =~= old(r)@.queue);
    }
}

/// Nothing is read behind an instruction that control does not pass.
pub proof fn law_reading_stops(r: &mut Arm64Relocator, n: Result<usize, RelocError>, w: u32)
    requires
        old(r)@.bound(),
        !old(r)@.eoi,
        !old(r)@.eob,
        old(r)@.source_word(old(r)@.input_pc) == Some(w),
        call_ensures(Arm64Relocator::read_one, (r,), n),
    ensures
        ({
            let k = final(r)@.queue.last().kind;
            &&& k is PcIndependent || k is PcRelAddr || k is PcRelLoad ==> !final(r)@.eob
                && !final(r)@.eoi
            &&& k is BranchCond || k is CompareBranch || k is TestBranch ==> final(r)@.eob
                && !final(r)@.eoi
            &&& k is BranchReg ==> final(r)@.eob && final(r)@.eoi
            &&& k matches InsnKind::Branch { link, .. } ==> final(r)@.eob && final(r)@.eoi == !link
        }),
{
}

/// The instruction that was read first is copied as it is.
pub proof fn law_first_is_copied(
    r: &mut Arm64Relocator,
    w: &mut Arm64Writer,
    ok: Result<bool, RelocError>,
    insn: DecodedInsn,
    rest: Seq<DecodedInsn>,
)
    requires
        old(r)@.queue == seq![insn] + rest,
        old(w)@.wf(),
        call_ensures(Arm64Relocator::copy_one, (r, w), ok),
    ensures
        ok == Ok::<bool, RelocError>(true),
        final(r)@.queue == rest,
        insn.addr <= u64::MAX - 4 ==> final(r)@.input == insn.addr + 4,
        one_word(old(w)@, final(w)@),
        new_word(old(w)@, final(w)@) == insn.raw,
{
    assert(old(r)@.queue.len() > 0);
    assert(old(r)@.queue[0] == insn);
    assert(old(r)@.queue.skip(1) =~= rest);
    lemma_word_behind(old(w)@, final(w)@, insn.raw);
}

proof fn lemma_word_behind(before: WriterState, after: WriterState, w: u32)
    requires
        after == before.emit_word(w),
    ensures
        one_word(before, after),
        new_word(before, after) == w,
{
    let none = Seq::<u8>::empty();
    law_word_round_trip(before.code, w, none);
    assert(before.code + le32(w) + none =~= after.code);
    assert(after.code.take(before.code.len() as int) =~= before.code);
}

/// The instruction that was read first is written; one that does not depend on its place, as it
/// is.
pub proof fn law_first_is_written(
    r: &mut Arm64Relocator,
    w: &mut Arm64Writer,
    ok: Result<bool, RelocError>,
    insn: DecodedInsn,
    rest: Seq<DecodedInsn>,
)
    requires
        old(r)@.queue == seq![insn] + rest,
        old(w)@.wf(),
        call_ensures(Arm64Relocator::write_one, (r, w), ok),
    ensures
        ok == Ok::<bool, RelocError>(true),
        final(r)@.queue == rest,
        insn.kind is PcIndependent ==> one_word(old(w)@, final(w)@) && new_word(old(w)@, final(w)@)
            == insn.raw,
        final(w)@.code.len() >= old(w)@.code.len() + 4,
{
    assert(old(r)@.queue.len() > 0);
    assert(old(r)@.queue[0] == insn);
    assert(old(r)@.queue.skip(1) =~= rest);
    crate::relocator::law_relocated_length(insn, old(w)@.next_pc());
    if insn.kind is PcIndependent {
        reveal(relocated);
        lemma_word_behind(old(w)@, final(w)@, insn.raw);
    }
}

/// The instruction that was read first is left out.
pub proof fn law_first_is_skipped(
    r: &mut Arm64Relocator,
    ok: Result<bool, RelocError>,
    insn: DecodedInsn,
    rest: Seq<DecodedInsn>,
)
    requires
        old(r)@.queue == seq![insn] + rest,
        call_ensures(Arm64Relocator::skip_one, (r,), ok),
    ensures
        ok == Ok::<bool, RelocError>(true),
        final(r)@.queue == rest,
        insn.addr <= u64::MAX - 4 ==> final(r)@.input == insn.addr + 4,
{
    assert(old(r)@.queue.len() > 0);
    assert(old(r)@.queue[0] == insn);
    assert(old(r)@.queue.skip(1) =~= rest);
}

/// A patch displaces the four instructions that stand under it.
pub proof fn law_displaced_instructions(
    target: u64,
    code: &[u8],
    r: Result<Vec<DecodedInsn>, RelocError>,
    i: int,
)
    requires
        call_ensures(compute_patch_insns::<DisasmAdapter>, (&DisasmAdapter, target, code), r),
        0 <= i < 4,
    ensures
        r is Ok <==> code@.len() >= 16,
        r matches Ok(insns) ==> {
            &&& insns@.len() == 4
            &&& insns@[i].raw == word_at(code@, 4 * i)
            &&& insns@[i].addr == displaced(target, 4 * i)
            &&& insns@[i].kind == a64_kind(insns@[i].addr, insns@[i].raw)
        },
{
}

/// The instruction that is looked at is the first that was read and not written, with its address.
pub proof fn law_next_is_looked_at(
    r: &Arm64Relocator,
    addr: Option<u64>,
    insn: Option<&DecodedInsn>,
)
    requires
        call_ensures(Arm64Relocator::peek_next_write_source, (r,), addr),
        call_ensures(Arm64Relocator::peek_next_write_insn, (r,), insn),
    ensures
        addr is Some <==> r@.queue.len() > 0,
        insn is Some <==> addr is Some,
        insn matches Some(i) ==> addr == Some(i.addr) && *i == r@.queue[0],
{
}

} // verus!
