//! What holds of written code as a whole.
use crate::bytes::{law_word_round_trip, le32, put_word, word_at};
use crate::decoder::{a64_kind, displaced, InsnKind};
use crate::encode::{branch_reaches, delta, law_branch_round_trip};
use crate::writer::{
    file_reg, kind_word, ldr_here_word, pop_all_x, pop_word, pops, push_all_x, push_word, pushes,
    ref_word, resolve_error, resolved, resolved_code, with_imm19, FixupKind, LabelRef, Reg,
    WriterState,
};
use vstd::prelude::*;

verus! {

/// Pushes come lowest pair first and pops highest pair first, one word for each pair.
pub proof fn law_pushes_and_pops_mirror(q: bool, k: nat, i: int)
    requires
        0 <= i < k,
    ensures
        pushes(q, k).len() == 4 * k,
        pops(q, k).len() == 4 * k,
        pushes(q, k).subrange(4 * i, 4 * i + 4) == le32(
            push_word(file_reg(q, 2 * i), file_reg(q, 2 * i + 1)),
        ),
        pops(q, k).subrange(4 * (k - 1 - i), 4 * (k - 1 - i) + 4) == le32(
            pop_word(file_reg(q, 2 * i), file_reg(q, 2 * i + 1)),
        ),
    decreases k,
{
    lemma_pair_lengths(q, (k - 1) as nat);
    let last = (k - 1) as nat;
    let w = le32(push_word(file_reg(q, 2 * (k - 1)), file_reg(q, 2 * (k - 1) + 1)));
    let v = le32(pop_word(file_reg(q, 2 * (k - 1)), file_reg(q, 2 * (k - 1) + 1)));
    assert(pushes(q, k) == pushes(q, last) + w);
    assert(pops(q, k) == v + pops(q, last));
    if i == last {
        assert(pushes(q, k).subrange(4 * i, 4 * i + 4) =~= w);
        assert(pops(q, k).subrange(0, 4) =~= v);
    } else {
        law_pushes_and_pops_mirror(q, last, i);
        assert(pushes(q, k).subrange(4 * i, 4 * i + 4) =~= pushes(q, last).subrange(
            4 * i,
            4 * i + 4,
        ));
        let j = 4 * (last - 1 - i);
        assert(pops(q, k).subrange(j + 4, j + 8) =~= pops(q, last).subrange(j, j + 4));
    }
}

proof fn lemma_pair_lengths(q: bool, k: nat)
    ensures
        pushes(q, k).len() == 4 * k,
        pops(q, k).len() == 4 * k,
    decreases k,
{
    if k > 0 {
        lemma_pair_lengths(q, (k - 1) as nat);
    }
}

/// Saving all general registers and the flags takes 17 instructions, restoring them takes 17,
/// and the vector registers take 16 each way.
pub proof fn law_save_and_restore_sizes()
    ensures
        push_all_x().len() == 17 * 4,
        pop_all_x().len() == 17 * 4,
        pushes(true, 16).len() == 16 * 4,
        pops(true, 16).len() == 16 * 4,
{
    lemma_pair_lengths(false, 15);
    lemma_pair_lengths(true, 16);
}

/// A word written at one place is there, and no byte outside of it has changed.
proof fn lemma_put_word(s: Seq<u8>, at: int, w: u32)
    requires
        0 <= at,
        at + 4 <= s.len(),
    ensures
        put_word(s, at, w).len() == s.len(),
        word_at(put_word(s, at, w), at) == w,
        forall|i: int| 0 <= i < s.len() && !(at <= i < at + 4) ==> put_word(s, at, w)[i] == s[i],
{
    law_word_round_trip(s.take(at), w, s.skip(at + 4));
    assert(put_word(s, at, w) =~= s.take(at) + le32(w) + s.skip(at + 4));
}

/// Whether `refs` lie in order, each inside `len` bytes and none overlapping.
spec fn spaced(refs: Seq<LabelRef>, len: nat) -> bool {
    &&& forall|i: int|
        0 <= i < refs.len() ==> 0 <= (#[trigger] refs[i]).offset && refs[i].offset + 4 <= len
    &&& forall|i: int, j: int|
        0 <= i < j < refs.len() ==> (#[trigger] refs[i]).offset + 4 <= (#[trigger] refs[j]).offset
}

proof fn lemma_resolved(code: Seq<u8>, refs: Seq<LabelRef>, labels: Map<Seq<char>, int>, pc: u64)
    requires
        spaced(refs, code.len()),
    ensures
        resolved(code, refs, labels, pc).0.len() == code.len(),
        resolved(code, refs, labels, pc).1 is None ==> forall|i: int|
            0 <= i < refs.len() ==> ref_word(#[trigger] refs[i], labels, pc) == Ok::<u32, Seq<char>>(
                word_at(resolved(code, refs, labels, pc).0, refs[i].offset),
            ),
        forall|k: int|
            0 <= k < code.len() && (forall|i: int|
                0 <= i < refs.len() ==> !((#[trigger] refs[i]).offset <= k < refs[i].offset + 4))
                ==> resolved(code, refs, labels, pc).0[k] == code[k],
        refs.len() > 0 ==> forall|k: int|
            0 <= k < refs[0].offset ==> resolved(code, refs, labels, pc).0[k] == code[k],
    decreases refs.len(),
{
    if refs.len() > 0 {
        match ref_word(refs[0], labels, pc) {
            Err(_) => {},
            Ok(w) => {
                let at = refs[0].offset;
                let next = put_word(code, at, w);
                let rest = refs.skip(1);
                lemma_put_word(code, at, w);
                assert forall|i: int| 0 <= i < rest.len() implies rest[i] == refs[i + 1] by {}
                assert(spaced(rest, next.len())) by {
                    assert forall|i: int, j: int| 0 <= i < j < rest.len() implies (
                    #[trigger] rest[i]).offset + 4 <= (#[trigger] rest[j]).offset by {
                        assert(refs[i + 1].offset + 4 <= refs[j + 1].offset);
                    }
                    assert forall|i: int| 0 <= i < rest.len() implies 0 <= (
                    #[trigger] rest[i]).offset && rest[i].offset + 4 <= next.len() by {
                        assert(refs[i + 1].offset >= 0);
                    }
                }
                lemma_resolved(next, rest, labels, pc);
                let out = resolved(next, rest, labels, pc).0;
                assert(resolved(code, refs, labels, pc) == resolved(next, rest, labels, pc));
                // Nothing at or below the first place is touched by the others.
                assert forall|k: int| 0 <= k < at + 4 implies out[k] == next[k] by {
                    if rest.len() > 0 {
                        assert(refs[0].offset + 4 <= refs[1].offset);
                        assert(rest[0] == refs[1]);
                    } else {
                        assert(out == next);
                    }
                }
                assert(word_at(out, at) == w);
                if resolved(code, refs, labels, pc).1 is None {
                    assert forall|i: int| 0 <= i < refs.len() implies ref_word(
                        #[trigger] refs[i],
                        labels,
                        pc,
                    ) == Ok::<u32, Seq<char>>(word_at(out, refs[i].offset)) by {
                        if i > 0 {
                            assert(rest[i - 1] == refs[i]);
                        }
                    }
                }
                assert forall|k: int|
                    0 <= k < code.len() && (forall|i: int|
                        0 <= i < refs.len() ==> !((#[trigger] refs[i]).offset <= k
                            < refs[i].offset + 4)) implies out[k] == code[k] by {
                    assert(!(refs[0].offset <= k < refs[0].offset + 4));
                    assert forall|i: int| 0 <= i < rest.len() implies !((
                    #[trigger] rest[i]).offset <= k < rest[i].offset + 4) by {
                        assert(rest[i] == refs[i + 1]);
                    }
                    assert(out[k] == next[k]);
                }
            },
        }
    }
}

/// Where all labels resolve, each waiting branch holds the word for its label, and every other
/// byte is as it was emitted.
pub proof fn law_labels_resolve(s: WriterState)
    requires
        s.wf(),
        resolve_error(s) is None,
    ensures
        resolved_code(s).len() == s.code.len(),
        forall|i: int|
            0 <= i < s.refs.len() ==> ref_word(#[trigger] s.refs[i], s.labels, s.pc) == Ok::<
                u32,
                Seq<char>,
            >(word_at(resolved_code(s), s.refs[i].offset)),
        forall|k: int|
            0 <= k < s.code.len() && (forall|i: int|
                0 <= i < s.refs.len() ==> !((#[trigger] s.refs[i]).offset <= k < s.refs[i].offset
                    + 4)) ==> resolved_code(s)[k] == s.code[k],
{
    assert(spaced(s.refs, s.code.len()));
    lemma_resolved(s.code, s.refs, s.labels, s.pc);
}

/// A label fails exactly where some waiting branch names no label or cannot reach it.
pub proof fn law_resolve_error_iff(s: WriterState)
    ensures
        resolve_error(s) is None <==> forall|i: int|
            0 <= i < s.refs.len() ==> ref_word(#[trigger] s.refs[i], s.labels, s.pc) is Ok,
{
    lemma_error_iff(s.code, s.refs, s.labels, s.pc);
}

proof fn lemma_error_iff(code: Seq<u8>, refs: Seq<LabelRef>, labels: Map<Seq<char>, int>, pc: u64)
    ensures
        resolved(code, refs, labels, pc).1 is None <==> forall|i: int|
            0 <= i < refs.len() ==> ref_word(#[trigger] refs[i], labels, pc) is Ok,
    decreases refs.len(),
{
    if refs.len() > 0 {
        match ref_word(refs[0], labels, pc) {
            Err(_) => {
                assert(!(ref_word(refs[0], labels, pc) is Ok));
            },
            Ok(w) => {
                let rest = refs.skip(1);
                lemma_error_iff(put_word(code, refs[0].offset, w), rest, labels, pc);
                assert forall|i: int| 0 <= i < rest.len() implies rest[i] == refs[i + 1] by {}
                if forall|i: int| 0 <= i < rest.len() ==> ref_word(#[trigger] rest[i], labels, pc) is Ok {
                    assert forall|i: int| 0 <= i < refs.len() implies ref_word(
                        #[trigger] refs[i],
                        labels,
                        pc,
                    ) is Ok by {
                        if i > 0 {
                            assert(rest[i - 1] == refs[i]);
                        }
                    }
                } else {
                    let j = choose|j: int|
                        0 <= j < rest.len() && !(ref_word(#[trigger] rest[j], labels, pc) is Ok);
                    assert(rest[j] == refs[j + 1]);
                }
            },
        }
    }
}

/// An address that wraps around keeps its place in a word.
proof fn lemma_wrapped_word(n: int)
    ensures
        (n % 0x1_0000_0000_0000_0000) % 4 == n % 4,
{
    vstd::arithmetic::div_mod::lemma_mod_mod(n, 4, 0x4000_0000_0000_0000);
}

/// Numbers with the same place in a word are whole words apart.
proof fn lemma_whole_words(x: int, y: int)
    requires
        x % 4 == y % 4,
    ensures
        (y - x) % 4 == 0,
        (y - x + 0x1_0000_0000_0000_0000) % 4 == 0,
        (y - x - 0x1_0000_0000_0000_0000) % 4 == 0,
{
}

/// Two places a whole number of words apart are a whole number of words from each other.
proof fn lemma_word_distance(pc: u64, a: int, b: int)
    requires
        (b - a) % 4 == 0,
    ensures
        delta(displaced(pc, a), displaced(pc, b)) % 4 == 0,
{
    let x = displaced(pc, a);
    let y = displaced(pc, b);
    lemma_wrapped_word(pc + a);
    lemma_wrapped_word(pc + b);
    lemma_whole_words(x as int, y as int);
    reveal(delta);
}

/// A branch to a label at a whole number of words decodes, at its own address, to a branch to
/// the address of the label.
pub proof fn law_label_branch_decodes(s: WriterState, i: int)
    requires
        s.wf(),
        resolve_error(s) is None,
        0 <= i < s.refs.len(),
        s.refs[i].kind == FixupKind::B || s.refs[i].kind == FixupKind::Bl,
        (s.labels[s.refs[i].label] - s.refs[i].offset) % 4 == 0,
    ensures
        a64_kind(
            displaced(s.pc, s.refs[i].offset),
            word_at(resolved_code(s), s.refs[i].offset),
        ) == (InsnKind::Branch {
            target: displaced(s.pc, s.labels[s.refs[i].label]),
            link: s.refs[i].kind == FixupKind::Bl,
        }),
{
    law_labels_resolve(s);
    let r = s.refs[i];
    let at = displaced(s.pc, r.offset);
    let target = displaced(s.pc, s.labels[r.label]);
    assert(ref_word(r, s.labels, s.pc) is Ok);
    assert(kind_word(r.kind, at, target) is Ok);
    assert(branch_reaches(at, target));
    lemma_word_distance(s.pc, r.offset, s.labels[r.label]);
    law_branch_round_trip(at, target);
}

/// A literal load that is pointed at a place less than 1 MiB on, at a whole number of words,
/// decodes to a load from that place.
pub proof fn law_literal_ref_decodes(reg: Reg, at: u64, distance: int)
    requires
        reg.n < 32,
        0 <= distance < 0x10_0000,
        distance % 4 == 0,
    ensures
        a64_kind(at, with_imm19(ldr_here_word(reg), (distance / 4) % 0x8_0000)) == (
        InsnKind::PcRelLoad {
            rt: reg.n,
            target: displaced(at, distance),
            is64: reg.is64,
            is_simd: false,
        }),
{
    let w = with_imm19(ldr_here_word(reg), (distance / 4) % 0x8_0000);
    let hi: int = if reg.is64 {
        0x58
    } else {
        0x18
    };
    assert(ldr_here_word(reg) == hi * 0x100_0000 + reg.n);
    assert(w == hi * 0x100_0000 + (distance / 4) * 0x20 + reg.n);
    crate::encode::lemma_kind19(at, w, hi, distance / 4, reg.n as int);
}

} // verus!
