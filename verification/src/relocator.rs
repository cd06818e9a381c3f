//! Relocation of displaced instructions into a trampoline.
use crate::bytes::{get_u32, law_word_round_trip, le32, le64, push_bytes, push_u32, push_u64, word_at};
use crate::decoder::{
    a64_kind, displaced, inverted, law_displaced_adds, Arm64Decoder, Cond, DecodedInsn, DisasmAdapter, InsnKind,
};
use crate::encode::{
    abs_branch, abs_call, adr_word, law_address_round_trip, law_conditional_round_trip,
    law_literal_round_trip, law_test_branch_round_trip, lemma_delta_of_move, b_cond_word, cbz_word, delta, encode_abs_branch,
    encode_abs_call, encode_b_cond, encode_cbz, encode_pc_rel_addr, encode_tbz, ldr_lit_word,
    ldr_x17_8, literal_reaches, pc_rel_addr, tbz_word, try_encode_ldr_lit,
};
use crate::writer::Arm64Writer;
use crate::ABS_BRANCH_LEN;
use vstd::prelude::*;
use vstd::string::*;

verus! {

/// Instructions overwritten by the absolute patch stub.
pub const MIN_PATCH_INSNS: usize = 4;

#[derive(Debug)]
pub struct RelocatedBlock {
    /// Bytes of the trampoline body (relocated instructions and the final jump back).
    pub code: Vec<u8>,
    /// The instructions that were displaced.
    pub displaced: Vec<DecodedInsn>,
    /// Bytes covered at the original site.
    pub patch_len: usize,
    /// Address of the first untouched instruction after the patch.
    pub resume_addr: u64,
}

#[derive(Debug)]
pub enum RelocError {
    TruncatedCode,
    OutOfRange,
    Failed(String),
}

impl RelocError {
    /// The text of the error.
    pub open spec fn text(&self) -> Seq<char> {
        match self {
            RelocError::TruncatedCode => "not enough code bytes to cover a 16-byte patch"@,
            RelocError::OutOfRange => "address out of range / unreadable"@,
            RelocError::Failed(m) => "relocation failed: "@ + m@,
        }
    }

    pub fn message(&self) -> (m: String)
        ensures
            m@ == self.text(),
    {
        match self {
            RelocError::TruncatedCode => {
                "not enough code bytes to cover a 16-byte patch".to_owned()
            },
            RelocError::OutOfRange => "address out of range / unreadable".to_owned(),
            RelocError::Failed(m) => "relocation failed: ".to_owned().concat(m.as_str()),
        }
    }
}

/// The first `n` instructions of `code`, as `decoder` reads them at `target`.
pub open spec fn first_insns<D: Arm64Decoder>(
    decoder: &D,
    target: u64,
    code: Seq<u8>,
    n: nat,
) -> Seq<DecodedInsn> {
    Seq::new(n, |i: int| decoder.decoded(displaced(target, 4 * i), word_at(code, 4 * i)))
}

/// The whole instructions that an absolute branch at `target` overwrites.
pub fn compute_patch_insns<D: Arm64Decoder>(decoder: &D, target: u64, code: &[u8]) -> (r: Result<
    Vec<DecodedInsn>,
    RelocError,
>)
    ensures
        if code@.len() < ABS_BRANCH_LEN {
            r matches Err(RelocError::TruncatedCode)
        } else {
            r matches Ok(insns) && insns@ == first_insns(decoder, target, code@, 4)
        },
{
    if code.len() < ABS_BRANCH_LEN {
        return Err(RelocError::TruncatedCode);
    }
    let mut out: Vec<DecodedInsn> = Vec::new();
    let mut off: usize = 0;
    while off < ABS_BRANCH_LEN
        invariant
            off % 4 == 0,
            off <= ABS_BRANCH_LEN <= code@.len(),
            out@ == first_insns(decoder, target, code@, (off / 4) as nat),
        decreases ABS_BRANCH_LEN - off,
    {
        let word: u32 = get_u32(code, off);
        let addr: u64 = target.wrapping_add(off as u64);
        out.push(decoder.decode(addr, word));
        off = off + 4;
        assert(out@ =~= first_insns(decoder, target, code@, (off / 4) as nat));
    }
    Ok(out)
}

/// `LDR X17, #8; B #12; <addr>`.
pub open spec fn abs_addr_into_x17(addr: u64) -> Seq<u8> {
    le32(ldr_x17_8()) + le32(0x1400_0003u32) + le64(addr)
}

/// LDR Xt, [X17]
pub open spec fn ldr_via_x17(rt: u8, is64: bool) -> u32 {
    ((if is64 {
        0xF940_0220int
    } else {
        0xB940_0220
    }) + rt % 32) as u32
}

/// The code at `emit_pc` that does what a decoded instruction did at its own address.
///
/// A short conditional branch becomes its inverse over an absolute branch, which falls through
/// otherwise. A literal that is out of reach is loaded through X17.
#[verifier::opaque]
pub open spec fn relocated(insn: DecodedInsn, emit_pc: u64) -> Seq<u8> {
    let over = displaced(emit_pc, 20);
    match insn.kind {
        InsnKind::PcIndependent => le32(insn.raw),
        InsnKind::BranchReg { .. } => le32(insn.raw),
        InsnKind::Branch { target, link } => if link {
            abs_call(emit_pc, target)
        } else {
            abs_branch(target)
        },
        InsnKind::BranchCond { target, cond } => le32(b_cond_word(inverted(cond), emit_pc, over))
            + abs_branch(target),
        InsnKind::CompareBranch { target, reg, nonzero, is64 } => le32(
            cbz_word(reg, !nonzero, is64, emit_pc, over),
        ) + abs_branch(target),
        InsnKind::TestBranch { target, reg, bit, nonzero } => le32(
            tbz_word(reg, bit, !nonzero, emit_pc, over),
        ) + abs_branch(target),
        InsnKind::PcRelAddr { rd, target, .. } => pc_rel_addr(rd, emit_pc, target),
        InsnKind::PcRelLoad { rt, target, is64, .. } => if literal_reaches(emit_pc, target) {
            le32(ldr_lit_word(rt, is64, emit_pc, target))
        } else {
            abs_addr_into_x17(target) + le32(ldr_via_x17(rt, is64))
        },
    }
}

/// The relocations of `insns` one after another from `emit_pc` on.
pub open spec fn relocated_all(insns: Seq<DecodedInsn>, emit_pc: u64) -> Seq<u8>
    decreases insns.len(),
{
    if insns.len() == 0 {
        Seq::empty()
    } else {
        let done = relocated_all(insns.drop_last(), emit_pc);
        done + relocated(insns.last(), displaced(emit_pc, done.len() as int))
    }
}

/// Builds a trampoline of relocated displaced instructions that ends with an absolute jump to
/// the first instruction after the patch.
pub fn build_trampoline<D: Arm64Decoder>(
    decoder: &D,
    target: u64,
    code: &[u8],
    trampoline_base: u64,
) -> (r: Result<RelocatedBlock, RelocError>)
    ensures
        if code@.len() < ABS_BRANCH_LEN {
            r matches Err(RelocError::TruncatedCode)
        } else {
            &&& r matches Ok(b)
            &&& b.displaced@ == first_insns(decoder, target, code@, 4)
            &&& b.patch_len == 16
            &&& b.resume_addr == displaced(target, 16)
            &&& b.code@ == relocated_all(b.displaced@, trampoline_base) + abs_branch(b.resume_addr)
        },
{
    let displaced_insns = match compute_patch_insns(decoder, target, code) {
        Ok(v) => v,
        Err(e) => {
            return Err(e);
        },
    };
    let patch_len: usize = displaced_insns.len() * 4;
    let resume_addr: u64 = target.wrapping_add(patch_len as u64);
    let mut code_out: Vec<u8> = Vec::new();
    let mut emit_pc: u64 = trampoline_base;
    let mut i: usize = 0;
    assert(displaced_insns@.take(0) =~= Seq::<DecodedInsn>::empty());
    while i < displaced_insns.len()
        invariant
            i <= displaced_insns@.len(),
            code_out@ == relocated_all(displaced_insns@.take(i as int), trampoline_base),
            emit_pc == displaced(trampoline_base, code_out@.len() as int),
        decreases displaced_insns@.len() - i,
    {
        let chunk = match relocate_one(&displaced_insns[i], emit_pc) {
            Ok(c) => c,
            Err(e) => {
                return Err(e);
            },
        };
        let next: u64 = emit_pc.wrapping_add(chunk.len() as u64);
        proof {
            assert(next == displaced(emit_pc, chunk@.len() as int));
            law_displaced_adds(trampoline_base, code_out@.len() as int, chunk@.len() as int);
        }
        emit_pc = next;
        push_bytes(&mut code_out, chunk.as_slice());
        assert(displaced_insns@.take(i + 1).drop_last() =~= displaced_insns@.take(i as int));
        i = i + 1;
    }
    assert(displaced_insns@.take(i as int) =~= displaced_insns@);
    let back = encode_abs_branch(resume_addr);
    push_bytes(&mut code_out, back.as_slice());
    Ok(RelocatedBlock { code: code_out, displaced: displaced_insns, patch_len, resume_addr })
}

/// Relocates a single decoded instruction for emission at `emit_pc`.
pub fn relocate_one(insn: &DecodedInsn, emit_pc: u64) -> (r: Result<Vec<u8>, RelocError>)
    ensures
        r matches Ok(b) && b@ == relocated(*insn, emit_pc),
{
    reveal(relocated);
    match insn.kind {
        InsnKind::PcIndependent | InsnKind::BranchReg { .. } => {
            let mut out: Vec<u8> = Vec::new();
            push_u32(&mut out, insn.raw);
            assert(out@ =~= relocated(*insn, emit_pc));
            Ok(out)
        },
        InsnKind::Branch { target, link } => {
            if link {
                Ok(encode_abs_call(emit_pc, target))
            } else {
                let mut out: Vec<u8> = Vec::new();
                push_bytes(&mut out, encode_abs_branch(target).as_slice());
                assert(out@ =~= relocated(*insn, emit_pc));
                Ok(out)
            }
        },
        InsnKind::BranchCond { target, cond } => {
            Ok(rewrite_cond_branch(emit_pc, target, CondBranchKind::BCond(cond)))
        },
        InsnKind::CompareBranch { target, reg, nonzero, is64 } => {
            Ok(rewrite_cond_branch(emit_pc, target, CondBranchKind::Cbz { reg, nonzero, is64 }))
        },
        InsnKind::TestBranch { target, reg, bit, nonzero } => {
            Ok(rewrite_cond_branch(emit_pc, target, CondBranchKind::Tbz { reg, bit, nonzero }))
        },
        InsnKind::PcRelAddr { rd, target, .. } => Ok(encode_pc_rel_addr(rd, emit_pc, target)),
        InsnKind::PcRelLoad { rt, target, is64, .. } => {
            match try_encode_ldr_lit(rt, is64, emit_pc, target) {
                Some(word) => {
                    let mut out: Vec<u8> = Vec::new();
                    push_u32(&mut out, word);
                    assert(out@ =~= relocated(*insn, emit_pc));
                    Ok(out)
                },
                None => {
                    let mut out = encode_abs_addr_into_x17(target);
                    let ldr: u32 = if is64 {
                        0xF940_0220
                    } else {
                        0xB940_0220
                    };
                    push_u32(&mut out, ldr + (rt % 32) as u32);
                    Ok(out)
                },
            }
        },
    }
}

enum CondBranchKind {
    BCond(Cond),
    Cbz { reg: u8, nonzero: bool, is64: bool },
    Tbz { reg: u8, bit: u8, nonzero: bool },
}

/// The inverse of a short conditional branch.
spec fn inverse_word(kind: CondBranchKind, pc: u64, over: u64) -> u32 {
    match kind {
        CondBranchKind::BCond(cond) => b_cond_word(inverted(cond), pc, over),
        CondBranchKind::Cbz { reg, nonzero, is64 } => cbz_word(reg, !nonzero, is64, pc, over),
        CondBranchKind::Tbz { reg, bit, nonzero } => tbz_word(reg, bit, !nonzero, pc, over),
    }
}

/// Rewrites a short conditional branch: the inverse over the absolute branch, the absolute
/// branch to the real target, then whatever follows.
fn rewrite_cond_branch(emit_pc: u64, target: u64, kind: CondBranchKind) -> (out: Vec<u8>)
    ensures
        out@ == le32(inverse_word(kind, emit_pc, displaced(emit_pc, 20))) + abs_branch(target),
{
    let over: u64 = emit_pc.wrapping_add(20);
    let mut out: Vec<u8> = Vec::new();
    let word: u32 = match kind {
        CondBranchKind::BCond(cond) => encode_b_cond(cond.invert(), emit_pc, over),
        CondBranchKind::Cbz { reg, nonzero, is64 } => encode_cbz(
            reg,
            !nonzero,
            is64,
            emit_pc,
            over,
        ),
        CondBranchKind::Tbz { reg, bit, nonzero } => encode_tbz(reg, bit, !nonzero, emit_pc, over),
    };
    push_u32(&mut out, word);
    push_bytes(&mut out, encode_abs_branch(target).as_slice());
    assert(out@ =~= le32(inverse_word(kind, emit_pc, displaced(emit_pc, 20))) + abs_branch(target));
    out
}

/// `LDR X17, #8; B #12; <u64 addr>`.
fn encode_abs_addr_into_x17(addr: u64) -> (out: Vec<u8>)
    ensures
        out@ == abs_addr_into_x17(addr),
{
    let mut out: Vec<u8> = Vec::new();
    push_u32(&mut out, 0x5800_0051);
    push_u32(&mut out, 0x1400_0003);
    push_u64(&mut out, addr);
    assert(out@ =~= abs_addr_into_x17(addr));
    out
}

/// State of a streaming relocator, as contracts speak of it.
#[verifier::ext_equal]
pub struct RelocatorState {
    /// Address after the last instruction that was consumed.
    pub input: u64,
    /// Address of the next instruction to read.
    pub input_pc: u64,
    /// Whether a branch was read.
    pub eob: bool,
    /// Whether nothing more can be read.
    pub eoi: bool,
    /// Instructions read and not yet consumed.
    pub queue: Seq<DecodedInsn>,
    /// Bound source bytes, if any.
    pub source: Option<Seq<u8>>,
    pub source_base: u64,
    pub bytes_read: int,
}

/// Whether control never reaches the instruction after this one.
pub open spec fn ends_input(k: InsnKind) -> bool {
    match k {
        InsnKind::Branch { link, .. } => !link,
        InsnKind::BranchReg { .. } => true,
        _ => false,
    }
}

/// Whether this instruction may transfer control.
pub open spec fn ends_block(k: InsnKind) -> bool {
    match k {
        InsnKind::Branch { .. } => true,
        InsnKind::BranchReg { .. } => true,
        InsnKind::BranchCond { .. } => true,
        InsnKind::CompareBranch { .. } => true,
        InsnKind::TestBranch { .. } => true,
        _ => false,
    }
}

impl RelocatorState {
    /// Source bytes from the next instruction on.
    pub open spec fn remaining(self) -> int {
        match self.source {
            Some(s) => if self.input_pc < self.source_base || self.input_pc - self.source_base
                > s.len() {
                0
            } else {
                s.len() - (self.input_pc - self.source_base)
            },
            None => 0,
        }
    }

    /// A source is bound, and its length and the count of bytes fit a machine word.
    pub open spec fn bound(self) -> bool {
        &&& self.source matches Some(s) && s.len() < 0x8000_0000_0000_0000
        &&& 0 <= self.bytes_read
        &&& self.bytes_read + self.remaining() <= usize::MAX
    }

    /// An instruction is at hand, or one can be read from the source.
    pub open spec fn ready(self) -> bool {
        self.queue.len() > 0 || self.bound()
    }

    /// The word at `addr` of the source, where it lies wholly inside.
    pub open spec fn source_word(self, addr: u64) -> Option<u32> {
        match self.source {
            Some(s) => if addr >= self.source_base && addr - self.source_base + 4 <= s.len() {
                Some(word_at(s, addr - self.source_base))
            } else {
                None
            },
            None => None,
        }
    }

    /// The state after `word` was read as the next instruction.
    pub open spec fn with_word(self, word: u32) -> RelocatorState {
        let kind = a64_kind(self.input_pc, word);
        RelocatorState {
            eob: self.eob || ends_block(kind),
            eoi: self.eoi || ends_input(kind),
            queue: self.queue.push(DecodedInsn { addr: self.input_pc, raw: word, kind }),
            input_pc: displaced(self.input_pc, 4),
            bytes_read: self.bytes_read + 4,
            ..self
        }
    }

    /// The state after an attempt to read, given the word that was there.
    pub open spec fn after_fetch(self, word: Option<u32>) -> RelocatorState {
        if self.eoi {
            self
        } else {
            match word {
                None => RelocatorState { eoi: true, ..self },
                Some(w) => self.with_word(w),
            }
        }
    }

    /// The state after an attempt to read from the source.
    pub open spec fn after_read(self) -> RelocatorState {
        self.after_fetch(self.source_word(self.input_pc))
    }

    /// The state with an instruction at hand, if there is one.
    pub open spec fn primed(self) -> RelocatorState {
        if self.queue.len() == 0 {
            self.after_read()
        } else {
            self
        }
    }

    /// The state after the first instruction at hand is consumed.
    pub open spec fn consumed(self) -> RelocatorState {
        RelocatorState {
            queue: self.queue.skip(1),
            input: displaced(self.queue[0].addr, 4),
            ..self
        }
    }

    /// Whether the source holds another instruction to read.
    pub open spec fn readable(self) -> bool {
        &&& !self.eoi
        &&& self.source_word(self.input_pc) is Some
    }

    /// The instructions still to be read: up to the end of the source or of the code path.
    pub open spec fn ahead(self) -> Seq<DecodedInsn>
        decreases self.remaining(),
        when self.source matches Some(s) ==> s.len() < 0x8000_0000_0000_0000
    {
        if !self.readable() {
            Seq::empty()
        } else {
            let next = self.after_read();
            seq![next.queue.last()] + next.ahead()
        }
    }

    /// Every instruction that will be consumed: those at hand, then those still to be read.
    pub open spec fn stream(self) -> Seq<DecodedInsn> {
        self.queue + self.ahead()
    }
}

/// Streaming relocator: reads instructions and emits their relocated forms into an
/// [`Arm64Writer`].
///
/// The words come from a bound byte buffer, or one by one from the caller.
pub struct Arm64Relocator {
    input: u64,
    input_pc: u64,
    eob: bool,
    eoi: bool,
    read_ahead: Vec<DecodedInsn>,
    source: Option<Vec<u8>>,
    source_base: u64,
    bytes_read: usize,
}

impl View for Arm64Relocator {
    type V = RelocatorState;

    closed spec fn view(&self) -> RelocatorState {
        RelocatorState {
            input: self.input,
            input_pc: self.input_pc,
            eob: self.eob,
            eoi: self.eoi,
            queue: self.read_ahead@,
            source: match self.source {
                Some(v) => Some(v@),
                None => None,
            },
            source_base: self.source_base,
            bytes_read: self.bytes_read as int,
        }
    }
}

impl Arm64Relocator {
    /// A relocator of the code at `input_code`, with no source bound.
    pub fn new(input_code: u64, _output_base: u64) -> (r: Self)
        ensures
            r@ == (RelocatorState {
                input: input_code,
                input_pc: input_code,
                eob: false,
                eoi: false,
                queue: Seq::empty(),
                source: None,
                source_base: input_code,
                bytes_read: 0,
            }),
    {
        Self {
            input: input_code,
            input_pc: input_code,
            eob: false,
            eoi: false,
            read_ahead: Vec::new(),
            source: None,
            source_base: input_code,
            bytes_read: 0,
        }
    }

    /// Binds a byte buffer that starts at `base` as the instruction source.
    pub fn with_source(self, base: u64, bytes: Vec<u8>) -> (r: Self)
        requires
            self@.bytes_read + bytes@.len() <= usize::MAX,
            bytes@.len() < 0x8000_0000_0000_0000,
        ensures
            r@ == (RelocatorState {
                source_base: base,
                input: base,
                input_pc: base,
                source: Some(bytes@),
                ..self@
            }),
            r@.bound(),
    {
        let mut me = self;
        me.source_base = base;
        me.input = base;
        me.input_pc = base;
        me.source = Some(bytes);
        me
    }

    /// The instruction that was read last, if it is still at hand.
    pub fn input(&self) -> (r: Option<&DecodedInsn>)
        ensures
            match r {
                Some(i) => self@.queue.len() > 0 && *i == self@.queue.last(),
                None => self@.queue.len() == 0,
            },
    {
        let n: usize = self.read_ahead.len();
        if n == 0 {
            None
        } else {
            Some(&self.read_ahead[n - 1])
        }
    }

    pub fn input_addr(&self) -> (r: u64)
        ensures
            r == self@.input,
    {
        self.input
    }

    pub fn eob(&self) -> (r: bool)
        ensures
            r == self@.eob,
    {
        self.eob
    }

    pub fn eoi(&self) -> (r: bool)
        ensures
            r == self@.eoi,
    {
        self.eoi
    }

    /// The address of the next instruction to read.
    pub fn next_address(&self) -> (r: u64)
        ensures
            r == self@.input_pc,
    {
        self.input_pc
    }

    fn read_u32_at(&self, addr: u64) -> (r: Result<u32, RelocError>)
        requires
            self@.source is Some,
        ensures
            match self@.source_word(addr) {
                Some(w) => r == Ok::<u32, RelocError>(w),
                None => r matches Err(RelocError::OutOfRange),
            },
    {
        match &self.source {
            Some(src) => {
                if addr < self.source_base {
                    return Err(RelocError::OutOfRange);
                }
                let off: u64 = addr - self.source_base;
                let len: usize = src.len();
                if len < 4 || off > (len - 4) as u64 {
                    return Err(RelocError::OutOfRange);
                }
                Ok(get_u32(src.as_slice(), off as usize))
            },
            None => Err(RelocError::OutOfRange),
        }
    }

    /// Reads the next instruction, given the word at `next_address` or that there is none.
    /// Returns the bytes read so far, or 0 at the end of the input.
    pub fn read_fetched(&mut self, word: Option<u32>) -> (r: Result<usize, RelocError>)
        requires
            0 <= old(self)@.bytes_read <= usize::MAX - 4,
        ensures
            final(self)@ == old(self)@.after_fetch(word),
            r == Ok::<usize, RelocError>(
                if old(self)@.eoi || word is None {
                    0
                } else {
                    final(self)@.bytes_read as usize
                },
            ),
    {
        if self.eoi {
            return Ok(0);
        }
        let word: u32 = match word {
            Some(w) => w,
            None => {
                self.eoi = true;
                return Ok(0);
            },
        };
        let decoder = DisasmAdapter;
        let insn = decoder.decode(self.input_pc, word);
        match insn.kind {
            InsnKind::Branch { link, .. } => {
                self.eob = true;
                if !link {
                    self.eoi = true;
                }
            },
            InsnKind::BranchReg { .. } => {
                self.eob = true;
                self.eoi = true;
            },
            InsnKind::BranchCond { .. }
            | InsnKind::CompareBranch { .. }
            | InsnKind::TestBranch { .. } => {
                self.eob = true;
            },
            _ => {},
        }
        self.read_ahead.push(insn);
        self.input_pc = self.input_pc.wrapping_add(4);
        self.bytes_read = self.bytes_read + 4;
        Ok(self.bytes_read)
    }

    /// Reads the next instruction of the source into the queue.
    /// Returns the bytes read so far, or 0 at the end of the input.
    pub fn read_one(&mut self) -> (r: Result<usize, RelocError>)
        requires
            old(self)@.bound(),
        ensures
            final(self)@.bound(),
            final(self)@ == old(self)@.after_read(),
            final(self)@.remaining() <= old(self)@.remaining(),
            r == Ok::<usize, RelocError>(
                if old(self)@.eoi || old(self)@.source_word(old(self)@.input_pc) is None {
                    0
                } else {
                    final(self)@.bytes_read as usize
                },
            ),
            r matches Ok(n) ==> (n == 0 <==> final(self)@.queue == old(self)@.queue),
    {
        if self.eoi {
            return Ok(0);
        }
        let word = match self.read_u32_at(self.input_pc) {
            Ok(w) => Some(w),
            Err(_) => None,
        };
        if word.is_none() {
            self.eoi = true;
            return Ok(0);
        }
        let r = self.read_fetched(word);
        assert(self@.queue.len() == old(self)@.queue.len() + 1);
        r
    }

    /// The address of the next instruction to consume.
    pub fn peek_next_write_source(&self) -> (r: Option<u64>)
        ensures
            r == if self@.queue.len() > 0 {
                Some(self@.queue[0].addr)
            } else {
                None
            },
    {
        if self.read_ahead.len() > 0 {
            Some(self.read_ahead[0].addr)
        } else {
            None
        }
    }

    /// The next instruction to consume.
    pub fn peek_next_write_insn(&self) -> (r: Option<&DecodedInsn>)
        ensures
            match r {
                Some(i) => self@.queue.len() > 0 && *i == self@.queue[0],
                None => self@.queue.len() == 0,
            },
    {
        if self.read_ahead.len() > 0 {
            Some(&self.read_ahead[0])
        } else {
            None
        }
    }

    /// Sees to it that an instruction is at hand, if there is one.
    fn prime(&mut self) -> (r: Result<bool, RelocError>)
        requires
            old(self)@.ready(),
        ensures
            old(self)@.bound() ==> final(self)@.bound(),
            final(self)@ == old(self)@.primed(),
            r == Ok::<bool, RelocError>(final(self)@.queue.len() > 0),
    {
        if self.read_ahead.is_empty() {
            let n: usize = match self.read_one() {
                Ok(n) => n,
                Err(e) => {
                    return Err(e);
                },
            };
            if n == 0 {
                return Ok(false);
            }
        }
        Ok(true)
    }

    /// Takes the first instruction at hand.
    fn consume(&mut self) -> (insn: DecodedInsn)
        requires
            old(self)@.queue.len() > 0,
        ensures
            old(self)@.bound() ==> final(self)@.bound(),
            final(self)@ == old(self)@.consumed(),
            insn == old(self)@.queue[0],
    {
        let insn = self.read_ahead.remove(0);
        self.input = insn.addr.wrapping_add(4);
        assert(self@.queue =~= old(self)@.queue.skip(1));
        insn
    }

    /// Copies the next instruction without relocating it; `false` where there is none.
    pub fn copy_one(&mut self, writer: &mut Arm64Writer) -> (r: Result<bool, RelocError>)
        requires
            old(self)@.ready(),
            old(writer)@.wf(),
        ensures
            old(self)@.bound() ==> final(self)@.bound(),
            final(writer)@.wf(),
            ({
                let at_hand = old(self)@.primed();
                if at_hand.queue.len() == 0 {
                    &&& r == Ok::<bool, RelocError>(false)
                    &&& final(self)@ == at_hand
                    &&& final(writer)@ == old(writer)@
                } else {
                    &&& r == Ok::<bool, RelocError>(true)
                    &&& final(self)@ == at_hand.consumed()
                    &&& final(writer)@ == old(writer)@.emit_word(at_hand.queue[0].raw)
                }
            }),
    {
        let more = self.prime()?;
        if !more {
            return Ok(false);
        }
        let insn = self.consume();
        writer.put_instruction(insn.raw);
        Ok(true)
    }

    /// Relocates the next instruction into `writer`; `false` where there is none.
    pub fn write_one(&mut self, writer: &mut Arm64Writer) -> (r: Result<bool, RelocError>)
        requires
            old(self)@.ready(),
            old(writer)@.wf(),
        ensures
            old(self)@.bound() ==> final(self)@.bound(),
            final(writer)@.wf(),
            ({
                let at_hand = old(self)@.primed();
                if at_hand.queue.len() == 0 {
                    &&& r == Ok::<bool, RelocError>(false)
                    &&& final(self)@ == at_hand
                    &&& final(writer)@ == old(writer)@
                } else {
                    &&& r == Ok::<bool, RelocError>(true)
                    &&& final(self)@ == at_hand.consumed()
                    &&& final(writer)@ == old(writer)@.emit(
                        relocated(at_hand.queue[0], old(writer)@.next_pc()),
                    )
                }
            }),
    {
        let more = self.prime()?;
        if !more {
            return Ok(false);
        }
        let insn = self.consume();
        let pc: u64 = writer.pc();
        let bytes = match relocate_one(&insn, pc) {
            Ok(b) => b,
            Err(e) => {
                return Err(e);
            },
        };
        writer.put_raw(bytes.as_slice());
        Ok(true)
    }

    /// Drops the next instruction; `false` where there is none.
    pub fn skip_one(&mut self) -> (r: Result<bool, RelocError>)
        requires
            old(self)@.ready(),
        ensures
            old(self)@.bound() ==> final(self)@.bound(),
            ({
                let at_hand = old(self)@.primed();
                if at_hand.queue.len() == 0 {
                    r == Ok::<bool, RelocError>(false) && final(self)@ == at_hand
                } else {
                    r == Ok::<bool, RelocError>(true) && final(self)@ == at_hand.consumed()
                }
            }),
    {
        let more = self.prime()?;
        if !more {
            return Ok(false);
        }
        let _insn = self.consume();
        Ok(true)
    }

    /// Relocates every instruction at hand and then, one by one, those still to be read.
    pub fn write_all(&mut self, writer: &mut Arm64Writer) -> (r: Result<(), RelocError>)
        requires
            old(self)@.bound() || (old(self)@.source is None && old(self)@.eoi),
            old(writer)@.wf(),
        ensures
            r is Ok,
            old(self)@.bound() ==> final(self)@.bound(),
            final(writer)@.wf(),
            final(writer)@ == old(writer)@.emit(
                relocated_all(old(self)@.stream(), old(writer)@.next_pc()),
            ),
            final(self)@.queue.len() == 0,
            final(self)@.eoi,
            final(self)@.input == (if old(self)@.stream().len() > 0 {
                displaced(old(self)@.stream().last().addr, 4)
            } else {
                old(self)@.input
            }),
    {
        let ghost all = self@.stream();
        let ghost first = writer@;
        let ghost mut done: int = 0;
        assert(all.skip(0) =~= all);
        assert(all.take(0) =~= Seq::<DecodedInsn>::empty());
        assert(first.emit(relocated_all(all.take(0), first.next_pc())) =~= first);
        loop
            invariant
                first.wf(),
                self@.bound() || (self@.source is None && self@.eoi),
                old(self)@.bound() ==> self@.bound(),
                writer@.wf(),
                0 <= done <= all.len(),
                self@.stream() == all.skip(done),
                writer@ == first.emit(relocated_all(all.take(done), first.next_pc())),
                self@.input == (if done > 0 {
                    displaced(all[done - 1].addr, 4)
                } else {
                    old(self)@.input
                }),
                all == old(self)@.stream(),
                first == old(writer)@,
            ensures
                old(self)@.bound() ==> self@.bound(),
                writer@.wf(),
                self@.queue.len() == 0,
                self@.eoi,
                done == all.len(),
                writer@ == first.emit(relocated_all(all.take(done), first.next_pc())),
                self@.input == (if done > 0 {
                    displaced(all[done - 1].addr, 4)
                } else {
                    old(self)@.input
                }),
            decreases all.len() - done,
        {
            let ghost before = self@;
            if self.read_ahead.is_empty() && !self.eoi {
                let n: usize = match self.read_one() {
                    Ok(n) => n,
                    Err(e) => {
                        return Err(e);
                    },
                };
                proof {
                    lemma_read_keeps_stream(before);
                }
                if n == 0 {
                    proof {
                        assert(before.ahead() =~= Seq::<DecodedInsn>::empty());
                        assert(all.skip(done).len() == 0);
                    }
                    break;
                }
            }
            if self.read_ahead.is_empty() {
                proof {
                    assert(self@.ahead() =~= Seq::<DecodedInsn>::empty());
                    assert(all.skip(done).len() == 0);
                }
                break;
            }
            let ghost at_hand = self@;
            let ghost old_writer = writer@;
            match self.write_one(writer) {
                Ok(_) => {},
                Err(e) => {
                    return Err(e);
                },
            }
            proof {
                assert(at_hand.primed() == at_hand);
                lemma_consume_stream(at_hand);
                assert(all.skip(done)[0] == at_hand.queue[0]);
                assert(all[done] == at_hand.queue[0]);
                assert(all.skip(done).skip(1) =~= all.skip(done + 1));
                assert(all.take(done + 1).drop_last() =~= all.take(done));
                let emitted = relocated_all(all.take(done), first.next_pc());
                law_displaced_adds(first.pc, first.code.len() as int, emitted.len() as int);
                let more = relocated(all[done], old_writer.next_pc());
                assert(first.code + emitted + more =~= first.code + (emitted + more));
                done = done + 1;
            }
        }
        assert(all.take(done) =~= all);
        Ok(())
    }

    /// Starts over at another address; a bound source is taken to start there.
    pub fn reset(&mut self, input_code: u64, _output_base: u64)
        ensures
            final(self)@ == (RelocatorState {
                input: input_code,
                input_pc: input_code,
                eob: false,
                eoi: false,
                queue: Seq::empty(),
                bytes_read: 0,
                source_base: if old(self)@.source is Some {
                    input_code
                } else {
                    old(self)@.source_base
                },
                ..old(self)@
            }),
            final(self)@.source matches Some(s) ==> (s.len() < 0x8000_0000_0000_0000 ==>
                final(self)@.bound()),
    {
        self.input = input_code;
        self.input_pc = input_code;
        self.eob = false;
        self.eoi = false;
        self.read_ahead.clear();
        self.bytes_read = 0;
        match &self.source {
            Some(src) => {
                let _len: usize = src.len();
                self.source_base = input_code;
            },
            None => {},
        }
    }

    /// Gives the relocator up.
    pub fn dispose(self) {
    }
}

/// Reading moves the first instruction ahead into the queue, and changes nothing of the stream.
proof fn lemma_read_keeps_stream(s: RelocatorState)
    requires
        s.source matches Some(src) ==> src.len() < 0x8000_0000_0000_0000,
    ensures
        s.after_read().stream() == s.stream(),
{
    if !s.readable() {
        assert(s.after_read().ahead() =~= s.ahead());
    } else {
        let next = s.after_read();
        assert(next.queue =~= s.queue.push(next.queue.last()));
        assert(s.ahead() =~= seq![next.queue.last()] + next.ahead()) by {
            lemma_ahead_ignores_queue(next, RelocatorState { queue: next.queue, ..next });
        }
        assert(next.stream() =~= s.stream());
    }
}

/// What is ahead does not depend on what is at hand.
proof fn lemma_ahead_ignores_queue(a: RelocatorState, b: RelocatorState)
    requires
        a.eoi == b.eoi,
        a.input_pc == b.input_pc,
        a.source == b.source,
        a.source_base == b.source_base,
        a.source matches Some(s) ==> s.len() < 0x8000_0000_0000_0000,
    ensures
        a.ahead() == b.ahead(),
    decreases a.remaining(),
{
    if a.readable() {
        lemma_ahead_ignores_queue(a.after_read(), b.after_read());
        assert(a.after_read().queue.last() == b.after_read().queue.last());
    }
}

/// Consuming takes the first instruction off the stream.
proof fn lemma_consume_stream(s: RelocatorState)
    requires
        s.queue.len() > 0,
        s.source matches Some(src) ==> src.len() < 0x8000_0000_0000_0000,
    ensures
        s.consumed().stream() == s.stream().skip(1),
        s.stream()[0] == s.queue[0],
{
    lemma_ahead_ignores_queue(s, s.consumed());
    assert(s.consumed().stream() =~= s.stream().skip(1));
}

/// Reading and peeking change nothing of what a relocator will write, in which order: the
/// instructions at hand, then those still to be read.
pub proof fn law_read_keeps_stream(s: RelocatorState)
    requires
        s.bound(),
    ensures
        s.after_read().stream() == s.stream(),
        s.primed().stream() == s.stream(),
{
    lemma_read_keeps_stream(s);
}

/// A relocated instruction takes at least one and at most five words.
pub proof fn law_relocated_length(insn: DecodedInsn, emit_pc: u64)
    ensures
        4 <= relocated(insn, emit_pc).len() <= 20,
        relocated(insn, emit_pc).len() % 4 == 0,
{
    reveal(relocated);
    assert(abs_branch(0).len() == 16);
}

/// The trampoline of a patch site is at most 96 bytes long, and its last 16 bytes jump back.
pub proof fn law_trampoline_length(insns: Seq<DecodedInsn>, base: u64, resume: u64)
    requires
        insns.len() == 4,
    ensures
        ({
            let code = relocated_all(insns, base) + abs_branch(resume);
            &&& 32 <= code.len() <= 96
            &&& code.skip(code.len() - 16) == abs_branch(resume)
        }),
{
    lemma_relocated_all_length(insns, base);
    let body = relocated_all(insns, base);
    let code = body + abs_branch(resume);
    assert(abs_branch(resume).len() == 16);
    assert(code.skip(code.len() - 16) =~= abs_branch(resume));
}

proof fn lemma_relocated_all_length(insns: Seq<DecodedInsn>, base: u64)
    ensures
        4 * insns.len() <= relocated_all(insns, base).len() <= 20 * insns.len(),
    decreases insns.len(),
{
    if insns.len() > 0 {
        lemma_relocated_all_length(insns.drop_last(), base);
        let done = relocated_all(insns.drop_last(), base);
        law_relocated_length(insns.last(), displaced(base, done.len() as int));
    }
}

/// A short conditional branch, relocated, is its inverse to the address 20 bytes on, and then
/// an absolute branch to the original target.
pub proof fn law_relocated_conditional(insn: DecodedInsn, pc: u64)
    requires
        insn.kind matches InsnKind::CompareBranch { reg, .. } ==> reg < 32,
        insn.kind matches InsnKind::TestBranch { reg, bit, .. } ==> reg < 32 && bit < 64,
    ensures
        ({
            let code = relocated(insn, pc);
            let first = a64_kind(pc, word_at(code, 0));
            let over = displaced(pc, 20);
            match insn.kind {
                InsnKind::BranchCond { target, cond } => {
                    &&& first == (InsnKind::BranchCond { target: over, cond: inverted(cond) })
                    &&& code.skip(4) == abs_branch(target)
                },
                InsnKind::CompareBranch { target, reg, nonzero, is64 } => {
                    &&& first == (InsnKind::CompareBranch {
                        target: over,
                        reg,
                        nonzero: !nonzero,
                        is64,
                    })
                    &&& code.skip(4) == abs_branch(target)
                },
                InsnKind::TestBranch { target, reg, bit, nonzero } => {
                    &&& first == (InsnKind::TestBranch {
                        target: over,
                        reg,
                        bit,
                        nonzero: !nonzero,
                    })
                    &&& code.skip(4) == abs_branch(target)
                },
                _ => true,
            }
        }),
{
    reveal(relocated);
    let over = displaced(pc, 20);
    let code = relocated(insn, pc);
    lemma_delta_of_move(pc, 20);
    let none = Seq::<u8>::empty();
    match insn.kind {
        InsnKind::BranchCond { target, cond } => {
            let w = b_cond_word(inverted(cond), pc, over);
            law_word_round_trip(none, w, abs_branch(target));
            assert(none + le32(w) + abs_branch(target) =~= code);
            assert(code.skip(4) =~= abs_branch(target));
            law_conditional_round_trip(inverted(cond), 0, false, false, pc, over);
        },
        InsnKind::CompareBranch { target, reg, nonzero, is64 } => {
            let w = cbz_word(reg, !nonzero, is64, pc, over);
            law_word_round_trip(none, w, abs_branch(target));
            assert(none + le32(w) + abs_branch(target) =~= code);
            assert(code.skip(4) =~= abs_branch(target));
            law_conditional_round_trip(Cond::Al, reg, !nonzero, is64, pc, over);
        },
        InsnKind::TestBranch { target, reg, bit, nonzero } => {
            let w = tbz_word(reg, bit, !nonzero, pc, over);
            law_word_round_trip(none, w, abs_branch(target));
            assert(none + le32(w) + abs_branch(target) =~= code);
            assert(code.skip(4) =~= abs_branch(target));
            law_test_branch_round_trip(reg, bit, !nonzero, pc, over);
        },
        _ => {},
    }
}

/// A relocated call sets X30 to the address after it and branches to the same target.
pub proof fn law_relocated_call(insn: DecodedInsn, pc: u64, target: u64)
    requires
        insn.kind == (InsnKind::Branch { target, link: true }),
    ensures
        relocated(insn, pc).len() == 20,
        a64_kind(pc, word_at(relocated(insn, pc), 0)) == (InsnKind::PcRelAddr {
            rd: 30,
            target: displaced(pc, 20),
            is_page: false,
        }),
        relocated(insn, pc).skip(4) == abs_branch(target),
{
    reveal(relocated);
    let w = adr_word(30, pc, displaced(pc, 20));
    let none = Seq::<u8>::empty();
    let code = relocated(insn, pc);
    law_word_round_trip(none, w, abs_branch(target));
    assert(none + le32(w) + abs_branch(target) =~= code);
    assert(code.skip(4) =~= abs_branch(target));
    lemma_delta_of_move(pc, 20);
    law_address_round_trip(30, pc, displaced(pc, 20));
}

/// A PC-relative address within 1 MiB, and an aligned literal within 1 MiB, are reached from
/// the new place by one instruction of the same kind.
pub proof fn law_relocated_near(insn: DecodedInsn, pc: u64)
    ensures
        insn.kind matches InsnKind::PcRelAddr { rd, target, .. } ==> rd < 32 && -0x10_0000 <= delta(
            pc,
            target,
        ) < 0x10_0000 ==> a64_kind(pc, word_at(relocated(insn, pc), 0)) == (InsnKind::PcRelAddr {
            rd,
            target,
            is_page: false,
        }),
        insn.kind matches InsnKind::PcRelLoad { rt, target, is64, .. } ==> rt < 32
            && literal_reaches(pc, target) && delta(pc, target) % 4 == 0 ==> a64_kind(
            pc,
            word_at(relocated(insn, pc), 0),
        ) == (InsnKind::PcRelLoad { rt, target, is64, is_simd: false }),
{
    reveal(relocated);
    let none = Seq::<u8>::empty();
    match insn.kind {
        InsnKind::PcRelAddr { rd, target, .. } => {
            if rd < 32 && -0x10_0000 <= delta(pc, target) < 0x10_0000 {
                law_address_round_trip(rd, pc, target);
                let w = adr_word(rd, pc, target);
                law_word_round_trip(none, w, none);
                assert(none + le32(w) + none =~= relocated(insn, pc));
            }
        },
        InsnKind::PcRelLoad { rt, target, is64, .. } => {
            if rt < 32 && literal_reaches(pc, target) && delta(pc, target) % 4 == 0 {
                law_literal_round_trip(rt, is64, pc, target);
                let w = ldr_lit_word(rt, is64, pc, target);
                law_word_round_trip(none, w, none);
                assert(none + le32(w) + none =~= relocated(insn, pc));
            }
        },
        _ => {},
    }
}

} // verus!
