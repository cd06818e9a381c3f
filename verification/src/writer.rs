//! AArch64 code writer (`Arm64Writer`).
use crate::bytes::{
    copy_range, get_u32, le32, le64, push_bytes, push_u32, push_u64, put_word, set_u32, word_at,
};
use crate::decoder::{cond_number, displaced, Cond};
use crate::encode::{
    abs_branch, add_imm_word, adr_word, adrp_word, b_cond_word, b_word, bl_word, branch_reaches,
    cbz_word, delta, lemma_delta, encode_abs_branch, encode_add_imm, encode_adr, encode_adrp, encode_b_cond,
    encode_cbz, encode_tbz, ldr_lit_word, sf_bit, tbz_word, try_encode_b, try_encode_bl,
    try_encode_ldr_lit,
};
use crate::logical::{encodes, try_encode_logical_imm};
use crate::text::{
    chars_of, lowered, numeral_max, parse_number, push_chars, spells, to_lower, trim, trimmed,
    copy_chars,
};
use vstd::prelude::*;
use vstd::string::*;

verus! {

#[derive(Debug)]
pub enum WriterError {
    Msg(String),
}

impl WriterError {
    /// The text of the error.
    pub fn message(&self) -> (m: String)
        ensures
            m@ == self->0@,
    {
        match self {
            WriterError::Msg(m) => m.clone(),
        }
    }
}

/// Whether `r` is the error with the text `msg`.
pub open spec fn fails_with<T>(r: Result<T, WriterError>, msg: Seq<char>) -> bool {
    r matches Err(WriterError::Msg(m)) && m@ == msg
}

/// The error with the text `msg`.
fn fail<T>(msg: &str) -> (r: Result<T, WriterError>)
    ensures
        fails_with(r, msg@),
{
    Err(WriterError::Msg(msg.to_owned()))
}

/// The error with the text `head` followed by `tail`.
fn fail_at<T>(head: &str, tail: &[char]) -> (r: Result<T, WriterError>)
    ensures
        fails_with(r, head@ + tail@),
{
    let mut m = head.to_owned();
    push_chars(&mut m, tail);
    Err(WriterError::Msg(m))
}

#[derive(Debug, Clone, Copy, PartialEq, Eq, Structural)]
pub enum IndexMode {
    PostAdjust,
    SignedOffset,
    PreAdjust,
}

/// The index mode that a name stands for.
pub open spec fn index_mode_named(s: Seq<char>) -> Option<IndexMode> {
    if s == "post-adjust"@ || s == "post"@ {
        Some(IndexMode::PostAdjust)
    } else if s == "signed-offset"@ || s == "offset"@ {
        Some(IndexMode::SignedOffset)
    } else if s == "pre-adjust"@ || s == "pre"@ {
        Some(IndexMode::PreAdjust)
    } else {
        None
    }
}

/// The two-bit encoding of an index mode.
pub open spec fn mode_bits(m: IndexMode) -> int {
    match m {
        IndexMode::PostAdjust => 1,
        IndexMode::SignedOffset => 2,
        IndexMode::PreAdjust => 3,
    }
}

impl IndexMode {
    pub fn parse(s: &str) -> (r: Result<Self, WriterError>)
        ensures
            match index_mode_named(s@) {
                Some(m) => r == Ok::<Self, WriterError>(m),
                None => fails_with(r, "bad IndexMode: "@ + s@),
            },
    {
        let c = chars_of(s);
        if spells(&c, "post-adjust") || spells(&c, "post") {
            Ok(Self::PostAdjust)
        } else if spells(&c, "signed-offset") || spells(&c, "offset") {
            Ok(Self::SignedOffset)
        } else if spells(&c, "pre-adjust") || spells(&c, "pre") {
            Ok(Self::PreAdjust)
        } else {
            fail_at("bad IndexMode: ", &c)
        }
    }

    fn encoding(self) -> (r: u32)
        ensures
            r == mode_bits(self),
            1 <= r <= 3,
    {
        match self {
            Self::PostAdjust => 1,
            Self::SignedOffset => 2,
            Self::PreAdjust => 3,
        }
    }
}

/// General or vector register, numbered 0 to 31 (31 is SP or ZR by context).
#[derive(Debug, Clone, Copy, PartialEq, Eq, Structural)]
pub struct Reg {
    pub n: u8,
    pub is64: bool,
    /// `true` for Qn (128-bit SIMD/FP).
    pub is_vec: bool,
}

/// What a register name denotes: a register, or the text of the error.
pub open spec fn reg_named(name: Seq<char>) -> Result<Reg, Seq<char>> {
    let s = lowered(trimmed(name));
    let bad = Err("bad reg: "@ + s);
    if s == "sp"@ || s == "wsp"@ {
        Ok(Reg { n: 31, is64: s != "wsp"@, is_vec: false })
    } else if s == "lr"@ || s == "x30"@ {
        Ok(Reg { n: 30, is64: true, is_vec: false })
    } else if s == "fp"@ || s == "x29"@ {
        Ok(Reg { n: 29, is64: true, is_vec: false })
    } else if s == "xzr"@ || s == "wzr"@ {
        Ok(Reg { n: 31, is64: s == "xzr"@, is_vec: false })
    } else if s == "ip0"@ || s == "x16"@ {
        Ok(Reg { n: 16, is64: true, is_vec: false })
    } else if s == "ip1"@ || s == "x17"@ {
        Ok(Reg { n: 17, is64: true, is_vec: false })
    } else if s == "nzcv"@ {
        Err("nzcv is not a GPR; use putMovNzcvReg / putMovRegNzcv"@)
    } else if s.len() > 0 && (s[0] == 'q' || s[0] == 'x' || s[0] == 'w') {
        match numeral_max(s.skip(1), 10, 255) {
            None => bad,
            Some(n) => if s[0] == 'q' {
                if n > 31 {
                    Err("bad q reg: "@ + s)
                } else {
                    Ok(Reg { n: n as u8, is64: true, is_vec: true })
                }
            } else if s[0] == 'x' {
                if n > 30 {
                    Err("bad x reg: "@ + s)
                } else {
                    Ok(Reg { n: n as u8, is64: true, is_vec: false })
                }
            } else {
                if n > 30 {
                    Err("bad w reg: "@ + s)
                } else {
                    Ok(Reg { n: n as u8, is64: false, is_vec: false })
                }
            },
        }
    } else {
        bad
    }
}

impl Reg {
    pub fn x(n: u8) -> (r: Self)
        ensures
            r == (Reg { n, is64: true, is_vec: false }),
    {
        Self { n, is64: true, is_vec: false }
    }

    pub fn w(n: u8) -> (r: Self)
        ensures
            r == (Reg { n, is64: false, is_vec: false }),
    {
        Self { n, is64: false, is_vec: false }
    }

    pub fn q(n: u8) -> (r: Self)
        ensures
            r == (Reg { n, is64: true, is_vec: true }),
    {
        Self { n, is64: true, is_vec: true }
    }

    pub fn parse(s: &str) -> (r: Result<Self, WriterError>)
        ensures
            match reg_named(s@) {
                Ok(reg) => r == Ok::<Self, WriterError>(reg),
                Err(msg) => fails_with(r, msg),
            },
    {
        let raw = chars_of(s);
        let cut = trim(&raw);
        let c = to_lower(&cut);
        if spells(&c, "sp") {
            proof {
                reveal_strlit("sp");
                reveal_strlit("wsp");
            }
            return Ok(Self { n: 31, is64: true, is_vec: false });
        }
        if spells(&c, "wsp") {
            return Ok(Self { n: 31, is64: false, is_vec: false });
        }
        if spells(&c, "lr") || spells(&c, "x30") {
            return Ok(Self { n: 30, is64: true, is_vec: false });
        }
        if spells(&c, "fp") || spells(&c, "x29") {
            return Ok(Self { n: 29, is64: true, is_vec: false });
        }
        if spells(&c, "xzr") {
            return Ok(Self { n: 31, is64: true, is_vec: false });
        }
        if spells(&c, "wzr") {
            proof {
                reveal_strlit("xzr");
                reveal_strlit("wzr");
            }
            return Ok(Self { n: 31, is64: false, is_vec: false });
        }
        if spells(&c, "ip0") || spells(&c, "x16") {
            return Ok(Self { n: 16, is64: true, is_vec: false });
        }
        if spells(&c, "ip1") || spells(&c, "x17") {
            return Ok(Self { n: 17, is64: true, is_vec: false });
        }
        if spells(&c, "nzcv") {
            return fail("nzcv is not a GPR; use putMovNzcvReg / putMovRegNzcv");
        }
        if c.len() == 0 || !(c[0] == 'q' || c[0] == 'x' || c[0] == 'w') {
            return fail_at("bad reg: ", &c);
        }
        let rest = copy_chars(&c, 1, c.len());
        assert(rest@ =~= c@.skip(1));
        match parse_number(&rest, 10, 255) {
            None => fail_at("bad reg: ", &c),
            Some(n) => if c[0] == 'q' {
                if n > 31 {
                    fail_at("bad q reg: ", &c)
                } else {
                    Ok(Self { n: n as u8, is64: true, is_vec: true })
                }
            } else if c[0] == 'x' {
                if n > 30 {
                    fail_at("bad x reg: ", &c)
                } else {
                    Ok(Self { n: n as u8, is64: true, is_vec: false })
                }
            } else {
                if n > 30 {
                    fail_at("bad w reg: ", &c)
                } else {
                    Ok(Self { n: n as u8, is64: false, is_vec: false })
                }
            },
        }
    }

    /// Bytes that the register holds.
    pub open spec fn width(self) -> int {
        if self.is_vec {
            16
        } else if self.is64 {
            8
        } else {
            4
        }
    }

    fn width_bytes(self) -> (r: usize)
        ensures
            r == self.width(),
    {
        if self.is_vec {
            16
        } else if self.is64 {
            8
        } else {
            4
        }
    }
}

/// Every register that parses has a number below 32.
pub proof fn law_parsed_register_number(name: Seq<char>)
    ensures
        reg_named(name) matches Ok(reg) ==> reg.n < 32,
{
}

/// The condition that a name stands for, in any case and with white space around it.
pub open spec fn cond_named(name: Seq<char>) -> Option<Cond> {
    let s = lowered(trimmed(name));
    if s == "eq"@ {
        Some(Cond::Eq)
    } else if s == "ne"@ {
        Some(Cond::Ne)
    } else if s == "hs"@ || s == "cs"@ {
        Some(Cond::Cs)
    } else if s == "lo"@ || s == "cc"@ {
        Some(Cond::Cc)
    } else if s == "mi"@ {
        Some(Cond::Mi)
    } else if s == "pl"@ {
        Some(Cond::Pl)
    } else if s == "vs"@ {
        Some(Cond::Vs)
    } else if s == "vc"@ {
        Some(Cond::Vc)
    } else if s == "hi"@ {
        Some(Cond::Hi)
    } else if s == "ls"@ {
        Some(Cond::Ls)
    } else if s == "ge"@ {
        Some(Cond::Ge)
    } else if s == "lt"@ {
        Some(Cond::Lt)
    } else if s == "gt"@ {
        Some(Cond::Gt)
    } else if s == "le"@ {
        Some(Cond::Le)
    } else if s == "al"@ {
        Some(Cond::Al)
    } else if s == "nv"@ {
        Some(Cond::Nv)
    } else {
        None
    }
}

pub fn parse_cond(s: &str) -> (r: Result<Cond, WriterError>)
    ensures
        match cond_named(s@) {
            Some(c) => r == Ok::<Cond, WriterError>(c),
            None => fails_with(r, "bad ConditionCode: "@ + lowered(trimmed(s@))),
        },
{
    let raw = chars_of(s);
    let cut = trim(&raw);
    let c = to_lower(&cut);
    if spells(&c, "eq") {
        Ok(Cond::Eq)
    } else if spells(&c, "ne") {
        Ok(Cond::Ne)
    } else if spells(&c, "hs") || spells(&c, "cs") {
        Ok(Cond::Cs)
    } else if spells(&c, "lo") || spells(&c, "cc") {
        Ok(Cond::Cc)
    } else if spells(&c, "mi") {
        Ok(Cond::Mi)
    } else if spells(&c, "pl") {
        Ok(Cond::Pl)
    } else if spells(&c, "vs") {
        Ok(Cond::Vs)
    } else if spells(&c, "vc") {
        Ok(Cond::Vc)
    } else if spells(&c, "hi") {
        Ok(Cond::Hi)
    } else if spells(&c, "ls") {
        Ok(Cond::Ls)
    } else if spells(&c, "ge") {
        Ok(Cond::Ge)
    } else if spells(&c, "lt") {
        Ok(Cond::Lt)
    } else if spells(&c, "gt") {
        Ok(Cond::Gt)
    } else if spells(&c, "le") {
        Ok(Cond::Le)
    } else if spells(&c, "al") {
        Ok(Cond::Al)
    } else if spells(&c, "nv") {
        Ok(Cond::Nv)
    } else {
        fail_at("bad ConditionCode: ", &c)
    }
}

/// Argument of `put_call_*_with_arguments`.
#[derive(Debug, Clone, Copy, PartialEq, Eq, Structural)]
pub enum CallArg {
    Address(u64),
    Register(Reg),
}

/// A branch to a label that is still to be given its displacement.
#[derive(Debug, Clone, Copy, PartialEq, Eq, Structural)]
pub enum FixupKind {
    B,
    Bl,
    BCond(Cond),
    Cbz { reg: Reg, nonzero: bool },
    Tbz { reg: Reg, bit: u8, nonzero: bool },
}

#[derive(Debug)]
struct Fixup {
    offset: usize,
    label: String,
    kind: FixupKind,
}

impl Fixup {
    spec fn as_ref(&self) -> LabelRef {
        LabelRef { offset: self.offset as int, label: self.label@, kind: self.kind }
    }
}

/// A branch to a label, as contracts speak of it.
pub struct LabelRef {
    pub offset: int,
    pub label: Seq<char>,
    pub kind: FixupKind,
}

/// State of a writer, as contracts speak of it: the address of the code, the logical PC of its
/// first byte, the bytes so far, the labels, and the branches that wait for a label.
#[verifier::ext_equal]
pub struct WriterState {
    pub base: u64,
    pub pc: u64,
    pub code: Seq<u8>,
    pub labels: Map<Seq<char>, int>,
    pub refs: Seq<LabelRef>,
}

impl WriterState {
    /// Branches wait in the order of their places, each inside the code and none overlapping.
    pub open spec fn wf(self) -> bool {
        &&& forall|i: int|
            0 <= i < self.refs.len() ==> 0 <= (#[trigger] self.refs[i]).offset
                && self.refs[i].offset + 4 <= self.code.len()
        &&& forall|i: int, j: int|
            0 <= i < j < self.refs.len() ==> (#[trigger] self.refs[i]).offset + 4 <= (
            #[trigger] self.refs[j]).offset
    }

    /// The logical PC of the next byte.
    pub open spec fn next_pc(self) -> u64 {
        displaced(self.pc, self.code.len() as int)
    }

    /// The state after `b` is appended.
    pub open spec fn emit(self, b: Seq<u8>) -> WriterState {
        WriterState { code: self.code + b, ..self }
    }

    /// The state after an instruction word is appended.
    pub open spec fn emit_word(self, w: u32) -> WriterState {
        self.emit(le32(w))
    }

    /// The state after a placeholder `w` for a branch to `label` is appended.
    pub open spec fn emit_ref(self, w: u32, label: Seq<char>, kind: FixupKind) -> WriterState {
        WriterState {
            refs: self.refs.push(LabelRef { offset: self.code.len() as int, label, kind }),
            ..self.emit_word(w)
        }
    }
}

/// The word that a waiting branch becomes, or the text of the error.
pub open spec fn ref_word(
    r: LabelRef,
    labels: Map<Seq<char>, int>,
    pc: u64,
) -> Result<u32, Seq<char>> {
    if !labels.contains_key(r.label) {
        Err("undefined label: "@ + r.label)
    } else {
        kind_word(r.kind, displaced(pc, r.offset), displaced(pc, labels[r.label]))
    }
}

/// The code after the waiting branches are filled in, in order, up to the first that fails, and
/// the error of that one.
pub open spec fn resolved(
    code: Seq<u8>,
    refs: Seq<LabelRef>,
    labels: Map<Seq<char>, int>,
    pc: u64,
) -> (Seq<u8>, Option<Seq<char>>)
    decreases refs.len(),
{
    if refs.len() == 0 {
        (code, None)
    } else {
        match ref_word(refs[0], labels, pc) {
            Err(m) => (code, Some(m)),
            Ok(w) => resolved(put_word(code, refs[0].offset, w), refs.skip(1), labels, pc),
        }
    }
}

/// The code of a writer whose labels all resolve.
pub open spec fn resolved_code(s: WriterState) -> Seq<u8> {
    resolved(s.code, s.refs, s.labels, s.pc).0
}

/// The first error in resolving the labels of a writer.
pub open spec fn resolve_error(s: WriterState) -> Option<Seq<char>> {
    resolved(s.code, s.refs, s.labels, s.pc).1
}

/// A register-register instruction: destination, first and second operand.
pub open spec fn rrr_word(base: u32, is64: bool, rd: u8, rn: u8, rm: u8) -> u32 {
    (sf_bit(is64) + base + (rm % 32) * 0x1_0000 + (rn % 32) * 0x20 + rd % 32) as u32
}

/// A load or store with a 12-bit scaled or 9-bit unscaled offset in bits 10 up.
pub open spec fn mem_word(base: u32, is64: bool, imm: int, unit: int, rn: u8, rt: u8) -> u32 {
    (base + (if is64 {
        0x4000_0000int
    } else {
        0
    }) + imm * unit + (rn % 32) * 0x20 + rt % 32) as u32
}

/// LDR or STR with an offset: `base` is the word of the unsigned-offset form for W registers,
/// `unscaled` that of the unscaled form, `indexed` that of the pre- and post-indexed forms.
pub open spec fn offset_word(
    base: u32,
    unscaled: u32,
    indexed: u32,
    is64: bool,
    rt: u8,
    rn: u8,
    offset: int,
    mode: IndexMode,
) -> u32 {
    let scale: int = if is64 {
        8
    } else {
        4
    };
    if mode == IndexMode::SignedOffset {
        if offset >= 0 && offset % scale == 0 && offset / scale <= 0xFFF {
            mem_word(base, is64, offset / scale, 0x400, rn, rt)
        } else {
            mem_word(unscaled, is64, offset % 0x200, 0x1000, rn, rt)
        }
    } else {
        mem_word((indexed + mode_bits(mode) * 0x400) as u32, is64, offset % 0x200, 0x1000, rn, rt)
    }
}

/// LDP / STP.
pub open spec fn pair_word(
    is_load: bool,
    a: Reg,
    b: Reg,
    base: Reg,
    offset: int,
    mode: IndexMode,
) -> u32 {
    ((if a.is_vec || a.is64 {
        0x8000_0000int
    } else {
        0
    }) + 0x2800_0000 + (if a.is_vec {
        0x400_0000int
    } else {
        0
    }) + mode_bits(mode) * 0x80_0000 + (if is_load {
        0x40_0000int
    } else {
        0
    }) + ((offset / a.width()) % 0x80) * 0x8000 + (b.n % 32) * 0x400 + (base.n % 32) * 0x20 + a.n
        % 32) as u32
}

/// Whether an offset of a pair of such registers is encodable.
pub open spec fn pair_offset_ok(a: Reg, offset: int) -> bool {
    offset % a.width() == 0 && -64 * a.width() <= offset < 64 * a.width()
}

/// `STP a, b, [SP, #-2w]!`
pub open spec fn push_word(a: Reg, b: Reg) -> u32 {
    pair_word(
        false,
        a,
        b,
        (Reg { n: 31, is64: true, is_vec: false }),
        -2 * a.width(),
        IndexMode::PreAdjust,
    )
}

/// `LDP a, b, [SP], #2w`
pub open spec fn pop_word(a: Reg, b: Reg) -> u32 {
    pair_word(
        true,
        a,
        b,
        (Reg { n: 31, is64: true, is_vec: false }),
        2 * a.width(),
        IndexMode::PostAdjust,
    )
}

/// Register `n` of the general (`q` false) or vector file.
pub open spec fn file_reg(q: bool, n: int) -> Reg {
    Reg { n: n as u8, is64: true, is_vec: q }
}

/// Pushes of the register pairs `0..2k`, the lowest pair first.
pub open spec fn pushes(q: bool, k: nat) -> Seq<u8>
    decreases k,
{
    if k == 0 {
        Seq::empty()
    } else {
        pushes(q, (k - 1) as nat) + le32(
            push_word(file_reg(q, 2 * (k - 1)), file_reg(q, 2 * (k - 1) + 1)),
        )
    }
}

/// Pops of the register pairs `0..2k`, the highest pair first.
pub open spec fn pops(q: bool, k: nat) -> Seq<u8>
    decreases k,
{
    if k == 0 {
        Seq::empty()
    } else {
        le32(pop_word(file_reg(q, 2 * (k - 1)), file_reg(q, 2 * (k - 1) + 1))) + pops(
            q,
            (k - 1) as nat,
        )
    }
}

/// MRS Xt, NZCV
pub open spec fn mrs_nzcv_word(reg: Reg) -> u32 {
    (0xD53B_4200 + reg.n % 32) as u32
}

/// MSR NZCV, Xt
pub open spec fn msr_nzcv_word(reg: Reg) -> u32 {
    (0xD51B_4200 + reg.n % 32) as u32
}

/// X0 to X29 in pairs, then the flags through X15, then X30 with X15.
pub open spec fn push_all_x() -> Seq<u8> {
    pushes(false, 15) + le32(mrs_nzcv_word(file_reg(false, 15))) + le32(
        push_word(file_reg(false, 30), file_reg(false, 15)),
    )
}

/// The reverse of `push_all_x`.
pub open spec fn pop_all_x() -> Seq<u8> {
    le32(pop_word(file_reg(false, 30), file_reg(false, 15))) + le32(
        msr_nzcv_word(file_reg(false, 15)),
    ) + pops(false, 15)
}

/// `LDR Xt, #8; B #12; <value>`.
pub open spec fn ldr_u64(reg: Reg, val: u64) -> Seq<u8> {
    le32((0x5800_0040 + reg.n % 32) as u32) + le32(0x1400_0003u32) + le64(val)
}

/// MOVK: the fixed bit 23 of the instruction absorbs a third bit of the half-word number.
pub open spec fn movk_word(reg: Reg, imm: u16, shift: u8) -> u32 {
    let hw = shift as int / 16;
    let part = if hw % 8 >= 4 {
        hw - 4
    } else {
        hw
    };
    (sf_bit(reg.is64) + 0x7280_0000 + part * 0x20_0000 + imm * 0x20 + reg.n % 32) as u32
}

/// UBFM with the two immediates in bits 16 and 10 up.
pub open spec fn ubfm_word(dst: Reg, src: Reg, immr: u8, imms: u8) -> u32 {
    (if dst.is64 {
        0xD340_0000u32
    } else {
        0x5300_0000u32
    }) | ((immr as u32) << 16) | ((imms as u32) << 10) | (((src.n % 32) as u32) << 5) | (dst.n
        % 32) as u32
}

/// UXTW Xd, Wn
pub open spec fn uxtw_word(dst: Reg, src: Reg) -> u32 {
    (0xD340_7C00 + (src.n % 32) * 0x20 + dst.n % 32) as u32
}

/// A literal load with displacement zero.
pub open spec fn ldr_here_word(reg: Reg) -> u32 {
    ((if reg.is64 {
        0x5800_0000int
    } else {
        0x1800_0000
    }) + reg.n % 32) as u32
}

/// `word` with the displacement in bits 5 to 23 replaced.
pub open spec fn with_imm19(word: u32, imm19: int) -> u32 {
    ((word as int / 0x100_0000) * 0x100_0000 + imm19 * 0x20 + word % 0x20) as u32
}

/// What a PC-relative literal load does: it is emitted, or refused for its alignment or range.
pub open spec fn pcrel_outcome(
    before: WriterState,
    after: WriterState,
    reg: Reg,
    src_address: Option<u64>,
    r: Result<(), WriterError>,
) -> bool {
    match src_address {
        None => r is Ok && after == before.emit_word(ldr_here_word(reg)),
        Some(addr) => {
            let d = delta(before.next_pc(), addr);
            if d % 4 != 0 {
                fails_with(r, "LDR pcrel not aligned"@) && after == before
            } else if !(-0x10_0000 <= d < 0x10_0000) {
                fails_with(r, "LDR pcrel out of range"@) && after == before
            } else {
                r is Ok && after == before.emit_word(
                    ldr_lit_word(reg.n, reg.is64, before.next_pc(), addr),
                )
            }
        },
    }
}

/// Bits in a general register.
pub open spec fn reg_bits(reg: Reg) -> u32 {
    if reg.is64 {
        64
    } else {
        32
    }
}

/// TST against an immediate with the given encoding, or against X16 where there is none.
pub open spec fn tst_bytes(reg: Reg, imm: u64, enc: Option<u32>) -> Seq<u8> {
    match enc {
        Some(e) => le32(
            (sf_bit(reg.is64) + 0x7200_001F + e * 0x400 + (reg.n % 32) * 0x20) as u32,
        ),
        None => ldr_u64(file_reg(false, 16), imm) + le32(
            rrr_word(0x6A00_0000, reg.is64, 31, reg.n, 16),
        ),
    }
}

/// One argument put into its register.
pub open spec fn arg_setup(arg: CallArg, i: int) -> Seq<u8> {
    let dst = file_reg(false, i % 256);
    match arg {
        CallArg::Address(addr) => ldr_u64(dst, addr),
        CallArg::Register(src) => if src.is64 {
            if src.n != dst.n {
                le32(rrr_word(0x2A00_0000, true, dst.n, 31, src.n))
            } else {
                Seq::empty()
            }
        } else {
            le32(uxtw_word(dst, src))
        },
    }
}

/// The arguments from `i` on put into their registers, the last one first.
pub open spec fn args_setup(args: Seq<CallArg>, i: int) -> Seq<u8>
    decreases args.len() - i,
{
    if i >= args.len() {
        Seq::empty()
    } else {
        args_setup(args, i + 1) + arg_setup(args[i], i)
    }
}

/// What flushing a writer gives and leaves.
pub open spec fn flush_outcome(
    before: WriterState,
    after: WriterState,
    r: Result<Option<CodeWrite>, WriterError>,
) -> bool {
    &&& after == (WriterState { code: resolved_code(before), refs: Seq::empty(), ..before })
    &&& match resolve_error(before) {
        Some(m) => fails_with(r, m),
        None => if before.base == 0 {
            r == Ok::<Option<CodeWrite>, WriterError>(None)
        } else {
            r matches Ok(Some(w)) && w.addr == before.base && w.bytes@ == resolved_code(before)
        },
    }
}

/// The remainder of a negative number, by that of its complement.
proof fn lemma_low_bits(v: int, width: int, m: int)
    requires
        width > 0,
        v < 0,
        m == (-(v + 1)) % width,
    ensures
        v % width == width - 1 - m,
        0 <= m < width,
{
    let u = -(v + 1);
    let q = u / width;
    vstd::arithmetic::div_mod::lemma_fundamental_div_mod(u, width);
    vstd::arithmetic::div_mod::lemma_mod_bound(u, width);
    assert(v == (-q - 1) * width + (width - 1 - m)) by (nonlinear_arith)
        requires
            -(v + 1) == width * q + m,
    ;
    vstd::arithmetic::div_mod::lemma_fundamental_div_mod_converse(v, width, -q - 1, width - 1 - m);
}

/// `v` as bits of a field of `width` values.
fn low_bits(v: i32, width: u32) -> (r: u32)
    requires
        width == 4 || width == 8 || width == 16 || width == 0x200 || width == 0x400 || width
            == 0x800,
    ensures
        r == v as int % width as int,
        r < width,
{
    if v >= 0 {
        (v as u32) % width
    } else {
        let m: u32 = ((-(v + 1)) as u32) % width;
        proof {
            lemma_low_bits(v as int, width as int, m as int);
        }
        width - 1 - m
    }
}

/// Cutting to 128 units and then scaling is scaling and then cutting to 128.
proof fn lemma_scaled(v: int, bits: int, scale: int)
    requires
        scale == 4 || scale == 8 || scale == 16,
        bits == v % (128 * scale),
    ensures
        bits / scale == (v / scale) % 0x80,
{
    if scale == 4 {
        let q = v / 0x200;
        assert(v == 0x200 * q + bits);
        assert(v / 4 == 0x80 * q + bits / 4);
        assert(0 <= bits / 4 < 0x80);
        assert((0x80 * q + bits / 4) % 0x80 == bits / 4);
    } else if scale == 8 {
        let q = v / 0x400;
        assert(v == 0x400 * q + bits);
        assert(v / 8 == 0x80 * q + bits / 8);
        assert(0 <= bits / 8 < 0x80);
        assert((0x80 * q + bits / 8) % 0x80 == bits / 8);
    } else {
        let q = v / 0x800;
        assert(v == 0x800 * q + bits);
        assert(v / 16 == 0x80 * q + bits / 16);
        assert(0 <= bits / 16 < 0x80);
        assert((0x80 * q + bits / 16) % 0x80 == bits / 16);
    }
}

/// The seven-bit scaled offset of a register pair.
fn pair_imm(offset: i32, scale: u32) -> (imm7: u32)
    requires
        scale == 4 || scale == 8 || scale == 16,
    ensures
        imm7 == (offset as int / scale as int) % 0x80,
        imm7 < 0x80,
{
    let bits: u32 = low_bits(offset, 128 * scale);
    proof {
        lemma_scaled(offset as int, bits as int, scale as int);
    }
    if scale == 4 {
        bits / 4
    } else if scale == 8 {
        bits / 8
    } else {
        bits / 16
    }
}

fn three_reg(base: u32, is64: bool, rd: u8, rn: u8, rm: u8) -> (w: u32)
    requires
        base < 0x7F00_0000,
    ensures
        w == rrr_word(base, is64, rd, rn, rm),
{
    let sf: u32 = if is64 {
        0x8000_0000
    } else {
        0
    };
    sf + base + (rm % 32) as u32 * 0x1_0000 + (rn % 32) as u32 * 0x20 + (rd % 32) as u32
}

fn mem_access(base: u32, is64: bool, imm: u32, unit: u32, rn: u8, rt: u8) -> (w: u32)
    requires
        base <= 0xB980_0000,
        (unit == 0x400 && imm <= 0xFFF) || (unit == 0x1000 && imm < 0x200),
    ensures
        w == mem_word(base, is64, imm as int, unit as int, rn, rt),
{
    let x: u32 = if is64 {
        0x4000_0000
    } else {
        0
    };
    base + x + imm * unit + (rn % 32) as u32 * 0x20 + (rt % 32) as u32
}

fn mem_offset(
    base: u32,
    unscaled: u32,
    indexed: u32,
    is64: bool,
    rt: u8,
    rn: u8,
    offset: i32,
    mode: IndexMode,
) -> (w: u32)
    requires
        base <= 0xB980_0000,
        unscaled <= 0xB980_0000,
        indexed <= 0xB970_0000,
    ensures
        w == offset_word(base, unscaled, indexed, is64, rt, rn, offset as int, mode),
{
    let scale: u32 = if is64 {
        8
    } else {
        4
    };
    match mode {
        IndexMode::SignedOffset => {
            if offset >= 0 && (offset as u32) % scale == 0 && (offset as u32) / scale <= 0xFFF {
                mem_access(base, is64, (offset as u32) / scale, 0x400, rn, rt)
            } else {
                mem_access(unscaled, is64, low_bits(offset, 0x200), 0x1000, rn, rt)
            }
        },
        IndexMode::PreAdjust | IndexMode::PostAdjust => {
            mem_access(
                indexed + mode.encoding() * 0x400,
                is64,
                low_bits(offset, 0x200),
                0x1000,
                rn,
                rt,
            )
        },
    }
}

/// The word of a branch of some kind at `pc` to `target`, or the text of the error.
pub open spec fn kind_word(kind: FixupKind, pc: u64, target: u64) -> Result<u32, Seq<char>> {
    match kind {
        FixupKind::B => if branch_reaches(pc, target) {
            Ok(b_word(pc, target))
        } else {
            Err("B label out of range"@)
        },
        FixupKind::Bl => if branch_reaches(pc, target) {
            Ok(bl_word(pc, target))
        } else {
            Err("BL label out of range"@)
        },
        FixupKind::BCond(cc) => Ok(b_cond_word(cc, pc, target)),
        FixupKind::Cbz { reg, nonzero } => Ok(cbz_word(reg.n, nonzero, reg.is64, pc, target)),
        FixupKind::Tbz { reg, bit, nonzero } => Ok(tbz_word(reg.n, bit, nonzero, pc, target)),
    }
}

fn branch_word(kind: FixupKind, pc: u64, target: u64) -> (r: Result<u32, WriterError>)
    ensures
        match kind_word(kind, pc, target) {
            Ok(w) => r == Ok::<u32, WriterError>(w),
            Err(m) => fails_with(r, m),
        },
{
    match kind {
        FixupKind::B => match try_encode_b(pc, target) {
            Some(w) => Ok(w),
            None => fail("B label out of range"),
        },
        FixupKind::Bl => match try_encode_bl(pc, target) {
            Some(w) => Ok(w),
            None => fail("BL label out of range"),
        },
        FixupKind::BCond(cc) => Ok(encode_b_cond(cc, pc, target)),
        FixupKind::Cbz { reg, nonzero } => Ok(encode_cbz(reg.n, nonzero, reg.is64, pc, target)),
        FixupKind::Tbz { reg, bit, nonzero } => Ok(encode_tbz(reg.n, bit, nonzero, pc, target)),
    }
}

/// In-memory AArch64 emitter.
pub struct Arm64Writer {
    base: u64,
    pc: u64,
    buf: Vec<u8>,
    labels: Vec<(String, usize)>,
    fixups: Vec<Fixup>,
}

/// The labels of a list of definitions, the last one of a name counting.
spec fn label_map(defs: Seq<(String, usize)>) -> Map<Seq<char>, int>
    decreases defs.len(),
{
    if defs.len() == 0 {
        Map::empty()
    } else {
        label_map(defs.drop_last()).insert(defs.last().0@, defs.last().1 as int)
    }
}

spec fn ref_list(fixups: Seq<Fixup>) -> Seq<LabelRef> {
    fixups.map_values(|f: Fixup| f.as_ref())
}

impl View for Arm64Writer {
    type V = WriterState;

    closed spec fn view(&self) -> WriterState {
        WriterState {
            base: self.base,
            pc: self.pc,
            code: self.buf@,
            labels: label_map(self.labels@),
            refs: ref_list(self.fixups@),
        }
    }
}

/// What is to be copied to memory when a writer is flushed.
#[derive(Debug)]
pub struct CodeWrite {
    pub addr: u64,
    pub bytes: Vec<u8>,
}

impl Arm64Writer {
    pub fn new(code_address: u64, pc: Option<u64>) -> (w: Self)
        ensures
            w@.wf(),
            w@ == (WriterState {
                base: code_address,
                pc: match pc {
                    Some(p) => p,
                    None => code_address,
                },
                code: Seq::empty(),
                labels: Map::empty(),
                refs: Seq::empty(),
            }),
    {
        let logical: u64 = match pc {
            Some(p) => p,
            None => code_address,
        };
        let w = Self {
            base: code_address,
            pc: logical,
            buf: Vec::new(),
            labels: Vec::new(),
            fixups: Vec::new(),
        };
        assert(w@.refs =~= Seq::<LabelRef>::empty());
        w
    }

    /// Starts over, as `new` does.
    pub fn reset(&mut self, code_address: u64, pc: Option<u64>)
        ensures
            final(self)@.wf(),
            final(self)@ == (WriterState {
                base: code_address,
                pc: match pc {
                    Some(p) => p,
                    None => code_address,
                },
                code: Seq::empty(),
                labels: Map::empty(),
                refs: Seq::empty(),
            }),
    {
        *self = Self::new(code_address, pc);
    }

    pub fn base(&self) -> (r: u64)
        ensures
            r == self@.base,
    {
        self.base
    }

    /// The address of the next byte.
    pub fn code(&self) -> (r: u64)
        ensures
            r == displaced(self@.base, self@.code.len() as int),
    {
        self.base.wrapping_add(self.buf.len() as u64)
    }

    /// The logical PC of the next byte.
    pub fn pc(&self) -> (r: u64)
        ensures
            r == self@.next_pc(),
    {
        self.pc.wrapping_add(self.buf.len() as u64)
    }

    pub fn offset(&self) -> (r: usize)
        ensures
            r == self@.code.len(),
    {
        self.buf.len()
    }

    /// Appends `n` zero bytes.
    pub fn skip(&mut self, n: usize)
        requires
            old(self)@.wf(),
            old(self)@.code.len() + n <= usize::MAX,
        ensures
            final(self)@.wf(),
            final(self)@ == old(self)@.emit(Seq::new(n as nat, |i: int| 0u8)),
    {
        let len: usize = self.buf.len() + n;
        self.buf.resize(len, 0);
        assert(self.buf@ =~= old(self).buf@ + Seq::new(n as nat, |i: int| 0u8)) by {
            assert(self.buf@.len() == len);
            assert forall|i: int| 0 <= i < old(self).buf@.len() implies self.buf@[i] == old(
                self,
            ).buf@[i] by {
                assert(self.buf@.subrange(0, old(self).buf@.len() as int)[i] == old(self).buf@[i]);
            }
        }
    }

    pub fn put_bytes(&mut self, data: &[u8])
        requires
            old(self)@.wf(),
        ensures
            final(self)@.wf(),
            final(self)@ == old(self)@.emit(data@),
    {
        push_bytes(&mut self.buf, data);
    }

    pub fn put_instruction(&mut self, insn: u32)
        requires
            old(self)@.wf(),
        ensures
            final(self)@.wf(),
            final(self)@ == old(self)@.emit_word(insn),
    {
        push_u32(&mut self.buf, insn);
    }

    /// Defines a label here; an earlier one of the same name no longer counts.
    pub fn put_label(&mut self, id: &str)
        requires
            old(self)@.wf(),
        ensures
            final(self)@.wf(),
            final(self)@ == (WriterState {
                labels: old(self)@.labels.insert(id@, old(self)@.code.len() as int),
                ..old(self)@
            }),
    {
        let at: usize = self.buf.len();
        self.labels.push((id.to_owned(), at));
        assert(self.labels@.drop_last() =~= old(self).labels@);
    }

    fn emit_pc(&self) -> (r: u64)
        ensures
            r == self@.next_pc(),
    {
        self.pc.wrapping_add(self.buf.len() as u64)
    }

    pub fn put_nop(&mut self)
        requires
            old(self)@.wf(),
        ensures
            final(self)@.wf(),
            final(self)@ == old(self)@.emit_word(0xD503_201Fu32),
    {
        self.put_instruction(0xD503_201F);
    }

    pub fn put_brk_imm(&mut self, imm: u16)
        requires
            old(self)@.wf(),
        ensures
            final(self)@.wf(),
            final(self)@ == old(self)@.emit_word((0xD420_0000 + imm * 0x20) as u32),
    {
        self.put_instruction(0xD420_0000 + imm as u32 * 0x20);
    }

    pub fn put_ret(&mut self)
        requires
            old(self)@.wf(),
        ensures
            final(self)@.wf(),
            final(self)@ == old(self)@.emit_word(0xD65F_03C0u32),
    {
        self.put_instruction(0xD65F_03C0);
    }

    pub fn put_ret_reg(&mut self, reg: Reg) -> (r: Result<(), WriterError>)
        requires
            old(self)@.wf(),
        ensures
            r is Ok,
            final(self)@.wf(),
            final(self)@ == old(self)@.emit_word((0xD65F_0000 + reg.n * 0x20) as u32),
    {
        self.put_instruction(0xD65F_0000 + reg.n as u32 * 0x20);
        Ok(())
    }

    pub fn put_br_reg(&mut self, reg: Reg) -> (r: Result<(), WriterError>)
        requires
            old(self)@.wf(),
        ensures
            r is Ok,
            final(self)@.wf(),
            final(self)@ == old(self)@.emit_word((0xD61F_0000 + reg.n * 0x20) as u32),
    {
        self.put_instruction(0xD61F_0000 + reg.n as u32 * 0x20);
        Ok(())
    }

    pub fn put_blr_reg(&mut self, reg: Reg) -> (r: Result<(), WriterError>)
        requires
            old(self)@.wf(),
        ensures
            r is Ok,
            final(self)@.wf(),
            final(self)@ == old(self)@.emit_word((0xD63F_0000 + reg.n * 0x20) as u32),
    {
        self.put_instruction(0xD63F_0000 + reg.n as u32 * 0x20);
        Ok(())
    }

    pub fn can_branch_directly_between(from: u64, to: u64) -> (r: bool)
        ensures
            r == branch_reaches(from, to),
    {
        try_encode_b(from, to).is_some()
    }

    pub fn put_b_imm(&mut self, address: u64) -> (r: Result<(), WriterError>)
        requires
            old(self)@.wf(),
        ensures
            final(self)@.wf(),
            if branch_reaches(old(self)@.next_pc(), address) {
                &&& r is Ok
                &&& final(self)@ == old(self)@.emit_word(b_word(old(self)@.next_pc(), address))
            } else {
                &&& fails_with(r, "B target out of range"@)
                &&& final(self)@ == old(self)@
            },
    {
        let pc: u64 = self.emit_pc();
        match try_encode_b(pc, address) {
            Some(word) => {
                self.put_instruction(word);
                Ok(())
            },
            None => fail("B target out of range"),
        }
    }

    pub fn put_bl_imm(&mut self, address: u64) -> (r: Result<(), WriterError>)
        requires
            old(self)@.wf(),
        ensures
            final(self)@.wf(),
            if branch_reaches(old(self)@.next_pc(), address) {
                &&& r is Ok
                &&& final(self)@ == old(self)@.emit_word(bl_word(old(self)@.next_pc(), address))
            } else {
                &&& fails_with(r, "BL target out of range"@)
                &&& final(self)@ == old(self)@
            },
    {
        let pc: u64 = self.emit_pc();
        match try_encode_bl(pc, address) {
            Some(word) => {
                self.put_instruction(word);
                Ok(())
            },
            None => fail("BL target out of range"),
        }
    }

    /// Absolute branch through X17.
    pub fn put_branch_address(&mut self, address: u64)
        requires
            old(self)@.wf(),
        ensures
            final(self)@.wf(),
            final(self)@ == old(self)@.emit(abs_branch(address)),
    {
        let stub = encode_abs_branch(address);
        self.put_bytes(stub.as_slice());
    }

    /// Emits a placeholder and remembers that it is to branch to `label`.
    fn put_ref(&mut self, word: u32, label: &str, kind: FixupKind)
        requires
            old(self)@.wf(),
        ensures
            final(self)@.wf(),
            final(self)@ == old(self)@.emit_ref(word, label@, kind),
    {
        let offset: usize = self.buf.len();
        self.put_instruction(word);
        self.fixups.push(Fixup { offset, label: label.to_owned(), kind });
        assert(self@.refs =~= old(self)@.emit_ref(word, label@, kind).refs);
    }

    pub fn put_b_label(&mut self, label: &str)
        requires
            old(self)@.wf(),
        ensures
            final(self)@.wf(),
            final(self)@ == old(self)@.emit_ref(0x1400_0000u32, label@, FixupKind::B),
    {
        self.put_ref(0x1400_0000, label, FixupKind::B);
    }

    pub fn put_bl_label(&mut self, label: &str)
        requires
            old(self)@.wf(),
        ensures
            final(self)@.wf(),
            final(self)@ == old(self)@.emit_ref(0x9400_0000u32, label@, FixupKind::Bl),
    {
        self.put_ref(0x9400_0000, label, FixupKind::Bl);
    }

    pub fn put_b_cond_label(&mut self, cc: Cond, label: &str)
        requires
            old(self)@.wf(),
        ensures
            final(self)@.wf(),
            final(self)@ == old(self)@.emit_ref(
                (0x5400_0000 + cond_number(cc)) as u32,
                label@,
                FixupKind::BCond(cc),
            ),
    {
        self.put_ref(0x5400_0000 + cc.number(), label, FixupKind::BCond(cc));
    }

    pub fn put_cbz_reg_imm(&mut self, reg: Reg, target: u64, nonzero: bool) -> (r: Result<(), WriterError>)
        requires
            old(self)@.wf(),
        ensures
            r is Ok,
            final(self)@.wf(),
            final(self)@ == old(self)@.emit_word(
                cbz_word(reg.n, nonzero, reg.is64, old(self)@.next_pc(), target),
            ),
    {
        let pc: u64 = self.emit_pc();
        self.put_instruction(encode_cbz(reg.n, nonzero, reg.is64, pc, target));
        Ok(())
    }

    pub fn put_cbz_reg_label(&mut self, reg: Reg, label: &str, nonzero: bool)
        requires
            old(self)@.wf(),
        ensures
            final(self)@.wf(),
            final(self)@ == old(self)@.emit_ref(
                0x3400_0000u32,
                label@,
                (FixupKind::Cbz { reg, nonzero }),
            ),
    {
        self.put_ref(0x3400_0000, label, FixupKind::Cbz { reg, nonzero });
    }

    pub fn put_tbz_reg_imm_imm(&mut self, reg: Reg, bit: u8, target: u64, nonzero: bool) -> (r: Result<(), WriterError>)
        requires
            old(self)@.wf(),
        ensures
            r is Ok,
            final(self)@.wf(),
            final(self)@ == old(self)@.emit_word(
                tbz_word(reg.n, bit, nonzero, old(self)@.next_pc(), target),
            ),
    {
        let pc: u64 = self.emit_pc();
        self.put_instruction(encode_tbz(reg.n, bit, nonzero, pc, target));
        Ok(())
    }

    pub fn put_tbz_reg_imm_label(&mut self, reg: Reg, bit: u8, label: &str, nonzero: bool)
        requires
            old(self)@.wf(),
        ensures
            final(self)@.wf(),
            final(self)@ == old(self)@.emit_ref(
                0x3600_0000u32,
                label@,
                (FixupKind::Tbz { reg, bit, nonzero }),
            ),
    {
        self.put_ref(0x3600_0000, label, FixupKind::Tbz { reg, bit, nonzero });
    }

    /// ORR Xd, XZR, Xm
    pub fn put_mov_reg_reg(&mut self, dst: Reg, src: Reg) -> (r: Result<(), WriterError>)
        requires
            old(self)@.wf(),
        ensures
            r is Ok,
            final(self)@.wf(),
            final(self)@ == old(self)@.emit_word(rrr_word(0x2A00_0000, dst.is64, dst.n, 31, src.n)),
    {
        self.put_instruction(three_reg(0x2A00_0000, dst.is64, dst.n, 31, src.n));
        Ok(())
    }

    pub fn put_add_reg_reg_imm(&mut self, dst: Reg, left: Reg, imm: u32) -> (r: Result<(), WriterError>)
        requires
            old(self)@.wf(),
        ensures
            r is Ok,
            final(self)@.wf(),
            final(self)@ == old(self)@.emit_word(add_imm_word(dst.n, left.n, imm, dst.is64)),
    {
        self.put_instruction(encode_add_imm(dst.n, left.n, imm, dst.is64));
        Ok(())
    }

    /// SUB is ADD with the operation bit set.
    pub fn put_sub_reg_reg_imm(&mut self, dst: Reg, left: Reg, imm: u32) -> (r: Result<(), WriterError>)
        requires
            old(self)@.wf(),
        ensures
            r is Ok,
            final(self)@.wf(),
            final(self)@ == old(self)@.emit_word(
                (add_imm_word(dst.n, left.n, imm, dst.is64) + 0x4000_0000) as u32,
            ),
    {
        proof {
            reveal(add_imm_word);
        }
        self.put_instruction(encode_add_imm(dst.n, left.n, imm, dst.is64) + 0x4000_0000);
        Ok(())
    }

    pub fn put_add_reg_reg_reg(&mut self, dst: Reg, a: Reg, b: Reg) -> (r: Result<(), WriterError>)
        requires
            old(self)@.wf(),
        ensures
            r is Ok,
            final(self)@.wf(),
            final(self)@ == old(self)@.emit_word(rrr_word(0x0B00_0000, dst.is64, dst.n, a.n, b.n)),
    {
        self.put_instruction(three_reg(0x0B00_0000, dst.is64, dst.n, a.n, b.n));
        Ok(())
    }

    pub fn put_sub_reg_reg_reg(&mut self, dst: Reg, a: Reg, b: Reg) -> (r: Result<(), WriterError>)
        requires
            old(self)@.wf(),
        ensures
            r is Ok,
            final(self)@.wf(),
            final(self)@ == old(self)@.emit_word(rrr_word(0x4B00_0000, dst.is64, dst.n, a.n, b.n)),
    {
        self.put_instruction(three_reg(0x4B00_0000, dst.is64, dst.n, a.n, b.n));
        Ok(())
    }

    /// SUBS XZR, Xa, Xb
    pub fn put_cmp_reg_reg(&mut self, a: Reg, b: Reg) -> (r: Result<(), WriterError>)
        requires
            old(self)@.wf(),
        ensures
            r is Ok,
            final(self)@.wf(),
            final(self)@ == old(self)@.emit_word(rrr_word(0x6B00_0000, a.is64, 31, a.n, b.n)),
    {
        self.put_instruction(three_reg(0x6B00_0000, a.is64, 31, a.n, b.n));
        Ok(())
    }

    /// Loads the mask into X16, then `AND Xd, Xn, X16`.
    pub fn put_and_reg_reg_imm(&mut self, dst: Reg, left: Reg, imm: u64) -> (r: Result<
        (),
        WriterError,
    >)
        requires
            old(self)@.wf(),
        ensures
            r is Ok,
            final(self)@.wf(),
            final(self)@ == old(self)@.emit(
                ldr_u64(file_reg(false, 16), imm) + le32(
                    rrr_word(0x0A00_0000, dst.is64, dst.n, left.n, 16),
                ),
            ),
    {
        self.put_ldr_reg_u64(Reg::x(16), imm)?;
        self.put_instruction(three_reg(0x0A00_0000, dst.is64, dst.n, left.n, 16));
        assert(self@.code =~= old(self)@.code + (ldr_u64(file_reg(false, 16), imm) + le32(
            rrr_word(0x0A00_0000, dst.is64, dst.n, left.n, 16),
        )));
        Ok(())
    }

    pub fn put_eor_reg_reg_reg(&mut self, dst: Reg, a: Reg, b: Reg) -> (r: Result<(), WriterError>)
        requires
            old(self)@.wf(),
        ensures
            r is Ok,
            final(self)@.wf(),
            final(self)@ == old(self)@.emit_word(rrr_word(0x4A00_0000, dst.is64, dst.n, a.n, b.n)),
    {
        self.put_instruction(three_reg(0x4A00_0000, dst.is64, dst.n, a.n, b.n));
        Ok(())
    }

    /// `LDR Xt, #8; B #12; <u64>`
    pub fn put_ldr_reg_u64(&mut self, reg: Reg, val: u64) -> (r: Result<(), WriterError>)
        requires
            old(self)@.wf(),
        ensures
            r is Ok,
            final(self)@.wf(),
            final(self)@ == old(self)@.emit(ldr_u64(reg, val)),
    {
        self.put_instruction(0x5800_0040 + (reg.n % 32) as u32);
        self.put_instruction(0x1400_0003);
        push_u64(&mut self.buf, val);
        assert(self@.code =~= old(self)@.code + ldr_u64(reg, val));
        Ok(())
    }

    pub fn put_ldr_reg_u32(&mut self, reg: Reg, val: u32) -> (r: Result<(), WriterError>)
        requires
            old(self)@.wf(),
        ensures
            r is Ok,
            final(self)@.wf(),
            final(self)@ == old(self)@.emit(ldr_u64(reg, val as u64)),
    {
        self.put_ldr_reg_u64(reg, val as u64)
    }

    pub fn put_ldr_reg_address(&mut self, reg: Reg, address: u64) -> (r: Result<(), WriterError>)
        requires
            old(self)@.wf(),
        ensures
            r is Ok,
            final(self)@.wf(),
            final(self)@ == old(self)@.emit(ldr_u64(reg, address)),
    {
        self.put_ldr_reg_u64(reg, address)
    }

    pub fn put_adrp_reg_address(&mut self, reg: Reg, address: u64) -> (r: Result<(), WriterError>)
        requires
            old(self)@.wf(),
        ensures
            r is Ok,
            final(self)@.wf(),
            final(self)@ == old(self)@.emit_word(adrp_word(reg.n, old(self)@.next_pc(), address)),
    {
        let pc: u64 = self.emit_pc();
        self.put_instruction(encode_adrp(reg.n, pc, address));
        Ok(())
    }

    /// Loads `dst` from `[src, #offset]`, scaled where the offset allows it.
    pub fn put_ldr_reg_reg_offset(&mut self, dst: Reg, src: Reg, offset: i32, mode: IndexMode) -> (r: Result<(), WriterError>)
        requires
            old(self)@.wf(),
        ensures
            r is Ok,
            final(self)@.wf(),
            final(self)@ == old(self)@.emit_word(
                offset_word(
                    0xB940_0000,
                    0xB840_0000,
                    0xB800_0000,
                    dst.is64,
                    dst.n,
                    src.n,
                    offset as int,
                    mode,
                ),
            ),
    {
        self.put_instruction(
            mem_offset(
                0xB940_0000,
                0xB840_0000,
                0xB800_0000,
                dst.is64,
                dst.n,
                src.n,
                offset,
                mode,
            ),
        );
        Ok(())
    }

    /// Stores `src` to `[dst, #offset]`, scaled where the offset allows it.
    pub fn put_str_reg_reg_offset(&mut self, src: Reg, dst: Reg, offset: i32, mode: IndexMode) -> (r: Result<(), WriterError>)
        requires
            old(self)@.wf(),
        ensures
            r is Ok,
            final(self)@.wf(),
            final(self)@ == old(self)@.emit_word(
                offset_word(
                    0xB900_0000,
                    0xB800_0000,
                    0xB800_0000,
                    src.is64,
                    src.n,
                    dst.n,
                    offset as int,
                    mode,
                ),
            ),
    {
        self.put_instruction(
            mem_offset(
                0xB900_0000,
                0xB800_0000,
                0xB800_0000,
                src.is64,
                src.n,
                dst.n,
                offset,
                mode,
            ),
        );
        Ok(())
    }

    pub fn put_ldr_reg_reg(&mut self, dst: Reg, src: Reg) -> (r: Result<(), WriterError>)
        requires
            old(self)@.wf(),
        ensures
            r is Ok,
            final(self)@.wf(),
            final(self)@ == old(self)@.emit_word(mem_word(0xB940_0000, dst.is64, 0, 0x400, src.n, dst.n)),
    {
        self.put_ldr_reg_reg_offset(dst, src, 0, IndexMode::SignedOffset)?;
        Ok(())
    }

    pub fn put_str_reg_reg(&mut self, src: Reg, dst: Reg) -> (r: Result<(), WriterError>)
        requires
            old(self)@.wf(),
        ensures
            r is Ok,
            final(self)@.wf(),
            final(self)@ == old(self)@.emit_word(mem_word(0xB900_0000, src.is64, 0, 0x400, dst.n, src.n)),
    {
        self.put_str_reg_reg_offset(src, dst, 0, IndexMode::SignedOffset)?;
        Ok(())
    }

    /// STP Ra, Rb, [Rn, #imm]! / [Rn, #imm] / [Rn], #imm
    pub fn put_stp_reg_reg_reg_offset(
        &mut self,
        a: Reg,
        b: Reg,
        dst: Reg,
        offset: i32,
        mode: IndexMode,
    ) -> (r: Result<(), WriterError>)
        requires
            old(self)@.wf(),
        ensures
            final(self)@.wf(),
            if a.is_vec != b.is_vec || a.is64 != b.is64 {
                fails_with(r, "STP register width mismatch"@) && final(self)@ == old(self)@
            } else if offset as int % a.width() != 0 {
                fails_with(r, "pair offset not aligned"@) && final(self)@ == old(self)@
            } else if !pair_offset_ok(a, offset as int) {
                fails_with(r, "pair offset out of range"@) && final(self)@ == old(self)@
            } else {
                &&& r is Ok
                &&& final(self)@ == old(self)@.emit_word(
                    pair_word(false, a, b, dst, offset as int, mode),
                )
            },
    {
        if a.is_vec != b.is_vec || a.is64 != b.is64 {
            return fail("STP register width mismatch");
        }
        self.put_load_store_pair(false, a, b, dst, offset, mode)
    }

    /// LDP Ra, Rb, [Rn, #imm]! / [Rn, #imm] / [Rn], #imm
    pub fn put_ldp_reg_reg_reg_offset(
        &mut self,
        a: Reg,
        b: Reg,
        src: Reg,
        offset: i32,
        mode: IndexMode,
    ) -> (r: Result<(), WriterError>)
        requires
            old(self)@.wf(),
        ensures
            final(self)@.wf(),
            if a.is_vec != b.is_vec || a.is64 != b.is64 {
                fails_with(r, "LDP register width mismatch"@) && final(self)@ == old(self)@
            } else if offset as int % a.width() != 0 {
                fails_with(r, "pair offset not aligned"@) && final(self)@ == old(self)@
            } else if !pair_offset_ok(a, offset as int) {
                fails_with(r, "pair offset out of range"@) && final(self)@ == old(self)@
            } else {
                &&& r is Ok
                &&& final(self)@ == old(self)@.emit_word(
                    pair_word(true, a, b, src, offset as int, mode),
                )
            },
    {
        if a.is_vec != b.is_vec || a.is64 != b.is64 {
            return fail("LDP register width mismatch");
        }
        self.put_load_store_pair(true, a, b, src, offset, mode)
    }

    fn put_load_store_pair(
        &mut self,
        is_load: bool,
        a: Reg,
        b: Reg,
        base: Reg,
        offset: i32,
        mode: IndexMode,
    ) -> (r: Result<(), WriterError>)
        requires
            old(self)@.wf(),
        ensures
            final(self)@.wf(),
            if offset as int % a.width() != 0 {
                fails_with(r, "pair offset not aligned"@) && final(self)@ == old(self)@
            } else if !pair_offset_ok(a, offset as int) {
                fails_with(r, "pair offset out of range"@) && final(self)@ == old(self)@
            } else {
                &&& r is Ok
                &&& final(self)@ == old(self)@.emit_word(
                    pair_word(is_load, a, b, base, offset as int, mode),
                )
            },
    {
        let scale: u32 = a.width_bytes() as u32;
        if low_bits(offset, scale) != 0 {
            return fail("pair offset not aligned");
        }
        let limit: i32 = 64 * scale as i32;
        if offset < -limit || offset >= limit {
            return fail("pair offset out of range");
        }
        let imm7: u32 = pair_imm(offset, scale);
        let opc: u32 = if a.is_vec || a.is64 {
            0x8000_0000
        } else {
            0
        };
        let vector: u32 = if a.is_vec {
            0x400_0000
        } else {
            0
        };
        let op: u32 = if is_load {
            0x40_0000
        } else {
            0
        };
        let head: u32 = opc + 0x2800_0000 + vector + mode.encoding() * 0x80_0000 + op;
        self.put_instruction(
            head + imm7 * 0x8000 + (b.n % 32) as u32 * 0x400 + (base.n % 32) as u32 * 0x20 + (a.n
                % 32) as u32,
        );
        Ok(())
    }

    pub fn put_push_reg_reg(&mut self, a: Reg, b: Reg) -> (r: Result<(), WriterError>)
        requires
            old(self)@.wf(),
        ensures
            final(self)@.wf(),
            if a.is_vec != b.is_vec || a.is64 != b.is64 {
                fails_with(r, "STP register width mismatch"@) && final(self)@ == old(self)@
            } else {
                r is Ok && final(self)@ == old(self)@.emit_word(push_word(a, b))
            },
    {
        let bytes: i32 = a.width_bytes() as i32;
        assert((2 * a.width()) % a.width() == 0 && (-2 * a.width()) % a.width() == 0) by {
            if a.is_vec {
            } else if a.is64 {
            } else {
            }
        }
        self.put_stp_reg_reg_reg_offset(a, b, Reg::x(31), -(2 * bytes), IndexMode::PreAdjust)
    }

    pub fn put_pop_reg_reg(&mut self, a: Reg, b: Reg) -> (r: Result<(), WriterError>)
        requires
            old(self)@.wf(),
        ensures
            final(self)@.wf(),
            if a.is_vec != b.is_vec || a.is64 != b.is64 {
                fails_with(r, "LDP register width mismatch"@) && final(self)@ == old(self)@
            } else {
                r is Ok && final(self)@ == old(self)@.emit_word(pop_word(a, b))
            },
    {
        let bytes: i32 = a.width_bytes() as i32;
        assert((2 * a.width()) % a.width() == 0 && (-2 * a.width()) % a.width() == 0) by {
            if a.is_vec {
            } else if a.is64 {
            } else {
            }
        }
        self.put_ldp_reg_reg_reg_offset(a, b, Reg::x(31), 2 * bytes, IndexMode::PostAdjust)
    }

    /// Pushes the pairs `0..2k`.
    fn push_pairs(&mut self, q: bool, k: u8) -> (r: Result<(), WriterError>)
        requires
            old(self)@.wf(),
            k <= 16,
        ensures
            r is Ok,
            final(self)@.wf(),
            final(self)@ == old(self)@.emit(pushes(q, k as nat)),
    {
        let mut i: u8 = 0;
        assert(self@.code =~= old(self)@.code + pushes(q, 0));
        while i < k
            invariant
                i <= k <= 16,
                self@.wf(),
                self@ == old(self)@.emit(pushes(q, i as nat)),
            decreases k - i,
        {
            let a = Reg { n: 2 * i, is64: true, is_vec: q };
            let b = Reg { n: 2 * i + 1, is64: true, is_vec: q };
            self.put_push_reg_reg(a, b)?;
            i = i + 1;
            assert(self@.code =~= old(self)@.code + pushes(q, i as nat));
        }
        Ok(())
    }

    /// Pops the pairs `0..2k`, the highest first.
    fn pop_pairs(&mut self, q: bool, k: u8) -> (r: Result<(), WriterError>)
        requires
            old(self)@.wf(),
            k <= 16,
        ensures
            r is Ok,
            final(self)@.wf(),
            final(self)@ == old(self)@.emit(pops(q, k as nat)),
    {
        let mut i: u8 = k;
        assert(self@.code + pops(q, k as nat) =~= old(self)@.code + pops(q, k as nat));
        while i > 0
            invariant
                i <= k <= 16,
                self@.wf(),
                self@.emit(pops(q, i as nat)) == old(self)@.emit(pops(q, k as nat)),
            decreases i,
        {
            let a = Reg { n: 2 * (i - 1), is64: true, is_vec: q };
            let b = Reg { n: 2 * (i - 1) + 1, is64: true, is_vec: q };
            let ghost before = self@;
            self.put_pop_reg_reg(a, b)?;
            assert(before.code + pops(q, i as nat) =~= self@.code + pops(q, (i - 1) as nat));
            i = i - 1;
        }
        assert(self@.code + pops(q, 0) =~= self@.code);
        Ok(())
    }

    pub fn put_push_all_x_registers(&mut self) -> (r: Result<(), WriterError>)
        requires
            old(self)@.wf(),
        ensures
            r is Ok,
            final(self)@.wf(),
            final(self)@ == old(self)@.emit(push_all_x()),
    {
        self.push_pairs(false, 15)?;
        self.put_mov_reg_nzcv(Reg::x(15))?;
        self.put_push_reg_reg(Reg::x(30), Reg::x(15))?;
        assert(self@.code =~= old(self)@.code + push_all_x());
        Ok(())
    }

    pub fn put_pop_all_x_registers(&mut self) -> (r: Result<(), WriterError>)
        requires
            old(self)@.wf(),
        ensures
            r is Ok,
            final(self)@.wf(),
            final(self)@ == old(self)@.emit(pop_all_x()),
    {
        self.put_pop_reg_reg(Reg::x(30), Reg::x(15))?;
        self.put_mov_nzcv_reg(Reg::x(15))?;
        self.pop_pairs(false, 15)?;
        assert(self@.code =~= old(self)@.code + pop_all_x());
        Ok(())
    }

    pub fn put_push_all_q_registers(&mut self) -> (r: Result<(), WriterError>)
        requires
            old(self)@.wf(),
        ensures
            r is Ok,
            final(self)@.wf(),
            final(self)@ == old(self)@.emit(pushes(true, 16)),
    {
        self.push_pairs(true, 16)
    }

    pub fn put_pop_all_q_registers(&mut self) -> (r: Result<(), WriterError>)
        requires
            old(self)@.wf(),
        ensures
            r is Ok,
            final(self)@.wf(),
            final(self)@ == old(self)@.emit(pops(true, 16)),
    {
        self.pop_pairs(true, 16)
    }

    /// MRS Xt, NZCV
    pub fn put_mov_reg_nzcv(&mut self, reg: Reg) -> (r: Result<(), WriterError>)
        requires
            old(self)@.wf(),
        ensures
            r is Ok,
            final(self)@.wf(),
            final(self)@ == old(self)@.emit_word(mrs_nzcv_word(reg)),
    {
        self.put_instruction(0xD53B_4200 + (reg.n % 32) as u32);
        Ok(())
    }

    /// MSR NZCV, Xt
    pub fn put_mov_nzcv_reg(&mut self, reg: Reg) -> (r: Result<(), WriterError>)
        requires
            old(self)@.wf(),
        ensures
            r is Ok,
            final(self)@.wf(),
            final(self)@ == old(self)@.emit_word(msr_nzcv_word(reg)),
    {
        self.put_instruction(0xD51B_4200 + (reg.n % 32) as u32);
        Ok(())
    }

    pub fn put_movk_reg_imm(&mut self, reg: Reg, imm: u16, shift: u8) -> (r: Result<(), WriterError>)
        requires
            old(self)@.wf(),
        ensures
            r is Ok,
            final(self)@.wf(),
            final(self)@ == old(self)@.emit_word(movk_word(reg, imm, shift)),
    {
        let hw: u32 = (shift / 16) as u32;
        let part: u32 = if hw % 8 >= 4 {
            hw - 4
        } else {
            hw
        };
        let sf: u32 = if reg.is64 {
            0x8000_0000
        } else {
            0
        };
        self.put_instruction(
            sf + 0x7280_0000 + part * 0x20_0000 + imm as u32 * 0x20 + (reg.n % 32) as u32,
        );
        Ok(())
    }

    pub fn put_ubfm(&mut self, dst: Reg, src: Reg, immr: u8, imms: u8) -> (r: Result<
        (),
        WriterError,
    >)
        requires
            old(self)@.wf(),
        ensures
            final(self)@.wf(),
            if dst.is64 != src.is64 {
                fails_with(r, "UBFM width mismatch"@) && final(self)@ == old(self)@
            } else {
                r is Ok && final(self)@ == old(self)@.emit_word(ubfm_word(dst, src, immr, imms))
            },
    {
        if dst.is64 != src.is64 {
            return fail("UBFM width mismatch");
        }
        let base: u32 = if dst.is64 {
            0xD340_0000
        } else {
            0x5300_0000
        };
        self.put_instruction(
            base | ((immr as u32) << 16) | ((imms as u32) << 10) | (((src.n % 32) as u32) << 5) | (
            dst.n % 32) as u32,
        );
        Ok(())
    }

    /// `LSL` is `UBFM #(size - shift) mod size, #(size - 1 - shift)`.
    pub fn put_lsl_reg_imm(&mut self, dst: Reg, src: Reg, shift: u8) -> (r: Result<
        (),
        WriterError,
    >)
        requires
            old(self)@.wf(),
        ensures
            final(self)@.wf(),
            ({
                let size: int = if dst.is64 {
                    64
                } else {
                    32
                };
                if shift >= size {
                    fails_with(r, "LSL shift out of range"@) && final(self)@ == old(self)@
                } else if dst.is64 != src.is64 {
                    fails_with(r, "UBFM width mismatch"@) && final(self)@ == old(self)@
                } else {
                    r is Ok && final(self)@ == old(self)@.emit_word(
                        ubfm_word(
                            dst,
                            src,
                            ((size - shift) % size) as u8,
                            (size - 1 - shift) as u8,
                        ),
                    )
                }
            }),
    {
        let size: u8 = if dst.is64 {
            64
        } else {
            32
        };
        if shift >= size {
            return fail("LSL shift out of range");
        }
        let immr: u8 = (size - shift) % size;
        let imms: u8 = size - 1 - shift;
        self.put_ubfm(dst, src, immr, imms)
    }

    /// `LSR` is `UBFM #shift, #(size - 1)`.
    pub fn put_lsr_reg_imm(&mut self, dst: Reg, src: Reg, shift: u8) -> (r: Result<
        (),
        WriterError,
    >)
        requires
            old(self)@.wf(),
        ensures
            final(self)@.wf(),
            ({
                let size: int = if dst.is64 {
                    64
                } else {
                    32
                };
                if shift >= size {
                    fails_with(r, "LSR shift out of range"@) && final(self)@ == old(self)@
                } else if dst.is64 != src.is64 {
                    fails_with(r, "UBFM width mismatch"@) && final(self)@ == old(self)@
                } else {
                    r is Ok && final(self)@ == old(self)@.emit_word(
                        ubfm_word(dst, src, shift, (size - 1) as u8),
                    )
                }
            }),
    {
        let size: u8 = if dst.is64 {
            64
        } else {
            32
        };
        if shift >= size {
            return fail("LSR shift out of range");
        }
        self.put_ubfm(dst, src, shift, size - 1)
    }

    /// `UXTW Xd, Wn` is `UBFM Xd, Xn, #0, #31`.
    pub fn put_uxtw_reg_reg(&mut self, dst: Reg, src: Reg) -> (r: Result<(), WriterError>)
        requires
            old(self)@.wf(),
        ensures
            final(self)@.wf(),
            if !dst.is64 {
                fails_with(r, "UXTW dst must be X reg"@) && final(self)@ == old(self)@
            } else {
                r is Ok && final(self)@ == old(self)@.emit_word(uxtw_word(dst, src))
            },
    {
        if !dst.is64 {
            return fail("UXTW dst must be X reg");
        }
        self.put_instruction(0xD340_7C00 + (src.n % 32) as u32 * 0x20 + (dst.n % 32) as u32);
        Ok(())
    }

    pub fn put_ldrsw_reg_reg_offset(&mut self, dst: Reg, src: Reg, offset: u32) -> (r: Result<
        (),
        WriterError,
    >)
        requires
            old(self)@.wf(),
        ensures
            final(self)@.wf(),
            if !dst.is64 || !src.is64 {
                fails_with(r, "LDRSW needs X regs"@) && final(self)@ == old(self)@
            } else if offset % 4 != 0 || offset / 4 > 0xFFF {
                fails_with(r, "LDRSW offset out of range"@) && final(self)@ == old(self)@
            } else {
                r is Ok && final(self)@ == old(self)@.emit_word(
                    mem_word(0xB980_0000, false, (offset / 4) as int, 0x400, src.n, dst.n),
                )
            },
    {
        if !dst.is64 || !src.is64 {
            return fail("LDRSW needs X regs");
        }
        if offset % 4 != 0 || (offset / 4) > 0xFFF {
            return fail("LDRSW offset out of range");
        }
        self.put_instruction(mem_access(0xB980_0000, false, offset / 4, 0x400, src.n, dst.n));
        Ok(())
    }

    /// LDR (literal) of `src_address`, or of this very place where none is given.
    pub fn put_ldr_reg_pcrel(&mut self, reg: Reg, src_address: Option<u64>) -> (r: Result<
        (),
        WriterError,
    >)
        requires
            old(self)@.wf(),
        ensures
            final(self)@.wf(),
            pcrel_outcome(old(self)@, final(self)@, reg, src_address, r),
    {
        let pc: u64 = self.emit_pc();
        let addr: u64 = match src_address {
            Some(a) => a,
            None => pc,
        };
        proof {
            lemma_delta(pc, addr);
            assert(delta(pc, addr) % 4 == (addr.wrapping_sub(pc)) as int % 4);
            assert(src_address is None ==> delta(pc, addr) == 0) by {
                reveal(delta);
            }
            assert(src_address is None ==> ldr_lit_word(reg.n, reg.is64, pc, addr)
                == ldr_here_word(reg)) by {
                reveal(ldr_lit_word);
                reveal(crate::encode::word_imm);
            }
        }
        if addr.wrapping_sub(pc) % 4 != 0 {
            return fail("LDR pcrel not aligned");
        }
        match try_encode_ldr_lit(reg.n, reg.is64, pc, addr) {
            None => fail("LDR pcrel out of range"),
            Some(word) => {
                self.put_instruction(word);
                Ok(())
            },
        }
    }

    pub fn put_ldr_reg_u32_ptr(&mut self, reg: Reg, src_address: u64) -> (r: Result<
        (),
        WriterError,
    >)
        requires
            old(self)@.wf(),
        ensures
            final(self)@.wf(),
            if reg.is64 {
                fails_with(r, "putLdrRegU32Ptr needs W reg"@) && final(self)@ == old(self)@
            } else {
                pcrel_outcome(old(self)@, final(self)@, reg, Some(src_address), r)
            },
    {
        if reg.is64 {
            return fail("putLdrRegU32Ptr needs W reg");
        }
        self.put_ldr_reg_pcrel(reg, Some(src_address))
    }

    pub fn put_ldr_reg_u64_ptr(&mut self, reg: Reg, src_address: u64) -> (r: Result<
        (),
        WriterError,
    >)
        requires
            old(self)@.wf(),
        ensures
            final(self)@.wf(),
            if !reg.is64 {
                fails_with(r, "putLdrRegU64Ptr needs X reg"@) && final(self)@ == old(self)@
            } else {
                pcrel_outcome(old(self)@, final(self)@, reg, Some(src_address), r)
            },
    {
        if !reg.is64 {
            return fail("putLdrRegU64Ptr needs X reg");
        }
        self.put_ldr_reg_pcrel(reg, Some(src_address))
    }

    /// Emits a literal load that is to be given its literal later; returns its byte offset,
    /// modulo 2^32.
    pub fn put_ldr_reg_ref(&mut self, reg: Reg) -> (r: Result<u32, WriterError>)
        requires
            old(self)@.wf(),
        ensures
            final(self)@.wf(),
            r == Ok::<u32, WriterError>((old(self)@.code.len() % 0x1_0000_0000) as u32),
            final(self)@ == old(self)@.emit_word(ldr_here_word(reg)),
    {
        let at: u32 = (self.buf.len() as u64 % 0x1_0000_0000) as u32;
        self.put_ldr_reg_pcrel(reg, None)?;
        Ok(at)
    }

    /// Points a literal load at this place, and appends the eight bytes of the literal.
    pub fn put_ldr_reg_value(&mut self, ref_off: u32, value: u64) -> (r: Result<(), WriterError>)
        requires
            old(self)@.wf(),
        ensures
            final(self)@.wf(),
            ({
                let len = old(self)@.code.len();
                let distance = (len - ref_off) % 0x1_0000_0000;
                if ref_off + 4 > len {
                    fails_with(r, "bad LDR ref"@) && final(self)@ == old(self)@
                } else if distance % 4 != 0 {
                    fails_with(r, "LDR ref misaligned"@) && final(self)@ == old(self)@
                } else {
                    &&& r is Ok
                    &&& final(self)@ == (WriterState {
                        code: put_word(
                            old(self)@.code,
                            ref_off as int,
                            with_imm19(
                                word_at(old(self)@.code, ref_off as int),
                                (distance / 4) % 0x8_0000,
                            ),
                        ) + le64(value),
                        ..old(self)@
                    })
                }
            }),
    {
        let len: usize = self.buf.len();
        if len < 4 || (ref_off as u64) > (len - 4) as u64 {
            return fail("bad LDR ref");
        }
        let at: usize = ref_off as usize;
        let distance: u32 = ((len - at) as u64 % 0x1_0000_0000) as u32;
        if distance % 4 != 0 {
            return fail("LDR ref misaligned");
        }
        let imm19: u32 = (distance / 4) % 0x8_0000;
        let word: u32 = get_u32(self.buf.as_slice(), at);
        let patched: u32 = (word / 0x100_0000) * 0x100_0000 + imm19 * 0x20 + word % 0x20;
        set_u32(&mut self.buf, at, patched);
        push_u64(&mut self.buf, value);
        Ok(())
    }

    /// `ANDS XZR, Xn, #imm`, or through X16 where the value is no bitmask immediate.
    pub fn put_tst_reg_imm(&mut self, reg: Reg, imm: u64) -> (r: Result<(), WriterError>)
        requires
            old(self)@.wf(),
        ensures
            r is Ok,
            final(self)@.wf(),
            exists|enc: Option<u32>| #[trigger]
                encodes(imm, reg_bits(reg), enc) && final(self)@ == old(self)@.emit(
                    tst_bytes(reg, imm, enc),
                ),
    {
        let width: u32 = if reg.is64 {
            64
        } else {
            32
        };
        let sf: u32 = if reg.is64 {
            0x8000_0000
        } else {
            0
        };
        let enc = try_encode_logical_imm(imm, width);
        match enc {
            Some(e) => {
                self.put_instruction(sf + 0x7200_001F + e * 0x400 + (reg.n % 32) as u32 * 0x20);
            },
            None => {
                self.put_ldr_reg_u64(Reg::x(16), imm)?;
                self.put_instruction(three_reg(0x6A00_0000, reg.is64, 31, reg.n, 16));
                assert(self@.code =~= old(self)@.code + tst_bytes(reg, imm, None));
            },
        }
        assert(encodes(imm, reg_bits(reg), enc));
        Ok(())
    }

    pub fn put_xpaci_reg(&mut self, reg: Reg) -> (r: Result<(), WriterError>)
        requires
            old(self)@.wf(),
        ensures
            final(self)@.wf(),
            if !reg.is64 {
                fails_with(r, "XPACI needs X reg"@) && final(self)@ == old(self)@
            } else {
                r is Ok && final(self)@ == old(self)@.emit_word((0xDAC1_43E0 + reg.n % 32) as u32)
            },
    {
        if !reg.is64 {
            return fail("XPACI needs X reg");
        }
        self.put_instruction(0xDAC1_43E0 + (reg.n % 32) as u32);
        Ok(())
    }

    pub fn put_pacia_reg_reg(&mut self, dst: Reg, mod_reg: Reg) -> (r: Result<(), WriterError>)
        requires
            old(self)@.wf(),
        ensures
            final(self)@.wf(),
            if !dst.is64 || !mod_reg.is64 {
                fails_with(r, "PACIA needs X regs"@) && final(self)@ == old(self)@
            } else {
                r is Ok && final(self)@ == old(self)@.emit_word(
                    (0xDAC1_0000 + dst.n % 32 + (mod_reg.n % 32) * 0x20) as u32,
                )
            },
    {
        if !dst.is64 || !mod_reg.is64 {
            return fail("PACIA needs X regs");
        }
        self.put_instruction(0xDAC1_0000 + (dst.n % 32) as u32 + (mod_reg.n % 32) as u32 * 0x20);
        Ok(())
    }

    /// `MRS Xt, <system register>`: the register number has 15 bits.
    pub fn put_mrs(&mut self, dst: Reg, system_reg: u16) -> (r: Result<(), WriterError>)
        requires
            old(self)@.wf(),
        ensures
            final(self)@.wf(),
            if !dst.is64 || system_reg >= 0x8000 {
                fails_with(r, "bad MRS args"@) && final(self)@ == old(self)@
            } else {
                r is Ok && final(self)@ == old(self)@.emit_word(
                    (0xD530_0000 + system_reg * 0x20 + dst.n % 32) as u32,
                )
            },
    {
        if !dst.is64 || system_reg >= 0x8000 {
            return fail("bad MRS args");
        }
        self.put_instruction(0xD530_0000 + system_reg as u32 * 0x20 + (dst.n % 32) as u32);
        Ok(())
    }

    /// No pointer authentication: the value itself.
    pub fn sign(&self, value: u64) -> (r: u64)
        ensures
            r == value,
    {
        value
    }

    /// Sets up the arguments and calls `func`, directly where the branch reaches it and
    /// through the register after the last argument where it does not.
    pub fn put_call_address_with_arguments(&mut self, func: u64, args: &[CallArg]) -> (r: Result<
        (),
        WriterError,
    >)
        requires
            old(self)@.wf(),
        ensures
            r is Ok,
            final(self)@.wf(),
            final(self)@ == ({
                let set = old(self)@.emit(args_setup(args@, 0));
                if branch_reaches(set.next_pc(), func) {
                    set.emit_word(bl_word(set.next_pc(), func))
                } else {
                    let reg = file_reg(false, (args@.len() % 256) as int);
                    set.emit(ldr_u64(reg, func) + le32((0xD63F_0000 + reg.n * 0x20) as u32))
                }
            }),
    {
        self.put_argument_list_setup(args)?;
        let pc: u64 = self.emit_pc();
        if Self::can_branch_directly_between(pc, func) {
            self.put_bl_imm(func)?;
        } else {
            let target = Reg::x((args.len() % 256) as u8);
            let ghost set = self@;
            self.put_ldr_reg_address(target, func)?;
            self.put_blr_reg(target)?;
            assert(self@.code =~= set.code + (ldr_u64(target, func) + le32(
                (0xD63F_0000 + target.n * 0x20) as u32,
            )));
        }
        Ok(())
    }

    /// Sets up the arguments and calls through `reg`.
    pub fn put_call_reg_with_arguments(&mut self, reg: Reg, args: &[CallArg]) -> (r: Result<
        (),
        WriterError,
    >)
        requires
            old(self)@.wf(),
        ensures
            r is Ok,
            final(self)@.wf(),
            final(self)@ == old(self)@.emit(
                args_setup(args@, 0) + le32((0xD63F_0000 + reg.n * 0x20) as u32),
            ),
    {
        self.put_argument_list_setup(args)?;
        self.put_blr_reg(reg)?;
        assert(self@.code =~= old(self)@.code + (args_setup(args@, 0) + le32(
            (0xD63F_0000 + reg.n * 0x20) as u32,
        )));
        Ok(())
    }

    fn put_argument_list_setup(&mut self, args: &[CallArg]) -> (r: Result<(), WriterError>)
        requires
            old(self)@.wf(),
        ensures
            r is Ok,
            final(self)@.wf(),
            final(self)@ == old(self)@.emit(args_setup(args@, 0)),
    {
        let mut i: usize = args.len();
        assert(self@.code =~= old(self)@.code + args_setup(args@, args@.len() as int));
        while i > 0
            invariant
                i <= args@.len(),
                self@.wf(),
                self@ == old(self)@.emit(args_setup(args@, i as int)),
            decreases i,
        {
            i = i - 1;
            let dst = Reg::x((i % 256) as u8);
            match args[i] {
                CallArg::Address(addr) => {
                    self.put_ldr_reg_address(dst, addr)?;
                },
                CallArg::Register(src) => {
                    if src.is64 {
                        if src.n != dst.n {
                            self.put_mov_reg_reg(dst, src)?;
                        }
                    } else {
                        self.put_uxtw_reg_reg(dst, src)?;
                    }
                },
            }
            assert(self@.code =~= old(self)@.code + args_setup(args@, i as int));
        }
        Ok(())
    }

    /// What `flush_to_memory` gives.
    pub fn flush(&mut self) -> (r: Result<Option<CodeWrite>, WriterError>)
        requires
            old(self)@.wf(),
        ensures
            final(self)@.wf(),
            flush_outcome(old(self)@, final(self)@, r),
    {
        self.flush_to_memory()
    }

    /// Resolves the labels and gives the bytes that belong at the code address. There is
    /// nothing to write where that address is 0. The bytes stay in the writer.
    pub fn flush_to_memory(&mut self) -> (r: Result<Option<CodeWrite>, WriterError>)
        requires
            old(self)@.wf(),
        ensures
            final(self)@.wf(),
            flush_outcome(old(self)@, final(self)@, r),
    {
        self.resolve_fixups()?;
        if self.base == 0 {
            return Ok(None);
        }
        let bytes = copy_range(self.buf.as_slice(), 0, self.buf.len());
        assert(bytes@ =~= self.buf@);
        Ok(Some(CodeWrite { addr: self.base, bytes }))
    }

    /// Resolves the labels and takes the bytes out of the writer.
    pub fn take_bytes(&mut self) -> (r: Result<Vec<u8>, WriterError>)
        requires
            old(self)@.wf(),
        ensures
            final(self)@.wf(),
            match resolve_error(old(self)@) {
                None => {
                    &&& r matches Ok(b) && b@ == resolved_code(old(self)@)
                    &&& final(self)@ == (WriterState {
                        code: Seq::empty(),
                        refs: Seq::empty(),
                        ..old(self)@
                    })
                },
                Some(m) => {
                    &&& fails_with(r, m)
                    &&& final(self)@ == (WriterState {
                        code: resolved_code(old(self)@),
                        refs: Seq::empty(),
                        ..old(self)@
                    })
                },
            },
    {
        self.resolve_fixups()?;
        let mut out: Vec<u8> = Vec::new();
        std::mem::swap(&mut out, &mut self.buf);
        Ok(out)
    }

    /// The offset that a label was last defined at.
    fn label_offset(&self, name: &String) -> (r: Option<usize>)
        ensures
            match r {
                Some(at) => self@.labels.contains_key(name@) && self@.labels[name@] == at,
                None => !self@.labels.contains_key(name@),
            },
    {
        let mut i: usize = self.labels.len();
        assert(self.labels@.take(i as int) =~= self.labels@);
        while i > 0
            invariant
                i <= self.labels@.len(),
                self@.labels.contains_key(name@) == label_map(
                    self.labels@.take(i as int),
                ).contains_key(name@),
                self@.labels.contains_key(name@) ==> self@.labels[name@] == label_map(
                    self.labels@.take(i as int),
                )[name@],
            decreases i,
        {
            assert(self.labels@.take(i as int).drop_last() =~= self.labels@.take(i - 1));
            i = i - 1;
            let (ref_name, at) = &self.labels[i];
            if *ref_name == *name {
                return Some(*at);
            }
        }
        None
    }

    /// Fills in one waiting branch.
    fn resolve_one(&mut self, f: &Fixup) -> (r: Result<(), WriterError>)
        requires
            old(self)@.wf(),
            f.offset + 4 <= old(self)@.code.len(),
        ensures
            final(self)@.wf(),
            match ref_word(f.as_ref(), old(self)@.labels, old(self)@.pc) {
                Ok(w) => r is Ok && final(self)@ == (WriterState {
                    code: put_word(old(self)@.code, f.offset as int, w),
                    ..old(self)@
                }),
                Err(m) => fails_with(r, m) && final(self)@ == old(self)@,
            },
    {
        let lab: usize = match self.label_offset(&f.label) {
            Some(at) => at,
            None => {
                let name = chars_of(f.label.as_str());
                return fail_at("undefined label: ", &name);
            },
        };
        let pc: u64 = self.pc.wrapping_add(f.offset as u64);
        let target: u64 = self.pc.wrapping_add(lab as u64);
        let word: u32 = match branch_word(f.kind, pc, target) {
            Ok(w) => w,
            Err(e) => {
                return Err(e);
            },
        };
        set_u32(&mut self.buf, f.offset, word);
        Ok(())
    }

    fn resolve_fixups(&mut self) -> (r: Result<(), WriterError>)
        requires
            old(self)@.wf(),
        ensures
            final(self)@.wf(),
            final(self)@ == (WriterState {
                code: resolved_code(old(self)@),
                refs: Seq::empty(),
                ..old(self)@
            }),
            resolved_code(old(self)@).len() == old(self)@.code.len(),
            match resolve_error(old(self)@) {
                None => r is Ok,
                Some(m) => fails_with(r, m),
            },
    {
        let mut fixups: Vec<Fixup> = Vec::new();
        std::mem::swap(&mut fixups, &mut self.fixups);
        let ghost refs = old(self)@.refs;
        assert(self@.refs =~= Seq::<LabelRef>::empty());
        assert(ref_list(fixups@) =~= refs);
        assert(refs.skip(0) =~= refs);
        let mut i: usize = 0;
        while i < fixups.len()
            invariant
                i <= fixups@.len(),
                refs == old(self)@.refs,
                ref_list(fixups@) == refs,
                old(self)@.wf(),
                self@ == (WriterState {
                    code: self@.code,
                    refs: Seq::<LabelRef>::empty(),
                    ..old(self)@
                }),
                self@.code.len() == old(self)@.code.len(),
                resolved(old(self)@.code, refs, old(self)@.labels, old(self)@.pc) == resolved(
                    self@.code,
                    refs.skip(i as int),
                    old(self)@.labels,
                    old(self)@.pc,
                ),
            decreases fixups@.len() - i,
        {
            let f = &fixups[i];
            assert(f.as_ref() == ref_list(fixups@)[i as int]);
            assert(refs[i as int].offset + 4 <= self@.code.len());
            assert(refs.skip(i as int)[0] == f.as_ref());
            assert(refs.skip(i as int).skip(1) =~= refs.skip(i + 1));
            match self.resolve_one(f) {
                Ok(_) => {},
                Err(e) => {
                    return Err(e);
                },
            }
            i = i + 1;
        }
        Ok(())
    }

    /// Appends relocated instruction bytes.
    pub fn put_raw(&mut self, bytes: &[u8])
        requires
            old(self)@.wf(),
        ensures
            final(self)@.wf(),
            final(self)@ == old(self)@.emit(bytes@),
    {
        self.put_bytes(bytes);
    }

    pub fn put_adr_reg_address(&mut self, reg: Reg, address: u64) -> (r: Result<(), WriterError>)
        requires
            old(self)@.wf(),
        ensures
            final(self)@.wf(),
            if -0x10_0000 <= delta(old(self)@.next_pc(), address) < 0x10_0000 {
                &&& r is Ok
                &&& final(self)@ == old(self)@.emit_word(
                    adr_word(reg.n, old(self)@.next_pc(), address),
                )
            } else {
                fails_with(r, "ADR out of range"@) && final(self)@ == old(self)@
            },
    {
        let pc: u64 = self.emit_pc();
        match encode_adr(reg.n, pc, address) {
            Some(word) => {
                self.put_instruction(word);
                Ok(())
            },
            None => fail("ADR out of range"),
        }
    }
}

} // verus!
