//! Classification of AArch64 instruction words by their dependence on the program counter.
use vstd::prelude::*;

verus! {

/// ARM64 condition codes (B.cond), in the order of their encodings.
#[derive(Debug, Clone, Copy, PartialEq, Eq, Structural)]
pub enum Cond {
    Eq,
    Ne,
    Cs,
    Cc,
    Mi,
    Pl,
    Vs,
    Vc,
    Hi,
    Ls,
    Ge,
    Lt,
    Gt,
    Le,
    Al,
    Nv,
}

/// The four-bit encoding of a condition.
pub open spec fn cond_number(c: Cond) -> int {
    match c {
        Cond::Eq => 0,
        Cond::Ne => 1,
        Cond::Cs => 2,
        Cond::Cc => 3,
        Cond::Mi => 4,
        Cond::Pl => 5,
        Cond::Vs => 6,
        Cond::Vc => 7,
        Cond::Hi => 8,
        Cond::Ls => 9,
        Cond::Ge => 10,
        Cond::Lt => 11,
        Cond::Gt => 12,
        Cond::Le => 13,
        Cond::Al => 14,
        Cond::Nv => 15,
    }
}

/// The condition whose encoding differs in the lowest bit. It holds exactly when `c` does not,
/// but for AL and NV: these two are exchanged, and both always hold.
pub open spec fn inverted(c: Cond) -> Cond {
    match c {
        Cond::Eq => Cond::Ne,
        Cond::Ne => Cond::Eq,
        Cond::Cs => Cond::Cc,
        Cond::Cc => Cond::Cs,
        Cond::Mi => Cond::Pl,
        Cond::Pl => Cond::Mi,
        Cond::Vs => Cond::Vc,
        Cond::Vc => Cond::Vs,
        Cond::Hi => Cond::Ls,
        Cond::Ls => Cond::Hi,
        Cond::Ge => Cond::Lt,
        Cond::Lt => Cond::Ge,
        Cond::Gt => Cond::Le,
        Cond::Le => Cond::Gt,
        Cond::Al => Cond::Nv,
        Cond::Nv => Cond::Al,
    }
}

/// The condition with a given encoding.
pub open spec fn cond_of(n: int) -> Cond {
    if n == 0 {
        Cond::Eq
    } else if n == 1 {
        Cond::Ne
    } else if n == 2 {
        Cond::Cs
    } else if n == 3 {
        Cond::Cc
    } else if n == 4 {
        Cond::Mi
    } else if n == 5 {
        Cond::Pl
    } else if n == 6 {
        Cond::Vs
    } else if n == 7 {
        Cond::Vc
    } else if n == 8 {
        Cond::Hi
    } else if n == 9 {
        Cond::Ls
    } else if n == 10 {
        Cond::Ge
    } else if n == 11 {
        Cond::Lt
    } else if n == 12 {
        Cond::Gt
    } else if n == 13 {
        Cond::Le
    } else if n == 14 {
        Cond::Al
    } else {
        Cond::Nv
    }
}

impl Cond {
    /// Pairs eq/ne, cs/cc and so on; AL and NV pair with each other.
    pub fn invert(self) -> (r: Self)
        ensures
            r == inverted(self),
            cond_number(r) == if cond_number(self) % 2 == 0 {
                cond_number(self) + 1
            } else {
                cond_number(self) - 1
            },
    {
        match self {
            Self::Eq => Self::Ne,
            Self::Ne => Self::Eq,
            Self::Cs => Self::Cc,
            Self::Cc => Self::Cs,
            Self::Mi => Self::Pl,
            Self::Pl => Self::Mi,
            Self::Vs => Self::Vc,
            Self::Vc => Self::Vs,
            Self::Hi => Self::Ls,
            Self::Ls => Self::Hi,
            Self::Ge => Self::Lt,
            Self::Lt => Self::Ge,
            Self::Gt => Self::Le,
            Self::Le => Self::Gt,
            Self::Al => Self::Nv,
            Self::Nv => Self::Al,
        }
    }

    /// The condition whose encoding is the low four bits of `v`.
    pub fn from_u8(v: u8) -> (r: Self)
        ensures
            r == cond_of((v % 16) as int),
            cond_number(r) == v % 16,
    {
        match v % 16 {
            0 => Self::Eq,
            1 => Self::Ne,
            2 => Self::Cs,
            3 => Self::Cc,
            4 => Self::Mi,
            5 => Self::Pl,
            6 => Self::Vs,
            7 => Self::Vc,
            8 => Self::Hi,
            9 => Self::Ls,
            10 => Self::Ge,
            11 => Self::Lt,
            12 => Self::Gt,
            13 => Self::Le,
            14 => Self::Al,
            _ => Self::Nv,
        }
    }

    /// The four-bit encoding.
    pub fn number(self) -> (r: u32)
        ensures
            r == cond_number(self),
            r < 16,
    {
        match self {
            Self::Eq => 0,
            Self::Ne => 1,
            Self::Cs => 2,
            Self::Cc => 3,
            Self::Mi => 4,
            Self::Pl => 5,
            Self::Vs => 6,
            Self::Vc => 7,
            Self::Hi => 8,
            Self::Ls => 9,
            Self::Ge => 10,
            Self::Lt => 11,
            Self::Gt => 12,
            Self::Le => 13,
            Self::Al => 14,
            Self::Nv => 15,
        }
    }
}

/// Inverting a condition twice gives it back, and never gives the condition itself.
pub proof fn law_invert_involution(c: Cond)
    ensures
        inverted(inverted(c)) == c,
        inverted(c) != c,
{
}

/// A condition is determined by its encoding, and every four-bit number is the encoding of one.
pub proof fn law_cond_number_bijection(c: Cond, n: int)
    requires
        0 <= n < 16,
    ensures
        cond_of(cond_number(c)) == c,
        cond_number(cond_of(n)) == n,
        0 <= cond_number(c) < 16,
{
}

#[derive(Debug, Clone, Copy, PartialEq, Eq, Structural)]
pub enum InsnKind {
    /// B / BL: absolute target resolved from the PC-relative encoding.
    Branch { target: u64, link: bool },
    /// B.cond
    BranchCond { target: u64, cond: Cond },
    /// CBZ / CBNZ
    CompareBranch { target: u64, reg: u8, nonzero: bool, is64: bool },
    /// TBZ / TBNZ
    TestBranch { target: u64, reg: u8, bit: u8, nonzero: bool },
    /// ADR / ADRP
    PcRelAddr { rd: u8, target: u64, is_page: bool },
    /// LDR (literal)
    PcRelLoad { rt: u8, target: u64, is64: bool, is_simd: bool },
    /// BR / BLR / RET: register-indirect, copied as they stand.
    BranchReg { rn: u8 },
    /// No PC dependency: safe to copy verbatim.
    PcIndependent,
}

#[derive(Debug, Clone, Copy, PartialEq, Eq, Structural)]
pub struct DecodedInsn {
    pub addr: u64,
    pub raw: u32,
    pub kind: InsnKind,
}

/// A decoder of single instruction words.
pub trait Arm64Decoder {
    /// What this decoder says of `word` at `addr`.
    spec fn decoded(&self, addr: u64, word: u32) -> DecodedInsn;

    fn decode(&self, addr: u64, word: u32) -> (insn: DecodedInsn)
        ensures
            insn == self.decoded(addr, word),
    ;
}

/// `bits` taken as a two's complement number of `width` values, half of them negative.
pub open spec fn sign_extended(bits: int, width: int) -> int {
    if bits < width / 2 {
        bits
    } else {
        bits - width
    }
}

/// `base` moved by `delta` bytes, modulo the size of the address space.
pub open spec fn displaced(base: u64, delta: int) -> u64 {
    ((base + delta) % 0x1_0000_0000_0000_0000) as u64
}

/// Moves add up.
pub proof fn law_displaced_adds(base: u64, a: int, b: int)
    ensures
        displaced(displaced(base, a), b) == displaced(base, a + b),
        displaced(base, 0) == base,
{
}

/// The field of `width` values at weight `unit` of an instruction word.
pub open spec fn field(word: u32, unit: int, width: int) -> int {
    (word as int / unit) % width
}

/// Target of the 19-bit word displacement in bits 5 to 23.
pub open spec fn target19(addr: u64, word: u32) -> u64 {
    displaced(addr, 4 * sign_extended(field(word, 0x20, 0x8_0000), 0x8_0000))
}

/// Target of the 14-bit word displacement in bits 5 to 18.
pub open spec fn target14(addr: u64, word: u32) -> u64 {
    displaced(addr, 4 * sign_extended(field(word, 0x20, 0x4000), 0x4000))
}

/// Target of the 26-bit word displacement in bits 0 to 25.
pub open spec fn target26(addr: u64, word: u32) -> u64 {
    displaced(addr, 4 * sign_extended(field(word, 1, 0x400_0000), 0x400_0000))
}

/// The 21-bit immediate of ADR and ADRP: its low two bits stand in bits 29 and 30.
pub open spec fn imm21(word: u32) -> int {
    sign_extended(4 * field(word, 0x20, 0x8_0000) + field(word, 0x2000_0000, 4), 0x20_0000)
}

/// The instruction class of an A64 word, as far as it depends on the program counter or
/// branches through a register.
#[verifier::opaque]
pub open spec fn a64_kind(addr: u64, word: u32) -> InsnKind {
    let top6 = word as int / 0x400_0000;
    let top8 = word as int / 0x100_0000;
    let reg = field(word, 1, 0x20) as u8;
    if top6 == 0x05 || top6 == 0x25 {
        InsnKind::Branch { target: target26(addr, word), link: top6 == 0x25 }
    } else if top8 == 0x54 && field(word, 0x10, 2) == 0 {
        InsnKind::BranchCond { target: target19(addr, word), cond: cond_of(field(word, 1, 0x10)) }
    } else if top8 == 0x34 || top8 == 0x35 || top8 == 0xB4 || top8 == 0xB5 {
        InsnKind::CompareBranch {
            target: target19(addr, word),
            reg,
            nonzero: top8 % 2 == 1,
            is64: top8 >= 0x80,
        }
    } else if top8 == 0x36 || top8 == 0x37 || top8 == 0xB6 || top8 == 0xB7 {
        InsnKind::TestBranch {
            target: target14(addr, word),
            reg,
            bit: (field(word, 0x8_0000, 0x20) + if top8 >= 0x80 {
                32int
            } else {
                0
            }) as u8,
            nonzero: top8 % 2 == 1,
        }
    } else if top8 % 0x20 == 0x10 {
        if top8 >= 0x80 {
            InsnKind::PcRelAddr {
                rd: reg,
                target: displaced((addr - addr % 0x1000) as u64, 0x1000 * imm21(word)),
                is_page: true,
            }
        } else {
            InsnKind::PcRelAddr { rd: reg, target: displaced(addr, imm21(word)), is_page: false }
        }
    } else if top8 == 0x18 || top8 == 0x58 || top8 == 0x98 {
        InsnKind::PcRelLoad {
            rt: reg,
            target: target19(addr, word),
            is64: top8 == 0x58,
            is_simd: false,
        }
    } else if top8 == 0x1C || top8 == 0x5C || top8 == 0x9C {
        InsnKind::PcRelLoad { rt: 0, target: target19(addr, word), is64: true, is_simd: true }
    } else if field(word, 1, 0x20) == 0 && (word as int / 0x400 == 0xD61F_0000int / 0x400 || word
        as int / 0x400 == 0xD63F_0000int / 0x400 || word as int / 0x400 == 0xD65F_0000int / 0x400) {
        InsnKind::BranchReg { rn: field(word, 0x20, 0x20) as u8 }
    } else {
        InsnKind::PcIndependent
    }
}

/// `base` moved by a word displacement of `width` values whose bits are `bits`.
fn displace(base: u64, bits: u64, width: u64, scale: u64) -> (t: u64)
    requires
        bits < width <= 0x400_0000,
        width % 2 == 0,
        1 <= scale <= 0x1000,
        (scale == 1 || scale == 4 || scale == 0x1000),
    ensures
        t == displaced(base, scale * sign_extended(bits as int, width as int)),
{
    if bits < width / 2 {
        assert(scale * bits <= 0x1000 * 0x400_0000) by (nonlinear_arith)
            requires
                scale <= 0x1000,
                bits <= 0x400_0000,
        ;
        base.wrapping_add(scale * bits)
    } else {
        assert(0 <= scale * (width - bits) <= 0x1000 * 0x400_0000) by (nonlinear_arith)
            requires
                scale <= 0x1000,
                bits <= width,
                width <= 0x400_0000,
        ;
        assert(scale * (bits - width) == -(scale * (width - bits))) by (nonlinear_arith);
        base.wrapping_sub(scale * (width - bits))
    }
}

/// A register as a disassembler names it.
#[derive(Debug, Clone, Copy, PartialEq, Eq, Structural)]
pub enum Register {
    /// X0 to X30.
    X(u8),
    /// W0 to W30.
    W(u8),
    Xzr,
    Wzr,
    Sp,
    Wsp,
    /// A register that is not a general one.
    Other,
}

/// The number of a general register; zero for the others.
pub open spec fn index_of(r: Register) -> u8 {
    match r {
        Register::X(n) => n,
        Register::W(n) => n,
        Register::Xzr | Register::Wzr | Register::Sp | Register::Wsp => 31,
        Register::Other => 0,
    }
}

/// Whether a register is a general one of 64 bits.
pub open spec fn is_wide(r: Register) -> bool {
    r is X || r is Xzr || r is Sp
}

/// The number of a general register; zero for the others.
pub fn reg_index(r: Register) -> (n: u8)
    ensures
        n == index_of(r),
{
    match r {
        Register::X(n) | Register::W(n) => n,
        Register::Xzr | Register::Wzr | Register::Sp | Register::Wsp => 31,
        Register::Other => 0,
    }
}

/// Whether a register is a general one of 64 bits.
pub fn is_x_reg(r: Register) -> (b: bool)
    ensures
        b == is_wide(r),
{
    matches!(r, Register::X(_) | Register::Xzr | Register::Sp)
}

/// The mnemonics that matter to relocation.
#[derive(Debug, Clone, Copy, PartialEq, Eq, Structural)]
pub enum Code {
    B,
    Bl,
    BCond,
    Cbz,
    Cbnz,
    Tbz,
    Tbnz,
    Adr,
    Adrp,
    LdrLit,
    LdrswLit,
    LdrFpLit,
    Br,
    Blr,
    Ret,
    Other,
}

/// What an operand is.
#[derive(Debug, Clone, Copy, PartialEq, Eq, Structural)]
pub enum OpKind {
    NearBranch,
    Immediate,
    Other,
}

/// A disassembled instruction, as far as it matters to relocation.
#[derive(Debug, Clone, Copy, PartialEq, Eq, Structural)]
pub struct Disassembly {
    pub code: Code,
    pub condition: Cond,
    pub op_count: u8,
    pub op0_reg: Register,
    pub op1_kind: OpKind,
    pub op1_imm: u64,
    /// Absolute target of a branch or a literal; zero where it was not filled in.
    pub near_branch_target: u64,
}

/// Where a literal lies: the near target, or the immediate where that was not filled in.
pub open spec fn literal_target(d: Disassembly) -> u64 {
    if d.near_branch_target != 0 {
        d.near_branch_target
    } else {
        d.op1_imm
    }
}

/// The class of a disassembled instruction.
#[verifier::opaque]
pub open spec fn class_of(d: Disassembly) -> InsnKind {
    match d.code {
        Code::B => InsnKind::Branch { target: d.near_branch_target, link: false },
        Code::Bl => InsnKind::Branch { target: d.near_branch_target, link: true },
        Code::BCond => InsnKind::BranchCond { target: d.near_branch_target, cond: d.condition },
        Code::Cbz | Code::Cbnz => InsnKind::CompareBranch {
            target: d.near_branch_target,
            reg: index_of(d.op0_reg),
            nonzero: d.code is Cbnz,
            is64: is_wide(d.op0_reg),
        },
        Code::Tbz | Code::Tbnz => InsnKind::TestBranch {
            target: d.near_branch_target,
            reg: index_of(d.op0_reg),
            bit: (d.op1_imm % 64) as u8,
            nonzero: d.code is Tbnz,
        },
        Code::Adr | Code::Adrp => InsnKind::PcRelAddr {
            rd: index_of(d.op0_reg),
            target: d.op1_imm,
            is_page: d.code is Adrp,
        },
        Code::LdrLit | Code::LdrswLit => InsnKind::PcRelLoad {
            rt: index_of(d.op0_reg),
            target: if d.op1_kind is Other {
                d.near_branch_target
            } else {
                literal_target(d)
            },
            is64: d.code is LdrLit && is_wide(d.op0_reg),
            is_simd: false,
        },
        Code::LdrFpLit => InsnKind::PcRelLoad {
            rt: index_of(d.op0_reg),
            target: literal_target(d),
            is64: true,
            is_simd: true,
        },
        Code::Br | Code::Blr => InsnKind::BranchReg { rn: index_of(d.op0_reg) },
        Code::Ret => InsnKind::BranchReg {
            rn: if d.op_count > 0 {
                index_of(d.op0_reg)
            } else {
                30
            },
        },
        Code::Other => InsnKind::PcIndependent,
    }
}

/// The class of a disassembled instruction.
pub fn classify(d: &Disassembly) -> (kind: InsnKind)
    ensures
        kind == class_of(*d),
{
    reveal(class_of);
    let near: u64 = d.near_branch_target;
    let literal: u64 = if near != 0 {
        near
    } else {
        d.op1_imm
    };
    let reg: u8 = reg_index(d.op0_reg);
    match d.code {
        Code::B => InsnKind::Branch { target: near, link: false },
        Code::Bl => InsnKind::Branch { target: near, link: true },
        Code::BCond => InsnKind::BranchCond { target: near, cond: d.condition },
        Code::Cbz => InsnKind::CompareBranch {
            target: near,
            reg,
            nonzero: false,
            is64: is_x_reg(d.op0_reg),
        },
        Code::Cbnz => InsnKind::CompareBranch {
            target: near,
            reg,
            nonzero: true,
            is64: is_x_reg(d.op0_reg),
        },
        Code::Tbz => InsnKind::TestBranch {
            target: near,
            reg,
            bit: (d.op1_imm % 64) as u8,
            nonzero: false,
        },
        Code::Tbnz => InsnKind::TestBranch {
            target: near,
            reg,
            bit: (d.op1_imm % 64) as u8,
            nonzero: true,
        },
        Code::Adr => InsnKind::PcRelAddr { rd: reg, target: d.op1_imm, is_page: false },
        Code::Adrp => InsnKind::PcRelAddr { rd: reg, target: d.op1_imm, is_page: true },
        Code::LdrLit => InsnKind::PcRelLoad {
            rt: reg,
            target: if matches!(d.op1_kind, OpKind::Other) {
                near
            } else {
                literal
            },
            is64: is_x_reg(d.op0_reg),
            is_simd: false,
        },
        Code::LdrswLit => InsnKind::PcRelLoad {
            rt: reg,
            target: if matches!(d.op1_kind, OpKind::Other) {
                near
            } else {
                literal
            },
            is64: false,
            is_simd: false,
        },
        Code::LdrFpLit => InsnKind::PcRelLoad {
            rt: reg,
            target: literal,
            is64: true,
            is_simd: true,
        },
        Code::Br | Code::Blr => InsnKind::BranchReg { rn: reg },
        Code::Ret => InsnKind::BranchReg {
            rn: if d.op_count > 0 {
                reg
            } else {
                30
            },
        },
        Code::Other => InsnKind::PcIndependent,
    }
}

/// The general register with a number, of 64 or 32 bits.
fn general(n: u8, wide: bool) -> (r: Register)
    requires
        n < 32,
    ensures
        index_of(r) == n,
        is_wide(r) == wide,
{
    if n == 31 {
        if wide {
            Register::Xzr
        } else {
            Register::Wzr
        }
    } else if wide {
        Register::X(n)
    } else {
        Register::W(n)
    }
}

/// A disassembly with a mnemonic, a first register and a target.
fn with_target(code: Code, op0_reg: Register, target: u64) -> (d: Disassembly)
    ensures
        d == (Disassembly {
            code,
            condition: Cond::Al,
            op_count: 2,
            op0_reg,
            op1_kind: OpKind::NearBranch,
            op1_imm: target,
            near_branch_target: target,
        }),
{
    Disassembly {
        code,
        condition: Cond::Al,
        op_count: 2,
        op0_reg,
        op1_kind: OpKind::NearBranch,
        op1_imm: target,
        near_branch_target: target,
    }
}

/// B or BL.
fn branch(link: bool, target: u64) -> (d: Disassembly)
    ensures
        class_of(d) == (InsnKind::Branch { target, link }),
{
    reveal(class_of);
    let code = if link {
        Code::Bl
    } else {
        Code::B
    };
    with_target(code, Register::Other, target)
}

/// B.cond
fn conditional(cond: Cond, target: u64) -> (d: Disassembly)
    ensures
        class_of(d) == (InsnKind::BranchCond { target, cond }),
{
    reveal(class_of);
    Disassembly { condition: cond, ..with_target(Code::BCond, Register::Other, target) }
}

/// CBZ or CBNZ.
fn compared(nonzero: bool, reg: u8, wide: bool, target: u64) -> (d: Disassembly)
    requires
        reg < 32,
    ensures
        class_of(d) == (InsnKind::CompareBranch { target, reg, nonzero, is64: wide }),
{
    reveal(class_of);
    let code = if nonzero {
        Code::Cbnz
    } else {
        Code::Cbz
    };
    with_target(code, general(reg, wide), target)
}

/// TBZ or TBNZ.
fn tested(nonzero: bool, reg: u8, bit: u8, target: u64) -> (d: Disassembly)
    requires
        reg < 32,
        bit < 64,
    ensures
        class_of(d) == (InsnKind::TestBranch { target, reg, bit, nonzero }),
{
    reveal(class_of);
    let code = if nonzero {
        Code::Tbnz
    } else {
        Code::Tbz
    };
    Disassembly {
        op1_kind: OpKind::Immediate,
        op1_imm: bit as u64,
        ..with_target(code, general(reg, bit >= 32), target)
    }
}

/// ADR or ADRP.
fn address(is_page: bool, rd: u8, target: u64) -> (d: Disassembly)
    requires
        rd < 32,
    ensures
        class_of(d) == (InsnKind::PcRelAddr { rd, target, is_page }),
{
    reveal(class_of);
    let code = if is_page {
        Code::Adrp
    } else {
        Code::Adr
    };
    with_target(code, general(rd, true), target)
}

/// LDR or, with `signed`, LDRSW of a literal.
fn literal(signed: bool, rt: u8, wide: bool, target: u64) -> (d: Disassembly)
    requires
        rt < 32,
    ensures
        class_of(d) == (InsnKind::PcRelLoad {
            rt,
            target,
            is64: wide && !signed,
            is_simd: false,
        }),
{
    reveal(class_of);
    let code = if signed {
        Code::LdrswLit
    } else {
        Code::LdrLit
    };
    with_target(code, general(rt, wide || signed), target)
}

/// LDR of a literal to a vector register, which has no number among the general ones.
fn vector_literal(target: u64) -> (d: Disassembly)
    ensures
        class_of(d) == (InsnKind::PcRelLoad { rt: 0, target, is64: true, is_simd: true }),
{
    reveal(class_of);
    with_target(Code::LdrFpLit, Register::Other, target)
}

/// BR, BLR or RET.
fn through(code: Code, rn: u8) -> (d: Disassembly)
    requires
        rn < 32,
        code is Br || code is Blr || code is Ret,
    ensures
        class_of(d) == (InsnKind::BranchReg { rn }),
{
    reveal(class_of);
    with_target(code, general(rn, true), 0)
}

/// Another instruction.
fn other() -> (d: Disassembly)
    ensures
        class_of(d) == InsnKind::PcIndependent,
{
    reveal(class_of);
    with_target(Code::Other, Register::Other, 0)
}

/// Disassembles an A64 word, as far as it matters to relocation.
fn disassemble(addr: u64, word: u32) -> (d: Disassembly)
    ensures
        class_of(d) == a64_kind(addr, word),
{
    proof {
        reveal(a64_kind);
    }
    let top6: u32 = word / 0x400_0000;
    let top8: u32 = word / 0x100_0000;
    let reg: u8 = (word % 0x20) as u8;
    let hi19: u64 = ((word / 0x20) % 0x8_0000) as u64;
    if top6 == 0x05 || top6 == 0x25 {
        branch(top6 == 0x25, displace(addr, (word % 0x400_0000) as u64, 0x400_0000, 4))
    } else if top8 == 0x54 && (word / 0x10) % 2 == 0 {
        let cond = Cond::from_u8((word % 0x10) as u8);
        conditional(cond, displace(addr, hi19, 0x8_0000, 4))
    } else if top8 == 0x34 || top8 == 0x35 || top8 == 0xB4 || top8 == 0xB5 {
        compared(top8 % 2 == 1, reg, top8 >= 0x80, displace(addr, hi19, 0x8_0000, 4))
    } else if top8 == 0x36 || top8 == 0x37 || top8 == 0xB6 || top8 == 0xB7 {
        let bit: u8 = ((word / 0x8_0000) % 0x20 + if top8 >= 0x80 {
            32u32
        } else {
            0u32
        }) as u8;
        let target: u64 = displace(addr, ((word / 0x20) % 0x4000) as u64, 0x4000, 4);
        tested(top8 % 2 == 1, reg, bit, target)
    } else if top8 % 0x20 == 0x10 {
        let bits: u64 = 4 * hi19 + ((word / 0x2000_0000) % 4) as u64;
        if top8 >= 0x80 {
            address(true, reg, displace(addr - addr % 0x1000, bits, 0x20_0000, 0x1000))
        } else {
            address(false, reg, displace(addr, bits, 0x20_0000, 1))
        }
    } else if top8 == 0x18 || top8 == 0x58 || top8 == 0x98 {
        literal(top8 == 0x98, reg, top8 == 0x58, displace(addr, hi19, 0x8_0000, 4))
    } else if top8 == 0x1C || top8 == 0x5C || top8 == 0x9C {
        vector_literal(displace(addr, hi19, 0x8_0000, 4))
    } else if word % 0x20 == 0 && word / 0x400 == 0xD61F_0000u32 / 0x400 {
        through(Code::Br, ((word / 0x20) % 0x20) as u8)
    } else if word % 0x20 == 0 && word / 0x400 == 0xD63F_0000u32 / 0x400 {
        through(Code::Blr, ((word / 0x20) % 0x20) as u8)
    } else if word % 0x20 == 0 && word / 0x400 == 0xD65F_0000u32 / 0x400 {
        through(Code::Ret, ((word / 0x20) % 0x20) as u8)
    } else {
        other()
    }
}

/// Decoder for the A64 words that depend on the program counter.
#[derive(Debug, Default, Clone, Copy)]
pub struct DisasmAdapter;

impl Arm64Decoder for DisasmAdapter {
    open spec fn decoded(&self, addr: u64, word: u32) -> DecodedInsn {
        DecodedInsn { addr, raw: word, kind: a64_kind(addr, word) }
    }

    fn decode(&self, addr: u64, word: u32) -> (insn: DecodedInsn) {
        let d = disassemble(addr, word);
        DecodedInsn { addr, raw: word, kind: classify(&d) }
    }
}

} // verus!
