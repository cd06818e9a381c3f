//! What the instructions that are written do.
use crate::bytes::{law_quad_round_trip, law_word_round_trip, le32, le64, quad_at, word_at};
use crate::decoder::{a64_kind, field, sign_extended, Cond, InsnKind};
use crate::encode::{
    add_imm_word, branch_reaches, delta, law_address_round_trip, law_branch_round_trip,
    law_conditional_round_trip, law_test_branch_round_trip, page_delta, sf_bit,
};
use crate::text::{decimal, lowered};
use crate::text_laws::{
    is_digit, is_word, law_decimal_reads_back, lemma_numerals_are_words, lemma_trimmed_word,
};
use crate::writer::{
    arg_setup, args_setup, file_reg, ldr_u64, mode_bits, movk_word, offset_word, pair_word,
    reg_named, rrr_word, tst_bytes, ubfm_word, Arm64Writer, CallArg, IndexMode, Reg, WriterError,
    WriterState,
};
use vstd::prelude::*;
use vstd::string::*;

verus! {

/// The word that was written behind some code.
pub open spec fn new_word(before: WriterState, after: WriterState) -> u32 {
    word_at(after.code, before.code.len() as int)
}

/// Whether one word was written behind some code, and nothing else changed.
pub open spec fn one_word(before: WriterState, after: WriterState) -> bool {
    &&& after.code.len() == before.code.len() + 4
    &&& after.code.take(before.code.len() as int) == before.code
    &&& after == (WriterState { code: after.code, ..before })
}

proof fn lemma_one_word(before: WriterState, after: WriterState, w: u32)
    requires
        after == before.emit_word(w),
    ensures
        one_word(before, after),
        new_word(before, after) == w,
{
    let none = Seq::<u8>::empty();
    law_word_round_trip(before.code, w, none);
    assert(before.code + le32(w) + none =~= after.code);
    assert(after.code.take(before.code.len() as int) =~= before.code);
}

/// Whether a word is an operation on three registers: its code, and the registers of its result,
/// its first and its second operand.
pub open spec fn combines(w: u32, code: int, is64: bool, rd: u8, rn: u8, rm: u8) -> bool {
    &&& w as int / 0x20_0000 == code * 8 + if is64 {
        0x400int
    } else {
        0
    }
    &&& field(w, 1, 0x20) == rd
    &&& field(w, 0x20, 0x20) == rn
    &&& field(w, 0x400, 0x40) == 0
    &&& field(w, 0x1_0000, 0x20) == rm
}

proof fn lemma_three(w: u32, top: int, m: int, n: int, d: int)
    requires
        0 <= top,
        0 <= m < 32,
        0 <= n < 32,
        0 <= d < 32,
        w == top * 0x20_0000 + m * 0x1_0000 + n * 0x20 + d,
    ensures
        w as int / 0x20_0000 == top,
        field(w, 1, 0x20) == d,
        field(w, 0x20, 0x20) == n,
        field(w, 0x400, 0x40) == 0,
        field(w, 0x1_0000, 0x20) == m,
{
    let x = w as int;
    assert(x / 0x20 == top * 0x1_0000 + m * 0x800 + n);
    assert(x / 0x400 == top * 0x800 + m * 0x40);
    assert(x / 0x1_0000 == top * 0x20 + m);
}

proof fn lemma_rrr(code: int, base: u32, is64: bool, rd: u8, rn: u8, rm: u8)
    requires
        0 <= code < 0x80,
        base == code * 0x100_0000,
        rd < 32,
        rn < 32,
        rm < 32,
    ensures
        combines(rrr_word(base, is64, rd, rn, rm), code, is64, rd, rn, rm),
{
    let top = code * 8 + if is64 {
        0x400int
    } else {
        0
    };
    assert(rm % 32 == rm && rn % 32 == rn && rd % 32 == rd);
    let sum = sf_bit(is64) + base + rm * 0x1_0000 + rn * 0x20 + rd;
    assert(sum == top * 0x20_0000 + rm * 0x1_0000 + rn * 0x20 + rd);
    assert(0 <= sum < 0x1_0000_0000);
    let w = rrr_word(base, is64, rd, rn, rm);
    assert(w == sum);
    lemma_three(w, top, rm as int, rn as int, rd as int);
}

/// Adding and subtracting registers: the result, the first operand and the second stand where the
/// processor takes them from.
pub proof fn law_addition_is_written(
    w: &mut Arm64Writer,
    dst: Reg,
    a: Reg,
    b: Reg,
    r: Result<(), WriterError>,
)
    requires
        call_ensures(Arm64Writer::put_add_reg_reg_reg, (w, dst, a, b), r),
        dst.n < 32,
        a.n < 32,
        b.n < 32,
    ensures
        r is Ok,
        one_word(old(w)@, final(w)@),
        combines(
            new_word(old(w)@, final(w)@),
            0x0B,
            dst.is64,
            dst.n,
            a.n,
            b.n,
        ),
{
    lemma_rrr(0x0B, 0x0B00_0000, dst.is64, dst.n, a.n, b.n);
    lemma_one_word(old(w)@, final(w)@, rrr_word(0x0B00_0000, dst.is64, dst.n, a.n, b.n));
}

/// A subtraction takes the second operand from the first.
pub proof fn law_subtraction_is_written(
    w: &mut Arm64Writer,
    dst: Reg,
    a: Reg,
    b: Reg,
    r: Result<(), WriterError>,
)
    requires
        call_ensures(Arm64Writer::put_sub_reg_reg_reg, (w, dst, a, b), r),
        dst.n < 32,
        a.n < 32,
        b.n < 32,
    ensures
        r is Ok,
        one_word(old(w)@, final(w)@),
        combines(
            new_word(old(w)@, final(w)@),
            0x4B,
            dst.is64,
            dst.n,
            a.n,
            b.n,
        ),
{
    lemma_rrr(0x4B, 0x4B00_0000, dst.is64, dst.n, a.n, b.n);
    lemma_one_word(old(w)@, final(w)@, rrr_word(0x4B00_0000, dst.is64, dst.n, a.n, b.n));
}

/// An exclusive or of two registers.
pub proof fn law_exclusive_or_is_written(
    w: &mut Arm64Writer,
    dst: Reg,
    a: Reg,
    b: Reg,
    r: Result<(), WriterError>,
)
    requires
        call_ensures(Arm64Writer::put_eor_reg_reg_reg, (w, dst, a, b), r),
        dst.n < 32,
        a.n < 32,
        b.n < 32,
    ensures
        r is Ok,
        one_word(old(w)@, final(w)@),
        combines(
            new_word(old(w)@, final(w)@),
            0x4A,
            dst.is64,
            dst.n,
            a.n,
            b.n,
        ),
{
    lemma_rrr(0x4A, 0x4A00_0000, dst.is64, dst.n, a.n, b.n);
    lemma_one_word(old(w)@, final(w)@, rrr_word(0x4A00_0000, dst.is64, dst.n, a.n, b.n));
}

/// A comparison subtracts the second register from the first and keeps only the flags.
pub proof fn law_comparison_is_written(
    w: &mut Arm64Writer,
    a: Reg,
    b: Reg,
    r: Result<(), WriterError>,
)
    requires
        call_ensures(Arm64Writer::put_cmp_reg_reg, (w, a, b), r),
        a.n < 32,
        b.n < 32,
    ensures
        r is Ok,
        one_word(old(w)@, final(w)@),
        combines(new_word(old(w)@, final(w)@), 0x6B, a.is64, 31, a.n, b.n),
{
    lemma_rrr(0x6B, 0x6B00_0000, a.is64, 31, a.n, b.n);
    lemma_one_word(old(w)@, final(w)@, rrr_word(0x6B00_0000, a.is64, 31, a.n, b.n));
}

/// A move is the or of nothing with the source.
pub proof fn law_move_is_written(
    w: &mut Arm64Writer,
    dst: Reg,
    src: Reg,
    r: Result<(), WriterError>,
)
    requires
        call_ensures(Arm64Writer::put_mov_reg_reg, (w, dst, src), r),
        dst.n < 32,
        src.n < 32,
    ensures
        r is Ok,
        one_word(old(w)@, final(w)@),
        combines(
            new_word(old(w)@, final(w)@),
            0x2A,
            dst.is64,
            dst.n,
            31,
            src.n,
        ),
{
    lemma_rrr(0x2A, 0x2A00_0000, dst.is64, dst.n, 31, src.n);
    lemma_one_word(old(w)@, final(w)@, rrr_word(0x2A00_0000, dst.is64, dst.n, 31, src.n));
}

/// Whether a word adds a number to a register, or takes it away.
pub open spec fn adds(w: u32, away: bool, is64: bool, rd: int, rn: int, imm: int) -> bool {
    &&& w as int / 0x40_0000 == 0x44 + (if is64 {
        0x200int
    } else {
        0
    }) + if away {
        0x100int
    } else {
        0
    }
    &&& field(w, 1, 0x20) == rd
    &&& field(w, 0x20, 0x20) == rn
    &&& field(w, 0x400, 0x1000) == imm
}

proof fn lemma_two(w: u32, top: int, imm: int, n: int, d: int)
    requires
        0 <= top,
        0 <= imm < 0x1000,
        0 <= n < 32,
        0 <= d < 32,
        w == top * 0x40_0000 + imm * 0x400 + n * 0x20 + d,
    ensures
        w as int / 0x40_0000 == top,
        field(w, 1, 0x20) == d,
        field(w, 0x20, 0x20) == n,
        field(w, 0x400, 0x1000) == imm,
{
    let x = w as int;
    assert(x / 0x20 == top * 0x2_0000 + imm * 0x20 + n);
    assert(x / 0x400 == top * 0x1000 + imm);
}

proof fn lemma_adds(rd: u8, rn: u8, imm: u32, is64: bool)
    requires
        rd < 32,
        rn < 32,
        imm < 0x1000,
    ensures
        adds(add_imm_word(rd, rn, imm, is64), false, is64, rd as int, rn as int, imm as int),
        adds(
            (add_imm_word(rd, rn, imm, is64) + 0x4000_0000) as u32,
            true,
            is64,
            rd as int,
            rn as int,
            imm as int,
        ),
{
    let w = add_imm_word(rd, rn, imm, is64);
    let top = 0x44 + if is64 {
        0x200int
    } else {
        0
    };
    assert(w == top * 0x40_0000 + imm * 0x400 + rn * 0x20 + rd) by {
        reveal(add_imm_word);
        assert(rn % 32 == rn && rd % 32 == rd && imm % 0x1000 == imm);
    }
    lemma_two(w, top, imm as int, rn as int, rd as int);
    let v = (w + 0x4000_0000) as u32;
    assert(v == w + 0x4000_0000);
    lemma_two(v, top + 0x100, imm as int, rn as int, rd as int);
}

/// A small number is added to a register.
pub proof fn law_number_is_added(
    w: &mut Arm64Writer,
    dst: Reg,
    left: Reg,
    imm: u32,
    r: Result<(), WriterError>,
)
    requires
        call_ensures(Arm64Writer::put_add_reg_reg_imm, (w, dst, left, imm), r),
        dst.n < 32,
        left.n < 32,
        imm < 0x1000,
    ensures
        r is Ok,
        one_word(old(w)@, final(w)@),
        adds(
            new_word(old(w)@, final(w)@),
            false,
            dst.is64,
            dst.n as int,
            left.n as int,
            imm as int,
        ),
{
    lemma_adds(dst.n, left.n, imm, dst.is64);
    lemma_one_word(old(w)@, final(w)@, add_imm_word(dst.n, left.n, imm, dst.is64));
}

/// A small number is taken from a register.
pub proof fn law_number_is_taken_away(
    w: &mut Arm64Writer,
    dst: Reg,
    left: Reg,
    imm: u32,
    r: Result<(), WriterError>,
)
    requires
        call_ensures(Arm64Writer::put_sub_reg_reg_imm, (w, dst, left, imm), r),
        dst.n < 32,
        left.n < 32,
        imm < 0x1000,
    ensures
        r is Ok,
        one_word(old(w)@, final(w)@),
        adds(
            new_word(old(w)@, final(w)@),
            true,
            dst.is64,
            dst.n as int,
            left.n as int,
            imm as int,
        ),
{
    lemma_adds(dst.n, left.n, imm, dst.is64);
    lemma_one_word(
        old(w)@,
        final(w)@,
        (add_imm_word(dst.n, left.n, imm, dst.is64) + 0x4000_0000) as u32,
    );
}

/// What a word that moves one register from or to memory does.
pub struct Access {
    pub load: bool,
    pub is64: bool,
    /// The register that is moved.
    pub rt: int,
    /// The register with the address.
    pub rn: int,
    pub offset: int,
    pub mode: IndexMode,
}

/// What a word does to memory, as the processor reads it: a scaled offset in bits 10 to 21, or a
/// signed one in bits 12 to 20 with the way it is used in bits 10 and 11.
pub open spec fn access_of(w: u32) -> Option<Access> {
    let top = w as int / 0x100_0000;
    let is64 = top == 0xF9 || top == 0xF8;
    let load = field(w, 0x40_0000, 4) == 1;
    let rt = field(w, 1, 0x20);
    let rn = field(w, 0x20, 0x20);
    if field(w, 0x40_0000, 4) > 1 {
        None
    } else if top == 0xF9 || top == 0xB9 {
        let scale = if is64 {
            8int
        } else {
            4
        };
        let offset = field(w, 0x400, 0x1000) * scale;
        Some(Access { load, is64, rt, rn, offset, mode: IndexMode::SignedOffset })
    } else if (top == 0xF8 || top == 0xB8) && field(w, 0x20_0000, 2) == 0 {
        let offset = sign_extended(field(w, 0x1000, 0x200), 0x200);
        let way = field(w, 0x400, 4);
        if way == 0 {
            Some(Access { load, is64, rt, rn, offset, mode: IndexMode::SignedOffset })
        } else if way == 1 {
            Some(Access { load, is64, rt, rn, offset, mode: IndexMode::PostAdjust })
        } else if way == 3 {
            Some(Access { load, is64, rt, rn, offset, mode: IndexMode::PreAdjust })
        } else {
            None
        }
    } else {
        None
    }
}

proof fn lemma_scaled(load: bool, is64: bool, imm: int, rn: int, rt: int, w: u32)
    requires
        0 <= imm < 0x1000,
        0 <= rn < 32,
        0 <= rt < 32,
        w == (if is64 {
            0xF9int
        } else {
            0xB9
        }) * 0x100_0000 + (if load {
            0x40_0000int
        } else {
            0
        }) + imm * 0x400 + rn * 0x20 + rt,
    ensures
        access_of(w) == Some(
            Access {
                load,
                is64,
                rt,
                rn,
                offset: imm * if is64 {
                    8int
                } else {
                    4
                },
                mode: IndexMode::SignedOffset,
            },
        ),
{
    let l = if load {
        1int
    } else {
        0
    };
    let t = if is64 {
        0xF9int
    } else {
        0xB9
    };
    lemma_two(w, t * 4 + l, imm, rn, rt);
    lemma_top(w, t, l);
}

proof fn lemma_top(w: u32, t: int, l: int)
    requires
        0 <= l < 4,
        w as int / 0x40_0000 == t * 4 + l,
    ensures
        w as int / 0x100_0000 == t,
        field(w, 0x40_0000, 4) == l,
{
    let x = w as int;
    assert(x / 0x100_0000 == (x / 0x40_0000) / 4);
}

proof fn lemma_signed_fields(w: u32, t: int, l: int, imm: int, way: int, rn: int, rt: int)
    requires
        0 <= t,
        0 <= l < 2,
        0 <= imm < 0x200,
        0 <= way < 4,
        0 <= rn < 32,
        0 <= rt < 32,
        w == t * 0x100_0000 + l * 0x40_0000 + imm * 0x1000 + way * 0x400 + rn * 0x20 + rt,
    ensures
        w as int / 0x100_0000 == t,
        field(w, 0x1000, 0x200) == imm,
        field(w, 0x400, 4) == way,
        field(w, 0x20_0000, 2) == 0,
        field(w, 0x40_0000, 4) == l,
        field(w, 0x20, 0x20) == rn,
        field(w, 1, 0x20) == rt,
{
    let x = w as int;
    assert(x / 0x20 == t * 0x8_0000 + l * 0x2_0000 + imm * 0x80 + way * 0x20 + rn);
    assert(x / 0x400 == t * 0x4000 + l * 0x1000 + imm * 4 + way);
    assert(x / 0x1000 == t * 0x1000 + l * 0x400 + imm);
    assert(x / 0x20_0000 == t * 8 + l * 2);
    assert(x / 0x40_0000 == t * 4 + l);
}

proof fn lemma_signed(load: bool, is64: bool, offset: int, way: int, rn: int, rt: int, w: u32)
    requires
        -0x100 <= offset < 0x100,
        way == 0 || way == 1 || way == 3,
        0 <= rn < 32,
        0 <= rt < 32,
        w == (if is64 {
            0xF8int
        } else {
            0xB8
        }) * 0x100_0000 + (if load {
            0x40_0000int
        } else {
            0
        }) + (offset % 0x200) * 0x1000 + way * 0x400 + rn * 0x20 + rt,
    ensures
        access_of(w) == Some(
            Access {
                load,
                is64,
                rt,
                rn,
                offset,
                mode: if way == 0 {
                    IndexMode::SignedOffset
                } else if way == 1 {
                    IndexMode::PostAdjust
                } else {
                    IndexMode::PreAdjust
                },
            },
        ),
{
    let l = if load {
        1int
    } else {
        0
    };
    let imm = offset % 0x200;
    let t = if is64 {
        0xF8int
    } else {
        0xB8
    };
    lemma_signed_fields(w, t, l, imm, way, rn, rt);
    assert(sign_extended(imm, 0x200) == offset);
}

/// An offset that an instruction can hold: a multiple of the register's size up to 4095 of them,
/// or one of 9 bits with a sign.
pub open spec fn offset_fits(is64: bool, offset: int) -> bool {
    let scale = if is64 {
        8int
    } else {
        4
    };
    -0x100 <= offset < 0x100 || (0 <= offset <= 0xFFF * scale && offset % scale == 0)
}

proof fn lemma_offset(load: bool, is64: bool, rt: u8, rn: u8, offset: int, mode: IndexMode)
    requires
        rt < 32,
        rn < 32,
        offset_fits(is64, offset),
        mode != IndexMode::SignedOffset ==> -0x100 <= offset < 0x100 && !load,
    ensures
        access_of(
            offset_word(
                if load {
                    0xB940_0000
                } else {
                    0xB900_0000
                },
                if load {
                    0xB840_0000
                } else {
                    0xB800_0000
                },
                0xB800_0000,
                is64,
                rt,
                rn,
                offset,
                mode,
            ),
        ) == Some(Access { load, is64, rt: rt as int, rn: rn as int, offset, mode }),
{
    let base: u32 = if load {
        0xB940_0000
    } else {
        0xB900_0000
    };
    let unscaled: u32 = if load {
        0xB840_0000
    } else {
        0xB800_0000
    };
    let w = offset_word(base, unscaled, 0xB800_0000, is64, rt, rn, offset, mode);
    let scale = if is64 {
        8int
    } else {
        4
    };
    if mode == IndexMode::SignedOffset {
        if offset >= 0 && offset % scale == 0 && offset / scale <= 0xFFF {
            lemma_scaled(load, is64, offset / scale, rn as int, rt as int, w);
        } else {
            lemma_signed(load, is64, offset, 0, rn as int, rt as int, w);
        }
    } else {
        lemma_signed(load, is64, offset, mode_bits(mode), rn as int, rt as int, w);
    }
}

/// A store puts a register at an address and an offset, in the way that was asked for.
pub proof fn law_store_is_written(
    w: &mut Arm64Writer,
    src: Reg,
    dst: Reg,
    offset: i32,
    mode: IndexMode,
    r: Result<(), WriterError>,
)
    requires
        call_ensures(Arm64Writer::put_str_reg_reg_offset, (w, src, dst, offset, mode), r),
        src.n < 32,
        dst.n < 32,
        offset_fits(src.is64, offset as int),
        mode != IndexMode::SignedOffset ==> -0x100 <= offset < 0x100,
    ensures
        r is Ok,
        one_word(old(w)@, final(w)@),
        access_of(new_word(old(w)@, final(w)@)) == Some(
            Access {
                load: false,
                is64: src.is64,
                rt: src.n as int,
                rn: dst.n as int,
                offset: offset as int,
                mode,
            },
        ),
{
    lemma_offset(false, src.is64, src.n, dst.n, offset as int, mode);
    lemma_one_word(
        old(w)@,
        final(w)@,
        offset_word(
            0xB900_0000,
            0xB800_0000,
            0xB800_0000,
            src.is64,
            src.n,
            dst.n,
            offset as int,
            mode,
        ),
    );
}

/// A load takes a register from an address and an offset.
pub proof fn law_load_is_written(
    w: &mut Arm64Writer,
    dst: Reg,
    src: Reg,
    offset: i32,
    r: Result<(), WriterError>,
)
    requires
        call_ensures(
            Arm64Writer::put_ldr_reg_reg_offset,
            (w, dst, src, offset, IndexMode::SignedOffset),
            r,
        ),
        src.n < 32,
        dst.n < 32,
        offset_fits(dst.is64, offset as int),
    ensures
        r is Ok,
        one_word(old(w)@, final(w)@),
        access_of(new_word(old(w)@, final(w)@)) == Some(
            Access {
                load: true,
                is64: dst.is64,
                rt: dst.n as int,
                rn: src.n as int,
                offset: offset as int,
                mode: IndexMode::SignedOffset,
            },
        ),
{
    lemma_offset(true, dst.is64, dst.n, src.n, offset as int, IndexMode::SignedOffset);
    lemma_one_word(
        old(w)@,
        final(w)@,
        offset_word(
            0xB940_0000,
            0xB840_0000,
            0xB800_0000,
            dst.is64,
            dst.n,
            src.n,
            offset as int,
            IndexMode::SignedOffset,
        ),
    );
}

/// What a word that moves a pair of registers does.
pub struct PairAccess {
    pub load: bool,
    /// The size of each.
    pub size: int,
    pub vector: bool,
    pub first: int,
    pub second: int,
    pub rn: int,
    pub offset: int,
    pub mode: IndexMode,
}

/// What a word does to memory with a pair of registers, as the processor reads it.
pub open spec fn pair_of(w: u32) -> Option<PairAccess> {
    let size = field(w, 0x4000_0000, 4);
    let vector = field(w, 0x400_0000, 2) == 1;
    let way = field(w, 0x80_0000, 8);
    let bytes = if vector {
        4 * if size == 0 {
            1int
        } else if size == 1 {
            2
        } else {
            4
        }
    } else if size == 0 {
        4
    } else {
        8
    };
    let offset = sign_extended(field(w, 0x8000, 0x80), 0x80) * bytes;
    if field(w, 0x800_0000, 8) != 5 || way == 0 || way > 3 {
        None
    } else {
        Some(
            PairAccess {
                load: field(w, 0x40_0000, 2) == 1,
                size: bytes,
                vector,
                first: field(w, 1, 0x20),
                second: field(w, 0x400, 0x20),
                rn: field(w, 0x20, 0x20),
                offset,
                mode: if way == 1 {
                    IndexMode::PostAdjust
                } else if way == 2 {
                    IndexMode::SignedOffset
                } else {
                    IndexMode::PreAdjust
                },
            },
        )
    }
}

proof fn lemma_pair_bits(w: u32, op: int, v: int, m: int, l: int, i: int, b: int, n: int, a: int)
    requires
        op == 0 || op == 2,
        0 <= v < 2,
        0 < m < 4,
        0 <= l < 2,
        0 <= i < 0x80,
        0 <= b < 32,
        0 <= n < 32,
        0 <= a < 32,
        w == op * 0x4000_0000 + 0x2800_0000 + v * 0x400_0000 + m * 0x80_0000 + l * 0x40_0000 + i
            * 0x8000 + b * 0x400 + n * 0x20 + a,
    ensures
        field(w, 0x4000_0000, 4) == op,
        field(w, 0x800_0000, 8) == 5,
        field(w, 0x400_0000, 2) == v,
        field(w, 0x80_0000, 8) == m,
        field(w, 0x40_0000, 2) == l,
        field(w, 0x8000, 0x80) == i,
        field(w, 0x400, 0x20) == b,
        field(w, 0x20, 0x20) == n,
        field(w, 1, 0x20) == a,
{
    let x = w as int;
    assert(x / 0x20 == op * 0x200_0000 + 0x140_0000 + v * 0x20_0000 + m * 0x4_0000 + l * 0x2_0000
        + i * 0x400 + b * 0x20 + n);
    assert(x / 0x400 == op * 0x10_0000 + 0xA_0000 + v * 0x1_0000 + m * 0x2000 + l * 0x1000 + i
        * 0x20 + b);
    assert(x / 0x8000 == op * 0x8000 + 0x5000 + v * 0x800 + m * 0x100 + l * 0x80 + i);
    assert(x / 0x40_0000 == op * 0x100 + 0xA0 + v * 0x10 + m * 2 + l);
    assert(x / 0x80_0000 == op * 0x80 + 0x50 + v * 8 + m);
    assert(x / 0x400_0000 == op * 0x10 + 0xA + v);
    assert(x / 0x800_0000 == op * 8 + 5);
    assert(x / 0x4000_0000 == op);
}

proof fn lemma_pair(load: bool, a: Reg, b: Reg, base: Reg, offset: int, mode: IndexMode)
    requires
        a.n < 32,
        b.n < 32,
        base.n < 32,
        a.is_vec ==> a.is64,
        offset % a.width() == 0,
        -64 * a.width() <= offset < 64 * a.width(),
    ensures
        pair_of(pair_word(load, a, b, base, offset, mode)) == Some(
            PairAccess {
                load,
                size: a.width(),
                vector: a.is_vec,
                first: a.n as int,
                second: b.n as int,
                rn: base.n as int,
                offset,
                mode,
            },
        ),
{
    let w = pair_word(load, a, b, base, offset, mode);
    let op = if a.is_vec || a.is64 {
        2int
    } else {
        0
    };
    let v = if a.is_vec {
        1int
    } else {
        0
    };
    let l = if load {
        1int
    } else {
        0
    };
    let count = offset / a.width();
    assert(-64 <= count < 64 && count * a.width() == offset);
    let i = count % 0x80;
    lemma_pair_bits(w, op, v, mode_bits(mode), l, i, b.n as int, base.n as int, a.n as int);
    assert(sign_extended(i, 0x80) == count);
}

/// A pair of registers is stored where it was asked for, the first at the lower address.
pub proof fn law_pair_store_is_written(
    w: &mut Arm64Writer,
    a: Reg,
    b: Reg,
    dst: Reg,
    offset: i32,
    mode: IndexMode,
    r: Result<(), WriterError>,
)
    requires
        call_ensures(Arm64Writer::put_stp_reg_reg_reg_offset, (w, a, b, dst, offset, mode), r),
        a.n < 32,
        b.n < 32,
        dst.n < 32,
        a.is_vec ==> a.is64,
    ensures
        r is Ok <==> a.is_vec == b.is_vec && a.is64 == b.is64 && offset as int % a.width() == 0
            && -64 * a.width() <= offset < 64 * a.width(),
        r is Err ==> final(w)@ == old(w)@,
        r is Ok ==> one_word(old(w)@, final(w)@) && pair_of(new_word(old(w)@, final(w)@)) == Some(
            PairAccess {
                load: false,
                size: a.width(),
                vector: a.is_vec,
                first: a.n as int,
                second: b.n as int,
                rn: dst.n as int,
                offset: offset as int,
                mode,
            },
        ),
{
    if r is Ok {
        lemma_pair(false, a, b, dst, offset as int, mode);
        lemma_one_word(old(w)@, final(w)@, pair_word(false, a, b, dst, offset as int, mode));
    }
}

/// A pair of registers is loaded from where it was asked for.
pub proof fn law_pair_load_is_written(
    w: &mut Arm64Writer,
    a: Reg,
    b: Reg,
    src: Reg,
    offset: i32,
    mode: IndexMode,
    r: Result<(), WriterError>,
)
    requires
        call_ensures(Arm64Writer::put_ldp_reg_reg_reg_offset, (w, a, b, src, offset, mode), r),
        a.n < 32,
        b.n < 32,
        src.n < 32,
        a.is_vec ==> a.is64,
    ensures
        r is Ok <==> a.is_vec == b.is_vec && a.is64 == b.is64 && offset as int % a.width() == 0
            && -64 * a.width() <= offset < 64 * a.width(),
        r is Err ==> final(w)@ == old(w)@,
        r is Ok ==> one_word(old(w)@, final(w)@) && pair_of(new_word(old(w)@, final(w)@)) == Some(
            PairAccess {
                load: true,
                size: a.width(),
                vector: a.is_vec,
                first: a.n as int,
                second: b.n as int,
                rn: src.n as int,
                offset: offset as int,
                mode,
            },
        ),
{
    if r is Ok {
        lemma_pair(true, a, b, src, offset as int, mode);
        lemma_one_word(old(w)@, final(w)@, pair_word(true, a, b, src, offset as int, mode));
    }
}

/// A push stores a pair below SP and moves SP there; a pop of the same pair undoes it.
pub proof fn law_push_and_pop(a: Reg, b: Reg)
    requires
        a.n < 32,
        b.n < 32,
        a.is_vec ==> a.is64,
    ensures
        pair_of(crate::writer::push_word(a, b)) matches Some(p) && pair_of(
            crate::writer::pop_word(a, b),
        ) matches Some(q) && {
            &&& !p.load
            &&& q.load
            &&& p.rn == 31
            &&& q.rn == 31
            &&& p.first == q.first
            &&& p.second == q.second
            &&& p.first == a.n
            &&& p.second == b.n
            &&& p.size == q.size
            &&& p.mode == IndexMode::PreAdjust
            &&& q.mode == IndexMode::PostAdjust
            &&& p.offset == -2 * p.size
            &&& q.offset == 2 * q.size
        },
{
    let sp = Reg { n: 31, is64: true, is_vec: false };
    lemma_pair(false, a, b, sp, -2 * a.width(), IndexMode::PreAdjust);
    lemma_pair(true, a, b, sp, 2 * a.width(), IndexMode::PostAdjust);
}

/// Whether code at a place loads a register with a number that stands behind it, and goes on
/// behind the number.
pub open spec fn loads_number(code: Seq<u8>, at: int, reg: int, val: u64) -> bool {
    &&& at + 16 <= code.len()
    &&& word_at(code, at) as int / 0x100_0000 == 0x58
    &&& field(word_at(code, at), 0x20, 0x8_0000) * 4 == 8
    &&& field(word_at(code, at), 1, 0x20) == reg
    &&& word_at(code, at + 4) as int / 0x400_0000 == 5
    &&& field(word_at(code, at + 4), 1, 0x400_0000) * 4 == 12
    &&& quad_at(code, at + 8) == val
}

proof fn lemma_loads_number(before: Seq<u8>, reg: Reg, val: u64, behind: Seq<u8>)
    requires
        reg.n < 32,
    ensures
        loads_number(before + ldr_u64(reg, val) + behind, before.len() as int, reg.n as int, val),
        ldr_u64(reg, val).len() == 16,
{
    let a: u32 = (0x5800_0040 + reg.n % 32) as u32;
    let b: u32 = 0x1400_0003;
    let code = before + ldr_u64(reg, val) + behind;
    law_word_round_trip(before, a, le32(b) + le64(val) + behind);
    assert(code =~= before + le32(a) + (le32(b) + le64(val) + behind));
    law_word_round_trip(before + le32(a), b, le64(val) + behind);
    assert(code =~= before + le32(a) + le32(b) + (le64(val) + behind));
    law_quad_round_trip(before + le32(a) + le32(b), val, behind);
    assert(code =~= before + le32(a) + le32(b) + le64(val) + behind);
}

/// A register is loaded with a number.
pub proof fn law_number_is_loaded(
    w: &mut Arm64Writer,
    reg: Reg,
    val: u64,
    r: Result<(), WriterError>,
)
    requires
        call_ensures(Arm64Writer::put_ldr_reg_u64, (w, reg, val), r),
        reg.n < 32,
    ensures
        r is Ok,
        final(w)@.code.len() == old(w)@.code.len() + 16,
        loads_number(final(w)@.code, old(w)@.code.len() as int, reg.n as int, val),
{
    lemma_loads_number(old(w)@.code, reg, val, Seq::empty());
    assert(final(w)@.code =~= old(w)@.code + ldr_u64(reg, val) + Seq::<u8>::empty());
}

/// Sixteen bits of a register are set, at the place that was asked for.
pub proof fn law_bits_are_set(
    w: &mut Arm64Writer,
    reg: Reg,
    imm: u16,
    shift: u8,
    r: Result<(), WriterError>,
)
    requires
        call_ensures(Arm64Writer::put_movk_reg_imm, (w, reg, imm, shift), r),
        reg.n < 32,
        shift == 0 || shift == 16 || shift == 32 || shift == 48,
    ensures
        r is Ok,
        one_word(old(w)@, final(w)@),
        ({
            let v = new_word(old(w)@, final(w)@);
            &&& v as int / 0x80_0000 == 0xE5 + if reg.is64 {
                0x100int
            } else {
                0
            }
            &&& field(v, 0x20_0000, 4) * 16 == shift
            &&& field(v, 0x20, 0x1_0000) == imm
            &&& field(v, 1, 0x20) == reg.n
        }),
{
    lemma_movk(reg, imm, shift);
    lemma_one_word(old(w)@, final(w)@, movk_word(reg, imm, shift));
}

proof fn lemma_movk(reg: Reg, imm: u16, shift: u8)
    requires
        reg.n < 32,
        shift == 0 || shift == 16 || shift == 32 || shift == 48,
    ensures
        ({
            let v = movk_word(reg, imm, shift);
            &&& v as int / 0x80_0000 == 0xE5 + if reg.is64 {
                0x100int
            } else {
                0
            }
            &&& field(v, 0x20_0000, 4) * 16 == shift
            &&& field(v, 0x20, 0x1_0000) == imm
            &&& field(v, 1, 0x20) == reg.n
        }),
{
    let v = movk_word(reg, imm, shift);
    let hw = shift as int / 16;
    let top = 0xE5 + if reg.is64 {
        0x100int
    } else {
        0
    };
    assert(reg.n % 32 == reg.n);
    assert(v == top * 0x80_0000 + hw * 0x20_0000 + imm * 0x20 + reg.n);
    lemma_wide_fields(v, top, hw, imm as int, reg.n as int);
}

proof fn lemma_wide_fields(v: u32, top: int, hw: int, imm: int, d: int)
    requires
        0 <= top,
        0 <= hw < 4,
        0 <= imm < 0x1_0000,
        0 <= d < 32,
        v == top * 0x80_0000 + hw * 0x20_0000 + imm * 0x20 + d,
    ensures
        v as int / 0x80_0000 == top,
        field(v, 0x20_0000, 4) == hw,
        field(v, 0x20, 0x1_0000) == imm,
        field(v, 1, 0x20) == d,
{
    let x = v as int;
    assert(x / 0x20 == top * 0x4_0000 + hw * 0x1_0000 + imm);
    assert(x / 0x20_0000 == top * 4 + hw);
}

proof fn lemma_ubfm(dst: Reg, src: Reg, immr: u8, imms: u8)
    requires
        dst.n < 32,
        src.n < 32,
        immr < 64,
        imms < 64,
    ensures
        ({
            let w = ubfm_word(dst, src, immr, imms);
            &&& field(w, 0x1_0000, 0x40) == immr
            &&& field(w, 0x400, 0x40) == imms
            &&& field(w, 0x20, 0x20) == src.n
            &&& field(w, 1, 0x20) == dst.n
            &&& w as int / 0x40_0000 == if dst.is64 {
                0x34Dint
            } else {
                0x14C
            }
        }),
{
    let w = ubfm_word(dst, src, immr, imms);
    let base: u32 = if dst.is64 {
        0xD340_0000u32
    } else {
        0x5300_0000u32
    };
    let r = immr as u32;
    let s = imms as u32;
    let n = (src.n % 32) as u32;
    let d = (dst.n % 32) as u32;
    assert(w == base | (r << 16) | (s << 10) | (n << 5) | d);
    assert(base | (r << 16) | (s << 10) | (n << 5) | d == base + r * 0x1_0000 + s * 0x400 + n * 0x20
        + d) by (bit_vector)
        requires
            base == 0xD340_0000u32 || base == 0x5300_0000u32,
            r < 64,
            s < 64,
            n < 32,
            d < 32,
    ;
    let x = w as int;
    assert(x / 0x20 == base / 0x20 + r * 0x800 + s * 0x20 + n);
    assert(x / 0x400 == base / 0x400 + r * 0x40 + s);
    assert(x / 0x1_0000 == base / 0x1_0000 + r);
}

/// A shift to the left moves all but the highest bits up by what was asked for, a shift to the
/// right all but the lowest down: as the processor reads the fields of a bit-field move, the
/// highest bit that is taken and how far it goes.
pub proof fn law_left_shift_is_written(
    w: &mut Arm64Writer,
    dst: Reg,
    src: Reg,
    shift: u8,
    r: Result<(), WriterError>,
)
    requires
        call_ensures(Arm64Writer::put_lsl_reg_imm, (w, dst, src, shift), r),
        dst.n < 32,
        src.n < 32,
    ensures
        ({
            let size = if dst.is64 {
                64int
            } else {
                32
            };
            let v = new_word(old(w)@, final(w)@);
            let rotate = field(v, 0x1_0000, 0x40);
            let highest = field(v, 0x400, 0x40);
            &&& r is Ok <==> shift < size && dst.is64 == src.is64
            &&& r is Err ==> final(w)@ == old(w)@
            &&& r is Ok ==> {
                &&& one_word(old(w)@, final(w)@)
                &&& (rotate + shift) % size == 0
                &&& highest + shift == size - 1
                &&& rotate < size
                &&& field(v, 0x20, 0x20) == src.n
                &&& field(v, 1, 0x20) == dst.n
            }
        }),
{
    let size = if dst.is64 {
        64int
    } else {
        32
    };
    if r is Ok {
        let immr = ((size - shift) % size) as u8;
        let imms = (size - 1 - shift) as u8;
        lemma_ubfm(dst, src, immr, imms);
        lemma_one_word(old(w)@, final(w)@, ubfm_word(dst, src, immr, imms));
        if shift == 0 {
            assert(size % size == 0);
        } else {
            assert((size - shift) % size == size - shift);
            assert(size % size == 0);
        }
    }
}

/// A shift to the right takes the bits from the one that was asked for up to the highest.
pub proof fn law_right_shift_is_written(
    w: &mut Arm64Writer,
    dst: Reg,
    src: Reg,
    shift: u8,
    r: Result<(), WriterError>,
)
    requires
        call_ensures(Arm64Writer::put_lsr_reg_imm, (w, dst, src, shift), r),
        dst.n < 32,
        src.n < 32,
    ensures
        ({
            let size = if dst.is64 {
                64int
            } else {
                32
            };
            let v = new_word(old(w)@, final(w)@);
            &&& r is Ok <==> shift < size && dst.is64 == src.is64
            &&& r is Err ==> final(w)@ == old(w)@
            &&& r is Ok ==> {
                &&& one_word(old(w)@, final(w)@)
                &&& field(v, 0x1_0000, 0x40) == shift
                &&& field(v, 0x400, 0x40) == size - 1
                &&& field(v, 0x20, 0x20) == src.n
                &&& field(v, 1, 0x20) == dst.n
            }
        }),
{
    let size = if dst.is64 {
        64int
    } else {
        32
    };
    if r is Ok {
        lemma_ubfm(dst, src, shift, (size - 1) as u8);
        lemma_one_word(old(w)@, final(w)@, ubfm_word(dst, src, shift, (size - 1) as u8));
    }
}

/// A branch that is written goes to its address, or is refused where it does not reach it.
pub proof fn law_branch_is_written(w: &mut Arm64Writer, address: u64, r: Result<(), WriterError>)
    requires
        call_ensures(Arm64Writer::put_b_imm, (w, address), r),
        delta(old(w)@.next_pc(), address) % 4 == 0,
    ensures
        r is Ok ==> one_word(old(w)@, final(w)@) && a64_kind(
            old(w)@.next_pc(),
            new_word(old(w)@, final(w)@),
        ) == (InsnKind::Branch { target: address, link: false }),
        r is Err ==> final(w)@ == old(w)@,
        r is Ok <==> branch_reaches(old(w)@.next_pc(), address),
{
    if r is Ok {
        law_branch_round_trip(old(w)@.next_pc(), address);
        lemma_one_word(old(w)@, final(w)@, crate::encode::b_word(old(w)@.next_pc(), address));
    }
}

/// A call that is written goes to its address and comes back.
pub proof fn law_call_is_written(w: &mut Arm64Writer, address: u64, r: Result<(), WriterError>)
    requires
        call_ensures(Arm64Writer::put_bl_imm, (w, address), r),
        delta(old(w)@.next_pc(), address) % 4 == 0,
    ensures
        r is Ok ==> one_word(old(w)@, final(w)@) && a64_kind(
            old(w)@.next_pc(),
            new_word(old(w)@, final(w)@),
        ) == (InsnKind::Branch { target: address, link: true }),
        r is Err ==> final(w)@ == old(w)@,
{
    if r is Ok {
        law_branch_round_trip(old(w)@.next_pc(), address);
        lemma_one_word(old(w)@, final(w)@, crate::encode::bl_word(old(w)@.next_pc(), address));
    }
}

/// A branch on a register that is zero, or not, goes to its address.
pub proof fn law_zero_branch_is_written(
    w: &mut Arm64Writer,
    reg: Reg,
    target: u64,
    nonzero: bool,
    r: Result<(), WriterError>,
)
    requires
        call_ensures(Arm64Writer::put_cbz_reg_imm, (w, reg, target, nonzero), r),
        reg.n < 32,
        -0x10_0000 <= delta(old(w)@.next_pc(), target) < 0x10_0000,
        delta(old(w)@.next_pc(), target) % 4 == 0,
    ensures
        one_word(old(w)@, final(w)@),
        a64_kind(old(w)@.next_pc(), new_word(old(w)@, final(w)@)) == (InsnKind::CompareBranch {
            target,
            reg: reg.n,
            nonzero,
            is64: reg.is64,
        }),
{
    let pc = old(w)@.next_pc();
    law_conditional_round_trip(Cond::Eq, reg.n, nonzero, reg.is64, pc, target);
    lemma_one_word(
        old(w)@,
        final(w)@,
        crate::encode::cbz_word(reg.n, nonzero, reg.is64, pc, target),
    );
}

/// A branch on a bit of a register goes to its address.
pub proof fn law_bit_branch_is_written(
    w: &mut Arm64Writer,
    reg: Reg,
    bit: u8,
    target: u64,
    nonzero: bool,
    r: Result<(), WriterError>,
)
    requires
        call_ensures(Arm64Writer::put_tbz_reg_imm_imm, (w, reg, bit, target, nonzero), r),
        reg.n < 32,
        bit < 64,
        -0x8000 <= delta(old(w)@.next_pc(), target) < 0x8000,
        delta(old(w)@.next_pc(), target) % 4 == 0,
    ensures
        one_word(old(w)@, final(w)@),
        a64_kind(old(w)@.next_pc(), new_word(old(w)@, final(w)@)) == (InsnKind::TestBranch {
            target,
            reg: reg.n,
            bit,
            nonzero,
        }),
{
    let pc = old(w)@.next_pc();
    law_test_branch_round_trip(reg.n, bit, nonzero, pc, target);
    lemma_one_word(old(w)@, final(w)@, crate::encode::tbz_word(reg.n, bit, nonzero, pc, target));
}

/// An address is made in a register: whole, or its page.
pub proof fn law_page_address_is_written(
    w: &mut Arm64Writer,
    reg: Reg,
    address: u64,
    r: Result<(), WriterError>,
)
    requires
        call_ensures(Arm64Writer::put_adrp_reg_address, (w, reg, address), r),
        reg.n < 32,
        -0x10_0000 <= page_delta(old(w)@.next_pc(), address) < 0x10_0000,
    ensures
        one_word(old(w)@, final(w)@),
        a64_kind(old(w)@.next_pc(), new_word(old(w)@, final(w)@)) == (InsnKind::PcRelAddr {
            rd: reg.n,
            target: (address - address % 0x1000) as u64,
            is_page: true,
        }),
{
    let pc = old(w)@.next_pc();
    law_address_round_trip(reg.n, pc, address);
    lemma_one_word(old(w)@, final(w)@, crate::encode::adrp_word(reg.n, pc, address));
}

/// A near address is made in a register.
pub proof fn law_near_address_is_written(
    w: &mut Arm64Writer,
    reg: Reg,
    address: u64,
    r: Result<(), WriterError>,
)
    requires
        call_ensures(Arm64Writer::put_adr_reg_address, (w, reg, address), r),
        reg.n < 32,
    ensures
        r is Ok ==> one_word(old(w)@, final(w)@) && a64_kind(
            old(w)@.next_pc(),
            new_word(old(w)@, final(w)@),
        ) == (InsnKind::PcRelAddr { rd: reg.n, target: address, is_page: false }),
        r is Err ==> final(w)@ == old(w)@,
{
    if r is Ok {
        let pc = old(w)@.next_pc();
        law_address_round_trip(reg.n, pc, address);
        lemma_one_word(old(w)@, final(w)@, crate::encode::adr_word(reg.n, pc, address));
    }
}

/// Branches to where a register says.
pub proof fn law_register_branch_is_written(
    w: &mut Arm64Writer,
    v: &mut Arm64Writer,
    u: &mut Arm64Writer,
    reg: Reg,
    r: Result<(), WriterError>,
)
    requires
        call_ensures(Arm64Writer::put_br_reg, (w, reg), r),
        call_ensures(Arm64Writer::put_blr_reg, (v, reg), r),
        call_ensures(Arm64Writer::put_ret_reg, (u, reg), r),
        reg.n < 32,
    ensures
        ({
            let br = new_word(old(w)@, final(w)@);
            let blr = new_word(old(v)@, final(v)@);
            let ret = new_word(old(u)@, final(u)@);
            &&& one_word(old(w)@, final(w)@)
            &&& one_word(old(v)@, final(v)@)
            &&& one_word(old(u)@, final(u)@)
            &&& br as int / 0x400 == 0x3587C0
            &&& blr as int / 0x400 == 0x358FC0
            &&& ret as int / 0x400 == 0x3597C0
            &&& field(br, 0x20, 0x20) == reg.n
            &&& field(blr, 0x20, 0x20) == reg.n
            &&& field(ret, 0x20, 0x20) == reg.n
            &&& field(br, 1, 0x20) == 0
            &&& field(blr, 1, 0x20) == 0
            &&& field(ret, 1, 0x20) == 0
        }),
{
    let n = reg.n as int;
    lemma_register_word((0xD61F_0000 + reg.n * 0x20) as u32, 0x3587C0, n);
    lemma_register_word((0xD63F_0000 + reg.n * 0x20) as u32, 0x358FC0, n);
    lemma_register_word((0xD65F_0000 + reg.n * 0x20) as u32, 0x3597C0, n);
    lemma_one_word(old(w)@, final(w)@, (0xD61F_0000 + reg.n * 0x20) as u32);
    lemma_one_word(old(v)@, final(v)@, (0xD63F_0000 + reg.n * 0x20) as u32);
    lemma_one_word(old(u)@, final(u)@, (0xD65F_0000 + reg.n * 0x20) as u32);
}

proof fn lemma_register_word(w: u32, top: int, n: int)
    requires
        0 <= n < 32,
        w == top * 0x400 + n * 0x20,
    ensures
        w as int / 0x400 == top,
        field(w, 0x20, 0x20) == n,
        field(w, 1, 0x20) == 0,
{
    let x = w as int;
    assert(x / 0x20 == top * 0x20 + n);
}

/// The arguments of a call are put into the registers of their places: an address as a number, a
/// register by a move.
pub proof fn law_argument_is_set(arg: CallArg, i: int)
    requires
        0 <= i < 31,
        arg matches CallArg::Register(src) ==> src.n < 32 && src.is64,
    ensures
        arg matches CallArg::Address(a) ==> arg_setup(arg, i).len() == 16 && loads_number(
            arg_setup(arg, i),
            0,
            i,
            a,
        ),
        arg matches CallArg::Register(src) ==> (src.n == i ==> arg_setup(arg, i).len() == 0) && (
        src.n != i ==> arg_setup(arg, i).len() == 4 && combines(
            word_at(arg_setup(arg, i), 0),
            0x2A,
            true,
            i as u8,
            31,
            src.n,
        )),
{
    match arg {
        CallArg::Address(a) => {
            lemma_address_argument(a, i);
        },
        CallArg::Register(src) => {
            lemma_register_argument(src, i);
        },
    }
}

proof fn lemma_address_argument(a: u64, i: int)
    requires
        0 <= i < 31,
    ensures
        arg_setup(CallArg::Address(a), i).len() == 16,
        loads_number(arg_setup(CallArg::Address(a), i), 0, i, a),
{
    let none = Seq::<u8>::empty();
    let dst = file_reg(false, i % 256);
    assert(dst.n == i);
    lemma_loads_number(none, dst, a, none);
    assert(none + ldr_u64(dst, a) + none =~= arg_setup(CallArg::Address(a), i));
}

proof fn lemma_register_argument(src: Reg, i: int)
    requires
        0 <= i < 31,
        src.n < 32,
        src.is64,
    ensures
        src.n == i ==> arg_setup(CallArg::Register(src), i).len() == 0,
        src.n != i ==> arg_setup(CallArg::Register(src), i).len() == 4 && combines(
            word_at(arg_setup(CallArg::Register(src), i), 0),
            0x2A,
            true,
            i as u8,
            31,
            src.n,
        ),
{
    let none = Seq::<u8>::empty();
    let dst = file_reg(false, i % 256);
    assert(dst.n == i);
    if src.n != i {
        let w = rrr_word(0x2A00_0000, true, dst.n, 31, src.n);
        lemma_rrr(0x2A, 0x2A00_0000, true, dst.n, 31, src.n);
        law_word_round_trip(none, w, none);
        assert(none + le32(w) + none =~= arg_setup(CallArg::Register(src), i));
    }
}

/// Every argument of a call is set up, the last one first.
pub proof fn law_arguments_are_set(args: Seq<CallArg>, i: int, k: int) -> (at: int)
    requires
        0 <= i <= k < args.len(),
    ensures
        0 <= at,
        at + arg_setup(args[k], k).len() <= args_setup(args, i).len(),
        args_setup(args, i).subrange(at, at + arg_setup(args[k], k).len()) == arg_setup(args[k], k),
        k == i ==> at + arg_setup(args[k], k).len() == args_setup(args, i).len(),
        k + 1 == args.len() ==> at == 0,
    decreases k - i,
{
    let all = args_setup(args, i);
    let later = args_setup(args, i + 1);
    let one = arg_setup(args[k], k);
    if k == i {
        let at = later.len() as int;
        assert(all.subrange(at, at + one.len()) =~= one);
        at
    } else {
        let at = law_arguments_are_set(args, i + 1, k);
        assert(all.subrange(at, at + one.len()) =~= later.subrange(at, at + one.len()));
        at
    }
}

/// A register is named by its kind and its number.
pub proof fn law_register_names(n: u8)
    requires
        n <= 30,
    ensures
        reg_named(seq!['x'] + decimal(n as nat)) == Ok::<Reg, Seq<char>>(
            Reg { n, is64: true, is_vec: false },
        ),
        reg_named(seq!['w'] + decimal(n as nat)) == Ok::<Reg, Seq<char>>(
            Reg { n, is64: false, is_vec: false },
        ),
        reg_named(seq!['q'] + decimal(n as nat)) == Ok::<Reg, Seq<char>>(
            Reg { n, is64: true, is_vec: true },
        ),
{
    lemma_named('x', n);
    lemma_named('w', n);
    lemma_named('q', n);
}

proof fn lemma_named(c: char, n: u8)
    requires
        n <= 30,
        c == 'x' || c == 'w' || c == 'q',
    ensures
        reg_named(seq![c] + decimal(n as nat)) == Ok::<Reg, Seq<char>>(
            Reg { n, is64: c != 'w', is_vec: c == 'q' },
        ),
{
    let d = decimal(n as nat);
    let s = seq![c] + d;
    law_decimal_reads_back(n as nat);
    lemma_numerals_are_words(n as nat);
    assert(is_word(s)) by {
        assert forall|i: int| 0 <= i < s.len() implies !crate::text::is_space(#[trigger] s[i]) by {
            if i > 0 {
                assert(s[i] == d[i - 1]);
            }
        }
    }
    lemma_trimmed_word(s);
    assert(lowered(s) =~= s) by {
        assert forall|i: int| 0 <= i < s.len() implies crate::text::lower(#[trigger] s[i]) == s[i] by {
            if i > 0 {
                assert(is_digit(d[i - 1]));
            }
        }
    }
    assert(s.skip(1) =~= d);
    assert(s[1] == d[0]);
    assert(is_digit(s[1]));
    reveal_strlit("sp");
    reveal_strlit("wsp");
    reveal_strlit("lr");
    reveal_strlit("fp");
    reveal_strlit("xzr");
    reveal_strlit("wzr");
    reveal_strlit("ip0");
    reveal_strlit("ip1");
    reveal_strlit("nzcv");
    assert(s != "sp"@ && s != "wsp"@ && s != "lr"@ && s != "fp"@ && s != "xzr"@ && s != "wzr"@ && s
        != "ip0"@ && s != "ip1"@ && s != "nzcv"@) by {
        assert("sp"@[1] == 'p');
        assert("wsp"@[1] == 's');
        assert("lr"@[1] == 'r');
        assert("fp"@[1] == 'p');
        assert("xzr"@[1] == 'z');
        assert("wzr"@[1] == 'z');
        assert("ip0"@[1] == 'p');
        assert("ip1"@[1] == 'p');
        assert("nzcv"@[1] == 'z');
    }
    lemma_special(s, d, n);
}

/// The names with a meaning of their own are those of the registers with their numbers.
proof fn lemma_special(s: Seq<char>, d: Seq<char>, n: u8)
    requires
        s.len() > 0,
        s.skip(1) == d,
        d == decimal(n as nat),
    ensures
        s == "x30"@ ==> n == 30,
        s == "x29"@ ==> n == 29,
        s == "x16"@ ==> n == 16,
        s == "x17"@ ==> n == 17,
        s == "x30"@ || s == "x29"@ || s == "x16"@ || s == "x17"@ ==> s[0] == 'x',
{
    reveal_strlit("x30");
    reveal_strlit("x29");
    reveal_strlit("x16");
    reveal_strlit("x17");
    law_decimal_reads_back(n as nat);
    law_decimal_reads_back(30);
    law_decimal_reads_back(29);
    law_decimal_reads_back(16);
    law_decimal_reads_back(17);
    assert(decimal(3) =~= seq!['3']);
    assert(decimal(2) =~= seq!['2']);
    assert(decimal(1) =~= seq!['1']);
    assert(decimal(30) =~= seq!['3', '0']);
    assert(decimal(29) =~= seq!['2', '9']);
    assert(decimal(16) =~= seq!['1', '6']);
    assert(decimal(17) =~= seq!['1', '7']);
    if s == "x30"@ {
        assert(d =~= seq!['3', '0']);
    } else if s == "x29"@ {
        assert(d =~= seq!['2', '9']);
    } else if s == "x16"@ {
        assert(d =~= seq!['1', '6']);
    } else if s == "x17"@ {
        assert(d =~= seq!['1', '7']);
    }
}

/// A register is masked by a number that is loaded into the sixteenth register first.
pub proof fn law_number_is_masked(
    w: &mut Arm64Writer,
    dst: Reg,
    left: Reg,
    imm: u64,
    r: Result<(), WriterError>,
)
    requires
        call_ensures(Arm64Writer::put_and_reg_reg_imm, (w, dst, left, imm), r),
        dst.n < 32,
        left.n < 32,
    ensures
        r is Ok,
        final(w)@.code.len() == old(w)@.code.len() + 20,
        loads_number(final(w)@.code, old(w)@.code.len() as int, 16, imm),
        combines(
            word_at(final(w)@.code, old(w)@.code.len() as int + 16),
            0x0A,
            dst.is64,
            dst.n,
            left.n,
            16,
        ),
{
    let word = rrr_word(0x0A00_0000, dst.is64, dst.n, left.n, 16);
    let reg = file_reg(false, 16);
    let before = old(w)@.code;
    let none = Seq::<u8>::empty();
    lemma_rrr(0x0A, 0x0A00_0000, dst.is64, dst.n, left.n, 16);
    lemma_loads_number(before, reg, imm, le32(word));
    assert(final(w)@.code =~= before + ldr_u64(reg, imm) + le32(word));
    law_word_round_trip(before + ldr_u64(reg, imm), word, none);
    assert(final(w)@.code =~= before + ldr_u64(reg, imm) + le32(word) + none);
}

/// A word is widened: its lower half goes to the other register, and nothing else.
pub proof fn law_word_is_widened(
    w: &mut Arm64Writer,
    dst: Reg,
    src: Reg,
    r: Result<(), WriterError>,
)
    requires
        call_ensures(Arm64Writer::put_uxtw_reg_reg, (w, dst, src), r),
        dst.n < 32,
        src.n < 32,
    ensures
        r is Ok <==> dst.is64,
        r is Err ==> final(w)@ == old(w)@,
        r is Ok ==> one_word(old(w)@, final(w)@) && ({
            let v = new_word(old(w)@, final(w)@);
            &&& v as int / 0x40_0000 == 0x34D
            &&& field(v, 0x1_0000, 0x40) == 0
            &&& field(v, 0x400, 0x40) == 31
            &&& field(v, 0x20, 0x20) == src.n
            &&& field(v, 1, 0x20) == dst.n
        }),
{
    if r is Ok {
        let v = (0xD340_7C00 + src.n * 0x20 + dst.n) as u32;
        lemma_one_word(old(w)@, final(w)@, v);
        let x = v as int;
        assert(x / 0x20 == 0x69A_03E0 + src.n);
        assert(x / 0x400 == 0x34_D01F);
        assert(x / 0x1_0000 == 0xD340);
        assert(x / 0x40_0000 == 0x34D);
    }
}

/// A test against a mask holds the mask's field, or loads the mask; its result goes nowhere but
/// to the flags.
pub proof fn law_mask_is_tested(reg: Reg, imm: u64, e: u32)
    requires
        reg.n < 32,
        e < 0x2000,
    ensures
        ({
            let near = word_at(tst_bytes(reg, imm, Some(e)), 0);
            let far = tst_bytes(reg, imm, None);
            &&& tst_bytes(reg, imm, Some(e)).len() == 4
            &&& near as int / 0x80_0000 == 0xE4 + if reg.is64 {
                0x100int
            } else {
                0
            }
            &&& field(near, 0x400, 0x2000) == e
            &&& field(near, 0x20, 0x20) == reg.n
            &&& field(near, 1, 0x20) == 31
            &&& far.len() == 20
            &&& loads_number(far, 0, 16, imm)
            &&& combines(word_at(far, 16), 0x6A, reg.is64, 31, reg.n, 16)
        }),
{
    lemma_near_test(reg, imm, e);
    lemma_far_test(reg, imm);
}

proof fn lemma_near_test(reg: Reg, imm: u64, e: u32)
    requires
        reg.n < 32,
        e < 0x2000,
    ensures
        ({
            let near = word_at(tst_bytes(reg, imm, Some(e)), 0);
            &&& tst_bytes(reg, imm, Some(e)).len() == 4
            &&& near as int / 0x80_0000 == 0xE4 + if reg.is64 {
                0x100int
            } else {
                0
            }
            &&& field(near, 0x400, 0x2000) == e
            &&& field(near, 0x20, 0x20) == reg.n
            &&& field(near, 1, 0x20) == 31
        }),
{
    let none = Seq::<u8>::empty();
    let near = (sf_bit(reg.is64) + 0x7200_001F + e * 0x400 + reg.n * 0x20) as u32;
    law_word_round_trip(none, near, none);
    assert(none + le32(near) + none =~= tst_bytes(reg, imm, Some(e)));
    let top = 0xE4 + if reg.is64 {
        0x100int
    } else {
        0
    };
    lemma_test_fields(near, top, e as int, reg.n as int);
}

proof fn lemma_test_fields(w: u32, top: int, e: int, n: int)
    requires
        w == top * 0x80_0000 + e * 0x400 + n * 0x20 + 31,
        0 <= e < 0x2000,
        0 <= n < 32,
    ensures
        w as int / 0x80_0000 == top,
        field(w, 0x400, 0x2000) == e,
        field(w, 0x20, 0x20) == n,
        field(w, 1, 0x20) == 31,
{
    let x = w as int;
    assert(x / 0x20 == top * 0x4_0000 + e * 0x20 + n);
    assert(x / 0x400 == top * 0x2000 + e);
    assert(x / 0x80_0000 == top);
}

proof fn lemma_far_test(reg: Reg, imm: u64)
    requires
        reg.n < 32,
    ensures
        ({
            let far = tst_bytes(reg, imm, None);
            &&& far.len() == 20
            &&& loads_number(far, 0, 16, imm)
            &&& combines(word_at(far, 16), 0x6A, reg.is64, 31, reg.n, 16)
        }),
{
    let none = Seq::<u8>::empty();
    let word = rrr_word(0x6A00_0000, reg.is64, 31, reg.n, 16);
    let load = ldr_u64(file_reg(false, 16), imm);
    lemma_rrr(0x6A, 0x6A00_0000, reg.is64, 31, reg.n, 16);
    lemma_loads_number(none, file_reg(false, 16), imm, le32(word));
    assert(none + load + le32(word) =~= tst_bytes(reg, imm, None));
    law_word_round_trip(load, word, none);
    assert(load + le32(word) + none =~= tst_bytes(reg, imm, None));
}

} // verus!
