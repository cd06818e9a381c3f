//! Decoding, encoding, writing and relocating instructions.
use goauld::decoder::{
    classify, is_x_reg, reg_index, Arm64Decoder, Code, Cond, DisasmAdapter, Disassembly,
    InsnKind, OpKind, Register,
};
use goauld::encode::{
    encode_abs_branch, encode_abs_call, encode_add_imm, encode_adr, encode_adrp, encode_b_cond,
    encode_cbz, encode_ldr_lit_expanded, encode_pc_rel_addr, encode_tbz, try_encode_b,
    try_encode_bl, try_encode_ldr_lit, within,
};
use goauld::logical::try_encode_logical_imm;
use goauld::relocator::{
    build_trampoline, compute_patch_insns, relocate_one, Arm64Relocator, RelocError,
};
use goauld::writer::{parse_cond, Arm64Writer, CallArg, IndexMode, Reg, WriterError};

const NOP: u32 = 0xD503_201F;

fn words(code: &[u8]) -> Vec<u32> {
    let mut out = Vec::new();
    for c in code.chunks(4) {
        out.push(u32::from_le_bytes([c[0], c[1], c[2], c[3]]));
    }
    out
}

#[test]
fn decode_b_bl() {
    let d = DisasmAdapter;
    let insn = d.decode(0x1000, 0x14000000);
    assert!(matches!(insn.kind, InsnKind::Branch { target: 0x1000, link: false }));
    let insn = d.decode(0x2000, 0x94000000);
    assert!(matches!(insn.kind, InsnKind::Branch { target: 0x2000, link: true }));
}

#[test]
fn decode_pc_independent() {
    let d = DisasmAdapter;
    let insn = d.decode(0, 0xD503201F);
    assert_eq!(insn.kind, InsnKind::PcIndependent);
}

#[test]
fn decode_other_branches() {
    let d = DisasmAdapter;
    // B.NE #-8
    let insn = d.decode(0x1000, 0x54FF_FFC1);
    assert_eq!(insn.kind, InsnKind::BranchCond { target: 0xFF8, cond: Cond::Ne });
    // CBNZ X3, #16
    let insn = d.decode(0x1000, 0xB500_0083);
    assert_eq!(
        insn.kind,
        InsnKind::CompareBranch { target: 0x1010, reg: 3, nonzero: true, is64: true }
    );
    // TBZ X5, #33, #8
    let insn = d.decode(0x1000, 0xB608_0045);
    assert_eq!(insn.kind, InsnKind::TestBranch { target: 0x1008, reg: 5, bit: 33, nonzero: false });
    // BR X17
    let insn = d.decode(0x1000, 0xD61F_0220);
    assert_eq!(insn.kind, InsnKind::BranchReg { rn: 17 });
    // ADRP X1, #1 page
    let insn = d.decode(0x1234, 0xB000_0001);
    assert_eq!(insn.kind, InsnKind::PcRelAddr { rd: 1, target: 0x2000, is_page: true });
}

#[test]
fn conditions_invert_in_pairs() {
    for v in 0u8..16 {
        let c = Cond::from_u8(v);
        assert_eq!(c.number(), v as u32);
        assert_eq!(c.invert().number(), (v ^ 1) as u32);
        assert_eq!(c.invert().invert(), c);
    }
}

#[test]
fn abs_branch_layout() {
    let b = encode_abs_branch(0xDEAD_BEEF_CAFE_BABE);
    assert_eq!(&b[0..4], &0x5800_0051u32.to_le_bytes());
    assert_eq!(&b[4..8], &0xD61F_0220u32.to_le_bytes());
    assert_eq!(&b[8..16], &0xDEAD_BEEF_CAFE_BABEu64.to_le_bytes());
}

#[test]
fn adr_round_near() {
    let pc = 0x1000u64;
    let target = 0x1010u64;
    let word = encode_adr(0, pc, target).unwrap();
    let insn = DisasmAdapter.decode(pc, word);
    assert_eq!(insn.kind, InsnKind::PcRelAddr { rd: 0, target, is_page: false });
}

#[test]
fn encoded_words() {
    assert_eq!(encode_adr(3, 0x1000, 0x1010), Some(0x1000_0083));
    assert_eq!(encode_adr(0, 0x10_0000, 0), Some(0x1080_0000));
    assert_eq!(encode_adr(0, 0x10_0001, 0), None);
    assert_eq!(encode_adr(0, 0, 0xF_FFFF), Some(0x707F_FFE0));
    assert_eq!(encode_adr(0, 0, 0x10_0000), None);
    assert_eq!(encode_adrp(1, 0x1234, 0x2FFF), 0xB000_0001);
    assert_eq!(encode_add_imm(0, 0, 0x10, true), 0x9100_4000);
    assert_eq!(encode_add_imm(1, 2, 0x10, false), 0x1100_4041);
    assert_eq!(encode_b_cond(Cond::Ne, 0x1000, 0xFF8), 0x54FF_FFC1);
    assert_eq!(encode_cbz(3, true, true, 0x1000, 0x1010), 0xB500_0083);
    assert_eq!(encode_cbz(3, false, false, 0x1000, 0x1010), 0x3400_0083);
    assert_eq!(encode_tbz(5, 33, false, 0x1000, 0x1008), 0xB608_0045);
    assert_eq!(try_encode_b(0x1000, 0x1008), Some(0x1400_0002));
    assert_eq!(try_encode_bl(0x1000, 0x0FFC), Some(0x97FF_FFFF));
    assert_eq!(try_encode_b(0, 0x1000_0000), None);
    assert_eq!(try_encode_ldr_lit(2, true, 0x1000, 0x1008), Some(0x5800_0042));
    assert_eq!(try_encode_ldr_lit(2, true, 0x1000, 0x9000_0000), None);
}

#[test]
fn long_encodings() {
    let call = encode_abs_call(0x1000, 0x1122_3344_5566_7788);
    assert_eq!(&call[call.len() - 8..], &0x1122_3344_5566_7788u64.to_le_bytes());
    let near = encode_pc_rel_addr(0, 0x1000, 0x1010);
    assert_eq!(DisasmAdapter.decode(0x1000, words(&near)[0]).addr, 0x1000);
    let lit = encode_ldr_lit_expanded(3, true, 0xAABB);
    assert!(lit.len() >= 8);
    assert!(within(0x1000, 0x1008, 0x10));
    assert!(!within(0x1000, 0x2000, 0x10));
}

#[test]
fn logical_immediates() {
    assert!(try_encode_logical_imm(0xFF, 64).is_some());
    assert!(try_encode_logical_imm(0x5555_5555_5555_5555, 64).is_some());
    assert_eq!(try_encode_logical_imm(0, 64), None);
    assert_eq!(try_encode_logical_imm(u64::MAX, 64), None);
    assert_eq!(try_encode_logical_imm(0x1234_5678, 64), None);
}

#[test]
fn patch_covers_four_nops() {
    let code = [0x1Fu8, 0x20, 0x03, 0xD5].repeat(4);
    let d = DisasmAdapter;
    let insns = compute_patch_insns(&d, 0x1000, &code).unwrap();
    assert_eq!(insns.len(), 4);
    let block = build_trampoline(&d, 0x1000, &code, 0xAAAA_0000).unwrap();
    assert_eq!(block.patch_len, 16);
    assert_eq!(block.resume_addr, 0x1010);
    assert_eq!(block.code.len(), 16 + 16);
}

#[test]
fn relocates_unconditional_b() {
    let mut code = vec![0u8; 16];
    code[0..4].copy_from_slice(&0x1400_0000u32.to_le_bytes());
    for i in 1..4 {
        code[i * 4..i * 4 + 4].copy_from_slice(&0xD503_201Fu32.to_le_bytes());
    }
    let d = DisasmAdapter;
    let block = build_trampoline(&d, 0x1000, &code, 0xBBBB_0000).unwrap();
    assert!(block.code.len() > 32);
}

#[test]
fn streaming_relocator_nops() {
    let code = [0x1Fu8, 0x20, 0x03, 0xD5].repeat(4);
    let mut w = Arm64Writer::new(0x2000, None);
    let mut r = Arm64Relocator::new(0x1000, w.base()).with_source(0x1000, code);
    assert!(r.read_one().unwrap() > 0);
    assert!(r.write_one(&mut w).unwrap());
    assert_eq!(w.offset(), 4);
}

#[test]
fn short_code_is_refused() {
    let d = DisasmAdapter;
    let r = compute_patch_insns(&d, 0x1000, &[0x1F, 0x20, 0x03, 0xD5]);
    assert!(matches!(r, Err(RelocError::TruncatedCode)));
}

#[test]
fn relocated_branch_keeps_its_target() {
    let d = DisasmAdapter;
    let insn = d.decode(0x1000, 0x1400_0004);
    let out = relocate_one(&insn, 0x9000_0000_0000).unwrap();
    assert_eq!(&out[out.len() - 8..], &0x1010u64.to_le_bytes());
}

#[test]
fn streaming_relocator_stops_after_branch() {
    let mut code = NOP.to_le_bytes().to_vec();
    code.extend_from_slice(&0xD65F_03C0u32.to_le_bytes());
    let mut w = Arm64Writer::new(0x2000, None);
    let mut r = Arm64Relocator::new(0x1000, w.base()).with_source(0x1000, code);
    assert_eq!(r.read_one().unwrap(), 4);
    assert!(!r.eob());
    assert_eq!(r.read_one().unwrap(), 8);
    assert!(r.eoi());
    assert_eq!(r.read_one().unwrap(), 0);
    assert_eq!(r.peek_next_write_source(), Some(0x1000));
    assert!(r.skip_one().unwrap());
    assert_eq!(r.peek_next_write_source(), Some(0x1004));
    r.write_all(&mut w).unwrap();
    assert_eq!(words(&w.take_bytes().unwrap()), vec![0xD65F_03C0]);
}

#[test]
fn nop_ret_flush_buf() {
    let mut w = Arm64Writer::new(0x1000, None);
    w.put_nop();
    w.put_ret();
    let b = w.take_bytes().unwrap();
    assert_eq!(b.len(), 8);
    assert_eq!(&b[0..4], &0xD503_201Fu32.to_le_bytes());
    assert_eq!(&b[4..8], &0xD65F_03C0u32.to_le_bytes());
}

#[test]
fn label_branch() {
    let mut w = Arm64Writer::new(0x2000, None);
    w.put_b_label("done");
    w.put_nop();
    w.put_label("done");
    w.put_ret();
    let b = w.take_bytes().unwrap();
    assert_eq!(b.len(), 12);
    assert_eq!(&b[0..4], &0x1400_0002u32.to_le_bytes());
}

#[test]
fn parse_regs() {
    assert_eq!(Reg::parse("x0").unwrap().n, 0);
    assert_eq!(Reg::parse("lr").unwrap().n, 30);
    assert_eq!(Reg::parse("sp").unwrap().n, 31);
    assert_eq!(Reg::parse("w2").unwrap().is64, false);
    assert!(Reg::parse("q3").unwrap().is_vec);
}

#[test]
fn push_pop_all_x_roundtrip_size() {
    let mut w = Arm64Writer::new(0x1000, None);
    w.put_push_all_x_registers().unwrap();
    let mid = w.offset();
    w.put_pop_all_x_registers().unwrap();
    assert_eq!(mid, 17 * 4);
    assert_eq!(w.offset(), 34 * 4);
}

#[test]
fn ldr_ref_value() {
    let mut w = Arm64Writer::new(0x3000, None);
    let r = w.put_ldr_reg_ref(Reg::x(0)).unwrap();
    w.put_nop();
    w.put_ldr_reg_value(r, 0x1122_3344_5566_7788).unwrap();
    let b = w.take_bytes().unwrap();
    assert_eq!(b.len(), 16);
    let ldr = u32::from_le_bytes(b[0..4].try_into().unwrap());
    assert_eq!(ldr & 0xFFFF_FFE0, 0x5800_0040);
}

#[test]
fn call_with_imm_arg() {
    let mut w = Arm64Writer::new(0x4000, None);
    w.put_call_address_with_arguments(0x4000 + 64, &[CallArg::Address(7)]).unwrap();
    assert!(w.offset() > 4);
}

#[test]
fn undefined_label_is_an_error() {
    let mut w = Arm64Writer::new(0x2000, None);
    w.put_b_label("nowhere");
    let WriterError::Msg(m) = w.take_bytes().unwrap_err();
    assert!(m.contains("nowhere"), "{}", m);
}

#[test]
fn writer_words() {
    let mut w = Arm64Writer::new(0x1000, None);
    w.put_brk_imm(1);
    w.put_br_reg(Reg::x(3)).unwrap();
    w.put_blr_reg(Reg::x(4)).unwrap();
    w.put_mov_reg_reg(Reg::x(0), Reg::x(1)).unwrap();
    w.put_add_reg_reg_imm(Reg::x(0), Reg::x(1), 8).unwrap();
    w.put_ldr_reg_reg_offset(Reg::x(0), Reg::x(1), 8, IndexMode::SignedOffset).unwrap();
    w.put_push_reg_reg(Reg::x(0), Reg::x(1)).unwrap();
    w.put_pop_reg_reg(Reg::x(0), Reg::x(1)).unwrap();
    let b = w.take_bytes().unwrap();
    assert_eq!(
        words(&b),
        vec![
            0xD420_0020, 0xD61F_0060, 0xD63F_0080, 0xAA01_03E0, 0x9100_2020, 0xF940_0420,
            0xA9BF_07E0, 0xA8C1_07E0,
        ]
    );
}

#[test]
fn parsed_conditions() {
    assert_eq!(parse_cond("eq").unwrap(), Cond::Eq);
    assert!(parse_cond("never").is_err());
    assert!(IndexMode::parse("nowhere").is_err());
    assert!(Reg::parse("y1").is_err());
}

#[test]
fn branch_range() {
    assert!(Arm64Writer::can_branch_directly_between(0x1000, 0x2000));
    assert!(!Arm64Writer::can_branch_directly_between(0, 0x1000_0000));
    let mut w = Arm64Writer::new(0, None);
    assert!(w.put_b_imm(0x1000_0000).is_err());
    assert!(w.put_b_imm(0x40).is_ok());
    assert_eq!(w.offset(), 4);
}

#[test]
fn register_and_immediate_words() {
    let mut w = Arm64Writer::new(0x1000, None);
    w.put_ret_reg(Reg::x(1)).unwrap();
    w.put_sub_reg_reg_imm(Reg::x(0), Reg::x(1), 8).unwrap();
    w.put_add_reg_reg_reg(Reg::x(0), Reg::x(1), Reg::x(2)).unwrap();
    w.put_sub_reg_reg_reg(Reg::x(0), Reg::x(1), Reg::x(2)).unwrap();
    w.put_cmp_reg_reg(Reg::x(1), Reg::x(2)).unwrap();
    w.put_eor_reg_reg_reg(Reg::x(0), Reg::x(1), Reg::x(2)).unwrap();
    w.put_and_reg_reg_imm(Reg::x(0), Reg::x(1), 0xff).unwrap();
    w.put_tst_reg_imm(Reg::x(1), 0xff).unwrap();
    w.put_movk_reg_imm(Reg::x(0), 0x1234, 16).unwrap();
    w.put_lsl_reg_imm(Reg::x(0), Reg::x(1), 4).unwrap();
    w.put_lsr_reg_imm(Reg::x(0), Reg::x(1), 4).unwrap();
    w.put_uxtw_reg_reg(Reg::x(0), Reg::x(1)).unwrap();
    w.put_mov_reg_nzcv(Reg::x(2)).unwrap();
    w.put_mov_nzcv_reg(Reg::x(2)).unwrap();
    w.put_xpaci_reg(Reg::x(3)).unwrap();
    w.put_pacia_reg_reg(Reg::x(0), Reg::x(1)).unwrap();
    w.put_mrs(Reg::x(0), 0x5E82).unwrap();
    assert_eq!(
        words(&w.take_bytes().unwrap()),
        vec![
            0xD65F_0020, 0xD100_2020, 0x8B02_0020, 0xCB02_0020, 0xEB02_003F, 0xCA02_0020,
            0x5800_0050, 0x1400_0003, 0xFF, 0, 0x8A10_0020, 0xF240_1C3F, 0xF2A2_4680, 0xD37C_EC20, 0xD344_FC20, 0xD340_7C20,
            0xD53B_4202, 0xD51B_4202, 0xDAC1_43E3, 0xDAC1_0020, 0xD53B_D040,
        ]
    );
}

#[test]
fn memory_words() {
    let mut w = Arm64Writer::new(0x1000, None);
    w.put_ldr_reg_reg(Reg::x(0), Reg::x(1)).unwrap();
    w.put_str_reg_reg(Reg::x(0), Reg::x(1)).unwrap();
    w.put_ldrsw_reg_reg_offset(Reg::x(0), Reg::x(1), 4).unwrap();
    w.put_stp_reg_reg_reg_offset(Reg::x(0), Reg::x(1), Reg::x(2), 16, IndexMode::SignedOffset)
        .unwrap();
    w.put_ldp_reg_reg_reg_offset(Reg::x(0), Reg::x(1), Reg::x(2), 16, IndexMode::SignedOffset)
        .unwrap();
    w.put_adrp_reg_address(Reg::x(0), 0x2000).unwrap();
    w.put_adr_reg_address(Reg::x(0), 0x1014).unwrap();
    w.put_ldr_reg_u64_ptr(Reg::x(0), 0x1020).unwrap();
    assert_eq!(
        words(&w.take_bytes().unwrap()),
        vec![
            0xF940_0020, 0xF900_0020, 0xB980_0420, 0xA901_0440, 0xA941_0440, 0xB000_0000,
            0x10FF_FFE0, 0x5800_0020,
        ]
    );
}

#[test]
fn refused_operands() {
    let mut w = Arm64Writer::new(0x1000, None);
    assert!(w.put_uxtw_reg_reg(Reg::w(0), Reg::w(1)).is_err());
    assert!(w.put_xpaci_reg(Reg::w(0)).is_err());
    assert!(w.put_pacia_reg_reg(Reg::x(0), Reg::w(1)).is_err());
    assert!(w.put_mrs(Reg::x(0), 0x8000).is_err());
    assert!(w.put_ldrsw_reg_reg_offset(Reg::x(0), Reg::x(1), 3).is_err());
    assert!(w.put_lsl_reg_imm(Reg::x(0), Reg::x(1), 64).is_err());
    assert!(w.put_adr_reg_address(Reg::x(0), 0x100_0000).is_err());
    assert!(w.put_ldr_reg_u32_ptr(Reg::x(0), 0x1008).is_err());
    assert!(w.put_ldr_reg_u64_ptr(Reg::w(0), 0x1008).is_err());
    assert_eq!(w.offset(), 0);
    assert_eq!(w.sign(7), 7);
}

#[test]
fn label_references_of_every_kind() {
    let mut w = Arm64Writer::new(0x1000, None);
    w.put_bl_label("end");
    w.put_b_cond_label(Cond::Ne, "end");
    w.put_cbz_reg_label(Reg::x(3), "end", true);
    w.put_tbz_reg_imm_label(Reg::x(5), 33, "end", false);
    w.put_label("end");
    w.put_cbz_reg_imm(Reg::x(3), 0x1010, false).unwrap();
    w.put_tbz_reg_imm_imm(Reg::x(5), 1, 0x1014, true).unwrap();
    let b = words(&w.take_bytes().unwrap());
    assert_eq!(
        b,
        vec![0x9400_0004, 0x5400_0061, 0xB500_0043, 0xB608_0025, 0xB400_0003, 0x3708_0005]
    );
}

#[test]
fn loaded_constants() {
    let mut w = Arm64Writer::new(0x1000, None);
    w.put_ldr_reg_u32(Reg::x(4), 0x1234_5678).unwrap();
    w.put_branch_address(0xABCD);
    let b = w.take_bytes().unwrap();
    assert_eq!(words(&b[..8]), vec![0x5800_0044, 0x1400_0003]);
    assert_eq!(&b[8..16], &0x1234_5678u64.to_le_bytes());
    assert_eq!(&b[16..], &encode_abs_branch(0xABCD));
}

#[test]
fn wide_registers_are_pushed_in_pairs() {
    let mut w = Arm64Writer::new(0x1000, None);
    w.put_push_all_q_registers().unwrap();
    assert_eq!(w.offset(), 16 * 4);
    w.put_pop_all_q_registers().unwrap();
    let b = words(&w.take_bytes().unwrap());
    assert_eq!(b.len(), 32);
    assert_eq!(b[0], 0xADBF_07E0);
    assert_eq!(b[31], 0xACC1_07E0);
}

#[test]
fn call_through_a_register() {
    let mut w = Arm64Writer::new(0x1000, None);
    w.put_call_reg_with_arguments(Reg::x(8), &[CallArg::Register(Reg::x(3))]).unwrap();
    let b = words(&w.take_bytes().unwrap());
    assert_eq!(*b.last().unwrap(), 0xD63F_0100);
    assert!(b.len() > 1);
}

#[test]
fn relocator_takes_words_from_the_caller() {
    let mut w = Arm64Writer::new(0x2000, None);
    let mut r = Arm64Relocator::new(0x1000, w.base());
    assert_eq!(r.read_fetched(Some(NOP)).unwrap(), 4);
    assert_eq!(r.read_fetched(Some(0x1400_0004)).unwrap(), 8);
    assert!(r.eob());
    assert!(r.eoi());
    assert_eq!(r.read_fetched(Some(NOP)).unwrap(), 0);
    assert!(r.copy_one(&mut w).unwrap());
    assert_eq!(r.input_addr(), 0x1004);
    r.write_all(&mut w).unwrap();
    let b = w.take_bytes().unwrap();
    assert_eq!(b.len(), 20);
    assert_eq!(&b[12..], &0x1014u64.to_le_bytes());
    let mut gone = Arm64Relocator::new(0x1000, 0x2000);
    assert_eq!(gone.read_fetched(None).unwrap(), 0);
    assert!(gone.eoi());
}

#[test]
fn relocator_copies_and_looks_ahead() {
    let code = NOP.to_le_bytes().repeat(4);
    let mut w = Arm64Writer::new(0x2000, None);
    let mut r = Arm64Relocator::new(0x1000, w.base()).with_source(0x1000, code);
    assert_eq!(r.input_addr(), 0x1000);
    assert_eq!(r.next_address(), 0x1000);
    r.read_one().unwrap();
    assert_eq!(r.next_address(), 0x1004);
    assert_eq!(r.peek_next_write_insn().unwrap().raw, NOP);
    assert!(r.copy_one(&mut w).unwrap());
    assert_eq!(w.offset(), 4);
    r.dispose();
}

fn disassembly(code: Code, op0_reg: Register, near: u64, imm: u64) -> Disassembly {
    Disassembly {
        code,
        condition: Cond::Ne,
        op_count: 1,
        op0_reg,
        op1_kind: OpKind::Immediate,
        op1_imm: imm,
        near_branch_target: near,
    }
}

#[test]
fn disassembled_instructions_have_their_class() {
    let of = |code, reg, near, imm| classify(&disassembly(code, reg, near, imm));
    let branch = of(Code::Bl, Register::Other, 0x40, 0);
    assert_eq!(branch, InsnKind::Branch { target: 0x40, link: true });
    let cond = of(Code::BCond, Register::Other, 0x40, 0);
    assert_eq!(cond, InsnKind::BranchCond { target: 0x40, cond: Cond::Ne });
    assert_eq!(
        of(Code::Cbnz, Register::W(3), 0x40, 0),
        InsnKind::CompareBranch { target: 0x40, reg: 3, nonzero: true, is64: false }
    );
    assert_eq!(
        of(Code::Tbz, Register::X(3), 0x40, 0x7f),
        InsnKind::TestBranch { target: 0x40, reg: 3, bit: 63, nonzero: false }
    );
    assert_eq!(
        of(Code::Adrp, Register::X(1), 0, 0x5000),
        InsnKind::PcRelAddr { rd: 1, target: 0x5000, is_page: true }
    );
    assert_eq!(
        of(Code::LdrLit, Register::X(1), 0, 0x5000),
        InsnKind::PcRelLoad { rt: 1, target: 0x5000, is64: true, is_simd: false }
    );
    assert_eq!(
        of(Code::LdrswLit, Register::X(1), 0x40, 0x5000),
        InsnKind::PcRelLoad { rt: 1, target: 0x40, is64: false, is_simd: false }
    );
    assert_eq!(
        of(Code::LdrFpLit, Register::Other, 0x40, 0),
        InsnKind::PcRelLoad { rt: 0, target: 0x40, is64: true, is_simd: true }
    );
    assert_eq!(of(Code::Br, Register::X(9), 0, 0), InsnKind::BranchReg { rn: 9 });
    assert_eq!(of(Code::Ret, Register::X(9), 0, 0), InsnKind::BranchReg { rn: 9 });
    let bare = Disassembly { op_count: 0, ..disassembly(Code::Ret, Register::Other, 0, 0) };
    assert_eq!(classify(&bare), InsnKind::BranchReg { rn: 30 });
    assert_eq!(of(Code::Other, Register::X(9), 1, 2), InsnKind::PcIndependent);
    let odd = Disassembly {
        op1_kind: OpKind::Other,
        ..disassembly(Code::LdrLit, Register::W(2), 0, 0x5000)
    };
    assert_eq!(
        classify(&odd),
        InsnKind::PcRelLoad { rt: 2, target: 0, is64: false, is_simd: false }
    );
}

#[test]
fn register_numbers() {
    assert_eq!(reg_index(Register::W(30)), 30);
    assert_eq!(reg_index(Register::Wsp), 31);
    assert_eq!(reg_index(Register::Other), 0);
    assert!(is_x_reg(Register::Sp));
    assert!(!is_x_reg(Register::Wzr));
}
