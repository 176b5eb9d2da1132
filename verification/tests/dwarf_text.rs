use psh::binary_object::dwarf_dump::{
    cfi_instruction_line, cfi_instructions_text, cie_text, exprloc_text, fde_text, op_text,
    pointer_bytes, Arch, CfiInstruction, CfiStep, CieSummary, DwarfOperation, DwarfPointer,
    ExprError, ExprStep, FdeSummary,
};

fn text(bytes: Vec<u8>) -> String {
    String::from_utf8(bytes).unwrap()
}

fn op(opcode: u8, operation: DwarfOperation) -> ExprStep {
    ExprStep::Operation { opcode, operation }
}

#[test]
fn operations_with_their_operands() {
    let breg7 = DwarfOperation::RegisterOffset { register: 7, offset: 8, base_type: 0 };
    assert_eq!(text(op_text(0x77, &breg7)), "DW_OP_breg7+8");
    let bregx = DwarfOperation::RegisterOffset { register: 17, offset: -4, base_type: 0x2a };
    assert_eq!(text(op_text(0x92, &bregx)), "DW_OP_bregx 17-4 type 0x0000002a");
    let deref_size = DwarfOperation::Deref { base_type: 0, size: 4 };
    assert_eq!(text(op_text(0x94, &deref_size)), "DW_OP_deref_size 4");
    assert_eq!(text(op_text(0x06, &DwarfOperation::Deref { base_type: 0, size: 8 })), "DW_OP_deref");
    assert_eq!(text(op_text(0x3b, &DwarfOperation::UnsignedConstant { value: 11 })), "DW_OP_lit11");
    assert_eq!(text(op_text(0x10, &DwarfOperation::UnsignedConstant { value: 300 })), "DW_OP_constu 300");
    assert_eq!(text(op_text(0x11, &DwarfOperation::SignedConstant { value: -7 })), "DW_OP_consts -7");
    assert_eq!(text(op_text(0x23, &DwarfOperation::PlusConstant { value: u64::MAX })), "DW_OP_plus_uconst -1");
    assert_eq!(text(op_text(0x03, &DwarfOperation::Reference { value: 0x401000 })), "DW_OP_addr 0x00401000");
    assert_eq!(text(op_text(0x93, &DwarfOperation::Piece { size_in_bits: 64, bit_offset: None })), "DW_OP_piece 8");
    assert_eq!(
        text(op_text(0x9d, &DwarfOperation::Piece { size_in_bits: 3, bit_offset: Some(5) })),
        "DW_OP_bit_piece 0x00000003 offset 0x00000005"
    );
    assert_eq!(
        text(op_text(0x9e, &DwarfOperation::ImplicitValue { data: vec![0xde, 0x0a] })),
        "DW_OP_implicit_value 0x00000002 contents 0xde0a"
    );
    assert_eq!(text(op_text(0x2f, &DwarfOperation::Branch { target: -3 })), "DW_OP_skip -3");
    assert_eq!(text(op_text(0x22, &DwarfOperation::NoOperand)), "DW_OP_plus");
    assert_eq!(text(op_text(0x15, &DwarfOperation::Pick { index: 2 })), "DW_OP_pick 2");
    assert_eq!(text(op_text(0x12, &DwarfOperation::Pick { index: 0 })), "DW_OP_dup");
    assert_eq!(text(op_text(0xed, &DwarfOperation::Wasm { sub_opcode: 1, index: 0x1f })), "DW_OP_WASM_location 0x1 0x1f");
    assert_eq!(
        text(op_text(0xa3, &DwarfOperation::EntryValue { expression_text: b"DW_OP_reg5".to_vec() })),
        "DW_OP_entry_value(DW_OP_reg5)"
    );
}

#[test]
fn expressions_and_their_warnings() {
    // DW_OP_breg7 8; DW_OP_deref
    let steps = vec![
        op(0x77, DwarfOperation::RegisterOffset { register: 7, offset: 8, base_type: 0 }),
        op(0x06, DwarfOperation::Deref { base_type: 0, size: 8 }),
    ];
    assert_eq!(text(exprloc_text(&steps)), "DW_OP_breg7+8 DW_OP_deref");
    assert_eq!(text(exprloc_text(&Vec::new())), "");
    let steps = vec![
        op(0x22, DwarfOperation::NoOperand),
        ExprStep::Failed(ExprError::UnsupportedOperation(0xff)),
        op(0x22, DwarfOperation::NoOperand),
    ];
    assert_eq!(text(exprloc_text(&steps)), "DW_OP_plusWARNING: unsupported operation 0xff\n");
    let steps = vec![ExprStep::Failed(ExprError::UnsupportedRegister(70000))];
    assert_eq!(text(exprloc_text(&steps)), "WARNING: unsupported register 70000\n");
    let steps = vec![ExprStep::Failed(ExprError::Truncated)];
    assert_eq!(text(exprloc_text(&steps)), "WARNING: truncated or malformed expression\n");
    let steps = vec![ExprStep::Failed(ExprError::Other(b"bad thing".to_vec()))];
    assert_eq!(text(exprloc_text(&steps)), "WARNING: unexpected operation parse error: bad thing\n");
}

#[test]
fn call_frame_instruction_lines() {
    let line = |insn| text(cfi_instruction_line(&insn, Arch::X86_64));
    assert_eq!(line(CfiInstruction::DefCfa { register: 7, offset: 8 }), "                DW_CFA_def_cfa (rsp, 8)\n");
    assert_eq!(line(CfiInstruction::Offset { register: 16, factored_offset: 1 }), "                DW_CFA_offset (RA, 1)\n");
    assert_eq!(line(CfiInstruction::DefCfaOffsetSf { factored_offset: -2 }), "                DW_CFA_def_cfa_offset_sf (-2)\n");
    assert_eq!(line(CfiInstruction::SetLoc { address: 0x1a2b }), "                DW_CFA_set_loc (0x1a2b)\n");
    assert_eq!(line(CfiInstruction::Expression { register: 6 }), "                DW_CFA_expression (rbp, ...)\n");
    assert_eq!(line(CfiInstruction::DefCfaExpression), "                DW_CFA_def_cfa_expression (...)\n");
    assert_eq!(line(CfiInstruction::Register { dest_register: 6, src_register: 7 }), "                DW_CFA_register (rbp, rsp)\n");
    assert_eq!(line(CfiInstruction::Nop), "                DW_CFA_nop\n");
    // no register names on another architecture
    assert_eq!(
        text(cfi_instruction_line(&CfiInstruction::DefCfaRegister { register: 6 }, Arch::Other)),
        "                DW_CFA_def_cfa_register (6)\n"
    );
}

#[test]
fn instruction_lists_stop_at_the_first_failure() {
    let steps = vec![
        CfiStep::Instruction(CfiInstruction::AdvanceLoc { delta: 4 }),
        CfiStep::Failed(b"oops".to_vec()),
        CfiStep::Instruction(CfiInstruction::Nop),
    ];
    assert_eq!(
        text(cfi_instructions_text(&steps, true, Arch::X86_64)),
        "  Instructions:\n                DW_CFA_advance_loc (4)\nFailed to decode CFI instruction: oops\n"
    );
    assert_eq!(text(cfi_instructions_text(&Vec::new(), false, Arch::X86_64)), "");
}

#[test]
fn pointers() {
    assert_eq!(text(pointer_bytes(DwarfPointer::Direct(0x10))), "0x0000000000000010");
    assert_eq!(text(pointer_bytes(DwarfPointer::Indirect(0xabc))), "(0x0000000000000abc)");
}

#[test]
fn entries() {
    let cie = CieSummary {
        offset: 0,
        length: 0x14,
        version: 1,
        code_alignment_factor: 1,
        data_alignment_factor: -8,
        return_address_register: 16,
        lsda_encoding: None,
        personality: None,
        fde_address_encoding: Some(0x1b),
    };
    let steps = vec![CfiStep::Instruction(CfiInstruction::DefCfa { register: 7, offset: 8 })];
    assert_eq!(
        text(cie_text(&cie, &steps, Arch::X86_64)),
        "\n0x00000000: CIE\n        length: 0x00000014\n       version: 0x01\n    code_align: 1\n    data_align: -8\n   ra_register: RA\n  fde_encoding: DW_EH_PE_pcrel/DW_EH_PE_sdata4\n  Instructions:\n                DW_CFA_def_cfa (rsp, 8)\n\n"
    );
    let fde = FdeSummary {
        offset: 0x18,
        length: 0x1c,
        cie_pointer: 0,
        initial_address: 0x1000,
        address_range: 0x20,
        lsda: Some(DwarfPointer::Direct(0x2000)),
    };
    assert_eq!(
        text(fde_text(&fde, &Vec::new(), Arch::X86_64)),
        "\n0x00000018: FDE\n        length: 0x0000001c\n   CIE_pointer: 0x00000000\n    start_addr: 0x0000000000001000\n    range_size: 0x0000000000000020 (end_addr = 0x0000000000001020)\n          lsda: 0x0000000000002000\n  Instructions:\n\n"
    );
}

#[test]
fn register_names_by_architecture() {
    let line = |arch| text(cfi_instruction_line(&CfiInstruction::Restore { register: 1 }, arch));
    assert_eq!(line(Arch::Arm), "                DW_CFA_restore (R1)\n");
    assert_eq!(line(Arch::Aarch64), "                DW_CFA_restore (R1)\n");
    assert_eq!(line(Arch::PowerPc64), "                DW_CFA_restore (r1)\n");
    assert_eq!(line(Arch::I386), "                DW_CFA_restore (ecx)\n");
    assert_eq!(line(Arch::X86_64), "                DW_CFA_restore (rdx)\n");
    assert_eq!(line(Arch::Other), "                DW_CFA_restore (1)\n");
}
