use psh::binary_object::dwarf_cie_fde::{
    compact_row, compact_unwind_table, dwarf_cfa_expr_plt_type, plt_scan_fits,
    deref_base, deref_cfa, entry_event, piece_size_overflows_at, push_unwind_event, rbp_rule,
    row_error_event, x86_64_breg_offset_deref, x86_rbp_expr_parse, ByteOrder, CfaRuleModel,
    DwarfCfaExpressionPltType, DwarfEncoding, DwarfFormat, DwarfOp, PltThreshold,
    RegisterRuleModel, RowErrorKind, TargetArch, UnwindEvent, UnwindRowModel,
};
use psh::binary_object::{BinaryObjectError, BpfCfaType, BpfRbpType, CompactUnwindTableRow};

fn encoding() -> DwarfEncoding {
    DwarfEncoding { address_size: 8, format: DwarfFormat::Dwarf32, version: 1 }
}

const LE: ByteOrder = ByteOrder::Little;

// DW_OP_breg7 8; DW_OP_breg16 0; DW_OP_lit15; DW_OP_and; DW_OP_lit11; DW_OP_ge;
// DW_OP_lit3; DW_OP_shl; DW_OP_plus
const PLT1: [u8; 11] = [0x77, 0x08, 0x80, 0x00, 0x3f, 0x1a, 0x3b, 0x2a, 0x33, 0x24, 0x22];
const PLT2: [u8; 11] = [0x77, 0x08, 0x80, 0x00, 0x3f, 0x1a, 0x3a, 0x2a, 0x33, 0x24, 0x22];

fn row(start: u64, cfa: CfaRuleModel, rbp: RegisterRuleModel) -> UnwindRowModel {
    UnwindRowModel { start_address: start, cfa, rbp, target: TargetArch::X86_64, byte_order: LE, encoding: encoding() }
}

#[test]
fn plt_type_of_known_stub_expressions() {
    assert_eq!(dwarf_cfa_expr_plt_type(&PLT1).unwrap(), DwarfCfaExpressionPltType::Type1);
    assert_eq!(dwarf_cfa_expr_plt_type(&PLT2).unwrap(), DwarfCfaExpressionPltType::Type2);
}

#[test]
fn plt_type_of_other_expressions() {
    // too short to be a stub
    assert_eq!(dwarf_cfa_expr_plt_type(&PLT1[..9]).unwrap(), DwarfCfaExpressionPltType::Unknown);
    let mut other = PLT1;
    other[10] = 0x1c; // DW_OP_minus in place of DW_OP_plus
    assert_eq!(dwarf_cfa_expr_plt_type(&other).unwrap(), DwarfCfaExpressionPltType::Unknown);
}

#[test]
fn plt_scan_bounds() {
    assert!(plt_scan_fits(&PLT1));
    assert!(plt_scan_fits(&[0u8; 9]));
    assert!(!plt_scan_fits(&[0x77, 0, 0, 0, 0, 0, 0, 0, 0, 0, 0]));
}

#[test]
fn plt_thresholds() {
    assert_eq!(PltThreshold::Threshold1.value(), 11);
    assert_eq!(PltThreshold::Threshold2.value(), 10);
    assert_eq!(PltThreshold::Unknown.value(), 0);
}

#[test]
fn cfa_register_deref_expressions() {
    // DW_OP_breg6 16; DW_OP_deref
    assert_eq!(
        x86_64_breg_offset_deref(&[0x76, 0x10, 0x06], LE, encoding()).unwrap(),
        (BpfCfaType::CfaTypeExprRbpDeref, 16)
    );
    // DW_OP_breg7 -8; DW_OP_deref
    assert_eq!(
        x86_64_breg_offset_deref(&[0x77, 0x78, 0x06], LE, encoding()).unwrap(),
        (BpfCfaType::CfaTypeExprRspDeref, -8)
    );
    // trailing operation after the dereference
    assert_eq!(
        x86_64_breg_offset_deref(&[0x76, 0x10, 0x06, 0x22], LE, encoding()).unwrap(),
        (BpfCfaType::CfaTypeUndefined, -1)
    );
    // another register
    assert_eq!(
        x86_64_breg_offset_deref(&[0x75, 0x10, 0x06], LE, encoding()).unwrap(),
        (BpfCfaType::CfaTypeUndefined, -1)
    );
    // no dereference
    assert_eq!(
        x86_64_breg_offset_deref(&[0x76, 0x10, 0x22], LE, encoding()).unwrap(),
        (BpfCfaType::CfaTypeUndefined, -1)
    );
    // the offset is cut to 16 bits: 0x10000 + 5
    assert_eq!(
        x86_64_breg_offset_deref(&[0x77, 0x85, 0x80, 0x04, 0x06], LE, encoding()).unwrap(),
        (BpfCfaType::CfaTypeExprRspDeref, 5)
    );
}

#[test]
fn cfa_expression_decode_errors() {
    assert!(matches!(
        x86_64_breg_offset_deref(&[], LE, encoding()),
        Err(BinaryObjectError::GimliError(_))
    ));
    // truncated offset of DW_OP_breg6
    assert!(matches!(
        x86_64_breg_offset_deref(&[0x76, 0x80], LE, encoding()),
        Err(BinaryObjectError::GimliError(_))
    ));
    // DW_OP_breg6 16 and nothing after it
    assert!(matches!(
        x86_64_breg_offset_deref(&[0x76, 0x10], LE, encoding()),
        Err(BinaryObjectError::GimliError(_))
    ));
}

#[test]
fn rbp_expressions() {
    assert_eq!(
        x86_rbp_expr_parse(&[0x76, 0x78], LE, encoding()).unwrap(),
        (BpfRbpType::RbpTypeExprRbp, -8)
    );
    assert_eq!(
        x86_rbp_expr_parse(&[0x77, 0x10], LE, encoding()).unwrap(),
        (BpfRbpType::RbpTypeExprRsp, 16)
    );
    assert_eq!(
        x86_rbp_expr_parse(&[0x77, 0x10, 0x06], LE, encoding()).unwrap(),
        (BpfRbpType::RbpTypeExprUnknown, -1)
    );
    assert_eq!(
        x86_rbp_expr_parse(&[0x06], LE, encoding()).unwrap(),
        (BpfRbpType::RbpTypeExprUnknown, -1)
    );
    assert!(x86_rbp_expr_parse(&[], LE, encoding()).is_err());
}

#[test]
fn rows_of_register_rules() {
    let r = compact_row(&row(
        0x1000,
        CfaRuleModel::RegisterAndOffset { register: 7, offset: 8 },
        RegisterRuleModel::Undefined,
    ))
    .unwrap();
    assert_eq!(
        r,
        CompactUnwindTableRow {
            pc: 0x1000,
            cfa_type: BpfCfaType::CfaTypeRsp,
            rbp_type: BpfRbpType::RbpRuleOffsetSetUnchanged,
            cfa_offset: 8,
            rbp_offset: -1,
        }
    );
    let r = compact_row(&row(
        0x1004,
        CfaRuleModel::RegisterAndOffset { register: 6, offset: 16 },
        RegisterRuleModel::Offset(-16),
    ))
    .unwrap();
    assert_eq!((r.cfa_type, r.cfa_offset, r.rbp_type, r.rbp_offset), (BpfCfaType::CfaTypeRbp, 16, BpfRbpType::RbpRuleOffset, -16));
    let r = compact_row(&row(
        0x1008,
        CfaRuleModel::RegisterAndOffset { register: 10, offset: 0 },
        RegisterRuleModel::Register(3),
    ))
    .unwrap();
    assert_eq!((r.cfa_type, r.cfa_offset, r.rbp_type, r.rbp_offset), (BpfCfaType::CfaTypeUndefined, 0, BpfRbpType::RbpRuleRegister, 3));
    for other in [
        RegisterRuleModel::SameValue,
        RegisterRuleModel::ValOffset(8),
        RegisterRuleModel::ValExpression,
        RegisterRuleModel::Architectural,
        RegisterRuleModel::Constant(1),
    ] {
        let r = compact_row(&row(0, CfaRuleModel::RegisterAndOffset { register: 7, offset: 8 }, other)).unwrap();
        assert_eq!((r.rbp_type, r.rbp_offset), (BpfRbpType::RbpRuleOffsetSetUnchanged, -1));
    }
}

#[test]
fn rows_of_cfa_expressions() {
    let r = compact_row(&row(
        0x2000,
        CfaRuleModel::Expression { bytes: PLT1.to_vec() },
        RegisterRuleModel::Undefined,
    ))
    .unwrap();
    assert_eq!((r.cfa_type, r.cfa_offset), (BpfCfaType::CfaTypeExpression, 11));
    let r = compact_row(&row(
        0x2000,
        CfaRuleModel::Expression { bytes: PLT2.to_vec() },
        RegisterRuleModel::Expression(vec![0x76, 0x70]),
    ))
    .unwrap();
    assert_eq!(
        (r.cfa_type, r.cfa_offset, r.rbp_type, r.rbp_offset),
        (BpfCfaType::CfaTypeExpression, 10, BpfRbpType::RbpTypeExprRbp, -16)
    );
    let r = compact_row(&row(
        0x2000,
        CfaRuleModel::Expression { bytes: vec![0x77, 0x08, 0x06] },
        RegisterRuleModel::Undefined,
    ))
    .unwrap();
    assert_eq!((r.cfa_type, r.cfa_offset), (BpfCfaType::CfaTypeExprRspDeref, 8));
}

#[test]
fn table_of_events() {
    let events = vec![
        UnwindEvent::Row(row(0x10, CfaRuleModel::RegisterAndOffset { register: 7, offset: 8 }, RegisterRuleModel::Undefined)),
        UnwindEvent::SkippedRowError,
        UnwindEvent::Row(row(0x14, CfaRuleModel::RegisterAndOffset { register: 7, offset: 16 }, RegisterRuleModel::Offset(-16))),
    ];
    let table = compact_unwind_table(&events).unwrap();
    assert_eq!(table.len(), 2);
    assert_eq!(table[0].pc, 0x10);
    assert_eq!(table[1].pc, 0x14);
    assert_eq!(table[1].cfa_offset, 16);
    assert_eq!(table[1].rbp_type, BpfRbpType::RbpRuleOffset);
}

#[test]
fn skipped_rows_change_nothing() {
    let with_skip = vec![
        UnwindEvent::SkippedRowError,
        UnwindEvent::Row(row(0x10, CfaRuleModel::RegisterAndOffset { register: 6, offset: 16 }, RegisterRuleModel::Undefined)),
        UnwindEvent::SkippedRowError,
    ];
    let without = vec![UnwindEvent::Row(row(0x10, CfaRuleModel::RegisterAndOffset { register: 6, offset: 16 }, RegisterRuleModel::Undefined))];
    assert_eq!(compact_unwind_table(&with_skip).unwrap(), compact_unwind_table(&without).unwrap());
    assert_eq!(compact_unwind_table(&Vec::<UnwindEvent>::new()).unwrap(), Vec::<CompactUnwindTableRow>::new());
}

#[test]
fn failure_ends_the_table() {
    let events = vec![
        UnwindEvent::Row(row(0x10, CfaRuleModel::RegisterAndOffset { register: 7, offset: 8 }, RegisterRuleModel::Undefined)),
        UnwindEvent::Failure(BinaryObjectError::IoError),
        UnwindEvent::Row(row(0x14, CfaRuleModel::RegisterAndOffset { register: 7, offset: 8 }, RegisterRuleModel::Undefined)),
    ];
    assert!(matches!(compact_unwind_table(&events), Err(BinaryObjectError::IoError)));
    // a row whose expression cannot be decoded ends the table too
    let events = vec![UnwindEvent::Row(row(
        0x10,
        CfaRuleModel::Expression { bytes: vec![0x76] },
        RegisterRuleModel::Undefined,
    ))];
    assert!(matches!(compact_unwind_table(&events), Err(BinaryObjectError::GimliError(_))));
}

#[test]
fn pushing_events_one_by_one() {
    let mut rows = Vec::new();
    push_unwind_event(&mut rows, &UnwindEvent::Row(row(0x30, CfaRuleModel::RegisterAndOffset { register: 7, offset: 8 }, RegisterRuleModel::Undefined))).unwrap();
    push_unwind_event(&mut rows, &UnwindEvent::SkippedRowError).unwrap();
    assert!(push_unwind_event(&mut rows, &UnwindEvent::Failure(BinaryObjectError::IoError)).is_err());
    assert_eq!(rows.len(), 1);
    assert_eq!(rows[0].pc, 0x30);
}

#[test]
fn type_codes() {
    assert_eq!(BpfCfaType::CfaTypeUndefined.code(), 0);
    assert_eq!(BpfCfaType::CfaTypeRsp.code(), 2);
    assert_eq!(BpfCfaType::CfaTypeExprRspDeref.code(), 6);
    assert_eq!(BpfRbpType::RbpRuleOffset.code(), 1);
    assert_eq!(BpfRbpType::RbpTypeExprUnknown.code(), 7);
}

#[test]
fn table_of_a_first_part_is_a_prefix() {
    let events = vec![
        UnwindEvent::Row(row(0x10, CfaRuleModel::RegisterAndOffset { register: 7, offset: 8 }, RegisterRuleModel::Undefined)),
        UnwindEvent::Row(row(0x11, CfaRuleModel::RegisterAndOffset { register: 7, offset: 16 }, RegisterRuleModel::Offset(-16))),
        UnwindEvent::SkippedRowError,
        UnwindEvent::Row(row(0x20, CfaRuleModel::RegisterAndOffset { register: 6, offset: 16 }, RegisterRuleModel::Offset(-16))),
    ];
    let whole = compact_unwind_table(&events).unwrap();
    for n in 0..=events.len() {
        let first: Vec<UnwindEvent> = events[..n]
            .iter()
            .map(|e| match e {
                UnwindEvent::Row(r) => UnwindEvent::Row(row(r.start_address, match &r.cfa {
                    CfaRuleModel::RegisterAndOffset { register, offset } => CfaRuleModel::RegisterAndOffset { register: *register, offset: *offset },
                    CfaRuleModel::Expression { bytes } => CfaRuleModel::Expression { bytes: bytes.clone() },
                }, match &r.rbp {
                    RegisterRuleModel::Offset(o) => RegisterRuleModel::Offset(*o),
                    _ => RegisterRuleModel::Undefined,
                })),
                UnwindEvent::SkippedRowError => UnwindEvent::SkippedRowError,
                UnwindEvent::SkippedEntry => UnwindEvent::SkippedEntry,
                UnwindEvent::Failure(f) => UnwindEvent::Failure(*f),
            })
            .collect();
        let part = compact_unwind_table(&first).unwrap();
        assert!(part.len() <= whole.len());
        assert_eq!(part[..], whole[..part.len()]);
    }
    assert_eq!(whole.iter().map(|r| r.pc).collect::<Vec<_>>(), vec![0x10, 0x11, 0x20]);
}

#[test]
fn row_errors_skip_or_end_the_walk() {
    let unknown = gimli::Error::UnknownCallFrameInstruction(gimli::constants::DwCfa(0x3f));
    assert!(matches!(
        row_error_event(RowErrorKind::UnknownCallFrameInstruction, unknown),
        UnwindEvent::SkippedRowError
    ));
    assert!(matches!(
        row_error_event(RowErrorKind::TooManyRegisterRules, gimli::Error::TooManyRegisterRules),
        UnwindEvent::SkippedRowError
    ));
    assert!(matches!(
        row_error_event(RowErrorKind::Other, gimli::Error::Io),
        UnwindEvent::Failure(BinaryObjectError::GimliError(gimli::Error::Io))
    ));
}

#[test]
fn skipped_entries_change_nothing() {
    let with_skip = vec![
        UnwindEvent::SkippedEntry,
        UnwindEvent::Row(row(0x40, CfaRuleModel::RegisterAndOffset { register: 7, offset: 24 }, RegisterRuleModel::Register(3))),
        UnwindEvent::SkippedEntry,
        UnwindEvent::SkippedRowError,
    ];
    let table = compact_unwind_table(&with_skip).unwrap();
    assert_eq!(table.len(), 1);
    assert_eq!(table[0].pc, 0x40);
    assert_eq!(table[0].cfa_offset, 24);
    assert_eq!((table[0].rbp_type, table[0].rbp_offset), (BpfRbpType::RbpRuleRegister, 3));
}

#[test]
fn oversized_pieces_are_not_understood() {
    // DW_OP_piece with a size of 2^62 bytes, whose size in bits does not fit 64 bits
    let piece = [0x93, 0x80, 0x80, 0x80, 0x80, 0x80, 0x80, 0x80, 0x80, 0x40];
    assert!(piece_size_overflows_at(&piece));
    assert!(!piece_size_overflows_at(&[0x93, 0x08]));
    // 2^61 - 1 still fits
    assert!(!piece_size_overflows_at(&[0x93, 0xff, 0xff, 0xff, 0xff, 0xff, 0xff, 0xff, 0xff, 0x1f]));
    // 2^61 does not
    assert!(piece_size_overflows_at(&[0x93, 0x80, 0x80, 0x80, 0x80, 0x80, 0x80, 0x80, 0x80, 0x20]));
    // a tenth byte other than 0 or 1 is no number at all
    assert!(!piece_size_overflows_at(&[0x93, 0x80, 0x80, 0x80, 0x80, 0x80, 0x80, 0x80, 0x80, 0x80, 0x02]));
    assert_eq!(
        x86_64_breg_offset_deref(&piece, LE, encoding()).unwrap(),
        (BpfCfaType::CfaTypeUndefined, -1)
    );
    assert_eq!(
        x86_rbp_expr_parse(&piece, LE, encoding()).unwrap(),
        (BpfRbpType::RbpTypeExprUnknown, -1)
    );
    // as the second operation after rsp + 8
    let mut expr = vec![0x77, 0x08];
    expr.extend_from_slice(&piece);
    assert_eq!(
        x86_64_breg_offset_deref(&expr, LE, encoding()).unwrap(),
        (BpfCfaType::CfaTypeUndefined, -1)
    );
    // a whole row with such a CFA expression, as a 10-byte expression
    let bytes = vec![0x93, 0x80, 0x80, 0x80, 0x80, 0x80, 0x80, 0x80, 0x80, 0x20];
    let r = compact_row(&row(0x50, CfaRuleModel::Expression { bytes }, RegisterRuleModel::Undefined)).unwrap();
    assert_eq!((r.pc, r.cfa_type, r.cfa_offset), (0x50, BpfCfaType::CfaTypeUndefined, -1));
}

#[test]
fn decisions_on_decoded_operations() {
    let rbp8 = DwarfOp::RegisterOffset { register: 6, offset: 8, base_type: 0 };
    let rsp = DwarfOp::RegisterOffset { register: 7, offset: -8, base_type: 0 };
    assert_eq!(deref_base(rbp8), Some((BpfCfaType::CfaTypeExprRbpDeref, 8)));
    assert_eq!(deref_base(rsp), Some((BpfCfaType::CfaTypeExprRspDeref, -8)));
    assert_eq!(deref_base(DwarfOp::RegisterOffset { register: 6, offset: 8, base_type: 3 }), None);
    assert_eq!(deref_base(DwarfOp::RegisterOffset { register: 5, offset: 8, base_type: 0 }), None);
    assert_eq!(deref_base(DwarfOp::Deref), None);
    let base = (BpfCfaType::CfaTypeExprRspDeref, 0x1_0010i64);
    assert_eq!(deref_cfa(base, DwarfOp::Deref, 0), (BpfCfaType::CfaTypeExprRspDeref, 0x10));
    assert_eq!(deref_cfa(base, DwarfOp::Deref, 1), (BpfCfaType::CfaTypeUndefined, -1));
    assert_eq!(deref_cfa(base, DwarfOp::Other, 0), (BpfCfaType::CfaTypeUndefined, -1));
    assert_eq!(rbp_rule(rbp8, 0), (BpfRbpType::RbpTypeExprRbp, 8));
    assert_eq!(rbp_rule(rsp, 0), (BpfRbpType::RbpTypeExprRsp, -8));
    assert_eq!(rbp_rule(rbp8, 2), (BpfRbpType::RbpTypeExprUnknown, -1));
    assert_eq!(rbp_rule(DwarfOp::RegisterOffset { register: 3, offset: 8, base_type: 0 }, 0), (BpfRbpType::RbpTypeExprUnknown, -1));
    assert_eq!(rbp_rule(DwarfOp::Other, 0), (BpfRbpType::RbpTypeExprUnknown, -1));
}

#[test]
fn unparsable_entries_are_skipped() {
    assert!(matches!(entry_event(&Err(gimli::Error::Io)), Some(UnwindEvent::SkippedEntry)));
    assert!(entry_event(&Ok(())).is_none());
}

#[test]
fn rows_on_other_targets() {
    let other = |cfa, rbp| UnwindRowModel {
        start_address: 0x70,
        cfa,
        rbp,
        target: TargetArch::Other,
        byte_order: LE,
        encoding: encoding(),
    };
    let r = compact_row(&other(CfaRuleModel::RegisterAndOffset { register: 7, offset: 16 }, RegisterRuleModel::Offset(-16))).unwrap();
    assert_eq!((r.pc, r.cfa_type, r.cfa_offset), (0x70, BpfCfaType::CfaTypeUndefined, 16));
    assert_eq!((r.rbp_type, r.rbp_offset), (BpfRbpType::RbpRuleOffsetSetUnchanged, -1));
    // no PLT scan and no decoding: even a short, undecodable expression gives a row
    let r = compact_row(&other(CfaRuleModel::Expression { bytes: vec![0x76] }, RegisterRuleModel::Expression(vec![0x76]))).unwrap();
    assert_eq!((r.cfa_type, r.cfa_offset), (BpfCfaType::CfaTypeUndefined, -1));
    assert_eq!(r.rbp_type, BpfRbpType::RbpRuleOffsetSetUnchanged);
}

#[test]
fn binary_object_errors_compare() {
    assert_eq!(BinaryObjectError::IoError, BinaryObjectError::IoError);
    assert_ne!(BinaryObjectError::GimliError(gimli::Error::Io), BinaryObjectError::IoError);
}
