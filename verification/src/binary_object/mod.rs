//! Binary object inspection: shared types of the DWARF unwind table builder
//! and of the ELF symbol reader.

use vstd::prelude::*;

pub mod dwarf_cie_fde;
pub mod dwarf_dump;
pub mod elf_symbol;

verus! {

/// Declares `gimli::Error`, the parse error of the DWARF reader, so that it can
/// travel through verified code. Nothing inside a value of it is visible here.
#[verifier::external_type_specification]
#[verifier::external_body]
pub struct ExGimliError(gimli::Error);

/// Declares `object::read::Error`, the parse error of the object file reader.
#[verifier::external_type_specification]
#[verifier::external_body]
pub struct ExObjectError(object::read::Error);

/// Errors of the binary object readers.
#[derive(Debug, Clone, Copy, PartialEq, Eq)]
pub enum BinaryObjectError {
    GimliError(gimli::Error),
    ObjectError(object::read::Error),
    IoError,
}

/// How the canonical frame address (CFA) of a row is recovered.
#[derive(Debug, Clone, Copy, PartialEq, Eq, Structural)]
pub enum BpfCfaType {
    CfaTypeUndefined,
    CfaTypeRbp,
    CfaTypeRsp,
    CfaTypeExpression,
    CfaTypeEndFdeMarker,
    CfaTypeExprRbpDeref,
    CfaTypeExprRspDeref,
}

/// How the frame pointer (rbp) of the caller is recovered.
#[derive(Debug, Clone, Copy, PartialEq, Eq, Structural)]
pub enum BpfRbpType {
    RbpRuleOffsetSetUnchanged,
    RbpRuleOffset,
    RbpRuleRegister,
    RbpTypeExpression,
    RbpTypeUndefinedReturnAddress,
    RbpTypeExprRbp,
    RbpTypeExprRsp,
    RbpTypeExprUnknown,
}

impl BpfCfaType {
    /// The number by which the eBPF unwinder knows this type.
    pub fn code(&self) -> (r: u8)
        ensures
            r == self.spec_code(),
    {
        match self {
            BpfCfaType::CfaTypeUndefined => 0,
            BpfCfaType::CfaTypeRbp => 1,
            BpfCfaType::CfaTypeRsp => 2,
            BpfCfaType::CfaTypeExpression => 3,
            BpfCfaType::CfaTypeEndFdeMarker => 4,
            BpfCfaType::CfaTypeExprRbpDeref => 5,
            BpfCfaType::CfaTypeExprRspDeref => 6,
        }
    }

    pub open spec fn spec_code(&self) -> u8 {
        match self {
            BpfCfaType::CfaTypeUndefined => 0,
            BpfCfaType::CfaTypeRbp => 1,
            BpfCfaType::CfaTypeRsp => 2,
            BpfCfaType::CfaTypeExpression => 3,
            BpfCfaType::CfaTypeEndFdeMarker => 4,
            BpfCfaType::CfaTypeExprRbpDeref => 5,
            BpfCfaType::CfaTypeExprRspDeref => 6,
        }
    }
}

impl BpfRbpType {
    /// The number by which the eBPF unwinder knows this type.
    pub fn code(&self) -> (r: u8)
        ensures
            r == self.spec_code(),
    {
        match self {
            BpfRbpType::RbpRuleOffsetSetUnchanged => 0,
            BpfRbpType::RbpRuleOffset => 1,
            BpfRbpType::RbpRuleRegister => 2,
            BpfRbpType::RbpTypeExpression => 3,
            BpfRbpType::RbpTypeUndefinedReturnAddress => 4,
            BpfRbpType::RbpTypeExprRbp => 5,
            BpfRbpType::RbpTypeExprRsp => 6,
            BpfRbpType::RbpTypeExprUnknown => 7,
        }
    }

    pub open spec fn spec_code(&self) -> u8 {
        match self {
            BpfRbpType::RbpRuleOffsetSetUnchanged => 0,
            BpfRbpType::RbpRuleOffset => 1,
            BpfRbpType::RbpRuleRegister => 2,
            BpfRbpType::RbpTypeExpression => 3,
            BpfRbpType::RbpTypeUndefinedReturnAddress => 4,
            BpfRbpType::RbpTypeExprRbp => 5,
            BpfRbpType::RbpTypeExprRsp => 6,
            BpfRbpType::RbpTypeExprUnknown => 7,
        }
    }
}

/// One row of the compact unwind table handed to the eBPF unwinder.
#[derive(Debug, Clone, Copy, PartialEq, Eq, Structural)]
pub struct CompactUnwindTableRow {
    pub pc: u64,
    pub cfa_type: BpfCfaType,
    pub rbp_type: BpfRbpType,
    pub cfa_offset: i16,
    pub rbp_offset: i16,
}


/// A symbol of an ELF file: the address range it covers and its name.
#[derive(Debug)]
pub struct Symbol {
    start: u64,
    end: u64,
    symbol: String,
}

/// The mathematical value of a [`Symbol`].
pub struct SymbolView {
    pub start: u64,
    pub end: u64,
    pub symbol: Seq<char>,
}

impl View for Symbol {
    type V = SymbolView;

    closed spec fn view(&self) -> SymbolView {
        SymbolView { start: self.start, end: self.end, symbol: self.symbol@ }
    }
}

impl Symbol {
    /// A symbol covering `start..end` named `symbol`.
    pub fn new(start: u64, end: u64, symbol: String) -> (r: Symbol)
        ensures
            r@ == (SymbolView { start, end, symbol: symbol@ }),
    {
        Symbol { start, end, symbol }
    }

    /// Where the symbol starts.
    pub fn start(&self) -> (r: u64)
        ensures
            r == self@.start,
    {
        self.start
    }

    /// Where the symbol ends (the first address after it).
    pub fn end(&self) -> (r: u64)
        ensures
            r == self@.end,
    {
        self.end
    }

    /// The symbol's name.
    pub fn name(&self) -> (r: &str)
        ensures
            r@ == self@.symbol,
    {
        self.symbol.as_str()
    }
}

} // verus!
