//! Builds the compact unwind table of the eBPF unwinder from the rows of the
//! DWARF call frame information (`.eh_frame`) of an ELF file, read as x86_64
//! rows where the table is built for x86_64.
//!
//! The walk over the entries and rows of `.eh_frame` is done by the DWARF
//! reader; each row it yields, each row or entry it fails to read, and each
//! error that stops it is handed here as an [`UnwindEvent`], and the
//! functions of this module decide what the unwinder gets for it.

use vstd::prelude::*;

use crate::binary_object::{BinaryObjectError, BpfCfaType, BpfRbpType, CompactUnwindTableRow};

verus! {

/// The PLT stub CFA expressions that the unwinder recognizes.
#[derive(Debug, Clone, Copy, PartialEq, Eq, Structural)]
pub enum DwarfCfaExpressionPltType {
    Unknown,
    /// `sp + 8 + ((((ip & 15) >= 11)) << 3)`
    Type1,
    /// `sp + 8 + ((((ip & 15) >= 10)) << 3)`
    Type2,
}

/// The instruction-pointer threshold of a PLT stub CFA expression; it is what
/// the unwind table stores as the CFA offset of such a row.
#[derive(Debug, Clone, Copy, PartialEq, Eq, Structural)]
pub enum PltThreshold {
    Unknown,
    Threshold1,
    Threshold2,
}

impl PltThreshold {
    pub open spec fn spec_value(&self) -> i16 {
        match self {
            PltThreshold::Unknown => 0,
            PltThreshold::Threshold1 => 11,
            PltThreshold::Threshold2 => 10,
        }
    }

    /// The threshold as a number.
    pub fn value(&self) -> (r: i16)
        ensures
            r == self.spec_value(),
    {
        match self {
            PltThreshold::Unknown => 0,
            PltThreshold::Threshold1 => 11,
            PltThreshold::Threshold2 => 10,
        }
    }
}

/// The opcodes of a PLT stub expression, once the zero bytes are left out:
/// DW_OP_breg7, DW_OP_const1u, DW_OP_breg16, DW_OP_lit15, DW_OP_and, the
/// literal `lit` that the low bits of the instruction pointer are compared
/// with, DW_OP_ge, DW_OP_lit3, DW_OP_shl, DW_OP_plus.
pub open spec fn plt_code(lit: u8) -> Seq<u8> {
    seq![0x77u8, 0x08u8, 0x80u8, 0x3fu8, 0x1au8, lit, 0x2au8, 0x33u8, 0x24u8, 0x22u8]
}

/// The opcodes of the first PLT stub expression (literal DW_OP_lit11).
pub open spec fn plt_type1_code() -> Seq<u8> {
    plt_code(0x3b)
}

/// The opcodes of the second PLT stub expression (literal DW_OP_lit10).
pub open spec fn plt_type2_code() -> Seq<u8> {
    plt_code(0x3a)
}

/// The number of opcodes that the PLT stub recognition compares.
pub open spec fn plt_code_len() -> nat {
    10
}

/// The bytes of `s` that are not zero, in their order.
pub open spec fn nonzero_bytes(s: Seq<u8>) -> Seq<u8>
    decreases s.len(),
{
    if s.len() == 0 {
        Seq::empty()
    } else if s.last() != 0 {
        nonzero_bytes(s.drop_last()).push(s.last())
    } else {
        nonzero_bytes(s.drop_last())
    }
}

/// Whether the PLT recognition of `expr` stays inside the expression: it reads
/// bytes until it has ten that are not zero, once the expression has ten bytes.
pub open spec fn plt_scan_in_bounds(expr: Seq<u8>) -> bool {
    expr.len() < plt_code_len() || nonzero_bytes(expr).len() >= plt_code_len()
}

/// Which PLT stub expression `expr` is: the first ten bytes of it that are not
/// zero are compared with the two known opcode sequences.
pub open spec fn spec_plt_type(expr: Seq<u8>) -> DwarfCfaExpressionPltType {
    if expr.len() < plt_code_len() {
        DwarfCfaExpressionPltType::Unknown
    } else if nonzero_bytes(expr).take(10) == plt_type1_code() {
        DwarfCfaExpressionPltType::Type1
    } else if nonzero_bytes(expr).take(10) == plt_type2_code() {
        DwarfCfaExpressionPltType::Type2
    } else {
        DwarfCfaExpressionPltType::Unknown
    }
}

proof fn lemma_nonzero_bytes_append(a: Seq<u8>, b: Seq<u8>)
    ensures
        nonzero_bytes(a + b) == nonzero_bytes(a) + nonzero_bytes(b),
    decreases b.len(),
{
    if b.len() == 0 {
        assert(a + b =~= a);
        assert(nonzero_bytes(b) =~= Seq::<u8>::empty());
        assert(nonzero_bytes(a) + nonzero_bytes(b) =~= nonzero_bytes(a));
    } else {
        lemma_nonzero_bytes_append(a, b.drop_last());
        assert((a + b).drop_last() =~= a + b.drop_last());
        assert((a + b).last() == b.last());
        if b.last() != 0 {
            assert(nonzero_bytes(a) + nonzero_bytes(b) =~= (nonzero_bytes(a) + nonzero_bytes(
                b.drop_last(),
            )).push(b.last()));
        }
    }
}

/// Tells whether the PLT recognition of `expr` stays inside it (see
/// [`dwarf_cfa_expr_plt_type`]).
pub fn plt_scan_fits(expr: &[u8]) -> (r: bool)
    ensures
        r == plt_scan_in_bounds(expr@),
{
    if expr.len() < 10 {
        return true;
    }
    let mut count: usize = 0;
    let mut j: usize = 0;
    while j < expr.len()
        invariant
            j <= expr.len(),
            count == nonzero_bytes(expr@.take(j as int)).len(),
            count <= j,
        decreases expr.len() - j,
    {
        proof {
            assert(expr@.take(j + 1).drop_last() =~= expr@.take(j as int));
            assert(expr@.take(j + 1).last() == expr@[j as int]);
        }
        if expr[j] != 0 {
            count = count + 1;
        }
        j = j + 1;
    }
    proof {
        assert(expr@.take(j as int) =~= expr@);
    }
    count >= 10
}

/// Opcode `i` of the PLT stub expression with literal `lit`.
fn plt_code_byte(lit: u8, i: usize) -> (r: u8)
    requires
        i < 10,
    ensures
        r == plt_code(lit)[i as int],
{
    if i == 0 {
        0x77
    } else if i == 1 {
        0x08
    } else if i == 2 {
        0x80
    } else if i == 3 {
        0x3f
    } else if i == 4 {
        0x1a
    } else if i == 5 {
        lit
    } else if i == 6 {
        0x2a
    } else if i == 7 {
        0x33
    } else if i == 8 {
        0x24
    } else {
        0x22
    }
}

/// Whether the ten opcodes `code` are those of the PLT stub expression with
/// literal `lit`.
fn matches_plt_code(code: &Vec<u8>, lit: u8) -> (r: bool)
    requires
        code.len() == 10,
    ensures
        r == (code@ == plt_code(lit)),
{
    let mut i: usize = 0;
    while i < 10
        invariant
            i <= 10,
            code.len() == 10,
            forall|j: int| 0 <= j < i ==> code@[j] == plt_code(lit)[j],
        decreases 10 - i,
    {
        if code[i] != plt_code_byte(lit, i) {
            return false;
        }
        i = i + 1;
    }
    assert(code@ =~= plt_code(lit));
    true
}

/// Recognizes the PLT stub CFA expressions of x86_64: the first ten bytes of
/// `expr` that are not zero are compared with the opcodes of the two known
/// stubs (the zero bytes are operands of the first two operations).
pub fn dwarf_cfa_expr_plt_type(expr: &[u8]) -> (r: Result<
    DwarfCfaExpressionPltType,
    BinaryObjectError,
>)
    requires
        plt_scan_in_bounds(expr@),
    ensures
        r == Ok::<DwarfCfaExpressionPltType, BinaryObjectError>(spec_plt_type(expr@)),
{
    if expr.len() < 10 {
        return Ok(DwarfCfaExpressionPltType::Unknown);
    }
    let mut code: Vec<u8> = Vec::new();
    let mut j: usize = 0;
    while code.len() < 10
        invariant
            10 <= expr.len(),
            plt_scan_in_bounds(expr@),
            j <= expr.len(),
            code@ == nonzero_bytes(expr@.take(j as int)),
            code.len() <= 10,
        decreases expr.len() - j,
    {
        proof {
            if j == expr.len() {
                assert(expr@.take(j as int) =~= expr@);
            }
            assert(expr@.take(j + 1).drop_last() =~= expr@.take(j as int));
            assert(expr@.take(j + 1).last() == expr@[j as int]);
        }
        let b = expr[j];
        if b != 0 {
            code.push(b);
        }
        j = j + 1;
    }
    proof {
        lemma_nonzero_bytes_append(expr@.take(j as int), expr@.skip(j as int));
        assert(expr@.take(j as int) + expr@.skip(j as int) =~= expr@);
        assert(nonzero_bytes(expr@).take(10) =~= code@);
    }
    let is_type1 = matches_plt_code(&code, 0x3b);
    let is_type2 = matches_plt_code(&code, 0x3a);
    if is_type1 {
        Ok(DwarfCfaExpressionPltType::Type1)
    } else if is_type2 {
        Ok(DwarfCfaExpressionPltType::Type2)
    } else {
        Ok(DwarfCfaExpressionPltType::Unknown)
    }
}


/// One DWARF expression operation, as far as the unwind table builder tells
/// operations apart.
#[derive(Debug, Clone, Copy, PartialEq, Eq, Structural)]
pub enum DwarfOp {
    /// `DW_OP_breg*`, `DW_OP_bregx` or `DW_OP_regval_type`: the value of
    /// `register` plus `offset`; `base_type` is 0 for the generic type.
    RegisterOffset { register: u16, offset: i64, base_type: usize },
    /// One of the dereferencing operations.
    Deref,
    /// Any other operation.
    Other,
}

/// The byte order of the file whose DWARF data is read.
#[derive(Debug, Clone, Copy, PartialEq, Eq, Structural)]
pub enum ByteOrder {
    Little,
    Big,
}

/// The 32-bit or the 64-bit DWARF format.
#[derive(Debug, Clone, Copy, PartialEq, Eq, Structural)]
pub enum DwarfFormat {
    Dwarf32,
    Dwarf64,
}

/// What decoding a DWARF expression depends on besides its bytes (the fields
/// of `gimli::Encoding`): the address size, the format and the DWARF version.
#[derive(Debug, Clone, Copy, PartialEq, Eq, Structural)]
pub struct DwarfEncoding {
    pub address_size: u8,
    pub format: DwarfFormat,
    pub version: u16,
}

/// The weights of the bytes of an unsigned LEB128 number that the DWARF
/// reader accepts: 2 to the power 0, 7, ..., 63.
pub open spec fn is_leb128_weight(w: nat) -> bool {
    ||| w == 1
    ||| w == 0x80
    ||| w == 0x4000
    ||| w == 0x20_0000
    ||| w == 0x1000_0000
    ||| w == 0x8_0000_0000
    ||| w == 0x400_0000_0000
    ||| w == 0x2_0000_0000_0000
    ||| w == 0x100_0000_0000_0000
    ||| w == 0x8000_0000_0000_0000
}

/// The unsigned LEB128 number of DWARF whose byte `i` of `bytes` has the
/// weight `weight` and whose earlier bytes add up to `acc`: seven bits per
/// byte, least significant first, every byte but the last with its high bit
/// set. None where the bytes run out, or where the byte of weight 2^63 is not
/// 0 or 1 (the number would not fit 64 bits).
pub open spec fn uleb128_from(bytes: Seq<u8>, i: nat, weight: nat, acc: nat) -> Option<nat>
    decreases bytes.len() - i,
{
    if i >= bytes.len() {
        None
    } else if weight == 0x8000_0000_0000_0000 && bytes[i as int] != 0 && bytes[i as int] != 1 {
        None
    } else if bytes[i as int] < 0x80 {
        Some(acc + bytes[i as int] as nat * weight)
    } else {
        uleb128_from(bytes, i + 1, weight * 128, acc + (bytes[i as int] - 0x80) as nat * weight)
    }
}

/// Whether `bytes` start with a `DW_OP_piece` (0x93) whose size, a LEB128
/// number of bytes, is 2^61 or more, so that its size in bits does not fit
/// 64 bits.
pub open spec fn piece_size_overflows(bytes: Seq<u8>) -> bool {
    &&& bytes.len() > 0
    &&& bytes[0] == 0x93
    &&& match uleb128_from(bytes, 1, 1, 0) {
        Some(size) => size >= 0x2000_0000_0000_0000,
        None => false,
    }
}

/// Tells whether `bytes` start with a `DW_OP_piece` whose size in bits does
/// not fit 64 bits (see [`piece_size_overflows`]).
pub fn piece_size_overflows_at(bytes: &[u8]) -> (r: bool)
    ensures
        r == piece_size_overflows(bytes@),
{
    if bytes.len() == 0 || bytes[0] != 0x93 {
        return false;
    }
    let mut i: usize = 1;
    let mut weight: u128 = 1;
    let mut acc: u128 = 0;
    while i < bytes.len()
        invariant
            1 <= i <= bytes.len(),
            bytes@[0] == 0x93,
            is_leb128_weight(weight as nat),
            acc < weight,
            uleb128_from(bytes@, 1, 1, 0) == uleb128_from(bytes@, i as nat, weight as nat, acc as nat),
        decreases bytes.len() - i,
    {
        let b = bytes[i];
        if weight == 0x8000_0000_0000_0000 && b != 0 && b != 1 {
            return false;
        }
        if b < 0x80 {
            proof {
                assert((b as u128) * weight <= 0x7f * weight) by (nonlinear_arith)
                    requires
                        b < 0x80,
                ;
            }
            let size = acc + (b as u128) * weight;
            return size >= 0x2000_0000_0000_0000;
        }
        let low = (b - 0x80) as u128;
        proof {
            assert(low * weight <= 0x7f * weight) by (nonlinear_arith)
                requires
                    low <= 0x7f,
            ;
        }
        acc = acc + low * weight;
        weight = weight * 128;
        i = i + 1;
    }
    false
}

/// What `gimli::Operation::parse` decodes from the front of `bytes`, read
/// with the byte order `order` and the encoding `encoding`: the operation and
/// the bytes that follow it, or `None` where the bytes do not decode.
pub uninterp spec fn dwarf_op_parse(
    bytes: Seq<u8>,
    order: ByteOrder,
    encoding: DwarfEncoding,
) -> Option<(DwarfOp, Seq<u8>)>;

/// Decodes the first operation of a DWARF expression with
/// `gimli::Operation::parse`. Trusted: it fails exactly where
/// `dwarf_op_parse` of the arguments is `None`, and otherwise gives the
/// operation told apart as [`DwarfOp`] and the bytes that the reader has left
/// after it, as `dwarf_op_parse` names them. Of the error nothing is stated:
/// gimli's decoding errors carry the address of the bytes they were read from.
/// The reader computes the size in bits of a `DW_OP_piece` as eight times its
/// operand, which panics in a build with overflow checks when that does not
/// fit 64 bits; `requires` leaves such a piece out.
#[verifier::external_body]
fn parse_dwarf_op<'a>(
    bytes: &'a [u8],
    order: ByteOrder,
    encoding: DwarfEncoding,
) -> (r: Result<(DwarfOp, &'a [u8]), gimli::Error>)
    requires
        !piece_size_overflows(bytes@),
    ensures
        r is Err <==> dwarf_op_parse(bytes@, order, encoding) is None,
        match r {
            Ok((op, rest)) => dwarf_op_parse(bytes@, order, encoding) == Some((op, rest@)),
            Err(_) => true,
        },
{
    let endian = match order {
        ByteOrder::Little => gimli::RunTimeEndian::Little,
        ByteOrder::Big => gimli::RunTimeEndian::Big,
    };
    let format = match encoding.format {
        DwarfFormat::Dwarf32 => gimli::Format::Dwarf32,
        DwarfFormat::Dwarf64 => gimli::Format::Dwarf64,
    };
    let (address_size, version, mut reader) = (encoding.address_size, encoding.version, gimli::EndianSlice::new(bytes, endian));
    let op = match gimli::Operation::parse(&mut reader, gimli::Encoding { address_size, format, version })? {
        gimli::Operation::RegisterOffset { register, offset, base_type } => DwarfOp::RegisterOffset { register: register.0, offset, base_type: base_type.0 },
        gimli::Operation::Deref { .. } => DwarfOp::Deref,
        _ => DwarfOp::Other,
    };
    Ok((op, reader.slice()))
}

/// Whether `e` is the error that a spec outcome `expected` describes: the
/// error itself where it is known, and otherwise a DWARF decoding error, whose
/// value the decoder does not fix.
pub open spec fn error_agrees(e: BinaryObjectError, expected: Option<BinaryObjectError>) -> bool {
    match expected {
        Some(known) => e == known,
        None => e is GimliError,
    }
}

/// The CFA of a row whose expression is not understood.
pub open spec fn undefined_cfa() -> (BpfCfaType, i16) {
    (BpfCfaType::CfaTypeUndefined, -1i16)
}

/// The CFA dereference type and offset of an operation `rbp + offset` or
/// `rsp + offset` with the generic base type; none for any other operation.
pub open spec fn spec_deref_base(op: DwarfOp) -> Option<(BpfCfaType, i64)> {
    match op {
        DwarfOp::RegisterOffset { register, offset, base_type } => if base_type != 0 {
            None
        } else if register == 6 {
            Some((BpfCfaType::CfaTypeExprRbpDeref, offset))
        } else if register == 7 {
            Some((BpfCfaType::CfaTypeExprRspDeref, offset))
        } else {
            None
        },
        _ => None,
    }
}

/// The CFA dereference that the first operation of an expression can start
/// (see [`spec_deref_base`]).
pub fn deref_base(op: DwarfOp) -> (r: Option<(BpfCfaType, i64)>)
    ensures
        r == spec_deref_base(op),
{
    match op {
        DwarfOp::RegisterOffset { register, offset, base_type } => {
            if base_type != 0 {
                None
            } else if register == 6 {
                Some((BpfCfaType::CfaTypeExprRbpDeref, offset))
            } else if register == 7 {
                Some((BpfCfaType::CfaTypeExprRspDeref, offset))
            } else {
                None
            }
        },
        _ => None,
    }
}

/// The CFA of an expression that starts with the register operation `base`
/// and goes on with `second`, after which `tail_len` bytes follow: a
/// dereference of the register plus the offset cut to 16 bits where `second`
/// is a dereference that ends the expression, and undefined otherwise.
pub open spec fn spec_deref_cfa(base: (BpfCfaType, i64), second: DwarfOp, tail_len: nat) -> (
    BpfCfaType,
    i16,
) {
    if second == DwarfOp::Deref && tail_len == 0 {
        (base.0, base.1 as i16)
    } else {
        undefined_cfa()
    }
}

/// The CFA of `base; second` (see [`spec_deref_cfa`]).
pub fn deref_cfa(base: (BpfCfaType, i64), second: DwarfOp, tail_len: usize) -> (r: (
    BpfCfaType,
    i16,
))
    ensures
        r == spec_deref_cfa(base, second, tail_len as nat),
{
    match second {
        DwarfOp::Deref => {
            if tail_len == 0 {
                (base.0, base.1 as i16)
            } else {
                (BpfCfaType::CfaTypeUndefined, -1i16)
            }
        },
        _ => (BpfCfaType::CfaTypeUndefined, -1i16),
    }
}

/// The CFA that an x86_64 CFA expression other than a PLT stub gives: only
/// `rbp + offset` or `rsp + offset` (generic base type) followed by a single
/// dereference that ends the expression is understood (see
/// [`spec_deref_cfa`]). `None` where an operation that is read does not
/// decode. A `DW_OP_piece` whose size in bits does not fit 64 bits is a piece
/// like any other here, so the expression is not understood; the value the
/// reader computes for it wraps in a build without overflow checks.
pub open spec fn spec_breg_offset_deref(
    expr: Seq<u8>,
    order: ByteOrder,
    encoding: DwarfEncoding,
) -> Option<(BpfCfaType, i16)> {
    if piece_size_overflows(expr) {
        Some(undefined_cfa())
    } else {
        match dwarf_op_parse(expr, order, encoding) {
            None => None,
            Some((first, rest)) => match spec_deref_base(first) {
                None => Some(undefined_cfa()),
                Some(base) => if piece_size_overflows(rest) {
                    Some(undefined_cfa())
                } else {
                    match dwarf_op_parse(rest, order, encoding) {
                        None => None,
                        Some((second, tail)) => Some(spec_deref_cfa(base, second, tail.len())),
                    }
                },
            },
        }
    }
}

/// Reads an x86_64 CFA expression of the form `rbp/rsp + offset; deref`.
pub fn x86_64_breg_offset_deref(expr: &[u8], order: ByteOrder, encoding: DwarfEncoding) -> (r:
    Result<(BpfCfaType, i16), BinaryObjectError>)
    ensures
        match spec_breg_offset_deref(expr@, order, encoding) {
            Some(cfa) => r == Ok::<(BpfCfaType, i16), BinaryObjectError>(cfa),
            None => r is Err && r->Err_0 is GimliError,
        },
{
    if piece_size_overflows_at(expr) {
        return Ok((BpfCfaType::CfaTypeUndefined, -1i16));
    }
    let (first, rest) = match parse_dwarf_op(expr, order, encoding) {
        Ok(parsed) => parsed,
        Err(e) => return Err(BinaryObjectError::GimliError(e)),
    };
    let base = match deref_base(first) {
        Some(base) => base,
        None => return Ok((BpfCfaType::CfaTypeUndefined, -1i16)),
    };
    if piece_size_overflows_at(rest) {
        return Ok((BpfCfaType::CfaTypeUndefined, -1i16));
    }
    match parse_dwarf_op(rest, order, encoding) {
        Ok((second, tail)) => Ok(deref_cfa(base, second, tail.len())),
        Err(e) => Err(BinaryObjectError::GimliError(e)),
    }
}

/// The frame pointer rule of a row whose rbp expression is not understood.
pub open spec fn unknown_rbp() -> (BpfRbpType, i16) {
    (BpfRbpType::RbpTypeExprUnknown, -1i16)
}

/// The rbp rule of an expression whose first operation is `op`, after which
/// `rest_len` bytes follow: only a lone `rbp + offset` or `rsp + offset`
/// (generic base type) is understood, with the offset cut to 16 bits.
pub open spec fn spec_rbp_rule(op: DwarfOp, rest_len: nat) -> (BpfRbpType, i16) {
    match op {
        DwarfOp::RegisterOffset { register, offset, base_type } => if base_type != 0 || rest_len
            > 0 {
            unknown_rbp()
        } else if register == 6 {
            (BpfRbpType::RbpTypeExprRbp, offset as i16)
        } else if register == 7 {
            (BpfRbpType::RbpTypeExprRsp, offset as i16)
        } else {
            unknown_rbp()
        },
        _ => unknown_rbp(),
    }
}

/// The rbp rule of an expression whose first operation is `op` (see
/// [`spec_rbp_rule`]).
pub fn rbp_rule(op: DwarfOp, rest_len: usize) -> (r: (BpfRbpType, i16))
    ensures
        r == spec_rbp_rule(op, rest_len as nat),
{
    match op {
        DwarfOp::RegisterOffset { register, offset, base_type } => {
            if base_type != 0 || rest_len > 0 {
                (BpfRbpType::RbpTypeExprUnknown, -1i16)
            } else if register == 6 {
                (BpfRbpType::RbpTypeExprRbp, offset as i16)
            } else if register == 7 {
                (BpfRbpType::RbpTypeExprRsp, offset as i16)
            } else {
                (BpfRbpType::RbpTypeExprUnknown, -1i16)
            }
        },
        _ => (BpfRbpType::RbpTypeExprUnknown, -1i16),
    }
}

/// The rbp rule that an x86_64 rbp expression gives (see [`spec_rbp_rule`]);
/// `None` where its first operation does not decode. A leading `DW_OP_piece`
/// whose size in bits does not fit 64 bits is a piece like any other, so the
/// expression is not understood.
pub open spec fn spec_rbp_expr(expr: Seq<u8>, order: ByteOrder, encoding: DwarfEncoding) -> Option<
    (BpfRbpType, i16),
> {
    if piece_size_overflows(expr) {
        Some(unknown_rbp())
    } else {
        match dwarf_op_parse(expr, order, encoding) {
            None => None,
            Some((first, rest)) => Some(spec_rbp_rule(first, rest.len())),
        }
    }
}

/// Reads an x86_64 rbp expression of the form `rbp/rsp + offset`.
pub fn x86_rbp_expr_parse(expr: &[u8], order: ByteOrder, encoding: DwarfEncoding) -> (r: Result<
    (BpfRbpType, i16),
    BinaryObjectError,
>)
    ensures
        match spec_rbp_expr(expr@, order, encoding) {
            Some(rule) => r == Ok::<(BpfRbpType, i16), BinaryObjectError>(rule),
            None => r is Err && r->Err_0 is GimliError,
        },
{
    if piece_size_overflows_at(expr) {
        return Ok((BpfRbpType::RbpTypeExprUnknown, -1i16));
    }
    match parse_dwarf_op(expr, order, encoding) {
        Ok((first, rest)) => Ok(rbp_rule(first, rest.len())),
        Err(e) => Err(BinaryObjectError::GimliError(e)),
    }
}


/// The CFA rule of an unwind table row (`gimli::CfaRule`), with the bytes of
/// its expression where it has one.
#[derive(Debug)]
pub enum CfaRuleModel {
    RegisterAndOffset { register: u16, offset: i64 },
    Expression { bytes: Vec<u8> },
}

/// The rule of a register in an unwind table row (`gimli::RegisterRule`), with
/// the bytes of its expression where the table builder reads it.
#[derive(Debug)]
pub enum RegisterRuleModel {
    Undefined,
    SameValue,
    Offset(i64),
    ValOffset(i64),
    Register(u16),
    Expression(Vec<u8>),
    ValExpression,
    Architectural,
    Constant(u64),
}

/// The target the unwind table is built for: the rows are read as x86_64
/// rows, or, on any other target, the table only records where each row
/// starts, with an undefined CFA and rbp left unchanged.
#[derive(Debug, Clone, Copy, PartialEq, Eq, Structural)]
pub enum TargetArch {
    X86_64,
    Other,
}

/// A row of the DWARF unwind table of one FDE: where it starts, its CFA rule
/// and the rule of rbp (register 6), with the target the table is built for,
/// the byte order of the file and the encoding of the FDE's CIE, by which its
/// expressions are read.
#[derive(Debug)]
pub struct UnwindRowModel {
    pub start_address: u64,
    pub cfa: CfaRuleModel,
    pub rbp: RegisterRuleModel,
    pub target: TargetArch,
    pub byte_order: ByteOrder,
    pub encoding: DwarfEncoding,
}

/// What the walk over the call frame information hands to the table builder.
#[derive(Debug)]
pub enum UnwindEvent {
    /// A completed row.
    Row(UnwindRowModel),
    /// A row that could not be evaluated because of an unknown call frame
    /// instruction or too many register rules; it is left out.
    SkippedRowError,
    /// An FDE that could not be parsed; its rows are left out.
    SkippedEntry,
    /// An error that ends the walk.
    Failure(BinaryObjectError),
}

/// The DWARF reader's errors in evaluating the next row of an FDE, as far as
/// the table builder tells them apart.
#[derive(Debug, Clone, Copy, PartialEq, Eq, Structural)]
pub enum RowErrorKind {
    UnknownCallFrameInstruction,
    TooManyRegisterRules,
    Other,
}

/// The event of a row whose evaluation failed with `error` of kind `kind`:
/// an unknown call frame instruction or too many register rules skip the row,
/// any other error ends the walk.
pub open spec fn spec_row_error_event(kind: RowErrorKind, error: gimli::Error) -> UnwindEvent {
    match kind {
        RowErrorKind::UnknownCallFrameInstruction => UnwindEvent::SkippedRowError,
        RowErrorKind::TooManyRegisterRules => UnwindEvent::SkippedRowError,
        RowErrorKind::Other => UnwindEvent::Failure(BinaryObjectError::GimliError(error)),
    }
}

/// Decides what a failed row evaluation means for the table (see
/// [`spec_row_error_event`]).
pub fn row_error_event(kind: RowErrorKind, error: gimli::Error) -> (r: UnwindEvent)
    ensures
        r == spec_row_error_event(kind, error),
{
    match kind {
        RowErrorKind::UnknownCallFrameInstruction => UnwindEvent::SkippedRowError,
        RowErrorKind::TooManyRegisterRules => UnwindEvent::SkippedRowError,
        RowErrorKind::Other => UnwindEvent::Failure(BinaryObjectError::GimliError(error)),
    }
}

/// The event of an FDE whose parsing ended with `outcome`: an FDE that
/// cannot be parsed is skipped, and a parsed one gives no event of its own
/// (its rows follow).
pub fn entry_event(outcome: &Result<(), gimli::Error>) -> (r: Option<UnwindEvent>)
    ensures
        match outcome {
            Ok(()) => r is None,
            Err(_) => r == Some(UnwindEvent::SkippedEntry),
        },
{
    match outcome {
        Ok(()) => None,
        Err(_) => Some(UnwindEvent::SkippedEntry),
    }
}

/// Whether the PLT recognition of the row's CFA expression stays inside it;
/// the recognition is made on x86_64 only.
pub open spec fn row_scan_in_bounds(row: UnwindRowModel) -> bool {
    row.target == TargetArch::X86_64 ==> match row.cfa {
        CfaRuleModel::Expression { bytes } => plt_scan_in_bounds(bytes@),
        _ => true,
    }
}

pub open spec fn event_scan_in_bounds(event: UnwindEvent) -> bool {
    match event {
        UnwindEvent::Row(row) => row_scan_in_bounds(row),
        _ => true,
    }
}

/// The CFA type of a CFA rule `register + offset`: `rsp` (7) or `rbp` (6) on
/// x86_64, undefined for any other register or target.
pub open spec fn register_cfa_type(target: TargetArch, register: u16) -> BpfCfaType {
    if target == TargetArch::X86_64 && register == 7 {
        BpfCfaType::CfaTypeRsp
    } else if target == TargetArch::X86_64 && register == 6 {
        BpfCfaType::CfaTypeRbp
    } else {
        BpfCfaType::CfaTypeUndefined
    }
}

/// The CFA part of a row: `rsp`/`rbp` plus an offset (cut to 16 bits), a PLT
/// stub (with its threshold as offset), or a register dereference expression;
/// `None` where the expression does not decode. Expressions are understood on
/// x86_64 only.
pub open spec fn spec_cfa_part(
    cfa: CfaRuleModel,
    target: TargetArch,
    order: ByteOrder,
    encoding: DwarfEncoding,
) -> Option<(BpfCfaType, i16)> {
    match cfa {
        CfaRuleModel::RegisterAndOffset { register, offset } => Some(
            (register_cfa_type(target, register), offset as i16),
        ),
        CfaRuleModel::Expression { bytes } => if target != TargetArch::X86_64 {
            Some(undefined_cfa())
        } else {
            match spec_plt_type(bytes@) {
                DwarfCfaExpressionPltType::Type1 => Some(
                    (BpfCfaType::CfaTypeExpression, PltThreshold::Threshold1.spec_value()),
                ),
                DwarfCfaExpressionPltType::Type2 => Some(
                    (BpfCfaType::CfaTypeExpression, PltThreshold::Threshold2.spec_value()),
                ),
                DwarfCfaExpressionPltType::Unknown => spec_breg_offset_deref(
                    bytes@,
                    order,
                    encoding,
                ),
            }
        },
    }
}

/// The rbp part of a row on x86_64: where rbp was saved (offset from the
/// CFA), which register holds it, or an `rbp/rsp + offset` expression; any
/// other rule, and any rule on another target, leaves rbp unchanged. `None`
/// where the expression does not decode.
pub open spec fn spec_rbp_part(
    rbp: RegisterRuleModel,
    target: TargetArch,
    order: ByteOrder,
    encoding: DwarfEncoding,
) -> Option<(BpfRbpType, i16)> {
    if target != TargetArch::X86_64 {
        Some((BpfRbpType::RbpRuleOffsetSetUnchanged, -1i16))
    } else {
        match rbp {
            RegisterRuleModel::Offset(offset) => Some((BpfRbpType::RbpRuleOffset, offset as i16)),
            RegisterRuleModel::Register(register) => Some(
                (BpfRbpType::RbpRuleRegister, register as i16),
            ),
            RegisterRuleModel::Expression(bytes) => spec_rbp_expr(bytes@, order, encoding),
            _ => Some((BpfRbpType::RbpRuleOffsetSetUnchanged, -1i16)),
        }
    }
}

/// The compact unwind table row of a DWARF unwind table row; `None` where one
/// of its expressions does not decode.
pub open spec fn spec_compact_row(row: UnwindRowModel) -> Option<CompactUnwindTableRow> {
    match spec_cfa_part(row.cfa, row.target, row.byte_order, row.encoding) {
        None => None,
        Some((cfa_type, cfa_offset)) => match spec_rbp_part(
            row.rbp,
            row.target,
            row.byte_order,
            row.encoding,
        ) {
            None => None,
            Some((rbp_type, rbp_offset)) => Some(
                CompactUnwindTableRow {
                    pc: row.start_address,
                    cfa_type,
                    rbp_type,
                    cfa_offset,
                    rbp_offset,
                },
            ),
        },
    }
}

/// The CFA part of a row (see [`spec_cfa_part`]).
pub fn cfa_part(
    cfa: &CfaRuleModel,
    target: TargetArch,
    order: ByteOrder,
    encoding: DwarfEncoding,
) -> (r: Result<(BpfCfaType, i16), BinaryObjectError>)
    requires
        target == TargetArch::X86_64 ==> match *cfa {
            CfaRuleModel::Expression { bytes } => plt_scan_in_bounds(bytes@),
            _ => true,
        },
    ensures
        match spec_cfa_part(*cfa, target, order, encoding) {
            Some(part) => r == Ok::<(BpfCfaType, i16), BinaryObjectError>(part),
            None => r is Err && r->Err_0 is GimliError,
        },
{
    let x86_64 = target == TargetArch::X86_64;
    match cfa {
        CfaRuleModel::RegisterAndOffset { register, offset } => {
            if x86_64 && *register == 7 {
                Ok((BpfCfaType::CfaTypeRsp, *offset as i16))
            } else if x86_64 && *register == 6 {
                Ok((BpfCfaType::CfaTypeRbp, *offset as i16))
            } else {
                Ok((BpfCfaType::CfaTypeUndefined, *offset as i16))
            }
        },
        CfaRuleModel::Expression { bytes } => {
            if !x86_64 {
                return Ok((BpfCfaType::CfaTypeUndefined, -1i16));
            }
            match dwarf_cfa_expr_plt_type(bytes.as_slice())? {
                DwarfCfaExpressionPltType::Unknown => x86_64_breg_offset_deref(
                    bytes.as_slice(),
                    order,
                    encoding,
                ),
                DwarfCfaExpressionPltType::Type1 => Ok(
                    (BpfCfaType::CfaTypeExpression, PltThreshold::Threshold1.value()),
                ),
                DwarfCfaExpressionPltType::Type2 => Ok(
                    (BpfCfaType::CfaTypeExpression, PltThreshold::Threshold2.value()),
                ),
            }
        },
    }
}

/// The rbp part of a row (see [`spec_rbp_part`]).
pub fn rbp_part(
    rbp: &RegisterRuleModel,
    target: TargetArch,
    order: ByteOrder,
    encoding: DwarfEncoding,
) -> (r: Result<(BpfRbpType, i16), BinaryObjectError>)
    ensures
        match spec_rbp_part(*rbp, target, order, encoding) {
            Some(part) => r == Ok::<(BpfRbpType, i16), BinaryObjectError>(part),
            None => r is Err && r->Err_0 is GimliError,
        },
{
    if target != TargetArch::X86_64 {
        return Ok((BpfRbpType::RbpRuleOffsetSetUnchanged, -1i16));
    }
    match rbp {
        RegisterRuleModel::Offset(offset) => Ok((BpfRbpType::RbpRuleOffset, *offset as i16)),
        RegisterRuleModel::Register(register) => Ok((BpfRbpType::RbpRuleRegister, *register as i16)),
        RegisterRuleModel::Expression(bytes) => x86_rbp_expr_parse(bytes.as_slice(), order, encoding),
        _ => Ok((BpfRbpType::RbpRuleOffsetSetUnchanged, -1i16)),
    }
}

/// The compact unwind table row of a DWARF unwind table row.
pub fn compact_row(row: &UnwindRowModel) -> (r: Result<CompactUnwindTableRow, BinaryObjectError>)
    requires
        row_scan_in_bounds(*row),
    ensures
        match spec_compact_row(*row) {
            Some(compact) => r == Ok::<CompactUnwindTableRow, BinaryObjectError>(compact),
            None => r is Err && r->Err_0 is GimliError,
        },
{
    let (cfa_type, cfa_offset) = cfa_part(&row.cfa, row.target, row.byte_order, row.encoding)?;
    let (rbp_type, rbp_offset) = rbp_part(&row.rbp, row.target, row.byte_order, row.encoding)?;
    Ok(CompactUnwindTableRow { pc: row.start_address, cfa_type, rbp_type, cfa_offset, rbp_offset })
}

/// The table after one more event: a row is classified and appended, a
/// skipped row or entry leaves the table as it is, a failure ends it. An
/// error is `Some` of the error where the walk reported it, and `None` where
/// an expression of a row did not decode.
pub open spec fn spec_step(rows: Seq<CompactUnwindTableRow>, event: UnwindEvent) -> Result<
    Seq<CompactUnwindTableRow>,
    Option<BinaryObjectError>,
> {
    match event {
        UnwindEvent::Row(row) => match spec_compact_row(row) {
            Some(compact) => Ok(rows.push(compact)),
            None => Err(None),
        },
        UnwindEvent::SkippedRowError => Ok(rows),
        UnwindEvent::SkippedEntry => Ok(rows),
        UnwindEvent::Failure(e) => Err(Some(e)),
    }
}

/// The outcome of running the events `events` from `start`: the first error
/// ends the run.
pub open spec fn run_events(
    start: Result<Seq<CompactUnwindTableRow>, Option<BinaryObjectError>>,
    events: Seq<UnwindEvent>,
) -> Result<Seq<CompactUnwindTableRow>, Option<BinaryObjectError>>
    decreases events.len(),
{
    if events.len() == 0 {
        start
    } else {
        match run_events(start, events.drop_last()) {
            Ok(rows) => spec_step(rows, events.last()),
            Err(e) => Err(e),
        }
    }
}

/// The compact unwind table of a walk over the call frame information.
pub open spec fn spec_unwind_table(events: Seq<UnwindEvent>) -> Result<
    Seq<CompactUnwindTableRow>,
    Option<BinaryObjectError>,
> {
    run_events(Ok(Seq::empty()), events)
}

/// Applies one event of the walk to the table being built.
pub fn push_unwind_event(rows: &mut Vec<CompactUnwindTableRow>, event: &UnwindEvent) -> (r: Result<
    (),
    BinaryObjectError,
>)
    requires
        event_scan_in_bounds(*event),
    ensures
        match spec_step(old(rows)@, *event) {
            Ok(new_rows) => r is Ok && final(rows)@ == new_rows,
            Err(expected) => r is Err && error_agrees(r->Err_0, expected) && final(rows)@ == old(
                rows,
            )@,
        },
{
    match event {
        UnwindEvent::Row(row) => {
            let compact = compact_row(row)?;
            rows.push(compact);
            Ok(())
        },
        UnwindEvent::SkippedRowError => Ok(()),
        UnwindEvent::SkippedEntry => Ok(()),
        UnwindEvent::Failure(e) => Err(*e),
    }
}

proof fn lemma_run_events_err(e: Option<BinaryObjectError>, events: Seq<UnwindEvent>)
    ensures
        run_events(Err(e), events) == Err::<Seq<CompactUnwindTableRow>, Option<BinaryObjectError>>(
            e,
        ),
    decreases events.len(),
{
    if events.len() > 0 {
        lemma_run_events_err(e, events.drop_last());
    }
}

proof fn lemma_run_events_append(
    start: Result<Seq<CompactUnwindTableRow>, Option<BinaryObjectError>>,
    a: Seq<UnwindEvent>,
    b: Seq<UnwindEvent>,
)
    ensures
        run_events(start, a + b) == run_events(run_events(start, a), b),
    decreases b.len(),
{
    if b.len() == 0 {
        assert(a + b =~= a);
    } else {
        lemma_run_events_append(start, a, b.drop_last());
        assert((a + b).drop_last() =~= a + b.drop_last());
        assert((a + b).last() == b.last());
    }
}

/// Builds the compact unwind table of a whole walk over the call frame
/// information: the rows in the order of their events, or the first error.
pub fn compact_unwind_table(events: &Vec<UnwindEvent>) -> (r: Result<
    Vec<CompactUnwindTableRow>,
    BinaryObjectError,
>)
    requires
        forall|i: int| 0 <= i < events.len() ==> event_scan_in_bounds(#[trigger] events@[i]),
    ensures
        match spec_unwind_table(events@) {
            Ok(rows) => r is Ok && r->Ok_0@ == rows,
            Err(expected) => r is Err && error_agrees(r->Err_0, expected),
        },
{
    let mut rows: Vec<CompactUnwindTableRow> = Vec::new();
    let mut i: usize = 0;
    proof {
        assert(events@.take(0) =~= Seq::<UnwindEvent>::empty());
    }
    while i < events.len()
        invariant
            i <= events.len(),
            forall|k: int| 0 <= k < events.len() ==> event_scan_in_bounds(#[trigger] events@[k]),
            spec_unwind_table(events@.take(i as int)) == Ok::<
                Seq<CompactUnwindTableRow>,
                Option<BinaryObjectError>,
            >(rows@),
        decreases events.len() - i,
    {
        proof {
            assert(events@.take(i + 1).drop_last() =~= events@.take(i as int));
            assert(events@.take(i + 1).last() == events@[i as int]);
        }
        let ghost before = rows@;
        let step = push_unwind_event(&mut rows, &events[i]);
        match step {
            Ok(()) => {},
            Err(e) => {
                proof {
                    let expected = spec_step(before, events@[i as int])->Err_0;
                    lemma_run_events_append(
                        Ok(Seq::empty()),
                        events@.take(i + 1),
                        events@.skip(i + 1),
                    );
                    assert(events@.take(i + 1) + events@.skip(i + 1) =~= events@);
                    lemma_run_events_err(expected, events@.skip(i + 1));
                }
                return Err(e);
            },
        }
        i = i + 1;
    }
    proof {
        assert(events@.take(i as int) =~= events@);
    }
    Ok(rows)
}


/// The rows among the events, in their order.
pub open spec fn row_models(events: Seq<UnwindEvent>) -> Seq<UnwindRowModel>
    decreases events.len(),
{
    if events.len() == 0 {
        Seq::empty()
    } else {
        match events.last() {
            UnwindEvent::Row(row) => row_models(events.drop_last()).push(row),
            _ => row_models(events.drop_last()),
        }
    }
}

/// A row that cannot be evaluated, or an entry that cannot be parsed, changes
/// nothing: the table with such an event between two runs of events is the
/// table without it.
pub proof fn law_skipped_events_leave_table_unchanged(
    a: Seq<UnwindEvent>,
    skipped: UnwindEvent,
    b: Seq<UnwindEvent>,
)
    requires
        skipped is SkippedRowError || skipped is SkippedEntry,
    ensures
        spec_unwind_table(a.push(skipped) + b) == spec_unwind_table(a + b),
{
    let start = Ok::<Seq<CompactUnwindTableRow>, Option<BinaryObjectError>>(Seq::empty());
    lemma_run_events_append(start, a.push(skipped), b);
    lemma_run_events_append(start, a, b);
    assert(a.push(skipped).drop_last() =~= a);
    match run_events(start, a) {
        Ok(rows) => {},
        Err(e) => {
            lemma_run_events_err(e, b);
        },
    }
}

/// Events only ever add rows at the end: when the table of a walk is built,
/// the table of any first part of it is built too and is a prefix of it.
pub proof fn law_table_grows_by_appending(a: Seq<UnwindEvent>, b: Seq<UnwindEvent>)
    requires
        spec_unwind_table(a + b) is Ok,
    ensures
        spec_unwind_table(a) is Ok,
        spec_unwind_table(a)->Ok_0.len() <= spec_unwind_table(a + b)->Ok_0.len(),
        spec_unwind_table(a)->Ok_0 == spec_unwind_table(a + b)->Ok_0.take(
            spec_unwind_table(a)->Ok_0.len() as int,
        ),
{
    let start = Ok::<Seq<CompactUnwindTableRow>, Option<BinaryObjectError>>(Seq::empty());
    lemma_run_events_append(start, a, b);
    match run_events(start, a) {
        Ok(rows) => {
            lemma_run_events_extends(rows, b);
        },
        Err(e) => {
            lemma_run_events_err(e, b);
        },
    }
}

proof fn lemma_run_events_extends(rows: Seq<CompactUnwindTableRow>, events: Seq<UnwindEvent>)
    requires
        run_events(Ok(rows), events) is Ok,
    ensures
        rows.len() <= run_events(Ok(rows), events)->Ok_0.len(),
        rows == run_events(Ok(rows), events)->Ok_0.take(rows.len() as int),
    decreases events.len(),
{
    if events.len() > 0 {
        let start = Ok::<Seq<CompactUnwindTableRow>, Option<BinaryObjectError>>(rows);
        match run_events(start, events.drop_last()) {
            Ok(mid) => {
                lemma_run_events_extends(rows, events.drop_last());
                match events.last() {
                    UnwindEvent::Row(row) => {
                        assert(mid.push(spec_compact_row(row)->Some_0).take(rows.len() as int)
                            =~= mid.take(rows.len() as int));
                    },
                    _ => {},
                }
            },
            Err(e) => {},
        }
    } else {
        assert(rows.take(rows.len() as int) =~= rows);
    }
}

/// A failure reported by the walk ends it: whatever follows, the table is
/// that error, unless an earlier error ended it first.
pub proof fn law_failure_ends_table(
    a: Seq<UnwindEvent>,
    e: BinaryObjectError,
    b: Seq<UnwindEvent>,
)
    requires
        spec_unwind_table(a) is Ok,
    ensures
        spec_unwind_table(a.push(UnwindEvent::Failure(e)) + b) == Err::<
            Seq<CompactUnwindTableRow>,
            Option<BinaryObjectError>,
        >(Some(e)),
{
    let start = Ok::<Seq<CompactUnwindTableRow>, Option<BinaryObjectError>>(Seq::empty());
    lemma_run_events_append(start, a.push(UnwindEvent::Failure(e)), b);
    assert(a.push(UnwindEvent::Failure(e)).drop_last() =~= a);
    lemma_run_events_err(Some(e), b);
}

/// Each row of the table is the compact form of the DWARF row of the same
/// rank, and starts at the same address: the table has one row per row of
/// the walk, in order.
pub proof fn law_table_rows_follow_dwarf_rows(events: Seq<UnwindEvent>)
    requires
        spec_unwind_table(events) is Ok,
    ensures
        spec_unwind_table(events)->Ok_0.len() == row_models(events).len(),
        forall|k: int|
            0 <= k < row_models(events).len() ==> spec_compact_row(#[trigger] row_models(events)[k])
                == Some(spec_unwind_table(events)->Ok_0[k]),
        forall|k: int|
            0 <= k < row_models(events).len() ==> (#[trigger] spec_unwind_table(events)->Ok_0[k]).pc
                == row_models(events)[k].start_address,
    decreases events.len(),
{
    if events.len() > 0 {
        let start = Ok::<Seq<CompactUnwindTableRow>, Option<BinaryObjectError>>(Seq::empty());
        let prev = events.drop_last();
        match run_events(start, prev) {
            Ok(rows) => {
                law_table_rows_follow_dwarf_rows(prev);
                match events.last() {
                    UnwindEvent::Row(row) => {
                        let out = spec_unwind_table(events)->Ok_0;
                        assert(out == rows.push(spec_compact_row(row)->Some_0));
                        assert forall|k: int| 0 <= k < row_models(events).len() implies spec_compact_row(
                            #[trigger] row_models(events)[k],
                        ) == Some(out[k]) by {
                            if k < row_models(prev).len() {
                                assert(row_models(events)[k] == row_models(prev)[k]);
                                assert(out[k] == rows[k]);
                            }
                        }
                    },
                    _ => {},
                }
            },
            Err(e) => {},
        }
    }
}

/// A row whose CFA is a register plus an offset and whose rbp rule has no
/// expression needs no decoding, so it always gets a compact row, with the
/// row's start address, the low 16 bits of the CFA offset, and `rsp`, `rbp`
/// or undefined as CFA type by the register and the target.
pub proof fn law_register_rows_always_classified(row: UnwindRowModel)
    requires
        row.cfa is RegisterAndOffset,
        !(row.rbp is Expression),
    ensures
        spec_compact_row(row) is Some,
        spec_compact_row(row)->Some_0.pc == row.start_address,
        spec_compact_row(row)->Some_0.cfa_offset == row.cfa->offset as i16,
        spec_compact_row(row)->Some_0.cfa_type == register_cfa_type(row.target, row.cfa->register),
{
}

/// On a target other than x86_64 every row is kept with its start address, an
/// undefined CFA type and rbp left unchanged, whatever its rules.
pub proof fn law_other_targets_keep_only_addresses(row: UnwindRowModel)
    requires
        row.target == TargetArch::Other,
    ensures
        spec_compact_row(row) is Some,
        spec_compact_row(row)->Some_0.pc == row.start_address,
        spec_compact_row(row)->Some_0.cfa_type == BpfCfaType::CfaTypeUndefined,
        spec_compact_row(row)->Some_0.rbp_type == BpfRbpType::RbpRuleOffsetSetUnchanged,
{
}

} // verus!
