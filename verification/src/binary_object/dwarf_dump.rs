//! The text of the DWARF call frame information in the style of
//! `llvm-dwarfdump`: CIEs, FDEs, their call frame instructions, and DWARF
//! expressions. The texts are built from decoded values; each text is ASCII,
//! given as its bytes.

use vstd::prelude::*;
use vstd::string::StringSliceAdditionalSpecFns;

use crate::linux_version::{decimal_digits, lemma_decimal_digits};
use crate::text::{decimal_value, is_ascii_digit};

verus! {

// ----------------------------------------------------------------------------
// Numbers and literal pieces
// ----------------------------------------------------------------------------

/// The lower-case hexadecimal digit of `d` (below 16).
pub open spec fn hex_digit(d: nat) -> u8 {
    if d < 10 {
        (0x30 + d) as u8
    } else {
        (0x61 + d - 10) as u8
    }
}

/// The lower-case hexadecimal digits of `n`, most significant first, padded
/// with zeros in front to at least `width` digits (what `{:0width$x}` writes).
pub open spec fn hex_padded(n: nat, width: nat) -> Seq<u8>
    decreases n,
{
    let rest_width: nat = if width > 0 {
        (width - 1) as nat
    } else {
        0
    };
    if n < 16 {
        Seq::new(rest_width, |i: int| 0x30u8).push(hex_digit(n))
    } else {
        hex_padded(n / 16, rest_width).push(hex_digit(n % 16))
    }
}

/// The lower-case hexadecimal digits of `n` (what `{:x}` writes).
pub open spec fn hex_text(n: nat) -> Seq<u8> {
    hex_padded(n, 0)
}

/// `n` in decimal, with a minus sign where it is negative (what `{}` writes).
pub open spec fn signed_text(n: int) -> Seq<u8> {
    if n < 0 {
        seq![0x2du8] + decimal_digits((-n) as nat)
    } else {
        decimal_digits(n as nat)
    }
}

/// `n` in decimal, always with its sign (what `{:+}` writes).
pub open spec fn plus_signed_text(n: int) -> Seq<u8> {
    if n < 0 {
        seq![0x2du8] + decimal_digits((-n) as nat)
    } else {
        seq![0x2bu8] + decimal_digits(n as nat)
    }
}

/// `0x` and the hexadecimal digits of `n`, at least eight of them (what
/// `0x{:08x}` and `{:#010x}` write).
pub open spec fn hex8_text(n: nat) -> Seq<u8> {
    "0x".spec_bytes() + hex_padded(n, 8)
}

/// `0x` and the hexadecimal digits of `n`, at least sixteen of them (what
/// `{:#018x}` writes).
pub open spec fn hex16_text(n: nat) -> Seq<u8> {
    "0x".spec_bytes() + hex_padded(n, 16)
}

/// Each byte of `data` as two hexadecimal digits.
pub open spec fn hex_bytes_text(data: Seq<u8>) -> Seq<u8>
    decreases data.len(),
{
    if data.len() == 0 {
        Seq::empty()
    } else {
        hex_bytes_text(data.drop_last()) + hex_padded(data.last() as nat, 2)
    }
}

/// Appends the bytes `b` to `out`.
pub fn push_bytes(out: &mut Vec<u8>, b: &[u8])
    ensures
        final(out)@ == old(out)@ + b@,
{
    let mut i: usize = 0;
    while i < b.len()
        invariant
            i <= b@.len(),
            out@ == old(out)@ + b@.take(i as int),
        decreases b.len() - i,
    {
        out.push(b[i]);
        i = i + 1;
        proof {
            assert(b@.take(i as int) =~= b@.take(i - 1).push(b@[i - 1]));
        }
    }
    proof {
        assert(b@.take(b@.len() as int) =~= b@);
    }
}

/// Appends the UTF-8 bytes of `s` to `out`.
pub fn push_str(out: &mut Vec<u8>, s: &str)
    ensures
        final(out)@ == old(out)@ + s.spec_bytes(),
{
    push_bytes(out, s.as_bytes());
}

/// Appends `n` in decimal.
pub fn push_decimal(out: &mut Vec<u8>, n: u64)
    ensures
        final(out)@ == old(out)@ + decimal_digits(n as nat),
    decreases n,
{
    if n >= 10 {
        push_decimal(out, n / 10);
    }
    out.push((0x30 + n % 10) as u8);
    proof {
        if n >= 10 {
            assert(out@ =~= old(out)@ + decimal_digits(n as nat));
        } else {
            assert(out@ =~= old(out)@ + decimal_digits(n as nat));
        }
    }
}

/// Appends `n` in decimal, with a minus sign where it is negative.
pub fn push_signed(out: &mut Vec<u8>, n: i64)
    ensures
        final(out)@ == old(out)@ + signed_text(n as int),
{
    if n < 0 {
        out.push(0x2d);
        let magnitude: u64 = (0 - (n as i128)) as u64;
        push_decimal(out, magnitude);
        proof {
            assert(out@ =~= old(out)@ + signed_text(n as int));
        }
    } else {
        push_decimal(out, n as u64);
    }
}

/// Appends `n` in decimal, always with its sign.
pub fn push_plus_signed(out: &mut Vec<u8>, n: i64)
    ensures
        final(out)@ == old(out)@ + plus_signed_text(n as int),
{
    if n < 0 {
        out.push(0x2d);
        let magnitude: u64 = (0 - (n as i128)) as u64;
        push_decimal(out, magnitude);
    } else {
        out.push(0x2b);
        push_decimal(out, n as u64);
    }
    proof {
        assert(out@ =~= old(out)@ + plus_signed_text(n as int));
    }
}

/// Appends `k` zero digits.
fn push_zeros(out: &mut Vec<u8>, k: u32)
    ensures
        final(out)@ == old(out)@ + Seq::new(k as nat, |i: int| 0x30u8),
{
    let mut i: u32 = 0;
    while i < k
        invariant
            i <= k,
            out@ == old(out)@ + Seq::new(i as nat, |j: int| 0x30u8),
        decreases k - i,
    {
        out.push(0x30);
        i = i + 1;
        proof {
            assert(old(out)@ + Seq::new(i as nat, |j: int| 0x30u8) =~= old(out)@ + Seq::new(
                (i - 1) as nat,
                |j: int| 0x30u8,
            ) + seq![0x30u8]);
        }
    }
}

/// Appends the hexadecimal digits of `n`, padded with zeros in front to at
/// least `width` digits.
pub fn push_hex(out: &mut Vec<u8>, n: u64, width: u32)
    ensures
        final(out)@ == old(out)@ + hex_padded(n as nat, width as nat),
    decreases n,
{
    let rest_width: u32 = if width > 0 {
        width - 1
    } else {
        0
    };
    if n < 16 {
        push_zeros(out, rest_width);
    } else {
        push_hex(out, n / 16, rest_width);
    }
    let d = n % 16;
    let digit: u8 = if d < 10 {
        (0x30 + d) as u8
    } else {
        (0x61 + d - 10) as u8
    };
    out.push(digit);
    proof {
        assert(out@ =~= old(out)@ + hex_padded(n as nat, width as nat));
    }
}

/// Appends `0x` and at least eight hexadecimal digits of `n`.
pub fn push_hex8(out: &mut Vec<u8>, n: u64)
    ensures
        final(out)@ == old(out)@ + hex8_text(n as nat),
{
    push_str(out, "0x");
    push_hex(out, n, 8);
    proof {
        assert(out@ =~= old(out)@ + hex8_text(n as nat));
    }
}

/// Appends `0x` and at least sixteen hexadecimal digits of `n`.
pub fn push_hex16(out: &mut Vec<u8>, n: u64)
    ensures
        final(out)@ == old(out)@ + hex16_text(n as nat),
{
    push_str(out, "0x");
    push_hex(out, n, 16);
    proof {
        assert(out@ =~= old(out)@ + hex16_text(n as nat));
    }
}

/// Appends each byte of `data` as two hexadecimal digits.
pub fn push_hex_bytes(out: &mut Vec<u8>, data: &[u8])
    ensures
        final(out)@ == old(out)@ + hex_bytes_text(data@),
{
    let mut i: usize = 0;
    while i < data.len()
        invariant
            i <= data@.len(),
            out@ == old(out)@ + hex_bytes_text(data@.take(i as int)),
        decreases data.len() - i,
    {
        proof {
            assert(data@.take(i + 1).drop_last() =~= data@.take(i as int));
        }
        push_hex(out, data[i] as u64, 2);
        i = i + 1;
        proof {
            assert(out@ =~= old(out)@ + hex_bytes_text(data@.take(i as int)));
        }
    }
    proof {
        assert(data@.take(data@.len() as int) =~= data@);
    }
}


// ----------------------------------------------------------------------------
// Names that gimli gives
// ----------------------------------------------------------------------------

/// The name `gimli::X86_64::register_name` gives DWARF register `register`
/// (as ASCII bytes), if it has one.
pub uninterp spec fn x86_64_register_name(register: u16) -> Option<Seq<u8>>;

/// The name `gimli::X86::register_name` gives DWARF register `register`.
pub uninterp spec fn x86_register_name(register: u16) -> Option<Seq<u8>>;

/// The name `gimli::Arm::register_name` gives DWARF register `register`.
pub uninterp spec fn arm_register_name(register: u16) -> Option<Seq<u8>>;

/// The name `gimli::PowerPc64::register_name` gives DWARF register `register`.
pub uninterp spec fn powerpc64_register_name(register: u16) -> Option<Seq<u8>>;

/// What `gimli::DwOp(opcode)` displays as: the name of the operation
/// (`DW_OP_...`), or a text that calls it unknown.
pub uninterp spec fn dw_op_name(opcode: u8) -> Seq<u8>;

/// What `gimli::DwEhPe(value)` displays as: the name of the pointer encoding
/// (`DW_EH_PE_...`), or a text that calls it unknown.
pub uninterp spec fn dw_eh_pe_name(value: u8) -> Seq<u8>;

/// The name of an x86_64 register, from `gimli::X86_64::register_name`.
/// Trusted: the result is `x86_64_register_name(register)`.
#[verifier::external_body]
fn x86_64_register_name_bytes(register: u16) -> (r: Option<Vec<u8>>)
    ensures
        match r {
            Some(name) => x86_64_register_name(register) == Some(name@),
            None => x86_64_register_name(register) is None,
        },
{
    match gimli::X86_64::register_name(gimli::Register(register)) {
        Some(name) => Some(name.as_bytes().to_vec()),
        None => None,
    }
}

/// The name of an x86 register, from `gimli::X86::register_name`. Trusted:
/// the result is `x86_register_name(register)`.
#[verifier::external_body]
fn x86_register_name_bytes(register: u16) -> (r: Option<Vec<u8>>)
    ensures
        match r {
            Some(name) => x86_register_name(register) == Some(name@),
            None => x86_register_name(register) is None,
        },
{
    match gimli::X86::register_name(gimli::Register(register)) {
        Some(name) => Some(name.as_bytes().to_vec()),
        None => None,
    }
}

/// The name of an ARM register, from `gimli::Arm::register_name`. Trusted:
/// the result is `arm_register_name(register)`.
#[verifier::external_body]
fn arm_register_name_bytes(register: u16) -> (r: Option<Vec<u8>>)
    ensures
        match r {
            Some(name) => arm_register_name(register) == Some(name@),
            None => arm_register_name(register) is None,
        },
{
    match gimli::Arm::register_name(gimli::Register(register)) {
        Some(name) => Some(name.as_bytes().to_vec()),
        None => None,
    }
}

/// The name of a 64-bit PowerPC register, from
/// `gimli::PowerPc64::register_name`. Trusted: the result is
/// `powerpc64_register_name(register)`.
#[verifier::external_body]
fn powerpc64_register_name_bytes(register: u16) -> (r: Option<Vec<u8>>)
    ensures
        match r {
            Some(name) => powerpc64_register_name(register) == Some(name@),
            None => powerpc64_register_name(register) is None,
        },
{
    match gimli::PowerPc64::register_name(gimli::Register(register)) {
        Some(name) => Some(name.as_bytes().to_vec()),
        None => None,
    }
}

/// The display text of `gimli::DwOp(opcode)`. Trusted: the result is
/// `dw_op_name(opcode)`.
#[verifier::external_body]
fn dw_op_name_bytes(opcode: u8) -> (r: Vec<u8>)
    ensures
        r@ == dw_op_name(opcode),
{
    format!("{}", gimli::DwOp(opcode)).into_bytes()
}

/// The display text of `gimli::DwEhPe(value)`. Trusted: the result is
/// `dw_eh_pe_name(value)`.
#[verifier::external_body]
fn dw_eh_pe_name_bytes(value: u8) -> (r: Vec<u8>)
    ensures
        r@ == dw_eh_pe_name(value),
{
    format!("{}", gimli::DwEhPe(value)).into_bytes()
}

// ----------------------------------------------------------------------------
// Registers and pointers
// ----------------------------------------------------------------------------

/// The architecture of the ELF file, as far as register names go.
#[derive(Debug, Clone, Copy, PartialEq, Eq, Structural)]
pub enum Arch {
    PowerPc64,
    Arm,
    Aarch64,
    I386,
    X86_64,
    Other,
}

/// The name of `register` on `arch`: gimli's PowerPC 64 names, its ARM names
/// for both ARM and AArch64, its x86 names for i386, its x86_64 names; none
/// for another architecture.
pub open spec fn register_name_of(arch: Arch, register: u16) -> Option<Seq<u8>> {
    match arch {
        Arch::PowerPc64 => powerpc64_register_name(register),
        Arch::Arm => arm_register_name(register),
        Arch::Aarch64 => arm_register_name(register),
        Arch::I386 => x86_register_name(register),
        Arch::X86_64 => x86_64_register_name(register),
        Arch::Other => None,
    }
}

/// How `register` is written: its name, or its number where it has none.
pub open spec fn register_text(arch: Arch, register: u16) -> Seq<u8> {
    match register_name_of(arch, register) {
        Some(name) => name,
        None => decimal_digits(register as nat),
    }
}

/// Appends how `register` is written (see [`register_text`]).
pub fn push_register(out: &mut Vec<u8>, arch: Arch, register: u16)
    ensures
        final(out)@ == old(out)@ + register_text(arch, register),
{
    let name = match arch {
        Arch::PowerPc64 => powerpc64_register_name_bytes(register),
        Arch::Arm => arm_register_name_bytes(register),
        Arch::Aarch64 => arm_register_name_bytes(register),
        Arch::I386 => x86_register_name_bytes(register),
        Arch::X86_64 => x86_64_register_name_bytes(register),
        Arch::Other => None,
    };
    match name {
        Some(name) => push_bytes(out, name.as_slice()),
        None => push_decimal(out, register as u64),
    }
}

/// A pointer of the call frame information: its value, or the address where
/// its value is stored.
#[derive(Debug, Clone, Copy, PartialEq, Eq, Structural)]
pub enum DwarfPointer {
    Direct(u64),
    Indirect(u64),
}

/// How a pointer is written: sixteen hexadecimal digits, in parentheses for
/// an indirect one.
pub open spec fn pointer_text(p: DwarfPointer) -> Seq<u8> {
    match p {
        DwarfPointer::Direct(a) => hex16_text(a as nat),
        DwarfPointer::Indirect(a) => "(".spec_bytes() + hex16_text(a as nat) + ")".spec_bytes(),
    }
}

/// Appends how a pointer is written (see [`pointer_text`]).
pub fn push_pointer(out: &mut Vec<u8>, p: DwarfPointer)
    ensures
        final(out)@ == old(out)@ + pointer_text(p),
{
    match p {
        DwarfPointer::Direct(a) => push_hex16(out, a),
        DwarfPointer::Indirect(a) => {
            push_str(out, "(");
            push_hex16(out, a);
            push_str(out, ")");
            proof {
                assert(out@ =~= old(out)@ + pointer_text(p));
            }
        },
    }
}

/// The text of a pointer (see [`pointer_text`]).
pub fn pointer_bytes(p: DwarfPointer) -> (r: Vec<u8>)
    ensures
        r@ == pointer_text(p),
{
    let mut out: Vec<u8> = Vec::new();
    push_pointer(&mut out, p);
    proof {
        assert(out@ =~= pointer_text(p));
    }
    out
}


// ----------------------------------------------------------------------------
// Call frame instructions
// ----------------------------------------------------------------------------

/// A decoded call frame instruction (`gimli::CallFrameInstruction`), its
/// registers as DWARF register numbers; of an embedded expression only its
/// presence is kept.
#[derive(Debug, Clone, Copy, PartialEq, Eq, Structural)]
#[allow(inconsistent_fields)]
pub enum CfiInstruction {
    SetLoc { address: u64 },
    AdvanceLoc { delta: u32 },
    DefCfa { register: u16, offset: u64 },
    DefCfaSf { register: u16, factored_offset: i64 },
    DefCfaRegister { register: u16 },
    DefCfaOffset { offset: u64 },
    DefCfaOffsetSf { factored_offset: i64 },
    DefCfaExpression,
    Undefined { register: u16 },
    SameValue { register: u16 },
    Offset { register: u16, factored_offset: u64 },
    OffsetExtendedSf { register: u16, factored_offset: i64 },
    ValOffset { register: u16, factored_offset: u64 },
    ValOffsetSf { register: u16, factored_offset: i64 },
    Register { dest_register: u16, src_register: u16 },
    Expression { register: u16 },
    ValExpression { register: u16 },
    Restore { register: u16 },
    RememberState,
    RestoreState,
    ArgsSize { size: u64 },
    NegateRaState,
    Nop,
}

/// `name (args)`.
pub open spec fn with_args(name: Seq<u8>, args: Seq<u8>) -> Seq<u8> {
    name + " (".spec_bytes() + args + ")".spec_bytes()
}

/// The text of a call frame instruction: its `DW_CFA_` name and its
/// operands in parentheses, registers by name, an embedded expression as
/// `...`.
pub open spec fn spec_cfi_body(insn: CfiInstruction, arch: Arch) -> Seq<u8> {
    match insn {
        CfiInstruction::SetLoc { address } => with_args("DW_CFA_set_loc".spec_bytes(), "0x".spec_bytes() + hex_text(address as nat)),
        CfiInstruction::AdvanceLoc { delta } => with_args("DW_CFA_advance_loc".spec_bytes(), decimal_digits(delta as nat)),
        CfiInstruction::DefCfa { register, offset } => with_args("DW_CFA_def_cfa".spec_bytes(), register_text(arch, register) + ", ".spec_bytes() + decimal_digits(offset as nat)),
        CfiInstruction::DefCfaSf { register, factored_offset } => with_args("DW_CFA_def_cfa_sf".spec_bytes(), register_text(arch, register) + ", ".spec_bytes() + signed_text(factored_offset as int)),
        CfiInstruction::DefCfaRegister { register } => with_args("DW_CFA_def_cfa_register".spec_bytes(), register_text(arch, register)),
        CfiInstruction::DefCfaOffset { offset } => with_args("DW_CFA_def_cfa_offset".spec_bytes(), decimal_digits(offset as nat)),
        CfiInstruction::DefCfaOffsetSf { factored_offset } => with_args("DW_CFA_def_cfa_offset_sf".spec_bytes(), signed_text(factored_offset as int)),
        CfiInstruction::DefCfaExpression  => with_args("DW_CFA_def_cfa_expression".spec_bytes(), "...".spec_bytes()),
        CfiInstruction::Undefined { register } => with_args("DW_CFA_undefined".spec_bytes(), register_text(arch, register)),
        CfiInstruction::SameValue { register } => with_args("DW_CFA_same_value".spec_bytes(), register_text(arch, register)),
        CfiInstruction::Offset { register, factored_offset } => with_args("DW_CFA_offset".spec_bytes(), register_text(arch, register) + ", ".spec_bytes() + decimal_digits(factored_offset as nat)),
        CfiInstruction::OffsetExtendedSf { register, factored_offset } => with_args("DW_CFA_offset_extended_sf".spec_bytes(), register_text(arch, register) + ", ".spec_bytes() + signed_text(factored_offset as int)),
        CfiInstruction::ValOffset { register, factored_offset } => with_args("DW_CFA_val_offset".spec_bytes(), register_text(arch, register) + ", ".spec_bytes() + decimal_digits(factored_offset as nat)),
        CfiInstruction::ValOffsetSf { register, factored_offset } => with_args("DW_CFA_val_offset_sf".spec_bytes(), register_text(arch, register) + ", ".spec_bytes() + signed_text(factored_offset as int)),
        CfiInstruction::Register { dest_register, src_register } => with_args("DW_CFA_register".spec_bytes(), register_text(arch, dest_register) + ", ".spec_bytes() + register_text(arch, src_register)),
        CfiInstruction::Expression { register } => with_args("DW_CFA_expression".spec_bytes(), register_text(arch, register) + ", ".spec_bytes() + "...".spec_bytes()),
        CfiInstruction::ValExpression { register } => with_args("DW_CFA_val_expression".spec_bytes(), register_text(arch, register) + ", ".spec_bytes() + "...".spec_bytes()),
        CfiInstruction::Restore { register } => with_args("DW_CFA_restore".spec_bytes(), register_text(arch, register)),
        CfiInstruction::RememberState => "DW_CFA_remember_state".spec_bytes(),
        CfiInstruction::RestoreState => "DW_CFA_restore_state".spec_bytes(),
        CfiInstruction::ArgsSize { size } => with_args("DW_CFA_GNU_args_size".spec_bytes(), decimal_digits(size as nat)),
        CfiInstruction::NegateRaState => "DW_CFA_AARCH64_negate_ra_state".spec_bytes(),
        CfiInstruction::Nop => "DW_CFA_nop".spec_bytes(),
    }
}

/// The line of a call frame instruction: its text indented by sixteen spaces.
pub open spec fn spec_cfi_line(insn: CfiInstruction, arch: Arch) -> Seq<u8> {
    "                ".spec_bytes() + spec_cfi_body(insn, arch) + "\n".spec_bytes()
}

fn push_open(out: &mut Vec<u8>, name: &str)
    ensures
        final(out)@ == old(out)@ + name.spec_bytes() + " (".spec_bytes(),
{
    push_str(out, name);
    push_str(out, " (");
}

fn push_close(out: &mut Vec<u8>)
    ensures
        final(out)@ == old(out)@ + ")".spec_bytes(),
{
    push_str(out, ")");
}

fn push_comma(out: &mut Vec<u8>)
    ensures
        final(out)@ == old(out)@ + ", ".spec_bytes(),
{
    push_str(out, ", ");
}

/// `name (reg, value)` with the value in decimal.
fn push_reg_dec(out: &mut Vec<u8>, name: &str, arch: Arch, register: u16, value: u64)
    ensures
        final(out)@ == old(out)@ + with_args(
            name.spec_bytes(),
            register_text(arch, register) + ", ".spec_bytes() + decimal_digits(value as nat),
        ),
{
    push_open(out, name);
    push_register(out, arch, register);
    push_comma(out);
    push_decimal(out, value);
    push_close(out);
    proof {
        assert(out@ =~= old(out)@ + with_args(
            name.spec_bytes(),
            register_text(arch, register) + ", ".spec_bytes() + decimal_digits(value as nat),
        ));
    }
}

/// `name (reg, value)` with the value signed, in decimal.
fn push_reg_signed(out: &mut Vec<u8>, name: &str, arch: Arch, register: u16, value: i64)
    ensures
        final(out)@ == old(out)@ + with_args(
            name.spec_bytes(),
            register_text(arch, register) + ", ".spec_bytes() + signed_text(value as int),
        ),
{
    push_open(out, name);
    push_register(out, arch, register);
    push_comma(out);
    push_signed(out, value);
    push_close(out);
    proof {
        assert(out@ =~= old(out)@ + with_args(
            name.spec_bytes(),
            register_text(arch, register) + ", ".spec_bytes() + signed_text(value as int),
        ));
    }
}

/// `name (reg)`.
fn push_reg(out: &mut Vec<u8>, name: &str, arch: Arch, register: u16)
    ensures
        final(out)@ == old(out)@ + with_args(name.spec_bytes(), register_text(arch, register)),
{
    push_open(out, name);
    push_register(out, arch, register);
    push_close(out);
    proof {
        assert(out@ =~= old(out)@ + with_args(name.spec_bytes(), register_text(arch, register)));
    }
}

/// `name (reg, text)`.
fn push_reg_text(out: &mut Vec<u8>, name: &str, arch: Arch, register: u16, text: &str)
    ensures
        final(out)@ == old(out)@ + with_args(
            name.spec_bytes(),
            register_text(arch, register) + ", ".spec_bytes() + text.spec_bytes(),
        ),
{
    push_open(out, name);
    push_register(out, arch, register);
    push_comma(out);
    push_str(out, text);
    push_close(out);
    proof {
        assert(out@ =~= old(out)@ + with_args(
            name.spec_bytes(),
            register_text(arch, register) + ", ".spec_bytes() + text.spec_bytes(),
        ));
    }
}

/// `name (reg, reg)`.
fn push_reg_reg(out: &mut Vec<u8>, name: &str, arch: Arch, first: u16, second: u16)
    ensures
        final(out)@ == old(out)@ + with_args(
            name.spec_bytes(),
            register_text(arch, first) + ", ".spec_bytes() + register_text(arch, second),
        ),
{
    push_open(out, name);
    push_register(out, arch, first);
    push_comma(out);
    push_register(out, arch, second);
    push_close(out);
    proof {
        assert(out@ =~= old(out)@ + with_args(
            name.spec_bytes(),
            register_text(arch, first) + ", ".spec_bytes() + register_text(arch, second),
        ));
    }
}

/// `name (value)` with the value in decimal.
fn push_dec_arg(out: &mut Vec<u8>, name: &str, value: u64)
    ensures
        final(out)@ == old(out)@ + with_args(name.spec_bytes(), decimal_digits(value as nat)),
{
    push_open(out, name);
    push_decimal(out, value);
    push_close(out);
    proof {
        assert(out@ =~= old(out)@ + with_args(name.spec_bytes(), decimal_digits(value as nat)));
    }
}

/// `name (value)` with the value signed, in decimal.
fn push_signed_arg(out: &mut Vec<u8>, name: &str, value: i64)
    ensures
        final(out)@ == old(out)@ + with_args(name.spec_bytes(), signed_text(value as int)),
{
    push_open(out, name);
    push_signed(out, value);
    push_close(out);
    proof {
        assert(out@ =~= old(out)@ + with_args(name.spec_bytes(), signed_text(value as int)));
    }
}

/// `name (text)`.
fn push_text_arg(out: &mut Vec<u8>, name: &str, text: &str)
    ensures
        final(out)@ == old(out)@ + with_args(name.spec_bytes(), text.spec_bytes()),
{
    push_open(out, name);
    push_str(out, text);
    push_close(out);
    proof {
        assert(out@ =~= old(out)@ + with_args(name.spec_bytes(), text.spec_bytes()));
    }
}

/// `name (0xvalue)` with the value in hexadecimal.
fn push_hex_arg(out: &mut Vec<u8>, name: &str, value: u64)
    ensures
        final(out)@ == old(out)@ + with_args(
            name.spec_bytes(),
            "0x".spec_bytes() + hex_text(value as nat),
        ),
{
    push_open(out, name);
    push_str(out, "0x");
    push_hex(out, value, 0);
    push_close(out);
    proof {
        assert(out@ =~= old(out)@ + with_args(
            name.spec_bytes(),
            "0x".spec_bytes() + hex_text(value as nat),
        ));
    }
}

fn push_cfi_body(out: &mut Vec<u8>, insn: &CfiInstruction, arch: Arch)
    ensures
        final(out)@ == old(out)@ + spec_cfi_body(*insn, arch),
{
    match *insn {
        CfiInstruction::SetLoc { address } => push_hex_arg(out, "DW_CFA_set_loc", address),
        CfiInstruction::AdvanceLoc { delta } => push_dec_arg(out, "DW_CFA_advance_loc", delta as u64),
        CfiInstruction::DefCfa { register, offset } => push_reg_dec(out, "DW_CFA_def_cfa", arch, register, offset),
        CfiInstruction::DefCfaSf { register, factored_offset } => push_reg_signed(out, "DW_CFA_def_cfa_sf", arch, register, factored_offset),
        CfiInstruction::DefCfaRegister { register } => push_reg(out, "DW_CFA_def_cfa_register", arch, register),
        CfiInstruction::DefCfaOffset { offset } => push_dec_arg(out, "DW_CFA_def_cfa_offset", offset),
        CfiInstruction::DefCfaOffsetSf { factored_offset } => push_signed_arg(out, "DW_CFA_def_cfa_offset_sf", factored_offset),
        CfiInstruction::DefCfaExpression => push_text_arg(out, "DW_CFA_def_cfa_expression", "..."),
        CfiInstruction::Undefined { register } => push_reg(out, "DW_CFA_undefined", arch, register),
        CfiInstruction::SameValue { register } => push_reg(out, "DW_CFA_same_value", arch, register),
        CfiInstruction::Offset { register, factored_offset } => push_reg_dec(out, "DW_CFA_offset", arch, register, factored_offset),
        CfiInstruction::OffsetExtendedSf { register, factored_offset } => push_reg_signed(out, "DW_CFA_offset_extended_sf", arch, register, factored_offset),
        CfiInstruction::ValOffset { register, factored_offset } => push_reg_dec(out, "DW_CFA_val_offset", arch, register, factored_offset),
        CfiInstruction::ValOffsetSf { register, factored_offset } => push_reg_signed(out, "DW_CFA_val_offset_sf", arch, register, factored_offset),
        CfiInstruction::Register { dest_register, src_register } => push_reg_reg(out, "DW_CFA_register", arch, dest_register, src_register),
        CfiInstruction::Expression { register } => push_reg_text(out, "DW_CFA_expression", arch, register, "..."),
        CfiInstruction::ValExpression { register } => push_reg_text(out, "DW_CFA_val_expression", arch, register, "..."),
        CfiInstruction::Restore { register } => push_reg(out, "DW_CFA_restore", arch, register),
        CfiInstruction::RememberState => push_str(out, "DW_CFA_remember_state"),
        CfiInstruction::RestoreState => push_str(out, "DW_CFA_restore_state"),
        CfiInstruction::ArgsSize { size } => push_dec_arg(out, "DW_CFA_GNU_args_size", size),
        CfiInstruction::NegateRaState => push_str(out, "DW_CFA_AARCH64_negate_ra_state"),
        CfiInstruction::Nop => push_str(out, "DW_CFA_nop"),
    }
}

/// The line of a call frame instruction (see [`spec_cfi_line`]).
pub fn cfi_instruction_line(insn: &CfiInstruction, arch: Arch) -> (r: Vec<u8>)
    ensures
        r@ == spec_cfi_line(*insn, arch),
{
    let mut out: Vec<u8> = Vec::new();
    push_str(&mut out, "                ");
    push_cfi_body(&mut out, insn, arch);
    push_str(&mut out, "\n");
    proof {
        assert(out@ =~= spec_cfi_line(*insn, arch));
    }
    out
}

/// One step of decoding the call frame instructions of an entry: an
/// instruction, or the description of the error that stopped the decoding.
#[derive(Debug)]
pub enum CfiStep {
    Instruction(CfiInstruction),
    Failed(Vec<u8>),
}

/// The lines of the decoding steps: one per instruction, and, at the first
/// failure, a line that reports it and ends the text.
pub open spec fn spec_cfi_steps_text(steps: Seq<CfiStep>, arch: Arch) -> Seq<u8>
    decreases steps.len(),
{
    if steps.len() == 0 {
        Seq::empty()
    } else {
        match steps[0] {
            CfiStep::Instruction(insn) => spec_cfi_line(insn, arch) + spec_cfi_steps_text(
                steps.drop_first(),
                arch,
            ),
            CfiStep::Failed(description) => "Failed to decode CFI instruction: ".spec_bytes()
                + description@ + "\n".spec_bytes(),
        }
    }
}

/// The text of the call frame instructions of an entry: for the instructions
/// of a CIE or an FDE (`is_initial`) a heading, then the lines of the steps.
pub open spec fn spec_cfi_text(steps: Seq<CfiStep>, is_initial: bool, arch: Arch) -> Seq<u8> {
    (if is_initial {
        "  Instructions:\n".spec_bytes()
    } else {
        Seq::empty()
    }) + spec_cfi_steps_text(steps, arch)
}

proof fn lemma_cfi_steps_skip(steps: Seq<CfiStep>, i: int, arch: Arch)
    requires
        0 <= i < steps.len(),
        steps[i] is Instruction,
    ensures
        spec_cfi_steps_text(steps.skip(i), arch) == spec_cfi_line(steps[i]->Instruction_0, arch)
            + spec_cfi_steps_text(steps.skip(i + 1), arch),
{
    assert(steps.skip(i).drop_first() =~= steps.skip(i + 1));
    assert(steps.skip(i)[0] == steps[i]);
}

/// The text of the call frame instructions of an entry (see
/// [`spec_cfi_text`]).
pub fn cfi_instructions_text(steps: &Vec<CfiStep>, is_initial: bool, arch: Arch) -> (r: Vec<u8>)
    ensures
        r@ == spec_cfi_text(steps@, is_initial, arch),
{
    let mut out: Vec<u8> = Vec::new();
    if is_initial {
        push_str(&mut out, "  Instructions:\n");
    }
    let ghost head = out@;
    proof {
        assert(steps@.skip(0) =~= steps@);
        assert(head =~= (if is_initial {
            "  Instructions:\n".spec_bytes()
        } else {
            Seq::<u8>::empty()
        }));
    }
    let mut i: usize = 0;
    while i < steps.len()
        invariant
            i <= steps@.len(),
            head == (if is_initial {
                "  Instructions:\n".spec_bytes()
            } else {
                Seq::<u8>::empty()
            }),
            head + spec_cfi_steps_text(steps@, arch) == out@ + spec_cfi_steps_text(
                steps@.skip(i as int),
                arch,
            ),
        decreases steps.len() - i,
    {
        match &steps[i] {
            CfiStep::Instruction(insn) => {
                let line = cfi_instruction_line(insn, arch);
                proof {
                    lemma_cfi_steps_skip(steps@, i as int, arch);
                }
                let ghost before = out@;
                push_bytes(&mut out, line.as_slice());
                proof {
                    assert(before + (line@ + spec_cfi_steps_text(steps@.skip(i + 1), arch)) =~= out@
                        + spec_cfi_steps_text(steps@.skip(i + 1), arch));
                }
            },
            CfiStep::Failed(description) => {
                let ghost before = out@;
                push_str(&mut out, "Failed to decode CFI instruction: ");
                push_bytes(&mut out, description.as_slice());
                push_str(&mut out, "\n");
                proof {
                    let rest = steps@.skip(i as int);
                    assert(rest[0] == steps@[i as int]);
                    assert(spec_cfi_steps_text(rest, arch) == "Failed to decode CFI instruction: ".spec_bytes()
                        + description@ + "\n".spec_bytes());
                    assert(out@ =~= before + spec_cfi_steps_text(rest, arch));
                }
                return out;
            },
        }
        i = i + 1;
    }
    proof {
        assert(steps@.skip(i as int) =~= Seq::<CfiStep>::empty());
        assert(out@ =~= head + spec_cfi_steps_text(steps@, arch));
    }
    out
}


// ----------------------------------------------------------------------------
// DWARF expressions
// ----------------------------------------------------------------------------

/// A decoded DWARF expression operation (`gimli::Operation`), as far as its
/// text needs it; the opcode that it was decoded from is kept beside it (see
/// [`ExprStep`]).
#[derive(Debug)]
#[allow(inconsistent_fields)]
pub enum DwarfOperation {
    /// A dereference (`DW_OP_deref`, `_size`, `_type` and the `xderef`s).
    Deref { base_type: u64, size: u8 },
    /// `DW_OP_dup`, `DW_OP_over` or `DW_OP_pick`.
    Pick { index: u8 },
    /// `DW_OP_plus_uconst`.
    PlusConstant { value: u64 },
    /// `DW_OP_bra` or `DW_OP_skip`.
    Branch { target: i16 },
    /// A signed constant (`DW_OP_const*s`, `DW_OP_consts`).
    SignedConstant { value: i64 },
    /// An unsigned constant (`DW_OP_const*u`, `DW_OP_constu`, `DW_OP_lit*`).
    UnsignedConstant { value: u64 },
    /// `DW_OP_reg*` or `DW_OP_regx`.
    Register { register: u16 },
    /// `DW_OP_breg*`, `DW_OP_bregx` or `DW_OP_regval_type`.
    RegisterOffset { register: u16, offset: i64, base_type: u64 },
    /// `DW_OP_fbreg`.
    FrameOffset { offset: i64 },
    /// An operation whose operand is an offset, an address or an index
    /// (`DW_OP_call*`, `DW_OP_GNU_parameter_ref`, `DW_OP_addr`, `DW_OP_addrx`,
    /// `DW_OP_constx`).
    Reference { value: u64 },
    /// `DW_OP_piece` (no bit offset) or `DW_OP_bit_piece`.
    Piece { size_in_bits: u64, bit_offset: Option<u64> },
    /// `DW_OP_implicit_value` with its data.
    ImplicitValue { data: Vec<u8> },
    /// `DW_OP_implicit_pointer`.
    ImplicitPointer { value: u64, byte_offset: i64 },
    /// `DW_OP_entry_value`, with the text of its own expression.
    EntryValue { expression_text: Vec<u8> },
    /// `DW_OP_const_type` with its data.
    TypedLiteral { base_type: u64, value: Vec<u8> },
    /// `DW_OP_convert` or `DW_OP_reinterpret`.
    TypeConversion { base_type: u64 },
    /// `DW_OP_WASM_location`, with the byte that follows the opcode.
    Wasm { sub_opcode: u8, index: u32 },
    /// Any operation without operands.
    NoOperand,
}

/// Why decoding an expression stopped early.
#[derive(Debug)]
pub enum ExprError {
    /// An opcode that is not known.
    UnsupportedOperation(u8),
    /// A register number that does not fit.
    UnsupportedRegister(u64),
    /// The expression ended inside an operation.
    Truncated,
    /// Any other decoding error, with its description.
    Other(Vec<u8>),
}

/// One step of decoding an expression: an operation with its opcode, or the
/// error that stopped the decoding.
#[derive(Debug)]
pub enum ExprStep {
    Operation { opcode: u8, operation: DwarfOperation },
    Failed(ExprError),
}

pub open spec fn is_deref_size_opcode(opcode: u8) -> bool {
    opcode == 0x94 || opcode == 0x95
}

pub open spec fn is_signed_constant_opcode(opcode: u8) -> bool {
    opcode == 0x09 || opcode == 0x0b || opcode == 0x0d || opcode == 0x0f || opcode == 0x11
}

pub open spec fn is_unsigned_constant_opcode(opcode: u8) -> bool {
    opcode == 0x08 || opcode == 0x0a || opcode == 0x0c || opcode == 0x0e || opcode == 0x10
}

pub open spec fn is_breg_opcode(opcode: u8) -> bool {
    0x70 <= opcode && opcode <= 0x8f
}

/// A space and `n` in decimal.
pub open spec fn space_dec(n: nat) -> Seq<u8> {
    " ".spec_bytes() + decimal_digits(n)
}

/// A space and `n` signed, in decimal.
pub open spec fn space_signed(n: int) -> Seq<u8> {
    " ".spec_bytes() + signed_text(n)
}

/// A space and `0x` with at least eight hexadecimal digits of `n`.
pub open spec fn space_hex8(n: nat) -> Seq<u8> {
    " ".spec_bytes() + hex8_text(n)
}

/// ` type ` and `0x` with at least eight hexadecimal digits of `n`.
pub open spec fn type_hex8(n: nat) -> Seq<u8> {
    " type ".spec_bytes() + hex8_text(n)
}

/// ` contents 0x` and the bytes of `data` in hexadecimal.
pub open spec fn contents_text(data: Seq<u8>) -> Seq<u8> {
    " contents 0x".spec_bytes() + hex_bytes_text(data)
}

/// `text` where `cond` holds, nothing otherwise.
pub open spec fn when(cond: bool, text: Seq<u8>) -> Seq<u8> {
    if cond {
        text
    } else {
        Seq::empty()
    }
}

/// What follows the name of an operation decoded from `opcode` in its text.
pub open spec fn spec_operands_text(opcode: u8, op: DwarfOperation) -> Seq<u8> {
    match op {
        DwarfOperation::Deref { base_type, size } => when(
            is_deref_size_opcode(opcode),
            space_dec(size as nat),
        ) + when(base_type != 0, type_hex8(base_type as nat)),
        DwarfOperation::Pick { index } => when(opcode == 0x15, space_dec(index as nat)),
        DwarfOperation::PlusConstant { value } => space_signed((value as i64) as int),
        DwarfOperation::Branch { target } => space_signed(target as int),
        DwarfOperation::SignedConstant { value } => when(
            is_signed_constant_opcode(opcode),
            space_signed(value as int),
        ),
        DwarfOperation::UnsignedConstant { value } => when(
            is_unsigned_constant_opcode(opcode),
            space_dec(value as nat),
        ),
        DwarfOperation::Register { register } => when(opcode == 0x90, space_dec(register as nat)),
        DwarfOperation::RegisterOffset { register, offset, base_type } => if is_breg_opcode(
            opcode,
        ) {
            plus_signed_text(offset as int)
        } else {
            space_dec(register as nat) + when(offset != 0, plus_signed_text(offset as int)) + when(
                base_type != 0,
                type_hex8(base_type as nat),
            )
        },
        DwarfOperation::FrameOffset { offset } => space_signed(offset as int),
        DwarfOperation::Reference { value } => space_hex8(value as nat),
        DwarfOperation::Piece { size_in_bits, bit_offset } => match bit_offset {
            None => space_dec((size_in_bits / 8) as nat),
            Some(bits) => space_hex8(size_in_bits as nat) + " offset ".spec_bytes() + hex8_text(
                bits as nat,
            ),
        },
        DwarfOperation::ImplicitValue { data } => space_hex8(data@.len()) + contents_text(data@),
        DwarfOperation::ImplicitPointer { value, byte_offset } => space_hex8(value as nat)
            + space_signed(byte_offset as int),
        DwarfOperation::EntryValue { expression_text } => "(".spec_bytes() + expression_text@
            + ")".spec_bytes(),
        DwarfOperation::TypedLiteral { base_type, value } => type_hex8(base_type as nat)
            + contents_text(value@),
        DwarfOperation::TypeConversion { base_type } => type_hex8(base_type as nat),
        DwarfOperation::Wasm { sub_opcode, index } => " 0x".spec_bytes() + hex_text(
            sub_opcode as nat,
        ) + " 0x".spec_bytes() + hex_text(index as nat),
        DwarfOperation::NoOperand => Seq::empty(),
    }
}

/// The text of an operation decoded from `opcode`: the name gimli gives the
/// opcode, then its operands.
pub open spec fn spec_op_text(opcode: u8, op: DwarfOperation) -> Seq<u8> {
    dw_op_name(opcode) + spec_operands_text(opcode, op)
}

fn push_space_dec(out: &mut Vec<u8>, n: u64)
    ensures
        final(out)@ == old(out)@ + space_dec(n as nat),
{
    push_str(out, " ");
    push_decimal(out, n);
    proof {
        assert(out@ =~= old(out)@ + space_dec(n as nat));
    }
}

fn push_space_signed(out: &mut Vec<u8>, n: i64)
    ensures
        final(out)@ == old(out)@ + space_signed(n as int),
{
    push_str(out, " ");
    push_signed(out, n);
    proof {
        assert(out@ =~= old(out)@ + space_signed(n as int));
    }
}

fn push_space_hex8(out: &mut Vec<u8>, n: u64)
    ensures
        final(out)@ == old(out)@ + space_hex8(n as nat),
{
    push_str(out, " ");
    push_hex8(out, n);
    proof {
        assert(out@ =~= old(out)@ + space_hex8(n as nat));
    }
}

fn push_type_hex8(out: &mut Vec<u8>, n: u64)
    ensures
        final(out)@ == old(out)@ + type_hex8(n as nat),
{
    push_str(out, " type ");
    push_hex8(out, n);
    proof {
        assert(out@ =~= old(out)@ + type_hex8(n as nat));
    }
}

fn push_contents(out: &mut Vec<u8>, data: &[u8])
    ensures
        final(out)@ == old(out)@ + contents_text(data@),
{
    push_str(out, " contents 0x");
    push_hex_bytes(out, data);
    proof {
        assert(out@ =~= old(out)@ + contents_text(data@));
    }
}

fn push_deref(out: &mut Vec<u8>, opcode: u8, base_type: u64, size: u8)
    ensures
        final(out)@ == old(out)@ + spec_operands_text(
            opcode,
            DwarfOperation::Deref { base_type, size },
        ),
{
    if opcode == 0x94 || opcode == 0x95 {
        push_space_dec(out, size as u64);
    }
    if base_type != 0 {
        push_type_hex8(out, base_type);
    }
    proof {
        assert(out@ =~= old(out)@ + spec_operands_text(
            opcode,
            DwarfOperation::Deref { base_type, size },
        ));
    }
}

fn push_register_offset(out: &mut Vec<u8>, opcode: u8, register: u16, offset: i64, base_type: u64)
    ensures
        final(out)@ == old(out)@ + spec_operands_text(
            opcode,
            DwarfOperation::RegisterOffset { register, offset, base_type },
        ),
{
    if 0x70 <= opcode && opcode <= 0x8f {
        push_plus_signed(out, offset);
    } else {
        push_space_dec(out, register as u64);
        if offset != 0 {
            push_plus_signed(out, offset);
        }
        if base_type != 0 {
            push_type_hex8(out, base_type);
        }
    }
    proof {
        assert(out@ =~= old(out)@ + spec_operands_text(
            opcode,
            DwarfOperation::RegisterOffset { register, offset, base_type },
        ));
    }
}

fn push_piece(out: &mut Vec<u8>, size_in_bits: u64, bit_offset: Option<u64>)
    ensures
        final(out)@ == old(out)@ + spec_operands_text(
            0,
            DwarfOperation::Piece { size_in_bits, bit_offset },
        ),
{
    match bit_offset {
        None => push_space_dec(out, size_in_bits / 8),
        Some(bits) => {
            push_space_hex8(out, size_in_bits);
            push_str(out, " offset ");
            push_hex8(out, bits);
            proof {
                assert(out@ =~= old(out)@ + spec_operands_text(
                    0,
                    DwarfOperation::Piece { size_in_bits, bit_offset },
                ));
            }
        },
    }
}

fn push_wasm(out: &mut Vec<u8>, sub_opcode: u8, index: u32)
    ensures
        final(out)@ == old(out)@ + spec_operands_text(0, DwarfOperation::Wasm { sub_opcode, index }),
{
    push_str(out, " 0x");
    push_hex(out, sub_opcode as u64, 0);
    push_str(out, " 0x");
    push_hex(out, index as u64, 0);
    proof {
        assert(out@ =~= old(out)@ + spec_operands_text(0, DwarfOperation::Wasm { sub_opcode, index }));
    }
}

fn push_operands(out: &mut Vec<u8>, opcode: u8, op: &DwarfOperation)
    ensures
        final(out)@ == old(out)@ + spec_operands_text(opcode, *op),
{
    match op {
        DwarfOperation::Deref { base_type, size } => push_deref(out, opcode, *base_type, *size),
        DwarfOperation::Pick { index } => {
            if opcode == 0x15 {
                push_space_dec(out, *index as u64);
            }
            proof {
                assert(out@ =~= old(out)@ + spec_operands_text(opcode, *op));
            }
        },
        DwarfOperation::PlusConstant { value } => push_space_signed(out, *value as i64),
        DwarfOperation::Branch { target } => push_space_signed(out, *target as i64),
        DwarfOperation::SignedConstant { value } => {
            if opcode == 0x09 || opcode == 0x0b || opcode == 0x0d || opcode == 0x0f || opcode
                == 0x11 {
                push_space_signed(out, *value);
            }
            proof {
                assert(out@ =~= old(out)@ + spec_operands_text(opcode, *op));
            }
        },
        DwarfOperation::UnsignedConstant { value } => {
            if opcode == 0x08 || opcode == 0x0a || opcode == 0x0c || opcode == 0x0e || opcode
                == 0x10 {
                push_space_dec(out, *value);
            }
            proof {
                assert(out@ =~= old(out)@ + spec_operands_text(opcode, *op));
            }
        },
        DwarfOperation::Register { register } => {
            if opcode == 0x90 {
                push_space_dec(out, *register as u64);
            }
            proof {
                assert(out@ =~= old(out)@ + spec_operands_text(opcode, *op));
            }
        },
        DwarfOperation::RegisterOffset { register, offset, base_type } => push_register_offset(
            out,
            opcode,
            *register,
            *offset,
            *base_type,
        ),
        DwarfOperation::FrameOffset { offset } => push_space_signed(out, *offset),
        DwarfOperation::Reference { value } => push_space_hex8(out, *value),
        DwarfOperation::Piece { size_in_bits, bit_offset } => push_piece(
            out,
            *size_in_bits,
            *bit_offset,
        ),
        DwarfOperation::ImplicitValue { data } => {
            push_space_hex8(out, data.len() as u64);
            push_contents(out, data.as_slice());
            proof {
                assert(out@ =~= old(out)@ + spec_operands_text(opcode, *op));
            }
        },
        DwarfOperation::ImplicitPointer { value, byte_offset } => {
            push_space_hex8(out, *value);
            push_space_signed(out, *byte_offset);
            proof {
                assert(out@ =~= old(out)@ + spec_operands_text(opcode, *op));
            }
        },
        DwarfOperation::EntryValue { expression_text } => {
            push_str(out, "(");
            push_bytes(out, expression_text.as_slice());
            push_str(out, ")");
            proof {
                assert(out@ =~= old(out)@ + spec_operands_text(opcode, *op));
            }
        },
        DwarfOperation::TypedLiteral { base_type, value } => {
            push_type_hex8(out, *base_type);
            push_contents(out, value.as_slice());
            proof {
                assert(out@ =~= old(out)@ + spec_operands_text(opcode, *op));
            }
        },
        DwarfOperation::TypeConversion { base_type } => push_type_hex8(out, *base_type),
        DwarfOperation::Wasm { sub_opcode, index } => push_wasm(out, *sub_opcode, *index),
        DwarfOperation::NoOperand => {
            proof {
                assert(out@ =~= old(out)@ + spec_operands_text(opcode, *op));
            }
        },
    }
}

/// The text of an operation decoded from `opcode` (see [`spec_op_text`]).
pub fn op_text(opcode: u8, op: &DwarfOperation) -> (r: Vec<u8>)
    ensures
        r@ == spec_op_text(opcode, *op),
{
    let mut out = dw_op_name_bytes(opcode);
    push_operands(&mut out, opcode, op);
    out
}

/// The warning line of an error that stopped decoding an expression.
pub open spec fn spec_expr_error_text(e: ExprError) -> Seq<u8> {
    match e {
        ExprError::UnsupportedOperation(opcode) => "WARNING: unsupported operation 0x".spec_bytes()
            + hex_padded(opcode as nat, 2) + "\n".spec_bytes(),
        ExprError::UnsupportedRegister(register) => "WARNING: unsupported register ".spec_bytes()
            + decimal_digits(register as nat) + "\n".spec_bytes(),
        ExprError::Truncated => "WARNING: truncated or malformed expression\n".spec_bytes(),
        ExprError::Other(description) => "WARNING: unexpected operation parse error: ".spec_bytes()
            + description@ + "\n".spec_bytes(),
    }
}

fn push_expr_error(out: &mut Vec<u8>, e: &ExprError)
    ensures
        final(out)@ == old(out)@ + spec_expr_error_text(*e),
{
    match e {
        ExprError::UnsupportedOperation(opcode) => {
            push_str(out, "WARNING: unsupported operation 0x");
            push_hex(out, *opcode as u64, 2);
            push_str(out, "\n");
        },
        ExprError::UnsupportedRegister(register) => {
            push_str(out, "WARNING: unsupported register ");
            push_decimal(out, *register);
            push_str(out, "\n");
        },
        ExprError::Truncated => {
            push_str(out, "WARNING: truncated or malformed expression\n");
        },
        ExprError::Other(description) => {
            push_str(out, "WARNING: unexpected operation parse error: ");
            push_bytes(out, description.as_slice());
            push_str(out, "\n");
        },
    }
    proof {
        assert(out@ =~= old(out)@ + spec_expr_error_text(*e));
    }
}

/// The text of the decoding steps of an expression: the operations separated
/// by single spaces (`space` tells whether one goes before the first), and,
/// at the first error, its warning line, which ends the text.
pub open spec fn spec_expr_steps_text(steps: Seq<ExprStep>, space: bool) -> Seq<u8>
    decreases steps.len(),
{
    if steps.len() == 0 {
        Seq::empty()
    } else {
        match steps[0] {
            ExprStep::Operation { opcode, operation } => when(space, " ".spec_bytes())
                + spec_op_text(opcode, operation) + spec_expr_steps_text(steps.drop_first(), true),
            ExprStep::Failed(e) => spec_expr_error_text(e),
        }
    }
}

/// The text of a DWARF expression from its decoding steps.
pub open spec fn spec_exprloc_text(steps: Seq<ExprStep>) -> Seq<u8> {
    spec_expr_steps_text(steps, false)
}

/// The text of a DWARF expression from its decoding steps (see
/// [`spec_exprloc_text`]).
pub fn exprloc_text(steps: &Vec<ExprStep>) -> (r: Vec<u8>)
    ensures
        r@ == spec_exprloc_text(steps@),
{
    let mut out: Vec<u8> = Vec::new();
    let mut i: usize = 0;
    proof {
        assert(steps@.skip(0) =~= steps@);
        assert(out@ + spec_expr_steps_text(steps@, false) =~= spec_expr_steps_text(steps@, false));
    }
    while i < steps.len()
        invariant
            i <= steps@.len(),
            spec_expr_steps_text(steps@, false) == out@ + spec_expr_steps_text(
                steps@.skip(i as int),
                i > 0,
            ),
        decreases steps.len() - i,
    {
        let ghost before = out@;
        let ghost rest = steps@.skip(i as int);
        proof {
            assert(rest[0] == steps@[i as int]);
            assert(rest.drop_first() =~= steps@.skip(i + 1));
        }
        match &steps[i] {
            ExprStep::Operation { opcode, operation } => {
                if i > 0 {
                    push_str(&mut out, " ");
                }
                let text = op_text(*opcode, operation);
                push_bytes(&mut out, text.as_slice());
                proof {
                    assert(out@ =~= before + (when(i > 0, " ".spec_bytes()) + spec_op_text(
                        *opcode,
                        *operation,
                    )));
                    assert(spec_expr_steps_text(rest, i > 0) == when(i > 0, " ".spec_bytes())
                        + spec_op_text(*opcode, *operation) + spec_expr_steps_text(
                        steps@.skip(i + 1),
                        true,
                    ));
                    assert(before + spec_expr_steps_text(rest, i > 0) =~= out@
                        + spec_expr_steps_text(steps@.skip(i + 1), true));
                }
            },
            ExprStep::Failed(e) => {
                push_expr_error(&mut out, e);
                proof {
                    assert(spec_expr_steps_text(rest, i > 0) == spec_expr_error_text(*e));
                }
                return out;
            },
        }
        i = i + 1;
    }
    proof {
        assert(steps@.skip(i as int) =~= Seq::<ExprStep>::empty());
        assert(out@ =~= out@ + spec_expr_steps_text(steps@.skip(i as int), i > 0));
    }
    out
}


// ----------------------------------------------------------------------------
// CIEs and FDEs
// ----------------------------------------------------------------------------

/// How a pointer encoding is written: the names of its application and of
/// its format (`DwEhPe::application` and `DwEhPe::format` are its bits
/// 0x70 and 0x0f), separated by a slash.
pub open spec fn encoding_text(encoding: u8) -> Seq<u8> {
    dw_eh_pe_name(encoding & 0x70) + "/".spec_bytes() + dw_eh_pe_name(encoding & 0x0f)
}

fn push_encoding(out: &mut Vec<u8>, encoding: u8)
    ensures
        final(out)@ == old(out)@ + encoding_text(encoding),
{
    let application = dw_eh_pe_name_bytes(encoding & 0x70);
    let format = dw_eh_pe_name_bytes(encoding & 0x0f);
    push_bytes(out, application.as_slice());
    push_str(out, "/");
    push_bytes(out, format.as_slice());
    proof {
        assert(out@ =~= old(out)@ + encoding_text(encoding));
    }
}

/// What the text of a CIE shows of it.
#[derive(Debug, Clone, Copy)]
pub struct CieSummary {
    /// Its offset in the section.
    pub offset: u64,
    /// The length of the entry.
    pub length: u64,
    pub version: u8,
    pub code_alignment_factor: u64,
    pub data_alignment_factor: i64,
    pub return_address_register: u16,
    /// The pointer encoding of the LSDA, where the augmentation gives one.
    pub lsda_encoding: Option<u8>,
    /// The personality routine with its pointer encoding, where there is one.
    pub personality: Option<(u8, DwarfPointer)>,
    /// The pointer encoding of the FDE addresses, where the augmentation gives
    /// one.
    pub fde_address_encoding: Option<u8>,
}

/// The first lines of a CIE: where it is, how long it is, its version.
pub open spec fn spec_cie_entry_lines(cie: CieSummary) -> Seq<u8> {
    "\n".spec_bytes() + hex8_text(cie.offset as nat) + ": CIE\n".spec_bytes()
        + "        length: ".spec_bytes() + hex8_text(cie.length as nat) + "\n".spec_bytes()
        + "       version: 0x".spec_bytes() + hex_padded(cie.version as nat, 2)
        + "\n".spec_bytes()
}

/// The lines of a CIE's alignment factors and return address register.
pub open spec fn spec_cie_factor_lines(cie: CieSummary, arch: Arch) -> Seq<u8> {
    "    code_align: ".spec_bytes() + decimal_digits(cie.code_alignment_factor as nat)
        + "\n".spec_bytes() + "    data_align: ".spec_bytes() + signed_text(
        cie.data_alignment_factor as int,
    ) + "\n".spec_bytes() + "   ra_register: ".spec_bytes() + register_text(
        arch,
        cie.return_address_register,
    ) + "\n".spec_bytes()
}

/// The lines of a CIE before its augmentation data.
pub open spec fn spec_cie_head(cie: CieSummary, arch: Arch) -> Seq<u8> {
    spec_cie_entry_lines(cie) + spec_cie_factor_lines(cie, arch)
}

/// The line of a CIE's LSDA encoding, where it has one.
pub open spec fn spec_cie_lsda_line(cie: CieSummary) -> Seq<u8> {
    match cie.lsda_encoding {
        Some(e) => " lsda_encoding: ".spec_bytes() + encoding_text(e) + "\n".spec_bytes(),
        None => Seq::empty(),
    }
}

/// The line of a CIE's personality routine, where it has one.
pub open spec fn spec_cie_personality_line(cie: CieSummary) -> Seq<u8> {
    match cie.personality {
        Some((e, p)) => "   personality: ".spec_bytes() + encoding_text(e) + " ".spec_bytes()
            + pointer_text(p) + "\n".spec_bytes(),
        None => Seq::empty(),
    }
}

/// The line of a CIE's FDE address encoding, where it has one.
pub open spec fn spec_cie_fde_encoding_line(cie: CieSummary) -> Seq<u8> {
    match cie.fde_address_encoding {
        Some(e) => "  fde_encoding: ".spec_bytes() + encoding_text(e) + "\n".spec_bytes(),
        None => Seq::empty(),
    }
}

/// The lines of a CIE's augmentation data that it has.
pub open spec fn spec_cie_augmentation(cie: CieSummary) -> Seq<u8> {
    spec_cie_lsda_line(cie) + spec_cie_personality_line(cie) + spec_cie_fde_encoding_line(cie)
}

/// The text of a CIE: an empty line, its fields, its initial instructions
/// (`steps`) and an empty line.
pub open spec fn spec_cie_text(cie: CieSummary, steps: Seq<CfiStep>, arch: Arch) -> Seq<u8> {
    spec_cie_head(cie, arch) + spec_cie_augmentation(cie) + spec_cfi_text(steps, true, arch)
        + "\n".spec_bytes()
}

fn push_cie_entry_lines(out: &mut Vec<u8>, cie: &CieSummary)
    ensures
        final(out)@ == old(out)@ + spec_cie_entry_lines(*cie),
{
    push_str(out, "\n");
    push_hex8(out, cie.offset);
    push_str(out, ": CIE\n");
    push_str(out, "        length: ");
    push_hex8(out, cie.length);
    push_str(out, "\n");
    push_str(out, "       version: 0x");
    push_hex(out, cie.version as u64, 2);
    push_str(out, "\n");
    proof {
        assert(out@ =~= old(out)@ + spec_cie_entry_lines(*cie));
    }
}

fn push_cie_factor_lines(out: &mut Vec<u8>, cie: &CieSummary, arch: Arch)
    ensures
        final(out)@ == old(out)@ + spec_cie_factor_lines(*cie, arch),
{
    push_str(out, "    code_align: ");
    push_decimal(out, cie.code_alignment_factor);
    push_str(out, "\n");
    push_str(out, "    data_align: ");
    push_signed(out, cie.data_alignment_factor);
    push_str(out, "\n");
    push_str(out, "   ra_register: ");
    push_register(out, arch, cie.return_address_register);
    push_str(out, "\n");
    proof {
        assert(out@ =~= old(out)@ + spec_cie_factor_lines(*cie, arch));
    }
}

fn push_cie_head(out: &mut Vec<u8>, cie: &CieSummary, arch: Arch)
    ensures
        final(out)@ == old(out)@ + spec_cie_head(*cie, arch),
{
    push_cie_entry_lines(out, cie);
    push_cie_factor_lines(out, cie, arch);
    proof {
        assert(out@ =~= old(out)@ + spec_cie_head(*cie, arch));
    }
}

fn push_cie_lsda_line(out: &mut Vec<u8>, cie: &CieSummary)
    ensures
        final(out)@ == old(out)@ + spec_cie_lsda_line(*cie),
{
    if let Some(e) = cie.lsda_encoding {
        push_str(out, " lsda_encoding: ");
        push_encoding(out, e);
        push_str(out, "\n");
    }
    proof {
        assert(out@ =~= old(out)@ + spec_cie_lsda_line(*cie));
    }
}

fn push_cie_personality_line(out: &mut Vec<u8>, cie: &CieSummary)
    ensures
        final(out)@ == old(out)@ + spec_cie_personality_line(*cie),
{
    if let Some((e, p)) = cie.personality {
        push_str(out, "   personality: ");
        push_encoding(out, e);
        push_str(out, " ");
        push_pointer(out, p);
        push_str(out, "\n");
    }
    proof {
        assert(out@ =~= old(out)@ + spec_cie_personality_line(*cie));
    }
}

fn push_cie_fde_encoding_line(out: &mut Vec<u8>, cie: &CieSummary)
    ensures
        final(out)@ == old(out)@ + spec_cie_fde_encoding_line(*cie),
{
    if let Some(e) = cie.fde_address_encoding {
        push_str(out, "  fde_encoding: ");
        push_encoding(out, e);
        push_str(out, "\n");
    }
    proof {
        assert(out@ =~= old(out)@ + spec_cie_fde_encoding_line(*cie));
    }
}

fn push_cie_augmentation(out: &mut Vec<u8>, cie: &CieSummary)
    ensures
        final(out)@ == old(out)@ + spec_cie_augmentation(*cie),
{
    push_cie_lsda_line(out, cie);
    push_cie_personality_line(out, cie);
    push_cie_fde_encoding_line(out, cie);
    proof {
        assert(out@ =~= old(out)@ + spec_cie_augmentation(*cie));
    }
}

/// The text of a CIE (see [`spec_cie_text`]).
pub fn cie_text(cie: &CieSummary, steps: &Vec<CfiStep>, arch: Arch) -> (r: Vec<u8>)
    ensures
        r@ == spec_cie_text(*cie, steps@, arch),
{
    let mut out: Vec<u8> = Vec::new();
    push_cie_head(&mut out, cie, arch);
    push_cie_augmentation(&mut out, cie);
    let instructions = cfi_instructions_text(steps, true, arch);
    push_bytes(&mut out, instructions.as_slice());
    push_str(&mut out, "\n");
    proof {
        assert(out@ =~= spec_cie_text(*cie, steps@, arch));
    }
    out
}

/// What the text of an FDE shows of it.
#[derive(Debug, Clone, Copy)]
pub struct FdeSummary {
    /// Its offset in the section.
    pub offset: u64,
    /// The length of the entry.
    pub length: u64,
    /// The offset of its CIE.
    pub cie_pointer: u64,
    /// The first address it covers.
    pub initial_address: u64,
    /// How many bytes of addresses it covers.
    pub address_range: u64,
    /// Its language-specific data area, where it has one.
    pub lsda: Option<DwarfPointer>,
}

/// The first lines of an FDE: where it is, how long it is and its CIE.
pub open spec fn spec_fde_entry_lines(fde: FdeSummary) -> Seq<u8> {
    "\n".spec_bytes() + hex8_text(fde.offset as nat) + ": FDE\n".spec_bytes()
        + "        length: ".spec_bytes() + hex8_text(fde.length as nat) + "\n".spec_bytes()
        + "   CIE_pointer: ".spec_bytes() + hex8_text(fde.cie_pointer as nat) + "\n".spec_bytes()
}

/// The lines of the addresses an FDE covers.
pub open spec fn spec_fde_range_lines(fde: FdeSummary) -> Seq<u8> {
    "    start_addr: ".spec_bytes() + hex16_text(fde.initial_address as nat) + "\n".spec_bytes()
        + "    range_size: ".spec_bytes() + hex16_text(fde.address_range as nat)
        + " (end_addr = ".spec_bytes() + hex16_text(
        (fde.initial_address + fde.address_range) as nat,
    ) + ")\n".spec_bytes()
}

/// The line of an FDE's language-specific data area, where it has one.
pub open spec fn spec_fde_lsda_line(fde: FdeSummary) -> Seq<u8> {
    match fde.lsda {
        Some(p) => "          lsda: ".spec_bytes() + pointer_text(p) + "\n".spec_bytes(),
        None => Seq::empty(),
    }
}

/// The lines of an FDE before its instructions.
pub open spec fn spec_fde_head(fde: FdeSummary) -> Seq<u8> {
    spec_fde_entry_lines(fde) + spec_fde_range_lines(fde) + spec_fde_lsda_line(fde)
}

/// The text of an FDE: an empty line, its fields (the end address is the
/// start address plus the range), its instructions (`steps`) and an empty
/// line.
pub open spec fn spec_fde_text(fde: FdeSummary, steps: Seq<CfiStep>, arch: Arch) -> Seq<u8> {
    spec_fde_head(fde) + spec_cfi_text(steps, true, arch) + "\n".spec_bytes()
}

fn push_fde_entry_lines(out: &mut Vec<u8>, fde: &FdeSummary)
    ensures
        final(out)@ == old(out)@ + spec_fde_entry_lines(*fde),
{
    push_str(out, "\n");
    push_hex8(out, fde.offset);
    push_str(out, ": FDE\n");
    push_str(out, "        length: ");
    push_hex8(out, fde.length);
    push_str(out, "\n");
    push_str(out, "   CIE_pointer: ");
    push_hex8(out, fde.cie_pointer);
    push_str(out, "\n");
    proof {
        assert(out@ =~= old(out)@ + spec_fde_entry_lines(*fde));
    }
}

fn push_fde_range_lines(out: &mut Vec<u8>, fde: &FdeSummary)
    requires
        fde.initial_address + fde.address_range <= u64::MAX,
    ensures
        final(out)@ == old(out)@ + spec_fde_range_lines(*fde),
{
    push_str(out, "    start_addr: ");
    push_hex16(out, fde.initial_address);
    push_str(out, "\n");
    push_str(out, "    range_size: ");
    push_hex16(out, fde.address_range);
    push_str(out, " (end_addr = ");
    push_hex16(out, fde.initial_address + fde.address_range);
    push_str(out, ")\n");
    proof {
        assert(out@ =~= old(out)@ + spec_fde_range_lines(*fde));
    }
}

fn push_fde_lsda_line(out: &mut Vec<u8>, fde: &FdeSummary)
    ensures
        final(out)@ == old(out)@ + spec_fde_lsda_line(*fde),
{
    if let Some(p) = fde.lsda {
        push_str(out, "          lsda: ");
        push_pointer(out, p);
        push_str(out, "\n");
    }
    proof {
        assert(out@ =~= old(out)@ + spec_fde_lsda_line(*fde));
    }
}

fn push_fde_head(out: &mut Vec<u8>, fde: &FdeSummary)
    requires
        fde.initial_address + fde.address_range <= u64::MAX,
    ensures
        final(out)@ == old(out)@ + spec_fde_head(*fde),
{
    push_fde_entry_lines(out, fde);
    push_fde_range_lines(out, fde);
    push_fde_lsda_line(out, fde);
    proof {
        assert(out@ =~= old(out)@ + spec_fde_head(*fde));
    }
}

/// The text of an FDE (see [`spec_fde_text`]); its end address must fit 64
/// bits.
pub fn fde_text(fde: &FdeSummary, steps: &Vec<CfiStep>, arch: Arch) -> (r: Vec<u8>)
    requires
        fde.initial_address + fde.address_range <= u64::MAX,
    ensures
        r@ == spec_fde_text(*fde, steps@, arch),
{
    let mut out: Vec<u8> = Vec::new();
    push_fde_head(&mut out, fde);
    let instructions = cfi_instructions_text(steps, true, arch);
    push_bytes(&mut out, instructions.as_slice());
    push_str(&mut out, "\n");
    proof {
        assert(out@ =~= spec_fde_text(*fde, steps@, arch));
    }
    out
}


// ----------------------------------------------------------------------------
// Laws of the texts
// ----------------------------------------------------------------------------


/// The value of a lower-case hexadecimal digit.
pub open spec fn hex_digit_value(c: u8) -> int {
    if c <= 0x39 {
        c - 0x30
    } else {
        c - 0x61 + 10
    }
}

/// Whether `c` is a lower-case hexadecimal digit.
pub open spec fn is_hex_digit(c: u8) -> bool {
    (0x30 <= c && c <= 0x39) || (0x61 <= c && c <= 0x66)
}

/// The number that the hexadecimal digits `digits` stand for, most
/// significant first.
pub open spec fn hex_value(digits: Seq<u8>) -> int
    decreases digits.len(),
{
    if digits.len() == 0 {
        0
    } else {
        hex_value(digits.drop_last()) * 16 + hex_digit_value(digits.last())
    }
}

proof fn lemma_hex_value_zeros(k: nat)
    ensures
        hex_value(Seq::new(k, |i: int| 0x30u8)) == 0,
    decreases k,
{
    if k > 0 {
        assert(Seq::new(k, |i: int| 0x30u8).drop_last() =~= Seq::new(
            (k - 1) as nat,
            |i: int| 0x30u8,
        ));
        lemma_hex_value_zeros((k - 1) as nat);
    }
}

/// Hexadecimal output reads back: `hex_padded(n, width)` is made of
/// lower-case hexadecimal digits, has at least `width` of them, and stands for
/// `n`.
pub proof fn law_hex_digits_read_back(n: nat, width: nat)
    ensures
        hex_value(hex_padded(n, width)) == n,
        hex_padded(n, width).len() >= width,
        hex_padded(n, width).len() >= 1,
        forall|i: int| 0 <= i < hex_padded(n, width).len() ==> is_hex_digit(
            #[trigger] hex_padded(n, width)[i],
        ),
    decreases n,
{
    let rest_width: nat = if width > 0 {
        (width - 1) as nat
    } else {
        0
    };
    let text = hex_padded(n, width);
    if n < 16 {
        let zeros = Seq::new(rest_width, |i: int| 0x30u8);
        lemma_hex_value_zeros(rest_width);
        assert(text.drop_last() =~= zeros);
    } else {
        law_hex_digits_read_back(n / 16, rest_width);
        let front = hex_padded(n / 16, rest_width);
        assert(text.drop_last() =~= front);
        assert forall|i: int| 0 <= i < text.len() implies is_hex_digit(#[trigger] text[i]) by {
            if i < front.len() {
                assert(text[i] == front[i]);
            }
        }
    }
}

/// The DWARF name of each kind of call frame instruction (DWARF 5, section
/// 6.4.2, and the GNU and AArch64 extensions).
pub open spec fn cfa_instruction_name(insn: CfiInstruction) -> Seq<u8> {
    match insn {
        CfiInstruction::SetLoc { .. } => "DW_CFA_set_loc".spec_bytes(),
        CfiInstruction::AdvanceLoc { .. } => "DW_CFA_advance_loc".spec_bytes(),
        CfiInstruction::DefCfa { .. } => "DW_CFA_def_cfa".spec_bytes(),
        CfiInstruction::DefCfaSf { .. } => "DW_CFA_def_cfa_sf".spec_bytes(),
        CfiInstruction::DefCfaRegister { .. } => "DW_CFA_def_cfa_register".spec_bytes(),
        CfiInstruction::DefCfaOffset { .. } => "DW_CFA_def_cfa_offset".spec_bytes(),
        CfiInstruction::DefCfaOffsetSf { .. } => "DW_CFA_def_cfa_offset_sf".spec_bytes(),
        CfiInstruction::DefCfaExpression => "DW_CFA_def_cfa_expression".spec_bytes(),
        CfiInstruction::Undefined { .. } => "DW_CFA_undefined".spec_bytes(),
        CfiInstruction::SameValue { .. } => "DW_CFA_same_value".spec_bytes(),
        CfiInstruction::Offset { .. } => "DW_CFA_offset".spec_bytes(),
        CfiInstruction::OffsetExtendedSf { .. } => "DW_CFA_offset_extended_sf".spec_bytes(),
        CfiInstruction::ValOffset { .. } => "DW_CFA_val_offset".spec_bytes(),
        CfiInstruction::ValOffsetSf { .. } => "DW_CFA_val_offset_sf".spec_bytes(),
        CfiInstruction::Register { .. } => "DW_CFA_register".spec_bytes(),
        CfiInstruction::Expression { .. } => "DW_CFA_expression".spec_bytes(),
        CfiInstruction::ValExpression { .. } => "DW_CFA_val_expression".spec_bytes(),
        CfiInstruction::Restore { .. } => "DW_CFA_restore".spec_bytes(),
        CfiInstruction::RememberState => "DW_CFA_remember_state".spec_bytes(),
        CfiInstruction::RestoreState => "DW_CFA_restore_state".spec_bytes(),
        CfiInstruction::ArgsSize { .. } => "DW_CFA_GNU_args_size".spec_bytes(),
        CfiInstruction::NegateRaState => "DW_CFA_AARCH64_negate_ra_state".spec_bytes(),
        CfiInstruction::Nop => "DW_CFA_nop".spec_bytes(),
    }
}

/// The line of every call frame instruction is sixteen spaces, the DWARF name
/// of that instruction's kind, and then either the end of the line or its
/// operands in parentheses.
pub proof fn law_cfi_line_names_its_instruction(insn: CfiInstruction, arch: Arch)
    ensures
        exists|args: Seq<u8>|
            {
                ||| spec_cfi_line(insn, arch) == "                ".spec_bytes()
                    + cfa_instruction_name(insn) + "\n".spec_bytes()
                ||| spec_cfi_line(insn, arch) == "                ".spec_bytes()
                    + cfa_instruction_name(insn) + " (".spec_bytes() + args + ")".spec_bytes()
                    + "\n".spec_bytes()
            },
{
    let indent = "                ".spec_bytes();
    let name = cfa_instruction_name(insn);
    let body = spec_cfi_body(insn, arch);
    if body == name {
        assert(spec_cfi_line(insn, arch) == indent + name + "\n".spec_bytes());
    } else {
        let args: Seq<u8> = match insn {
            CfiInstruction::SetLoc { address } => "0x".spec_bytes() + hex_text(address as nat),
            CfiInstruction::AdvanceLoc { delta } => decimal_digits(delta as nat),
            CfiInstruction::DefCfa { register, offset } => register_text(arch, register)
                + ", ".spec_bytes() + decimal_digits(offset as nat),
            CfiInstruction::DefCfaSf { register, factored_offset } => register_text(arch, register)
                + ", ".spec_bytes() + signed_text(factored_offset as int),
            CfiInstruction::DefCfaRegister { register } => register_text(arch, register),
            CfiInstruction::DefCfaOffset { offset } => decimal_digits(offset as nat),
            CfiInstruction::DefCfaOffsetSf { factored_offset } => signed_text(
                factored_offset as int,
            ),
            CfiInstruction::DefCfaExpression => "...".spec_bytes(),
            CfiInstruction::Undefined { register } => register_text(arch, register),
            CfiInstruction::SameValue { register } => register_text(arch, register),
            CfiInstruction::Offset { register, factored_offset } => register_text(arch, register)
                + ", ".spec_bytes() + decimal_digits(factored_offset as nat),
            CfiInstruction::OffsetExtendedSf { register, factored_offset } => register_text(
                arch,
                register,
            ) + ", ".spec_bytes() + signed_text(factored_offset as int),
            CfiInstruction::ValOffset { register, factored_offset } => register_text(
                arch,
                register,
            ) + ", ".spec_bytes() + decimal_digits(factored_offset as nat),
            CfiInstruction::ValOffsetSf { register, factored_offset } => register_text(
                arch,
                register,
            ) + ", ".spec_bytes() + signed_text(factored_offset as int),
            CfiInstruction::Register { dest_register, src_register } => register_text(
                arch,
                dest_register,
            ) + ", ".spec_bytes() + register_text(arch, src_register),
            CfiInstruction::Expression { register } => register_text(arch, register)
                + ", ".spec_bytes() + "...".spec_bytes(),
            CfiInstruction::ValExpression { register } => register_text(arch, register)
                + ", ".spec_bytes() + "...".spec_bytes(),
            CfiInstruction::Restore { register } => register_text(arch, register),
            CfiInstruction::ArgsSize { size } => decimal_digits(size as nat),
            _ => Seq::empty(),
        };
        assert(body == name + " (".spec_bytes() + args + ")".spec_bytes());
        assert(spec_cfi_line(insn, arch) =~= indent + name + " (".spec_bytes() + args
            + ")".spec_bytes() + "\n".spec_bytes());
    }
}

/// A `DW_OP_breg0` .. `DW_OP_breg31` operation (opcodes 0x70 to 0x8f) is
/// written as its name directly followed by its offset with a sign: `+` or
/// `-`, then the decimal digits of the offset's magnitude, and nothing else;
/// the register number, which the opcode carries, is not written.
pub proof fn law_breg_operand_is_signed_offset(
    opcode: u8,
    register: u16,
    offset: i64,
    base_type: u64,
)
    requires
        0x70 <= opcode <= 0x8f,
    ensures
        ({
            let op = DwarfOperation::RegisterOffset { register, offset, base_type };
            let operand = spec_op_text(opcode, op).skip(dw_op_name(opcode).len() as int);
            &&& spec_op_text(opcode, op).take(dw_op_name(opcode).len() as int) == dw_op_name(opcode)
            &&& operand.len() >= 2
            &&& operand[0] == (if offset < 0 {
                0x2du8
            } else {
                0x2bu8
            })
            &&& forall|i: int| 1 <= i < operand.len() ==> is_ascii_digit(#[trigger] operand[i])
            &&& decimal_value(operand.skip(1)) == (if offset < 0 {
                -(offset as int)
            } else {
                offset as int
            })
        }),
{
    let op = DwarfOperation::RegisterOffset { register, offset, base_type };
    let name = dw_op_name(opcode);
    let magnitude: nat = if offset < 0 {
        (-(offset as int)) as nat
    } else {
        offset as nat
    };
    let digits = decimal_digits(magnitude);
    let sign: u8 = if offset < 0 {
        0x2d
    } else {
        0x2b
    };
    lemma_decimal_digits(magnitude);
    assert(spec_operands_text(opcode, op) == seq![sign] + digits);
    let text = spec_op_text(opcode, op);
    assert(text.take(name.len() as int) =~= name);
    let operand = text.skip(name.len() as int);
    assert(operand =~= seq![sign] + digits);
    assert(operand.skip(1) =~= digits);
    assert forall|i: int| 1 <= i < operand.len() implies is_ascii_digit(#[trigger] operand[i]) by {
        assert(operand[i] == digits[i - 1]);
    }
}

/// Whether `text` is `before`, then `middle`, then `after`.
pub open spec fn text_split(text: Seq<u8>, before: Seq<u8>, middle: Seq<u8>, after: Seq<u8>) -> bool {
    text == before + middle + after
}

/// A CIE with an LSDA encoding `e` shows it on the line right after its
/// return address register: ` lsda_encoding: `, the name of the application
/// bits (`e & 0x70`), a slash and the name of the format bits (`e & 0x0f`).
pub proof fn law_cie_shows_its_lsda_encoding(cie: CieSummary, steps: Seq<CfiStep>, arch: Arch)
    requires
        cie.lsda_encoding is Some,
    ensures
        exists|before: Seq<u8>, after: Seq<u8>|
            #[trigger] text_split(
                spec_cie_text(cie, steps, arch),
                before,
                "   ra_register: ".spec_bytes() + register_text(arch, cie.return_address_register)
                    + "\n".spec_bytes() + " lsda_encoding: ".spec_bytes() + dw_eh_pe_name(
                    cie.lsda_encoding->0 & 0x70,
                ) + "/".spec_bytes() + dw_eh_pe_name(cie.lsda_encoding->0 & 0x0f)
                    + "\n".spec_bytes(),
                after,
            ),
{
    let e = cie.lsda_encoding->0;
    let y = "    code_align: ".spec_bytes() + decimal_digits(cie.code_alignment_factor as nat)
        + "\n".spec_bytes() + "    data_align: ".spec_bytes() + signed_text(
        cie.data_alignment_factor as int,
    ) + "\n".spec_bytes();
    let ra = "   ra_register: ".spec_bytes();
    let reg = register_text(arch, cie.return_address_register);
    let nl = "\n".spec_bytes();
    let l1 = " lsda_encoding: ".spec_bytes();
    let n1 = dw_eh_pe_name(e & 0x70);
    let sl = "/".spec_bytes();
    let n2 = dw_eh_pe_name(e & 0x0f);
    let entry = spec_cie_entry_lines(cie);
    let pers = spec_cie_personality_line(cie);
    let fenc = spec_cie_fde_encoding_line(cie);
    let cfi = spec_cfi_text(steps, true, arch);
    lemma_regroup_cie(entry, y, ra, reg, nl, l1, n1, sl, n2, pers, fenc, cfi);
    assert(text_split(
        spec_cie_text(cie, steps, arch),
        entry + y,
        ra + reg + nl + l1 + n1 + sl + n2 + nl,
        pers + fenc + cfi + nl,
    ));
}

proof fn lemma_regroup_cie(
    entry: Seq<u8>,
    y: Seq<u8>,
    ra: Seq<u8>,
    reg: Seq<u8>,
    nl: Seq<u8>,
    l1: Seq<u8>,
    n1: Seq<u8>,
    sl: Seq<u8>,
    n2: Seq<u8>,
    pers: Seq<u8>,
    fenc: Seq<u8>,
    cfi: Seq<u8>,
)
    ensures
        entry + (y + ra + reg + nl) + (l1 + (n1 + sl + n2) + nl + pers + fenc) + cfi + nl == (entry
            + y) + (ra + reg + nl + l1 + n1 + sl + n2 + nl) + (pers + fenc + cfi + nl),
{
    assert(entry + (y + ra + reg + nl) + (l1 + (n1 + sl + n2) + nl + pers + fenc) + cfi + nl =~= (
    entry + y) + (ra + reg + nl + l1 + n1 + sl + n2 + nl) + (pers + fenc + cfi + nl));
}

proof fn lemma_regroup_fde(
    entry: Seq<u8>,
    x: Seq<u8>,
    m1: Seq<u8>,
    m2: Seq<u8>,
    m3: Seq<u8>,
    l: Seq<u8>,
    c: Seq<u8>,
    z: Seq<u8>,
)
    ensures
        entry + (x + m1 + m2 + m3) + l + c + z == (entry + x) + (m1 + m2 + m3) + (l + c + z),
{
    assert(entry + (x + m1 + m2 + m3) + l + c + z =~= (entry + x) + (m1 + m2 + m3) + (l + c + z));
}

/// The end address that the text of an FDE shows is the sum of its start
/// address and its range, in hexadecimal: ` (end_addr = 0x`, sixteen or more
/// digits of `initial_address + address_range`, and `)` at the end of the
/// line.
pub proof fn law_fde_end_address_is_start_plus_range(
    fde: FdeSummary,
    steps: Seq<CfiStep>,
    arch: Arch,
)
    requires
        fde.initial_address + fde.address_range <= u64::MAX,
    ensures
        exists|before: Seq<u8>, after: Seq<u8>|
            #[trigger] text_split(
                spec_fde_text(fde, steps, arch),
                before,
                " (end_addr = ".spec_bytes() + hex16_text(
                    (fde.initial_address + fde.address_range) as nat,
                ) + ")\n".spec_bytes(),
                after,
            ),
{
    let entry = spec_fde_entry_lines(fde);
    let x = "    start_addr: ".spec_bytes() + hex16_text(fde.initial_address as nat)
        + "\n".spec_bytes() + "    range_size: ".spec_bytes() + hex16_text(
        fde.address_range as nat,
    );
    let m1 = " (end_addr = ".spec_bytes();
    let m2 = hex16_text((fde.initial_address + fde.address_range) as nat);
    let m3 = ")\n".spec_bytes();
    let l = spec_fde_lsda_line(fde);
    let c = spec_cfi_text(steps, true, arch);
    let z = "\n".spec_bytes();
    lemma_regroup_fde(entry, x, m1, m2, m3, l, c, z);
    assert(text_split(spec_fde_text(fde, steps, arch), entry + x, m1 + m2 + m3, l + c + z));
}

} // verus!
