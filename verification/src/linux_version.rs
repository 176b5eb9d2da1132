//! Reads the kernel version from the text of `linux/version.h`, whose first
//! line is `#define LINUX_VERSION_CODE <code>` with
//! `code = (major << 16) + (patch level << 8) + sublevel`.

use vstd::prelude::*;
use vstd::slice::slice_subrange;
use vstd::string::StringSliceAdditionalSpecFns;

use crate::text::{decimal_value, is_ascii_digit, parse_unsigned, spec_parse_unsigned};

verus! {

/// Why the text of `linux/version.h` could not be read.
#[derive(Debug, Clone, Copy, PartialEq, Eq, Structural)]
pub enum LinuxVersionError {
    /// The text has no lines.
    NoLines,
    /// The first line has fewer than three fields separated by spaces.
    InvalidLine,
    /// The third field of the first line is not a decimal `usize`.
    InvalidCode,
}

/// The bytes of `b` before the first `sep` (all of `b` where there is none).
pub open spec fn take_until(b: Seq<u8>, sep: u8) -> Seq<u8>
    decreases b.len(),
{
    if b.len() == 0 || b[0] == sep {
        Seq::empty()
    } else {
        seq![b[0]] + take_until(b.drop_first(), sep)
    }
}

/// The first line of the text with UTF-8 bytes `b`, as `str::lines` gives it:
/// none for an empty text, else the bytes before the first line feed, without
/// a carriage return that directly precedes that line feed.
pub open spec fn first_line(b: Seq<u8>) -> Option<Seq<u8>> {
    if b.len() == 0 {
        None
    } else {
        let line = take_until(b, 0x0a);
        if line.len() < b.len() && line.len() > 0 && line.last() == 0x0d {
            Some(line.drop_last())
        } else {
            Some(line)
        }
    }
}

/// Field `n` (from 0) of `line` split at every space, as
/// `split(' ').nth(n)` gives it.
pub open spec fn nth_field(line: Seq<u8>, n: nat) -> Option<Seq<u8>>
    decreases n,
{
    let field = take_until(line, 0x20);
    if n == 0 {
        Some(field)
    } else if field.len() < line.len() {
        nth_field(line.skip(field.len() as int + 1), (n - 1) as nat)
    } else {
        None
    }
}

/// Major version, patch level and sublevel of a version code.
pub open spec fn version_parts(code: nat) -> (usize, usize, usize) {
    ((code / 65536) as usize, ((code % 65536) / 256) as usize, (code % 256) as usize)
}

/// The version that the text with UTF-8 bytes `b` gives: the third
/// space-separated field of its first line, read as a decimal `usize`, split
/// into its parts.
pub open spec fn spec_linux_version(b: Seq<u8>) -> Result<(usize, usize, usize), LinuxVersionError> {
    match first_line(b) {
        None => Err(LinuxVersionError::NoLines),
        Some(line) => match nth_field(line, 2) {
            None => Err(LinuxVersionError::InvalidLine),
            Some(field) => match spec_parse_unsigned(field, usize::MAX as nat) {
                None => Err(LinuxVersionError::InvalidCode),
                Some(code) => Ok(version_parts(code)),
            },
        },
    }
}

proof fn lemma_take_until(b: Seq<u8>, sep: u8, k: int)
    requires
        0 <= k <= b.len(),
        forall|m: int| 0 <= m < k ==> b[m] != sep,
        k == b.len() || b[k] == sep,
    ensures
        take_until(b, sep) == b.take(k),
    decreases k,
{
    if k == 0 {
        assert(b.take(0) =~= Seq::<u8>::empty());
    } else {
        lemma_take_until(b.drop_first(), sep, k - 1);
        assert(seq![b[0]] + b.drop_first().take(k - 1) =~= b.take(k));
    }
}

/// The length of the part of `b` before the first `sep`.
fn find_byte(b: &[u8], sep: u8) -> (k: usize)
    ensures
        k <= b@.len(),
        take_until(b@, sep) == b@.take(k as int),
{
    let mut k: usize = 0;
    while k < b.len() && b[k] != sep
        invariant
            k <= b@.len(),
            forall|m: int| 0 <= m < k ==> b@[m] != sep,
        decreases b.len() - k,
    {
        k = k + 1;
    }
    proof {
        lemma_take_until(b@, sep, k as int);
    }
    k
}

/// Field `n` of `line` split at every space (see [`nth_field`]).
fn nth_space_field(line: &[u8], n: usize) -> (r: Option<&[u8]>)
    ensures
        match nth_field(line@, n as nat) {
            Some(f) => r is Some && r->Some_0@ == f,
            None => r is None,
        },
    decreases n,
{
    let k = find_byte(line, 0x20);
    if n == 0 {
        proof {
            assert(line@.subrange(0, k as int) =~= line@.take(k as int));
        }
        Some(slice_subrange(line, 0, k))
    } else if k < line.len() {
        let rest = slice_subrange(line, k + 1, line.len());
        proof {
            assert(rest@ =~= line@.skip(k + 1));
        }
        nth_space_field(rest, n - 1)
    } else {
        None
    }
}

/// Reads the kernel version from the text of `linux/version.h`: the third
/// space-separated field of the first line is the version code, read as a
/// decimal `usize`, and the result is `(code >> 16, (code & 65535) >> 8,
/// code & 255)`.
pub fn parse_linux_version_code(content: &str) -> (r: Result<(usize, usize, usize), LinuxVersionError>)
    ensures
        r == spec_linux_version(content.spec_bytes()),
{
    let b = content.as_bytes();
    if b.len() == 0 {
        return Err(LinuxVersionError::NoLines);
    }
    let k = find_byte(b, 0x0a);
    let end: usize = if k < b.len() && k > 0 && b[k - 1] == 0x0d {
        k - 1
    } else {
        k
    };
    let line = slice_subrange(b, 0, end);
    proof {
        let l = take_until(b@, 0x0a);
        if k < b.len() && k > 0 && b@[k - 1] == 0x0d {
            assert(line@ =~= l.drop_last());
        } else {
            assert(line@ =~= l);
        }
    }
    let field = match nth_space_field(line, 2) {
        Some(f) => f,
        None => return Err(LinuxVersionError::InvalidLine),
    };
    let code = match parse_unsigned(field, usize::MAX as u64) {
        Some(code) => code as usize,
        None => return Err(LinuxVersionError::InvalidCode),
    };
    let major = code >> 16;
    let patch_lv = (code & 65535) >> 8;
    let sub_lv = code & 255;
    proof {
        assert(major == code / 65536) by (bit_vector)
            requires
                major == code >> 16,
        ;
        assert(patch_lv == (code % 65536) / 256) by (bit_vector)
            requires
                patch_lv == (code & 65535) >> 8,
        ;
        assert(sub_lv == code % 256) by (bit_vector)
            requires
                sub_lv == code & 255,
        ;
    }
    Ok((major, patch_lv, sub_lv))
}

/// The kernel's `KERNEL_VERSION(a, b, c)` code is read back as `(a, b, c)`:
/// for a patch level and a sublevel below 256, splitting the code
/// `a * 65536 + b * 256 + c` gives the three parts back.
pub proof fn law_version_code_roundtrip(major: usize, patch: usize, sub: usize)
    requires
        patch < 256,
        sub < 256,
        major * 65536 + patch * 256 + sub <= usize::MAX,
    ensures
        version_parts((major * 65536 + patch * 256 + sub) as nat) == (major, patch, sub),
{
    let code = major * 65536 + patch * 256 + sub;
    assert(code / 65536 == major && (code % 65536) / 256 == patch && code % 256 == sub)
        by (nonlinear_arith)
        requires
            code == major * 65536 + patch * 256 + sub,
            patch < 256,
            sub < 256,
            major >= 0,
    ;
}


/// The decimal digits of `n`, most significant first, without leading zeros
/// (what `format!("{}", n)` writes).
pub open spec fn decimal_digits(n: nat) -> Seq<u8>
    decreases n,
{
    if n < 10 {
        seq![(0x30 + n) as u8]
    } else {
        decimal_digits(n / 10).push((0x30 + n % 10) as u8)
    }
}

/// The bytes of `#define`.
pub open spec fn define_directive() -> Seq<u8> {
    seq![0x23u8, 0x64u8, 0x65u8, 0x66u8, 0x69u8, 0x6eu8, 0x65u8]
}

/// The bytes of `LINUX_VERSION_CODE`.
pub open spec fn version_code_macro() -> Seq<u8> {
    seq![
        0x4cu8, 0x49u8, 0x4eu8, 0x55u8, 0x58u8, 0x5fu8, 0x56u8, 0x45u8, 0x52u8,
        0x53u8, 0x49u8, 0x4fu8, 0x4eu8, 0x5fu8, 0x43u8, 0x4fu8, 0x44u8, 0x45u8,
    ]
}

/// The line `#define LINUX_VERSION_CODE <code>` that the kernel's
/// `linux/version.h` starts with.
pub open spec fn version_header_line(code: nat) -> Seq<u8> {
    define_directive() + seq![0x20u8] + version_code_macro() + seq![0x20u8] + decimal_digits(code)
}

/// Whether no byte of `b` is `x`.
spec fn lacks_byte(b: Seq<u8>, x: u8) -> bool
    decreases b.len(),
{
    b.len() == 0 || (b[0] != x && lacks_byte(b.drop_first(), x))
}

pub proof fn lemma_decimal_digits(n: nat)
    ensures
        decimal_digits(n).len() > 0,
        forall|k: int|
            0 <= k < decimal_digits(n).len() ==> is_ascii_digit(#[trigger] decimal_digits(n)[k]),
        decimal_value(decimal_digits(n)) == n,
    decreases n,
{
    if n < 10 {
        assert(decimal_digits(n).drop_last() =~= Seq::<u8>::empty());
        assert(decimal_value(Seq::<u8>::empty()) == 0);
    } else {
        lemma_decimal_digits(n / 10);
        let s = decimal_digits(n / 10);
        assert(decimal_digits(n).drop_last() =~= s);
    }
}

proof fn lemma_lacks_digits(b: Seq<u8>, x: u8)
    requires
        !is_ascii_digit(x),
        forall|k: int| 0 <= k < b.len() ==> is_ascii_digit(#[trigger] b[k]),
    ensures
        lacks_byte(b, x),
    decreases b.len(),
{
    if b.len() > 0 {
        assert(is_ascii_digit(b[0]));
        assert forall|k: int| 0 <= k < b.drop_first().len() implies is_ascii_digit(
            #[trigger] b.drop_first()[k],
        ) by {
            assert(b.drop_first()[k] == b[k + 1]);
        }
        lemma_lacks_digits(b.drop_first(), x);
    }
}

proof fn lemma_lacks_concat(a: Seq<u8>, b: Seq<u8>, x: u8)
    requires
        lacks_byte(a, x),
        lacks_byte(b, x),
    ensures
        lacks_byte(a + b, x),
    decreases a.len(),
{
    if a.len() == 0 {
        assert(a + b =~= b);
    } else {
        lemma_lacks_concat(a.drop_first(), b, x);
        assert((a + b).drop_first() =~= a.drop_first() + b);
    }
}

proof fn lemma_take_until_concat(w: Seq<u8>, r: Seq<u8>, sep: u8)
    requires
        lacks_byte(w, sep),
        r.len() == 0 || r[0] == sep,
    ensures
        take_until(w + r, sep) == w,
    decreases w.len(),
{
    if w.len() == 0 {
        assert(w + r =~= r);
        assert(w =~= Seq::<u8>::empty());
    } else {
        lemma_take_until_concat(w.drop_first(), r, sep);
        assert((w + r).drop_first() =~= w.drop_first() + r);
        assert(seq![w[0]] + w.drop_first() =~= w);
    }
}

/// A text whose first line (as `str::lines` gives it) is `#define
/// LINUX_VERSION_CODE` and the decimal code of `KERNEL_VERSION(major, patch,
/// sub)`, that is `(major << 16) + (patch << 8) + sub`, reads back as
/// `(major, patch, sub)`, for a patch level and a sublevel below 256.
pub proof fn law_version_header_read_back(major: usize, patch: usize, sub: usize, text: Seq<u8>)
    requires
        patch < 256,
        sub < 256,
        major * 65536 + patch * 256 + sub <= usize::MAX,
        first_line(text) == Some(version_header_line((major * 65536 + patch * 256 + sub) as nat)),
    ensures
        spec_linux_version(text) == Ok::<(usize, usize, usize), LinuxVersionError>(
            (major, patch, sub),
        ),
{
    let code = (major * 65536 + patch * 256 + sub) as nat;
    let d = decimal_digits(code);
    let w1 = define_directive();
    let w2 = version_code_macro();
    let sp = seq![0x20u8];
    let line = version_header_line(code);
    lemma_decimal_digits(code);
    law_version_code_roundtrip(major, patch, sub);
    assert(lacks_byte(w1, 0x20)) by {
        reveal_with_fuel(lacks_byte, 8);
    }
    assert(lacks_byte(w2, 0x20)) by {
        reveal_with_fuel(lacks_byte, 19);
    }
    lemma_lacks_digits(d, 0x20);
    // the third field of the line is the code
    assert(line =~= w1 + (sp + w2 + sp + d));
    lemma_take_until_concat(w1, sp + w2 + sp + d, 0x20);
    let after1 = line.skip(8);
    assert(after1 =~= w2 + (sp + d));
    lemma_take_until_concat(w2, sp + d, 0x20);
    let after2 = after1.skip(19);
    assert(after2 =~= d);
    lemma_take_until_concat(d, Seq::<u8>::empty(), 0x20);
    assert(d + Seq::<u8>::empty() =~= d);
    assert(nth_field(after2, 0) == Some(d));
    assert(nth_field(after1, 1) == Some(d));
    assert(nth_field(line, 2) == Some(d));
    // and it reads as the code
    assert(crate::text::unsigned_digits(d) == d) by {
        assert(is_ascii_digit(d[0]));
    }
    assert(spec_parse_unsigned(d, usize::MAX as nat) == Some(code));
}

/// The header line is the first line of the text that starts with it and
/// ends there or goes on with a line feed or a carriage return and a line
/// feed.
pub proof fn law_header_is_first_line(code: nat, rest: Seq<u8>)
    requires
        rest.len() == 0 || rest[0] == 0x0a || (rest.len() >= 2 && rest[0] == 0x0d && rest[1]
            == 0x0a),
    ensures
        first_line(version_header_line(code) + rest) == Some(version_header_line(code)),
{
    let d = decimal_digits(code);
    let w1 = define_directive();
    let w2 = version_code_macro();
    let sp = seq![0x20u8];
    let head = w1 + sp + w2 + sp;
    let line = version_header_line(code);
    let text = line + rest;
    lemma_decimal_digits(code);
    assert(line =~= head + d);
    assert(lacks_byte(w1, 0x0a)) by {
        reveal_with_fuel(lacks_byte, 8);
    }
    assert(lacks_byte(w2, 0x0a)) by {
        reveal_with_fuel(lacks_byte, 19);
    }
    assert(lacks_byte(sp, 0x0a)) by {
        reveal_with_fuel(lacks_byte, 2);
    }
    lemma_lacks_concat(w1, sp, 0x0a);
    lemma_lacks_concat(w1 + sp, w2, 0x0a);
    lemma_lacks_concat(w1 + sp + w2, sp, 0x0a);
    lemma_lacks_digits(d, 0x0a);
    lemma_lacks_concat(head, d, 0x0a);
    assert(line.last() == d.last());
    assert(is_ascii_digit(d[d.len() - 1]));
    if rest.len() >= 2 && rest[0] == 0x0d && rest[1] == 0x0a {
        let cr = seq![0x0du8];
        assert(lacks_byte(cr, 0x0a)) by {
            reveal_with_fuel(lacks_byte, 2);
        }
        lemma_lacks_concat(line, cr, 0x0a);
        assert(text =~= (line + cr) + rest.skip(1));
        lemma_take_until_concat(line + cr, rest.skip(1), 0x0a);
        assert((line + cr).drop_last() =~= line);
    } else {
        lemma_take_until_concat(line, rest, 0x0a);
    }
}

} // verus!
