//! Text handling shared by the readers of kernel interfaces: trimming values
//! read from sysfs and procfs, and reading unsigned decimal numbers.

use vstd::prelude::*;

verus! {

/// Whether `c` has the Unicode `White_Space` property (what
/// `char::is_whitespace` answers).
pub open spec fn is_white_space(c: char) -> bool {
    ||| c == '\t'
    ||| c == '\n'
    ||| c == '\u{0B}'
    ||| c == '\u{0C}'
    ||| c == '\r'
    ||| c == ' '
    ||| c == '\u{85}'
    ||| c == '\u{A0}'
    ||| c == '\u{1680}'
    ||| ('\u{2000}' <= c && c <= '\u{200A}')
    ||| c == '\u{2028}'
    ||| c == '\u{2029}'
    ||| c == '\u{202F}'
    ||| c == '\u{205F}'
    ||| c == '\u{3000}'
}

/// `cs` without its leading white space.
pub open spec fn trim_start_chars(cs: Seq<char>) -> Seq<char>
    decreases cs.len(),
{
    if cs.len() > 0 && is_white_space(cs[0]) {
        trim_start_chars(cs.drop_first())
    } else {
        cs
    }
}

/// `cs` without its trailing white space.
pub open spec fn trim_end_chars(cs: Seq<char>) -> Seq<char>
    decreases cs.len(),
{
    if cs.len() > 0 && is_white_space(cs.last()) {
        trim_end_chars(cs.drop_last())
    } else {
        cs
    }
}

/// `cs` without its leading and trailing white space (what `str::trim`
/// gives).
pub open spec fn trim_chars(cs: Seq<char>) -> Seq<char> {
    trim_end_chars(trim_start_chars(cs))
}

fn is_white_space_char(c: char) -> (r: bool)
    ensures
        r == is_white_space(c),
{
    c == '\t' || c == '\n' || c == '\u{0B}' || c == '\u{0C}' || c == '\r' || c == ' ' || c
        == '\u{85}' || c == '\u{A0}' || c == '\u{1680}' || ('\u{2000}' <= c && c <= '\u{200A}')
        || c == '\u{2028}' || c == '\u{2029}' || c == '\u{202F}' || c == '\u{205F}' || c
        == '\u{3000}'
}

proof fn lemma_trim_start_skip(cs: Seq<char>, i: int)
    requires
        0 <= i <= cs.len(),
        forall|k: int| 0 <= k < i ==> is_white_space(#[trigger] cs[k]),
    ensures
        trim_start_chars(cs) == trim_start_chars(cs.skip(i)),
    decreases i,
{
    if i > 0 {
        assert(cs.skip(i) =~= cs.drop_first().skip(i - 1));
        lemma_trim_start_skip(cs.drop_first(), i - 1);
    } else {
        assert(cs.skip(0) =~= cs);
    }
}

proof fn lemma_trim_end_take(cs: Seq<char>, j: int)
    requires
        0 <= j <= cs.len(),
        forall|k: int| j <= k < cs.len() ==> is_white_space(#[trigger] cs[k]),
    ensures
        trim_end_chars(cs) == trim_end_chars(cs.take(j)),
    decreases cs.len() - j,
{
    if j < cs.len() {
        assert(cs.take(j) =~= cs.drop_last().take(j));
        lemma_trim_end_take(cs.drop_last(), j);
    } else {
        assert(cs.take(j) =~= cs);
    }
}

/// `s` without its leading and trailing white space, as `str::trim` gives it.
pub fn trim(s: &str) -> (r: String)
    ensures
        r@ == trim_chars(s@),
{
    let n = s.unicode_len();
    let mut i: usize = 0;
    while i < n && is_white_space_char(s.get_char(i))
        invariant
            n == s@.len(),
            i <= n,
            forall|k: int| 0 <= k < i ==> is_white_space(#[trigger] s@[k]),
        decreases n - i,
    {
        i = i + 1;
    }
    let mut j: usize = n;
    while j > i && is_white_space_char(s.get_char(j - 1))
        invariant
            n == s@.len(),
            i <= j <= n,
            forall|k: int| j <= k < n ==> is_white_space(#[trigger] s@[k]),
        decreases j,
    {
        j = j - 1;
    }
    proof {
        lemma_trim_start_skip(s@, i as int);
        let rest = s@.skip(i as int);
        if i < n {
            assert(!is_white_space(rest[0]));
        } else {
            assert(rest.len() == 0);
        }
        assert(trim_start_chars(rest) == rest);
        lemma_trim_end_take(rest, j - i);
        let mid = rest.take(j - i);
        if j > i {
            assert(mid.last() == s@[j - 1]);
        }
        assert(trim_end_chars(mid) == mid);
        assert(mid =~= s@.subrange(i as int, j as int));
    }
    let t = s.substring_char(i, j);
    String::from_str(t)
}

/// The value of the decimal digits `digits` (ASCII bytes `0`..`9`).
pub open spec fn decimal_value(digits: Seq<u8>) -> nat
    decreases digits.len(),
{
    if digits.len() == 0 {
        0
    } else {
        decimal_value(digits.drop_last()) * 10 + (digits.last() - 0x30u8) as nat
    }
}

pub open spec fn is_ascii_digit(b: u8) -> bool {
    0x30 <= b && b <= 0x39
}

/// The digits of an unsigned decimal number: what follows an optional `+`.
pub open spec fn unsigned_digits(bytes: Seq<u8>) -> Seq<u8> {
    if bytes.len() > 0 && bytes[0] == 0x2b {
        bytes.drop_first()
    } else {
        bytes
    }
}

/// What `str::parse` gives for an unsigned integer type whose largest value is
/// `max`, read from the UTF-8 bytes `bytes`: an optional `+` followed by at
/// least one ASCII digit and nothing else, whose value is at most `max`.
pub open spec fn spec_parse_unsigned(bytes: Seq<u8>, max: nat) -> Option<nat> {
    let digits = unsigned_digits(bytes);
    if digits.len() > 0 && (forall|k: int| 0 <= k < digits.len() ==> is_ascii_digit(#[trigger] digits[k]))
        && decimal_value(digits) <= max {
        Some(decimal_value(digits))
    } else {
        None
    }
}

proof fn lemma_decimal_value_prefix_le(digits: Seq<u8>, k: int)
    requires
        0 <= k <= digits.len(),
        forall|m: int| 0 <= m < digits.len() ==> is_ascii_digit(#[trigger] digits[m]),
    ensures
        decimal_value(digits.take(k)) <= decimal_value(digits),
    decreases digits.len() - k,
{
    if k < digits.len() {
        assert(digits.drop_last().take(k) =~= digits.take(k));
        lemma_decimal_value_prefix_le(digits.drop_last(), k);
    } else {
        assert(digits.take(k) =~= digits);
    }
}

/// Reads an unsigned decimal number no greater than `max` from `bytes`, as
/// `str::parse` reads the text of those bytes for an unsigned type of that
/// range.
pub fn parse_unsigned(bytes: &[u8], max: u64) -> (r: Option<u64>)
    ensures
        match spec_parse_unsigned(bytes@, max as nat) {
            Some(v) => r == Some(v as u64),
            None => r is None,
        },
{
    let start: usize = if bytes.len() > 0 && bytes[0] == 0x2b {
        1
    } else {
        0
    };
    let ghost digits = unsigned_digits(bytes@);
    proof {
        assert(digits =~= bytes@.skip(start as int));
    }
    if start >= bytes.len() {
        return None;
    }
    let mut value: u64 = 0;
    let mut i: usize = start;
    while i < bytes.len()
        invariant
            start <= i <= bytes.len(),
            digits == bytes@.skip(start as int),
            digits == unsigned_digits(bytes@),
            forall|m: int| start <= m < i ==> is_ascii_digit(#[trigger] bytes@[m]),
            value as nat == decimal_value(digits.take(i - start)),
            value <= max,
        decreases bytes.len() - i,
    {
        let b = bytes[i];
        proof {
            assert(digits.take(i - start + 1).drop_last() =~= digits.take(i - start));
            assert(digits.take(i - start + 1).last() == b);
        }
        if b < 0x30 || b > 0x39 {
            proof {
                assert(!is_ascii_digit(digits[i - start]));
            }
            return None;
        }
        let d: u64 = (b - 0x30) as u64;
        proof {
            assert(decimal_value(digits.take(i - start + 1)) == value * 10 + d);
        }
        if d > max {
            proof {
                if forall|q: int| 0 <= q < digits.len() ==> is_ascii_digit(#[trigger] digits[q]) {
                    lemma_decimal_value_prefix_le(digits, i - start + 1);
                    assert(decimal_value(digits) > max);
                }

            }
            return None;
        }
        if value > (max - d) / 10 {
            proof {
                assert(value * 10 + d > max) by (nonlinear_arith)
                    requires
                        value > (max - d) / 10,
                        d <= max,
                ;
                if forall|q: int| 0 <= q < digits.len() ==> is_ascii_digit(#[trigger] digits[q]) {
                    lemma_decimal_value_prefix_le(digits, i - start + 1);
                    assert(decimal_value(digits) > max);
                }

            }
            return None;
        }
        proof {
            assert(value * 10 + d <= max) by (nonlinear_arith)
                requires
                    value <= (max - d) / 10,
                    d <= max,
            ;
        }
        value = value * 10 + d;
        i = i + 1;
    }
    proof {
        assert(digits.take(i - start) =~= digits);
        assert forall|m: int| 0 <= m < digits.len() implies is_ascii_digit(#[trigger] digits[m]) by {
            assert(digits[m] == bytes@[m + start]);
        }
    }
    Some(value)
}

} // verus!
