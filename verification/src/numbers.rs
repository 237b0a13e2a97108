//! Verified parsing of the numeric arguments: plain decimal numbers and
//! hexadecimal numbers introduced by `0x`.
//!
//! The grammar is the one the standard numeric parsers accept for unsigned
//! integers: an optional leading `+`, then at least one digit of the radix.
//! A malformed string and a value that does not fit in `usize` are told
//! apart, since only the former is a syntax error.

use vstd::prelude::*;
use vstd::arithmetic::div_mod::lemma_fundamental_div_mod;
use vstd::arithmetic::mul::lemma_mul_inequality;
use vstd::string::StrSliceExecFns;

verus! {

/// Why a numeric argument was rejected.
#[derive(Clone, Copy, Debug, PartialEq, Eq, Structural)]
pub enum NumError {
    /// The string is not an optional `+` followed by one or more digits.
    NotANumber,
    /// The digits are well formed but the value does not fit in `usize`.
    TooLarge,
}

/// The value of a digit character, counting `a`-`f` and `A`-`F` as 10-15.
pub open spec fn digit_val(c: char) -> nat {
    if '0' <= c <= '9' {
        (c as nat - 48) as nat
    } else if 'a' <= c <= 'f' {
        (c as nat - 87) as nat
    } else if 'A' <= c <= 'F' {
        (c as nat - 55) as nat
    } else {
        16
    }
}

/// Whether `c` is a digit under the given radix.
pub open spec fn is_digit(c: char, radix: nat) -> bool {
    digit_val(c) < radix
}

/// Whether every character of `s` is a digit under the given radix.
pub open spec fn all_digits(s: Seq<char>, radix: nat) -> bool {
    forall|i: int| 0 <= i < s.len() ==> is_digit(s[i], radix)
}

/// The number the digit string `s` denotes under the given radix.
pub open spec fn seq_value(s: Seq<char>, radix: nat) -> nat
    decreases s.len(),
{
    if s.len() == 0 {
        0
    } else {
        seq_value(s.drop_last(), radix) * radix + digit_val(s.last())
    }
}

/// `s` without a single leading `+`, if it has one: the digits proper.
pub open spec fn digits_part(s: Seq<char>) -> Seq<char> {
    if s.len() > 0 && s[0] == '+' {
        s.skip(1)
    } else {
        s
    }
}

/// What parsing `s` as a number under the given radix returns.
pub open spec fn spec_parse_radix(s: Seq<char>, radix: nat) -> Result<usize, NumError> {
    let t = digits_part(s);
    if t.len() == 0 || !all_digits(t, radix) {
        Err(NumError::NotANumber)
    } else if seq_value(t, radix) > usize::MAX {
        Err(NumError::TooLarge)
    } else {
        Ok(seq_value(t, radix) as usize)
    }
}

/// What parsing a numeric argument returns: hexadecimal after a `0x`
/// prefix, decimal otherwise.
pub open spec fn spec_parse_num(s: Seq<char>) -> Result<usize, NumError> {
    if s.len() >= 2 && s[0] == '0' && s[1] == 'x' {
        spec_parse_radix(s.skip(2), 16)
    } else {
        spec_parse_radix(s, 10)
    }
}

/// The value of a longer digit prefix is at least the value of a shorter
/// one: appending digits never shrinks the number.
proof fn lemma_prefix_value_le(s: Seq<char>, radix: nat, j: int, k: int)
    requires
        radix >= 1,
        0 <= j <= k <= s.len(),
    ensures
        seq_value(s.subrange(0, j), radix) <= seq_value(s.subrange(0, k), radix),
    decreases k - j,
{
    if j < k {
        lemma_prefix_value_le(s, radix, j, k - 1);
        let prev = s.subrange(0, k - 1);
        let cur = s.subrange(0, k);
        assert(cur.drop_last() =~= prev);
        let v = seq_value(prev, radix);
        assert(v * radix >= v * 1) by {
            lemma_mul_inequality(1, radix as int, v as int);
            assert(v * radix == radix * v) by (nonlinear_arith);
            assert(v * 1 == 1 * v) by (nonlinear_arith);
        }
        assert(seq_value(cur, radix) == v * radix + digit_val(cur.last()));
    }
}

/// Exec test for a digit: its value under the radix, or nothing.
fn digit_value(c: char, radix: u32) -> (r: Option<u32>)
    requires
        radix == 10 || radix == 16,
    ensures
        r matches Some(v) ==> is_digit(c, radix as nat) && v == digit_val(c),
        r is None ==> !is_digit(c, radix as nat),
{
    let u = c as u32;
    if 48 <= u && u <= 57 {
        Some(u - 48)
    } else if radix == 16 && 97 <= u && u <= 102 {
        Some(u - 87)
    } else if radix == 16 && 65 <= u && u <= 70 {
        Some(u - 55)
    } else {
        None
    }
}

/// Parse a bare digit string (no sign) under the given radix.
fn parse_digits(t: &str, radix: u32) -> (r: Result<usize, NumError>)
    requires
        radix == 10 || radix == 16,
    ensures
        r == (if t@.len() == 0 || !all_digits(t@, radix as nat) {
            Err::<usize, NumError>(NumError::NotANumber)
        } else if seq_value(t@, radix as nat) > usize::MAX {
            Err::<usize, NumError>(NumError::TooLarge)
        } else {
            Ok::<usize, NumError>(seq_value(t@, radix as nat) as usize)
        }),
{
    let n = t.unicode_len();
    if n == 0 {
        return Err(NumError::NotANumber);
    }
    let mut i: usize = 0;
    while i < n
        invariant
            radix == 10 || radix == 16,
            n == t@.len(),
            0 <= i <= n,
            forall|j: int| 0 <= j < i ==> is_digit(t@[j], radix as nat),
        decreases n - i,
    {
        let c = t.get_char(i);
        if digit_value(c, radix).is_none() {
            return Err(NumError::NotANumber);
        }
        i = i + 1;
    }
    assert(all_digits(t@, radix as nat));

    let mut acc: usize = 0;
    i = 0;
    while i < n
        invariant
            radix == 10 || radix == 16,
            n == t@.len(),
            0 <= i <= n,
            all_digits(t@, radix as nat),
            acc == seq_value(t@.subrange(0, i as int), radix as nat),
        decreases n - i,
    {
        let c = t.get_char(i);
        let d = match digit_value(c, radix) {
            Some(v) => v as usize,
            None => {
                return Err(NumError::NotANumber);
            },
        };
        proof {
            assert(t@.subrange(0, i + 1).drop_last() =~= t@.subrange(0, i as int));
            assert(t@.subrange(0, i + 1).last() == t@[i as int]);
        }
        let bound = (usize::MAX - d) / (radix as usize);
        if acc > bound {
            proof {
                let r = radix as int;
                let m = usize::MAX as int;
                let dd = d as int;
                lemma_fundamental_div_mod(m - dd, r);
                assert((m - dd) % r < r && (m - dd) % r >= 0);
                assert(acc as int >= (m - dd) / r + 1);
                assert(acc * r >= ((m - dd) / r + 1) * r) by {
                    lemma_mul_inequality((m - dd) / r + 1, acc as int, r);
                    assert(acc * r == r * (acc as int)) by (nonlinear_arith);
                    assert(((m - dd) / r + 1) * r == r * ((m - dd) / r + 1)) by (nonlinear_arith);
                }
                assert(((m - dd) / r + 1) * r == ((m - dd) / r) * r + r) by (nonlinear_arith);
                assert(((m - dd) / r) * r > m - dd - r);
                assert(acc * r + dd > m);
                assert(seq_value(t@.subrange(0, i + 1), radix as nat) > usize::MAX);
                lemma_prefix_value_le(t@, radix as nat, i + 1, n as int);
                assert(t@.subrange(0, n as int) =~= t@);
            }
            return Err(NumError::TooLarge);
        }
        proof {
            let r = radix as int;
            let m = usize::MAX as int;
            let dd = d as int;
            lemma_fundamental_div_mod(m - dd, r);
            assert(acc * r <= ((m - dd) / r) * r) by {
                lemma_mul_inequality(acc as int, (m - dd) / r, r);
            }
            assert(((m - dd) / r) * r <= m - dd);
            assert(acc * r + dd <= m);
        }
        acc = acc * (radix as usize) + d;
        i = i + 1;
    }
    proof {
        assert(t@.subrange(0, n as int) =~= t@);
    }
    Ok(acc)
}

/// Parse a number under the given radix: an optional `+`, then digits.
pub(crate) fn parse_radix(s: &str, radix: u32) -> (r: Result<usize, NumError>)
    requires
        radix == 10 || radix == 16,
    ensures
        r == spec_parse_radix(s@, radix as nat),
{
    let n = s.unicode_len();
    let start: usize = if n > 0 && s.get_char(0) == '+' {
        1
    } else {
        0
    };
    let t = s.substring_char(start, n);
    proof {
        if start == 1 {
            assert(t@ =~= digits_part(s@));
        } else {
            assert(t@ =~= digits_part(s@));
        }
    }
    parse_digits(t, radix)
}

/// Parse a numeric argument: hexadecimal after a `0x` prefix, decimal
/// otherwise.
pub fn parse_num(s: &str) -> (r: Result<usize, NumError>)
    ensures
        r == spec_parse_num(s@),
{
    let n = s.unicode_len();
    if n >= 2 && s.get_char(0) == '0' && s.get_char(1) == 'x' {
        let t = s.substring_char(2, n);
        proof {
            assert(t@ =~= s@.skip(2));
        }
        parse_radix(t, 16)
    } else {
        parse_radix(s, 10)
    }
}

} // verus!
