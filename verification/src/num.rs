//! Decimal and hexadecimal numerals as byte sequences.
//!
//! The wire format writes chunk sizes in hexadecimal and content lengths and
//! status codes in decimal.  This module defines the two numeral systems as
//! spec functions, the executable writers and parsers, and the lemmas that
//! make writing and parsing inverse to each other.

use vstd::prelude::*;

use crate::is_digit;

verus! {

/// The ASCII digit for a value below ten.
pub open spec fn dec_digit(d: nat) -> u8 {
    (48 + d) as u8
}

/// The decimal numeral of `n`, most significant digit first, never empty,
/// without leading zeros (`0` itself is the single digit `0`).
pub open spec fn dec_digits(n: nat) -> Seq<u8>
    decreases n,
{
    if n < 10 {
        seq![dec_digit(n)]
    } else {
        dec_digits(n / 10).push(dec_digit(n % 10))
    }
}

/// True when every byte of `s` is an ASCII decimal digit.
pub open spec fn all_digits(s: Seq<u8>) -> bool {
    forall|i: int| 0 <= i < s.len() ==> is_digit(s[i])
}

/// The value of `s` read as a decimal numeral (digits are assumed; other
/// bytes give an unspecified value).
pub open spec fn dec_value(s: Seq<u8>) -> nat
    decreases s.len(),
{
    if s.len() == 0 {
        0
    } else {
        dec_value(s.drop_last()) * 10 + ((s.last() - 48) as nat)
    }
}

/// True of the bytes that ASCII calls hexadecimal digits, either case.
pub open spec fn is_hex_digit(c: u8) -> bool {
    is_digit(c) || (97 <= c <= 102) || (65 <= c <= 70)
}

/// The value of one hexadecimal digit byte.
pub open spec fn hex_digit_value(c: u8) -> nat {
    if is_digit(c) {
        (c - 48) as nat
    } else if 97 <= c <= 102 {
        (c - 87) as nat
    } else {
        (c - 55) as nat
    }
}

/// The lower-case ASCII digit for a value below sixteen.
pub open spec fn hex_digit(d: nat) -> u8 {
    if d < 10 {
        (48 + d) as u8
    } else {
        (87 + d) as u8
    }
}

/// The lower-case hexadecimal numeral of `n`, most significant digit first,
/// never empty, without leading zeros.
pub open spec fn hex_digits(n: nat) -> Seq<u8>
    decreases n,
{
    if n < 16 {
        seq![hex_digit(n)]
    } else {
        hex_digits(n / 16).push(hex_digit(n % 16))
    }
}

/// True when every byte of `s` is a hexadecimal digit of either case.
pub open spec fn all_hex_digits(s: Seq<u8>) -> bool {
    forall|i: int| 0 <= i < s.len() ==> is_hex_digit(s[i])
}

/// The value of `s` read as a hexadecimal numeral.
pub open spec fn hex_value(s: Seq<u8>) -> nat
    decreases s.len(),
{
    if s.len() == 0 {
        0
    } else {
        hex_value(s.drop_last()) * 16 + hex_digit_value(s.last())
    }
}

/// The decimal numeral of a value is made of digits and reads back as that
/// value.
pub proof fn lemma_dec_digits_value(n: nat)
    ensures
        all_digits(dec_digits(n)),
        dec_value(dec_digits(n)) == n,
        dec_digits(n).len() >= 1,
    decreases n,
{
    if n < 10 {
        assert(dec_digits(n) =~= seq![dec_digit(n)]);
        assert(dec_digits(n).drop_last() =~= Seq::<u8>::empty());
        assert(dec_value(Seq::<u8>::empty()) == 0);
        assert(dec_digits(n).last() == dec_digit(n));
    } else {
        lemma_dec_digits_value(n / 10);
        let prefix = dec_digits(n / 10);
        let whole = prefix.push(dec_digit(n % 10));
        assert(whole.drop_last() =~= prefix);
        assert(whole.last() == dec_digit(n % 10));
        assert(dec_value(whole) == (n / 10) * 10 + n % 10);
        assert((n / 10) * 10 + n % 10 == n) by (nonlinear_arith);
    }
}

/// The hexadecimal numeral of a value is made of hex digits and reads back
/// as that value.
pub proof fn lemma_hex_digits_value(n: nat)
    ensures
        all_hex_digits(hex_digits(n)),
        hex_value(hex_digits(n)) == n,
        hex_digits(n).len() >= 1,
    decreases n,
{
    if n < 16 {
        assert(hex_digits(n) =~= seq![hex_digit(n)]);
        assert(hex_digits(n).drop_last() =~= Seq::<u8>::empty());
        assert(hex_value(Seq::<u8>::empty()) == 0);
        assert(hex_digits(n).last() == hex_digit(n));
    } else {
        lemma_hex_digits_value(n / 16);
        let prefix = hex_digits(n / 16);
        let whole = prefix.push(hex_digit(n % 16));
        assert(whole.drop_last() =~= prefix);
        assert(whole.last() == hex_digit(n % 16));
        assert(hex_value(whole) == (n / 16) * 16 + n % 16);
        assert((n / 16) * 16 + n % 16 == n) by (nonlinear_arith);
    }
}

/// Reading a longer prefix of a numeral never decreases its value.
proof fn lemma_dec_value_take_le(s: Seq<u8>, j: int)
    requires
        0 <= j <= s.len(),
    ensures
        dec_value(s.take(j)) <= dec_value(s),
    decreases s.len() - j,
{
    if j < s.len() {
        assert(s.take(j + 1).drop_last() =~= s.take(j));
        assert(dec_value(s.take(j)) <= dec_value(s.take(j + 1)));
        lemma_dec_value_take_le(s, j + 1);
    } else {
        assert(s.take(j) =~= s);
    }
}

/// Reading a longer prefix of a hexadecimal numeral never decreases its
/// value.
proof fn lemma_hex_value_take_le(s: Seq<u8>, j: int)
    requires
        0 <= j <= s.len(),
    ensures
        hex_value(s.take(j)) <= hex_value(s),
    decreases s.len() - j,
{
    if j < s.len() {
        assert(s.take(j + 1).drop_last() =~= s.take(j));
        assert(hex_value(s.take(j)) <= hex_value(s.take(j + 1)));
        lemma_hex_value_take_le(s, j + 1);
    } else {
        assert(s.take(j) =~= s);
    }
}

/// Appends the decimal numeral of `n` to `out`.
pub fn write_dec(n: u64, out: &mut Vec<u8>)
    ensures
        final(out)@ == old(out)@ + dec_digits(n as nat),
    decreases n,
{
    if n < 10 {
        out.push(48 + n as u8);
    } else {
        write_dec(n / 10, out);
        out.push(48 + (n % 10) as u8);
        assert(out@ =~= old(out)@ + dec_digits(n as nat));
    }
}

/// Appends the lower-case hexadecimal numeral of `n` to `out`.
pub fn write_hex(n: u64, out: &mut Vec<u8>)
    ensures
        final(out)@ == old(out)@ + hex_digits(n as nat),
    decreases n,
{
    if n < 16 {
        if n < 10 {
            out.push(48 + n as u8);
        } else {
            out.push(87 + n as u8);
        }
    } else {
        write_hex(n / 16, out);
        let d = n % 16;
        if d < 10 {
            out.push(48 + d as u8);
        } else {
            out.push(87 + d as u8);
        }
        assert(out@ =~= old(out)@ + hex_digits(n as nat));
    }
}

/// Parses `s` as a decimal numeral.  Returns its value exactly when `s` is
/// non-empty, all digits, and the value fits in a `u64`.
pub fn parse_dec(s: &[u8]) -> (r: Option<u64>)
    ensures
        r is Some <==> s@.len() > 0 && all_digits(s@) && dec_value(s@) <= u64::MAX,
        r matches Some(v) ==> v as nat == dec_value(s@),
{
    if s.len() == 0 {
        return None;
    }
    let mut i: usize = 0;
    while i < s.len()
        invariant
            0 <= i <= s@.len(),
            forall|k: int| 0 <= k < i ==> is_digit(s@[k]),
        decreases s@.len() - i,
    {
        if !(48 <= s[i] && s[i] <= 57) {
            return None;
        }
        i = i + 1;
    }
    let mut acc: u64 = 0;
    let mut j: usize = 0;
    while j < s.len()
        invariant
            0 <= j <= s@.len(),
            all_digits(s@),
            acc as nat == dec_value(s@.take(j as int)),
        decreases s@.len() - j,
    {
        let d: u64 = (s[j] - 48) as u64;
        let shifted = match acc.checked_mul(10) {
            Some(t) => t,
            None => {
                proof {
                    assert(s@.take(j as int + 1).drop_last() =~= s@.take(j as int));
                    assert(dec_value(s@.take(j as int + 1)) > u64::MAX);
                    lemma_dec_value_take_le(s@, j as int + 1);
                }
                return None;
            },
        };
        let next = match shifted.checked_add(d) {
            Some(t) => t,
            None => {
                proof {
                    assert(s@.take(j as int + 1).drop_last() =~= s@.take(j as int));
                    assert(dec_value(s@.take(j as int + 1)) > u64::MAX);
                    lemma_dec_value_take_le(s@, j as int + 1);
                }
                return None;
            },
        };
        proof {
            assert(s@.take(j as int + 1).drop_last() =~= s@.take(j as int));
        }
        acc = next;
        j = j + 1;
    }
    proof {
        assert(s@.take(s@.len() as int) =~= s@);
    }
    Some(acc)
}

/// Decides whether every byte of `s` is a hexadecimal digit.
pub fn check_all_hex(s: &[u8]) -> (r: bool)
    ensures
        r == all_hex_digits(s@),
{
    let mut i: usize = 0;
    while i < s.len()
        invariant
            0 <= i <= s@.len(),
            forall|k: int| 0 <= k < i ==> is_hex_digit(s@[k]),
        decreases s@.len() - i,
    {
        let c = s[i];
        if !((48 <= c && c <= 57) || (97 <= c && c <= 102) || (65 <= c && c <= 70)) {
            return false;
        }
        i = i + 1;
    }
    true
}

/// Parses `s` as a hexadecimal numeral of either case.  Returns its value
/// exactly when `s` is non-empty, all hex digits, and the value fits in a
/// `u64`.
pub fn parse_hex(s: &[u8]) -> (r: Option<u64>)
    ensures
        r is Some <==> s@.len() > 0 && all_hex_digits(s@) && hex_value(s@) <= u64::MAX,
        r matches Some(v) ==> v as nat == hex_value(s@),
{
    if s.len() == 0 {
        return None;
    }
    let mut i: usize = 0;
    while i < s.len()
        invariant
            0 <= i <= s@.len(),
            forall|k: int| 0 <= k < i ==> is_hex_digit(s@[k]),
        decreases s@.len() - i,
    {
        let c = s[i];
        if !((48 <= c && c <= 57) || (97 <= c && c <= 102) || (65 <= c && c <= 70)) {
            return None;
        }
        i = i + 1;
    }
    let mut acc: u64 = 0;
    let mut j: usize = 0;
    while j < s.len()
        invariant
            0 <= j <= s@.len(),
            all_hex_digits(s@),
            acc as nat == hex_value(s@.take(j as int)),
        decreases s@.len() - j,
    {
        let c = s[j];
        let d: u64 = if 48 <= c && c <= 57 {
            (c - 48) as u64
        } else if 97 <= c && c <= 102 {
            (c - 87) as u64
        } else {
            (c - 55) as u64
        };
        assert(d as nat == hex_digit_value(c));
        let shifted = match acc.checked_mul(16) {
            Some(t) => t,
            None => {
                proof {
                    assert(s@.take(j as int + 1).drop_last() =~= s@.take(j as int));
                    assert(hex_value(s@.take(j as int + 1)) > u64::MAX);
                    lemma_hex_value_take_le(s@, j as int + 1);
                }
                return None;
            },
        };
        let next = match shifted.checked_add(d) {
            Some(t) => t,
            None => {
                proof {
                    assert(s@.take(j as int + 1).drop_last() =~= s@.take(j as int));
                    assert(hex_value(s@.take(j as int + 1)) > u64::MAX);
                    lemma_hex_value_take_le(s@, j as int + 1);
                }
                return None;
            },
        };
        proof {
            assert(s@.take(j as int + 1).drop_last() =~= s@.take(j as int));
        }
        acc = next;
        j = j + 1;
    }
    proof {
        assert(s@.take(s@.len() as int) =~= s@);
    }
    Some(acc)
}

} // verus!
