//! Decimal digit strings and the numbers they denote.

use vstd::prelude::*;

verus! {

/// The byte `0`.
pub const ZERO: u8 = 48;

/// Whether `b` is one of the ASCII digits `0` to `9`.
pub open spec fn is_digit(b: u8) -> bool {
    48 <= b <= 57
}

/// The number that an ASCII digit stands for.
pub open spec fn digit_value(b: u8) -> nat
    recommends
        is_digit(b),
{
    (b - 48) as nat
}

/// The ASCII digit for a number below ten.
pub open spec fn digit(d: nat) -> u8
    recommends
        d < 10,
{
    (48 + d) as u8
}

/// Whether every byte of `s` is an ASCII digit.
pub open spec fn all_digits(s: Seq<u8>) -> bool {
    forall|i: int| 0 <= i < s.len() ==> is_digit(#[trigger] s[i])
}

/// The number that a string of digits denotes, read in base ten with the most
/// significant digit first. The empty string denotes zero.
pub open spec fn digits_value(s: Seq<u8>) -> nat
    decreases s.len(),
{
    if s.len() == 0 {
        0
    } else {
        digits_value(s.drop_last()) * 10 + digit_value(s.last())
    }
}

/// The shortest digit string that denotes `n`: no leading zero, except that
/// zero itself is the single digit `0`.
pub open spec fn decimal(n: nat) -> Seq<u8>
    decreases n,
{
    if n < 10 {
        seq![digit(n)]
    } else {
        decimal(n / 10).push(digit(n % 10))
    }
}

/// Whether `s` is the shortest digit string of some number: not empty, digits
/// only, and starting with `0` only if it is `0` alone.
pub open spec fn is_decimal(s: Seq<u8>) -> bool {
    &&& s.len() > 0
    &&& all_digits(s)
    &&& s[0] == ZERO ==> s.len() == 1
}

/// A longer prefix of a digit string denotes at least as much as a shorter one.
proof fn lemma_prefix_value_grows(s: Seq<u8>, i: int, j: int)
    requires
        0 <= i <= j <= s.len(),
        all_digits(s),
    ensures
        digits_value(s.take(i)) <= digits_value(s.take(j)),
    decreases j - i,
{
    if i < j {
        lemma_prefix_value_grows(s, i, j - 1);
        assert(s.take(j).drop_last() =~= s.take(j - 1));
    }
}

/// `decimal(n)` is a shortest digit string, and it denotes `n`.
pub proof fn lemma_decimal_denotes(n: nat)
    ensures
        is_decimal(decimal(n)),
        digits_value(decimal(n)) == n,
        n > 0 ==> decimal(n)[0] != ZERO,
    decreases n,
{
    if n < 10 {
        assert(digits_value(decimal(n).drop_last()) == 0);
    } else {
        lemma_decimal_denotes(n / 10);
        assert(decimal(n).drop_last() =~= decimal(n / 10));
    }
}

/// A shortest digit string is the decimal form of the number it denotes.
pub proof fn lemma_decimal_unique(s: Seq<u8>)
    requires
        is_decimal(s),
    ensures
        decimal(digits_value(s)) == s,
        s.len() > 1 ==> digits_value(s) >= 10,
    decreases s.len(),
{
    let front = s.drop_last();
    if s.len() == 1 {
        assert(digits_value(front) == 0);
    } else {
        assert(front[0] == s[0]);
        lemma_decimal_unique(front);
        if front.len() == 1 {
            assert(digits_value(front.drop_last()) == 0);
        }
    }
    assert(decimal(digits_value(s)) =~= s);
}

/// The digit of the tens of a number below a hundred.
pub open spec fn tens(n: int) -> u8
    recommends
        0 <= n < 100,
{
    digit((n / 10) as nat)
}

/// The digit of the ones of a number.
pub open spec fn ones(n: int) -> u8
    recommends
        0 <= n,
{
    digit((n % 10) as nat)
}

/// Appends the decimal form of `n` to `out`.
pub fn push_decimal(n: u64, out: &mut Vec<u8>)
    ensures
        final(out)@ == old(out)@ + decimal(n as nat),
    decreases n,
{
    if n >= 10 {
        push_decimal(n / 10, out);
    }
    let d: u8 = (n % 10) as u8;
    out.push(ZERO + d);
}

/// Reads a string of digits as a number that fits 64 bits.
///
/// Any digit string is read here, also one with leading zeros; the result is
/// `None` when a byte is no digit or when the number does not fit.
pub fn read_digits(text: &[u8]) -> (r: Option<u64>)
    ensures
        r == (if all_digits(text@) && digits_value(text@) <= u64::MAX {
            Some(digits_value(text@) as u64)
        } else {
            None
        }),
{
    let mut acc: u64 = 0;
    let mut i: usize = 0;
    while i < text.len()
        invariant
            0 <= i <= text.len(),
            all_digits(text@.take(i as int)),
            acc == digits_value(text@.take(i as int)),
        decreases text.len() - i,
    {
        let b: u8 = text[i];
        assert(text@.take(i + 1).drop_last() =~= text@.take(i as int));
        if b < 48 || b > 57 {
            return None;
        }
        let d: u64 = (b - 48) as u64;
        if acc > (u64::MAX - d) / 10 {
            proof {
                if all_digits(text@) {
                    lemma_prefix_value_grows(text@, i + 1, text@.len() as int);
                    assert(text@.take(text@.len() as int) =~= text@);
                }
            }
            return None;
        }
        acc = acc * 10 + d;
        i = i + 1;
    }
    assert(text@.take(i as int) =~= text@);
    Some(acc)
}

} // verus!
