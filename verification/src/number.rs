//! Unsigned decimal numbers as text: reading them and writing them.

use vstd::prelude::*;

verus! {

/// `c` is one of `0` to `9`.
pub open spec fn is_digit(c: char) -> bool {
    '0' <= c <= '9'
}

/// The value of the decimal digit `c`.
pub open spec fn digit_value(c: char) -> nat {
    (c as nat - '0' as nat) as nat
}

/// Every character of `s` is a decimal digit.
pub open spec fn all_digits(s: Seq<char>) -> bool {
    forall|i: int| 0 <= i < s.len() ==> is_digit(#[trigger] s[i])
}

/// The number that the digit string `s` denotes in base ten.
pub open spec fn digits_value(s: Seq<char>) -> nat
    decreases s.len(),
{
    if s.len() == 0 {
        0
    } else {
        10 * digits_value(s.drop_last()) + digit_value(s.last())
    }
}

/// `s` without one leading plus sign.
pub open spec fn unsigned_digits(s: Seq<char>) -> Seq<char> {
    if s.len() > 0 && s[0] == '+' {
        s.drop_first()
    } else {
        s
    }
}

/// The number that `s` denotes: an optional `+`, then one or more decimal
/// digits whose value is at most `max`. Anything else denotes nothing.
pub open spec fn parsed_unsigned(s: Seq<char>, max: nat) -> Option<nat> {
    let digits = unsigned_digits(s);
    if digits.len() > 0 && all_digits(digits) && digits_value(digits) <= max {
        Some(digits_value(digits))
    } else {
        None
    }
}

/// A prefix of a digit string denotes no more than the whole string.
pub proof fn lemma_prefix_value(s: Seq<char>, k: int)
    requires
        0 <= k <= s.len(),
    ensures
        digits_value(s.take(k)) <= digits_value(s),
    decreases s.len() - k,
{
    if k == s.len() {
        assert(s.take(k) == s);
    } else {
        lemma_prefix_value(s.drop_last(), k);
        assert(s.drop_last().take(k) == s.take(k));
    }
}

/// Reads an unsigned decimal number no greater than `max`.
pub fn parse_unsigned(s: &[char], max: u64) -> (value: Option<u64>)
    ensures
        match value {
            Some(n) => parsed_unsigned(s@, max as nat) == Some(n as nat),
            None => parsed_unsigned(s@, max as nat).is_none(),
        },
{
    let start: usize = if s.len() > 0 && s[0] == '+' {
        1
    } else {
        0
    };
    let ghost digits = unsigned_digits(s@);
    if start == s.len() {
        return None;
    }
    let mut acc: u64 = 0;
    let mut i: usize = start;
    while i < s.len()
        invariant
            start <= i <= s.len(),
            digits == s@.skip(start as int),
            digits == unsigned_digits(s@),
            all_digits(digits.take(i - start)),
            acc == digits_value(digits.take(i - start)),
            acc <= max,
        decreases s.len() - i,
    {
        let c: char = s[i];
        let ghost head = digits.take(i - start + 1);
        assert(head.drop_last() == digits.take(i - start));
        assert(digits_value(head) == 10 * acc + digit_value(c));
        if c < '0' || c > '9' {
            assert(!is_digit(digits[i - start]));
            return None;
        }
        let d: u64 = (c as u64) - ('0' as u64);
        assert(d == digit_value(c));
        if d > max || acc > (max - d) / 10 {
            proof {
                assert(10 * acc + d > max) by (nonlinear_arith)
                    requires
                        d > max || acc > (max - d) / 10,
                        0 <= d,
                        0 <= acc,
                ;
                lemma_prefix_value(digits, i - start + 1);
            }
            return None;
        }
        assert(10 * acc + d <= max) by (nonlinear_arith)
            requires
                d <= max,
                acc <= (max - d) / 10,
                0 <= acc,
        ;
        acc = 10 * acc + d;
        i += 1;
        assert(all_digits(head)) by {
            assert forall|j: int| 0 <= j < head.len() implies is_digit(#[trigger] head[j]) by {
                if j < head.len() - 1 {
                    assert(head[j] == head.drop_last()[j]);
                }
            }
        }
    }
    assert(digits.take(s.len() - start) == digits);
    Some(acc)
}

/// The character that writes the digit `d`.
pub open spec fn digit_char(d: nat) -> char {
    ((d + 48) as u8) as char
}

/// `n` written in base ten, without leading zeros.
pub open spec fn decimal(n: nat) -> Seq<char>
    decreases n,
{
    if n < 10 {
        seq![digit_char(n)]
    } else {
        decimal(n / 10).push(digit_char(n % 10))
    }
}

/// Writes `n` in base ten.
pub fn decimal_chars(n: u64) -> (out: Vec<char>)
    ensures
        out@ == decimal(n as nat),
{
    let mut out: Vec<char> = Vec::new();
    let mut rest: u64 = n;
    while rest >= 10
        invariant
            decimal(n as nat) == decimal(rest as nat) + out@,
        decreases rest,
    {
        let d: u8 = (rest % 10) as u8;
        out.insert(0, (d + 48u8) as char);
        rest = rest / 10;
    }
    let d: u8 = rest as u8;
    out.insert(0, (d + 48u8) as char);
    out
}

} // verus!
