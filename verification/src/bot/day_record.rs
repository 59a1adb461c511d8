//! The record of the last day the channel was posted to: the day's number as decimal text,
//! written as `i32`'s `Display` writes it and read back as `str::parse::<i32>` reads it.
use vstd::prelude::*;

use crate::text::push_char;

verus! {

/// The decimal digit character of a number below ten.
pub open spec fn digit_char(d: int) -> char {
    if d == 0 {
        '0'
    } else if d == 1 {
        '1'
    } else if d == 2 {
        '2'
    } else if d == 3 {
        '3'
    } else if d == 4 {
        '4'
    } else if d == 5 {
        '5'
    } else if d == 6 {
        '6'
    } else if d == 7 {
        '7'
    } else if d == 8 {
        '8'
    } else {
        '9'
    }
}

/// The value of a decimal digit character, or -1 for any other character.
pub open spec fn digit_value(c: char) -> int {
    if c == '0' {
        0
    } else if c == '1' {
        1
    } else if c == '2' {
        2
    } else if c == '3' {
        3
    } else if c == '4' {
        4
    } else if c == '5' {
        5
    } else if c == '6' {
        6
    } else if c == '7' {
        7
    } else if c == '8' {
        8
    } else if c == '9' {
        9
    } else {
        -1
    }
}

/// The decimal digits of a natural number, without leading zeros.
pub open spec fn decimal_digits(n: nat) -> Seq<char>
    decreases n,
{
    if n < 10 {
        seq![digit_char(n as int)]
    } else {
        decimal_digits(n / 10).push(digit_char((n % 10) as int))
    }
}

/// How an integer is written in decimal: a minus sign for a negative one, then its digits.
pub open spec fn decimal_text(n: int) -> Seq<char> {
    if n < 0 {
        seq!['-'] + decimal_digits((-n) as nat)
    } else {
        decimal_digits(n as nat)
    }
}

/// Every character is a decimal digit.
pub open spec fn all_digits(s: Seq<char>) -> bool {
    forall|i: int| 0 <= i < s.len() ==> digit_value(#[trigger] s[i]) >= 0
}

/// The number that some decimal digits write.
pub open spec fn digits_value(s: Seq<char>) -> int
    decreases s.len(),
{
    if s.len() == 0 {
        0
    } else {
        digits_value(s.drop_last()) * 10 + digit_value(s.last())
    }
}

/// What `str::parse::<i32>` reads: an optional `+` or `-`, then one or more decimal digits,
/// whose value must fit in an `i32`; anything else is an error.
pub open spec fn parsed_i32(s: Seq<char>) -> Option<i32> {
    let signed = s.len() > 0 && (s[0] == '-' || s[0] == '+');
    let digits = if signed {
        s.drop_first()
    } else {
        s
    };
    let value = if s.len() > 0 && s[0] == '-' {
        -digits_value(digits)
    } else {
        digits_value(digits)
    };
    if digits.len() > 0 && all_digits(digits) && i32::MIN <= value <= i32::MAX {
        Some(value as i32)
    } else {
        None
    }
}

fn digit(d: u32) -> (c: char)
    requires
        d < 10,
    ensures
        c == digit_char(d as int),
        digit_value(c) == d,
{
    match d {
        0 => '0',
        1 => '1',
        2 => '2',
        3 => '3',
        4 => '4',
        5 => '5',
        6 => '6',
        7 => '7',
        8 => '8',
        _ => '9',
    }
}

fn push_digits(out: &mut String, n: u32)
    ensures
        final(out)@ == old(out)@ + decimal_digits(n as nat),
    decreases n,
{
    if n >= 10 {
        push_digits(out, n / 10);
    }
    push_char(out, digit(n % 10));
    assert(final(out)@ =~= old(out)@ + decimal_digits(n as nat));
}

/// The text that records a day: its number in decimal.
pub fn day_record_text(current_day: i32) -> (r: String)
    ensures
        r@ == decimal_text(current_day as int),
{
    let mut out = String::new();
    let magnitude: u32 = if current_day < 0 {
        push_char(&mut out, '-');
        if current_day == i32::MIN {
            2147483648u32
        } else {
            (-current_day) as u32
        }
    } else {
        current_day as u32
    };
    push_digits(&mut out, magnitude);
    assert(out@ =~= decimal_text(current_day as int));
    out
}

proof fn lemma_digits_value_grows(s: Seq<char>, k: int)
    requires
        all_digits(s),
        0 <= k <= s.len(),
    ensures
        digits_value(s.take(k)) <= digits_value(s),
        0 <= digits_value(s.take(k)),
    decreases s.len() - k,
{
    if k < s.len() {
        lemma_digits_value_grows(s, k + 1);
        let t = s.take(k + 1);
        assert(t.drop_last() =~= s.take(k));
        assert(digit_value(s[k]) >= 0);
        assert(t.last() == s[k]);
    } else {
        assert(s.take(k) =~= s);
    }
    lemma_digits_value_nonnegative(s.take(k));
}

proof fn lemma_digits_value_nonnegative(s: Seq<char>)
    requires
        all_digits(s),
    ensures
        0 <= digits_value(s),
    decreases s.len(),
{
    if s.len() > 0 {
        assert(all_digits(s.drop_last())) by {
            assert forall|i: int| 0 <= i < s.drop_last().len() implies digit_value(
                #[trigger] s.drop_last()[i],
            ) >= 0 by {
                assert(s.drop_last()[i] == s[i]);
            }
        }
        lemma_digits_value_nonnegative(s.drop_last());
        assert(digit_value(s[s.len() - 1]) >= 0);
    }
}

/// Reads the day that a record holds, if it holds one.
pub fn read_day_record(contents: &str) -> (r: Option<i32>)
    ensures
        r == parsed_i32(contents@),
{
    let n = contents.unicode_len();
    if n == 0 {
        return None;
    }
    let first = contents.get_char(0);
    let negative = first == '-';
    let start: usize = if first == '-' || first == '+' {
        1
    } else {
        0
    };
    let ghost digits = if start == 1 {
        contents@.drop_first()
    } else {
        contents@
    };
    assert(digits =~= contents@.subrange(start as int, n as int));
    assert(start == 1 <==> (contents@.len() > 0 && (contents@[0] == '-' || contents@[0] == '+')));
    assert(negative <==> (contents@.len() > 0 && contents@[0] == '-'));
    if start == n {
        return None;
    }
    let limit: u64 = if negative {
        2147483648
    } else {
        2147483647
    };
    let mut value: u64 = 0;
    let mut i: usize = start;
    while i < n
        invariant
            n == contents@.len(),
            start <= i <= n,
            start <= 1,
            digits == contents@.subrange(start as int, n as int),
            digits == (if start == 1 {
                contents@.drop_first()
            } else {
                contents@
            }),
            start == 1 <==> (contents@.len() > 0 && (contents@[0] == '-' || contents@[0] == '+')),
            negative <==> (contents@.len() > 0 && contents@[0] == '-'),
            limit == (if negative {
                2147483648u64
            } else {
                2147483647u64
            }),
            all_digits(digits.take(i - start)),
            value == digits_value(digits.take(i - start)),
            value <= limit,
            limit <= 2147483648,
        decreases n - i,
    {
        let c = contents.get_char(i);
        let ghost k = i - start;
        assert(digits[k] == c);
        let d: u64 = match c {
            '0' => 0,
            '1' => 1,
            '2' => 2,
            '3' => 3,
            '4' => 4,
            '5' => 5,
            '6' => 6,
            '7' => 7,
            '8' => 8,
            '9' => 9,
            _ => {
                assert(!all_digits(digits)) by {
                    assert(digit_value(digits[k]) < 0);
                }
                assert(parsed_i32(contents@) is None);
                return None;
            },
        };
        let next = value * 10 + d;
        proof {
            let t = digits.take(k + 1);
            assert(t.drop_last() =~= digits.take(k));
            assert(t.last() == c);
            assert(digit_value(c) == d);
            assert(all_digits(t)) by {
                assert forall|j: int| 0 <= j < t.len() implies digit_value(#[trigger] t[j]) >= 0 by {
                    if j < k {
                        assert(t[j] == digits.take(k)[j]);
                    }
                }
            }
            assert(next == digits_value(t));
        }
        if next > limit {
            proof {
                if all_digits(digits) {
                    lemma_digits_value_grows(digits, k + 1);
                    assert(digits_value(digits) > limit);
                }
                assert(parsed_i32(contents@) is None);
            }
            return None;
        }
        value = next;
        i = i + 1;
    }
    assert(digits.take(n - start) =~= digits);
    if negative {
        if value == 2147483648 {
            Some(i32::MIN)
        } else {
            Some(-(value as i32))
        }
    } else {
        Some(value as i32)
    }
}

proof fn lemma_decimal_digits(n: nat)
    ensures
        decimal_digits(n).len() > 0,
        all_digits(decimal_digits(n)),
        digits_value(decimal_digits(n)) == n,
        digit_value(decimal_digits(n)[0]) >= 0,
    decreases n,
{
    if n >= 10 {
        lemma_decimal_digits(n / 10);
        let s = decimal_digits(n);
        let d = (n % 10) as int;
        assert(s.drop_last() =~= decimal_digits(n / 10));
        assert(s.last() == digit_char(d));
        assert(digits_value(s) == digits_value(s.drop_last()) * 10 + digit_value(s.last()));
        assert(digits_value(s.drop_last()) == n / 10);
        assert(0 <= d < 10);
        assert(digit_value(digit_char(d)) == d);
        assert(n == (n / 10) * 10 + n % 10) by (nonlinear_arith);
        assert forall|i: int| 0 <= i < s.len() implies digit_value(#[trigger] s[i]) >= 0 by {
            if i < s.len() - 1 {
                assert(s[i] == decimal_digits(n / 10)[i]);
            }
        }
        assert(s[0] == decimal_digits(n / 10)[0]);
    } else {
        let s = decimal_digits(n);
        assert(digit_value(digit_char(n as int)) == n);
        assert(s.drop_last() =~= Seq::<char>::empty());
        assert(digits_value(Seq::<char>::empty()) == 0);
        assert(digits_value(s) == digits_value(s.drop_last()) * 10 + digit_value(s.last()));
    }
}

/// Reading back the text that records a day gives that day: a day that was recorded is not
/// taken for a new one.
pub proof fn law_day_record_round_trip(day: i32)
    ensures
        parsed_i32(decimal_text(day as int)) == Some(day),
{
    let s = decimal_text(day as int);
    if day < 0 {
        let m = (-day) as nat;
        lemma_decimal_digits(m);
        assert(s[0] == '-');
        assert(s.drop_first() =~= decimal_digits(m));
    } else {
        lemma_decimal_digits(day as nat);
        let c = s[0];
        assert(digit_value(c) >= 0);
        assert(c != '-' && c != '+');
    }
}

} // verus!
