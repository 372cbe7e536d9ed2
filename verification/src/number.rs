//! Decimal numbers: how they are written and how they are read.

use vstd::prelude::*;

use crate::text::chars_of;

verus! {

/// The character of the digit `d`.
pub open spec fn digit_char(d: int) -> char {
    (48 + d) as char
}

/// Whether `c` is one of the ten ASCII digits.
pub open spec fn is_digit(c: char) -> bool {
    '0' <= c <= '9'
}

/// The digit that the character `c` stands for.
pub open spec fn digit_value(c: char) -> int {
    c as int - 48
}

/// `n` written in decimal digits.
pub open spec fn decimal(n: nat) -> Seq<char>
    decreases n,
{
    if n < 10 {
        seq![digit_char(n as int)]
    } else {
        decimal(n / 10).push(digit_char((n % 10) as int))
    }
}

/// `n` written in decimal digits, behind a minus sign where it is negative.
pub open spec fn signed_decimal(n: int) -> Seq<char> {
    if n < 0 {
        seq!['-'] + decimal((-n) as nat)
    } else {
        decimal(n as nat)
    }
}

/// Whether `s` consists of digits alone.
pub open spec fn all_digits(s: Seq<char>) -> bool {
    forall|i: int| 0 <= i < s.len() ==> is_digit(#[trigger] s[i])
}

/// The number that the digits `s` stand for.
pub open spec fn value(s: Seq<char>) -> nat
    decreases s.len(),
{
    if s.len() == 0 {
        0
    } else {
        (10 * value(s.drop_last()) + digit_value(s.last())) as nat
    }
}

/// The integer that `s` spells: an optional sign and then one digit or more.
pub open spec fn spelled(s: Seq<char>) -> Option<int> {
    let signed = s.len() > 0 && (s[0] == '-' || s[0] == '+');
    let digits = if signed {
        s.skip(1)
    } else {
        s
    };
    if digits.len() == 0 || !all_digits(digits) {
        None
    } else if s[0] == '-' {
        Some(-(value(digits) as int))
    } else {
        Some(value(digits) as int)
    }
}

/// The integer that `s` spells, where it lies in the range of `i32`.
pub open spec fn spelled_i32(s: Seq<char>) -> Option<int> {
    match spelled(s) {
        Some(n) => if i32::MIN <= n <= i32::MAX {
            Some(n)
        } else {
            None
        },
        None => None,
    }
}

/// A longer row of digits stands for a number that is no smaller.
proof fn lemma_value_grows(s: Seq<char>, n: int)
    requires
        all_digits(s),
        0 <= n <= s.len(),
    ensures
        value(s.take(n)) <= value(s),
    decreases s.len(),
{
    if n == s.len() {
        assert(s.take(n) == s);
    } else {
        lemma_value_grows(s.drop_last(), n);
        assert(s.drop_last().take(n) == s.take(n));
        assert(is_digit(s[s.len() - 1]));
    }
}

/// Reads the integer that `s` spells.
pub fn parse_i32(s: &str) -> (r: Option<i32>)
    ensures
        match r {
            Some(n) => spelled_i32(s@) == Some(n as int),
            None => spelled_i32(s@) is None,
        },
{
    let chars = chars_of(s);
    let mut start: usize = 0;
    if chars.len() > 0 && (chars[0] == '-' || chars[0] == '+') {
        start = 1;
    }
    let ghost digits = s@.skip(start as int);
    assert(start == 0 ==> digits == s@);
    if start == chars.len() {
        return None;
    }
    let mut total: i64 = 0;
    let mut i: usize = start;
    while i < chars.len()
        invariant
            start <= i <= chars@.len(),
            start == 0 || start == 1,
            chars@ == s@,
            digits == s@.skip(start as int),
            start == 0 ==> digits == s@,
            start == 1 <==> s@.len() > 0 && (s@[0] == '-' || s@[0] == '+'),
            digits.len() > 0,
            all_digits(digits.take(i - start)),
            total == value(digits.take(i - start)),
            0 <= total <= 0x8000_0000,
        decreases chars@.len() - i,
    {
        let c = chars[i];
        assert(c == digits[i - start]);
        if !('0' <= c && c <= '9') {
            assert(!all_digits(digits));
            return None;
        }
        let d: i64 = c as i64 - 48;
        total = total * 10 + d;
        i += 1;
        proof {
            let longer = digits.take(i - start);
            assert(longer.drop_last() == digits.take(i - 1 - start));
            assert(longer.last() == c);
            assert forall|k: int| 0 <= k < longer.len() implies is_digit(#[trigger] longer[k]) by {
                if k < longer.len() - 1 {
                    assert(longer[k] == digits.take(i - 1 - start)[k]);
                }
            }
        }
        if total > 0x8000_0000 {
            proof {
                if all_digits(digits) {
                    lemma_value_grows(digits, i - start);
                }
            }
            return None;
        }
    }
    assert(digits.take(i - start) == digits);
    if chars[0] == '-' {
        Some((-total) as i32)
    } else if total <= 0x7fff_ffff {
        Some(total as i32)
    } else {
        None
    }
}

/// Writes `n` in decimal digits.
pub fn write_u64(n: u64) -> (r: String)
    ensures
        r@ == decimal(n as nat),
    decreases n,
{
    let mut r = if n < 10 {
        String::new()
    } else {
        write_u64(n / 10)
    };
    let d: u8 = (n % 10) as u8;
    r.push((48 + d) as char);
    r
}

/// Writes `n` in decimal digits, behind a minus sign where it is negative.
pub fn write_i64(n: i64) -> (r: String)
    ensures
        r@ == signed_decimal(n as int),
{
    if n < 0 {
        let mut r = "-".to_string();
        proof {
            reveal_strlit("-");
        }
        let magnitude: u64 = if n == i64::MIN {
            0x8000_0000_0000_0000
        } else {
            (-n) as u64
        };
        r.append(write_u64(magnitude).as_str());
        assert("-"@ == seq!['-']);
        r
    } else {
        write_u64(n as u64)
    }
}

/// Digits read back as the number that was written.
pub proof fn law_decimal_reads_back(n: nat)
    ensures
        decimal(n).len() > 0,
        all_digits(decimal(n)),
        value(decimal(n)) == n,
    decreases n,
{
    if n >= 10 {
        law_decimal_reads_back(n / 10);
        let front = decimal(n / 10);
        assert(decimal(n).drop_last() == front);
        assert forall|i: int| 0 <= i < decimal(n).len() implies is_digit(
            #[trigger] decimal(n)[i],
        ) by {
            if i < front.len() {
                assert(decimal(n)[i] == front[i]);
            }
        }
    } else {
        let s = decimal(n);
        assert(s.drop_last() == Seq::<char>::empty());
        assert(value(s.drop_last()) == 0);
        assert(s.last() == digit_char(n as int));
    }
}

/// An integer in the range of `i32` that is written out is read back unchanged.
pub proof fn law_signed_decimal_reads_back(n: int)
    requires
        i32::MIN <= n <= i32::MAX,
    ensures
        spelled_i32(signed_decimal(n)) == Some(n),
{
    let s = signed_decimal(n);
    if n < 0 {
        law_decimal_reads_back((-n) as nat);
        assert(s.skip(1) == decimal((-n) as nat));
    } else {
        law_decimal_reads_back(n as nat);
        assert(is_digit(s[0]));
    }
}

} // verus!
