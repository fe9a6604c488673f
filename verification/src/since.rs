//! Reading an explicit lower bound from its text: a decimal number of
//! seconds.

use vstd::prelude::*;

verus! {

/// Whether a character is a decimal digit.
pub open spec fn is_digit(c: char) -> bool {
    '0' <= c && c <= '9'
}

/// The value of a decimal digit.
pub open spec fn digit_value(c: char) -> int {
    c as int - '0' as int
}

/// Whether every character of a text is a decimal digit.
pub open spec fn all_digits(s: Seq<char>) -> bool {
    forall|i: int| 0 <= i < s.len() ==> is_digit(#[trigger] s[i])
}

/// The number that a text of decimal digits stands for.
pub open spec fn decimal_value(s: Seq<char>) -> int
    decreases s.len(),
{
    if s.len() == 0 {
        0
    } else {
        10 * decimal_value(s.drop_last()) + digit_value(s.last())
    }
}

/// The digits of a number text: the text without one leading plus sign.
pub open spec fn digits_of(s: Seq<char>) -> Seq<char> {
    if s.len() > 0 && s[0] == '+' {
        s.drop_first()
    } else {
        s
    }
}

/// The timestamp that a text stands for: the text is one or more decimal
/// digits, with or without a plus sign in front, and the number fits in 64
/// bits. Every other text stands for none.
pub open spec fn timestamp_of(s: Seq<char>) -> Option<u64> {
    let digits = digits_of(s);
    if digits.len() > 0 && all_digits(digits) && decimal_value(digits) <= u64::MAX {
        Some(decimal_value(digits) as u64)
    } else {
        None
    }
}

/// The value of a text of digits is not negative, and none of its
/// beginnings has a greater value.
proof fn lemma_value_grows(s: Seq<char>, n: int)
    requires
        all_digits(s),
        0 <= n <= s.len(),
    ensures
        0 <= decimal_value(s.take(n)) <= decimal_value(s),
    decreases s.len() - n,
{
    lemma_value_not_negative(s.take(n));
    if n < s.len() {
        lemma_value_grows(s, n + 1);
        let longer = s.take(n + 1);
        assert(longer.drop_last() =~= s.take(n));
        assert(is_digit(s[n]));
        assert(longer.last() == s[n]);
    } else {
        assert(s.take(n) =~= s);
    }
}

proof fn lemma_value_not_negative(s: Seq<char>)
    requires
        all_digits(s),
    ensures
        0 <= decimal_value(s),
    decreases s.len(),
{
    if s.len() > 0 {
        assert(is_digit(s[s.len() - 1]));
        assert forall|i: int| 0 <= i < s.drop_last().len() implies is_digit(
            #[trigger] s.drop_last()[i],
        ) by {
            assert(s.drop_last()[i] == s[i]);
        }
        lemma_value_not_negative(s.drop_last());
    }
}

/// A text with a character beyond ASCII stands for no timestamp.
proof fn lemma_not_ascii_is_no_timestamp(s: Seq<char>)
    requires
        !vstd::utf8::is_ascii_chars(s),
    ensures
        timestamp_of(s).is_none(),
{
    let i = choose|i: int| 0 <= i < s.len() && !('\0' <= #[trigger] s[i] <= '\u{7f}');
    let digits = digits_of(s);
    if s[0] == '+' {
        assert(i > 0);
        assert(digits[i - 1] == s[i]);
        assert(!is_digit(digits[i - 1]));
    } else {
        assert(!is_digit(digits[i]));
    }
}

/// Reads an explicit lower bound: the timestamp that the text stands for,
/// or `None` where the text is no timestamp.
pub fn parse_since(since: &str) -> (parsed: Option<u64>)
    ensures
        parsed == timestamp_of(since@),
{
    if !since.is_ascii() {
        proof {
            lemma_not_ascii_is_no_timestamp(since@);
        }
        return None;
    }
    let n = since.unicode_len();
    let start: usize = if n > 0 && since.get_ascii(0) == 43u8 {
        1
    } else {
        0
    };
    let ghost digits = digits_of(since@);
    proof {
        if n > 0 {
            assert('\0' <= since@[0] <= '\u{7f}');
            assert((since@[0] as u8 == 43u8) == (since@[0] == '+'));
        }
        assert(digits =~= since@.subrange(start as int, n as int));
    }
    if start == n {
        return None;
    }
    let mut value: u64 = 0;
    let mut i: usize = start;
    while i < n
        invariant
            start <= i <= n,
            n == since@.len(),
            since.is_ascii(),
            digits == since@.subrange(start as int, n as int),
            digits == digits_of(since@),
            all_digits(digits.take(i - start)),
            value == decimal_value(digits.take(i - start)),
        decreases n - i,
    {
        let b = since.get_ascii(i);
        let ghost c = since@[i as int];
        let ghost seen = digits.take(i - start);
        let ghost longer = digits.take(i + 1 - start);
        proof {
            assert('\0' <= c <= '\u{7f}');
            assert(digits[i - start] == c);
            assert(longer.drop_last() =~= seen);
            assert(longer.last() == c);
            assert(is_digit(c) == (48u8 <= b && b <= 57u8));
        }
        if !(b >= 48u8 && b <= 57u8) {
            assert(!all_digits(digits));
            return None;
        }
        let d: u64 = (b - 48u8) as u64;
        assert(d == digit_value(c));
        assert forall|j: int| 0 <= j < longer.len() implies is_digit(#[trigger] longer[j]) by {
            if j < seen.len() {
                assert(longer[j] == seen[j]);
            }
        }
        if value > (u64::MAX - d) / 10 {
            proof {
                assert(decimal_value(longer) > u64::MAX);
                if all_digits(digits) {
                    lemma_value_grows(digits, i + 1 - start);
                }
            }
            return None;
        }
        value = value * 10 + d;
        i = i + 1;
    }
    proof {
        assert(digits.take(n - start) =~= digits);
    }
    Some(value)
}

} // verus!
