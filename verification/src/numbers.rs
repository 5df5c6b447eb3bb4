//! Parsing decimal input the way the console loops accept it: an optional
//! leading `+`, then one or more ASCII digits, rejected on overflow.

use vstd::prelude::*;
use vstd::string::StrSliceExecFns;

verus! {

/// `c` is one of the decimal digits `'0'` through `'9'`.
pub open spec fn is_decimal_digit(c: char) -> bool {
    ('0' as u32) <= (c as u32) && (c as u32) <= ('9' as u32)
}

/// The numeric value of a single decimal digit.
pub open spec fn digit_value(c: char) -> nat {
    (c as u32 - '0' as u32) as nat
}

/// Every character of `s` is a decimal digit.
pub open spec fn all_digits(s: Seq<char>) -> bool {
    forall|i: int| 0 <= i < s.len() ==> is_decimal_digit(s[i])
}

/// The value of a digit string read most significant first.
pub open spec fn digits_value(s: Seq<char>) -> nat
    decreases s.len(),
{
    if s.len() == 0 {
        0
    } else {
        digits_value(s.drop_last()) * 10 + digit_value(s.last())
    }
}

/// `s` without its sign, the part that must be all digits.
pub open spec fn digit_part(s: Seq<char>) -> Seq<char> {
    if s.len() > 0 && s[0] == '+' {
        s.skip(1)
    } else {
        s
    }
}

/// `s` has the shape of an unsigned decimal integer: an optional leading
/// `+`, then at least one digit.
pub open spec fn is_numeric(s: Seq<char>) -> bool {
    digit_part(s).len() > 0 && all_digits(digit_part(s))
}

/// A digit string is worth at least as much as any of its prefixes.
proof fn lemma_digits_value_prefix(w: Seq<char>, m: int)
    requires
        0 <= m <= w.len(),
    ensures
        digits_value(w.take(m)) <= digits_value(w),
    decreases w.len(),
{
    if m < w.len() {
        assert(w.drop_last().take(m) =~= w.take(m));
        lemma_digits_value_prefix(w.drop_last(), m);
        assert(digits_value(w) == digits_value(w.drop_last()) * 10 + digit_value(w.last()));
        assert(digits_value(w.drop_last()) * 10 >= digits_value(w.drop_last()));
    } else {
        assert(w.take(m) =~= w);
    }
}

/// Parse `s` as an unsigned decimal integer.  Returns the value exactly when
/// `s` is numeric and its value fits in a `usize`, as `str::parse::<usize>`
/// would accept it.
pub fn parse_unsigned(s: &str) -> (r: Option<usize>)
    ensures
        r.is_some() == (is_numeric(s@) && digits_value(digit_part(s@)) <= usize::MAX),
        r matches Some(v) ==> v == digits_value(digit_part(s@)),
{
    let len: usize = s.unicode_len();
    let start: usize = if len > 0 && s.get_char(0) == '+' {
        1
    } else {
        0
    };
    assert(digit_part(s@) =~= s@.subrange(start as int, len as int));
    if start >= len {
        return None;
    }
    let ghost dp = s@.subrange(start as int, len as int);
    let mut acc: usize = 0;
    let mut i: usize = start;
    while i < len
        invariant
            start <= i <= len,
            start < len,
            len == s@.len(),
            dp == s@.subrange(start as int, len as int),
            dp == digit_part(s@),
            forall|k: int| start <= k < i ==> is_decimal_digit(s@[k]),
            acc == digits_value(s@.subrange(start as int, i as int)),
        decreases len - i,
    {
        let c = s.get_char(i);
        let u: u32 = c as u32;
        if u < 48 || u > 57 {
            assert(!is_decimal_digit(s@[i as int]));
            assert(dp[i - start] == s@[i as int]);
            return None;
        }
        let d: usize = (u - 48) as usize;
        assert(is_decimal_digit(s@[i as int]));
        assert(d == digit_value(s@[i as int]));
        let ghost prefix = s@.subrange(start as int, i as int);
        let ghost prefix1 = s@.subrange(start as int, i + 1 as int);
        proof {
            assert(prefix1.drop_last() =~= prefix);
            assert(prefix1.last() == s@[i as int]);
            assert(digits_value(prefix1) == digits_value(prefix) * 10 + digit_value(
                s@[i as int],
            ));
        }
        let next: usize = match acc.checked_mul(10) {
            Some(m) => match m.checked_add(d) {
                Some(v) => v,
                None => {
                    proof {
                        assert(digits_value(prefix1) > usize::MAX);
                        assert(prefix1 =~= dp.take(i + 1 - start));
                        lemma_digits_value_prefix(dp, i + 1 - start);
                    }
                    return None;
                },
            },
            None => {
                proof {
                    assert(digits_value(prefix1) > usize::MAX);
                    assert(prefix1 =~= dp.take(i + 1 - start));
                    lemma_digits_value_prefix(dp, i + 1 - start);
                }
                return None;
            },
        };
        acc = next;
        i += 1;
    }
    assert(s@.subrange(start as int, i as int) =~= dp);
    assert forall|k: int| 0 <= k < dp.len() implies is_decimal_digit(dp[k]) by {
        assert(dp[k] == s@[k + start]);
    }
    Some(acc)
}

} // verus!
