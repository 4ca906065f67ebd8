//! Reading a signed decimal number, as `str::parse::<i32>` does.

use vstd::prelude::*;

verus! {

/// `c` is one of the ASCII digits.
pub open spec fn is_digit(c: char) -> bool {
    48 <= c as u32 <= 57
}

/// Every character of `s` is an ASCII digit.
pub open spec fn all_digits(s: Seq<char>) -> bool {
    forall|i: int| 0 <= i < s.len() ==> is_digit(#[trigger] s[i])
}

/// The number that the digits `s` write in base ten.
pub open spec fn digits_value(s: Seq<char>) -> int
    decreases s.len(),
{
    if s.len() == 0 {
        0
    } else {
        digits_value(s.drop_last()) * 10 + (s.last() as u32 - 48)
    }
}

/// The digits of `s`: what follows one leading sign, if there is one.
pub open spec fn unsigned_part(s: Seq<char>) -> Seq<char> {
    if s.len() > 0 && (s[0] == '-' || s[0] == '+') {
        s.skip(1)
    } else {
        s
    }
}

/// The value of `s` read as an `i32`: an optional `+` or `-`, then at
/// least one ASCII digit and nothing else, the value within the range of
/// `i32`. Anything else has no value.
pub open spec fn parse_i32_spec(s: Seq<char>) -> Option<int> {
    let body = unsigned_part(s);
    let magnitude = digits_value(body);
    let value = if s.len() > 0 && s[0] == '-' {
        -magnitude
    } else {
        magnitude
    };
    if body.len() > 0 && all_digits(body) && i32::MIN <= value <= i32::MAX {
        Some(value)
    } else {
        None
    }
}

/// A prefix of a digit string writes a number that is no larger than the
/// whole, and neither is negative.
pub proof fn lemma_digits_monotone(s: Seq<char>, k: int)
    requires
        all_digits(s),
        0 <= k <= s.len(),
    ensures
        0 <= digits_value(s.take(k)) <= digits_value(s),
    decreases s.len(),
{
    if k == s.len() {
        assert(s.take(k) == s);
        if s.len() > 0 {
            assert(is_digit(s[s.len() - 1]));
            assert(s.drop_last().take(k - 1) == s.drop_last());
            lemma_digits_monotone(s.drop_last(), k - 1);
        }
    } else {
        assert(is_digit(s[s.len() - 1]));
        assert(s.drop_last().take(k) == s.take(k));
        lemma_digits_monotone(s.drop_last(), k);
    }
}

/// Reads `s` as an `i32`.
pub fn parse_i32(s: &Vec<char>) -> (r: Option<i32>)
    ensures
        match r {
            Some(v) => parse_i32_spec(s@) == Some(v as int),
            None => parse_i32_spec(s@) is None,
        },
{
    let n: usize = s.len();
    if n == 0 {
        return None;
    }
    let negative: bool = s[0] == '-';
    let start: usize = if s[0] == '-' || s[0] == '+' {
        1
    } else {
        0
    };
    let ghost body = unsigned_part(s@);
    let mut magnitude: i64 = 0;
    let mut i: usize = start;
    proof {
        assert(s@.skip(0) == s@);
        assert(body.take(0).len() == 0);
    }
    while i < n
        invariant
            start <= i <= n,
            n == s.len(),
            body == unsigned_part(s@),
            body == s@.skip(start as int),
            all_digits(body.take(i - start)),
            magnitude == digits_value(body.take(i - start)),
            0 <= magnitude <= 0x8000_0000,
        decreases n - i,
    {
        let code: u32 = s[i] as u32;
        let ghost prefix = body.take(i - start + 1);
        proof {
            assert(prefix.drop_last() == body.take(i - start));
            assert(prefix.last() == s@[i as int]);
        }
        if code < 48 || code > 57 {
            proof {
                assert(!is_digit(body[i - start]));
            }
            return None;
        }
        let next: i64 = magnitude * 10 + (code - 48) as i64;
        proof {
            assert forall|j: int| 0 <= j < prefix.len() implies is_digit(#[trigger] prefix[j]) by {
                if j < i - start {
                    assert(prefix[j] == body.take(i - start)[j]);
                }
            }
        }
        if next > 0x8000_0000 {
            proof {
                if all_digits(body) {
                    lemma_digits_monotone(body, i - start + 1);
                }
            }
            return None;
        }
        magnitude = next;
        i += 1;
    }
    proof {
        assert(body.take(n - start) == body);
    }
    if i == start {
        None
    } else if negative {
        Some((-magnitude) as i32)
    } else if magnitude <= 0x7fff_ffff {
        Some(magnitude as i32)
    } else {
        None
    }
}

} // verus!
