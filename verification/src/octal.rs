//! Parsing of octal permission strings such as `"644"`.
//!
//! A permission argument is accepted exactly when it is non-empty, consists
//! solely of the digits `0` through `7`, and its base-8 value fits in `u32`.
//! Anything else (an empty string, a stray sign, a non-octal character, an
//! overlong string) is rejected.

use vstd::prelude::*;

verus! {

/// Whether `c` is one of the octal digits `'0'` through `'7'`.
pub open spec fn is_octal_digit(c: char) -> bool {
    48 <= (c as u32) && (c as u32) <= 55
}

/// Numeric value of an octal digit character.
pub open spec fn octal_digit_value(c: char) -> int {
    (c as u32) - 48
}

/// Whether every character of `s` is an octal digit.
pub open spec fn all_octal_digits(s: Seq<char>) -> bool {
    forall|i: int| 0 <= i < s.len() ==> is_octal_digit(#[trigger] s[i])
}

/// Base-8 value of a digit string, most significant digit first.
pub open spec fn octal_value(s: Seq<char>) -> int
    decreases s.len(),
{
    if s.len() == 0 {
        0
    } else {
        octal_value(s.drop_last()) * 8 + octal_digit_value(s.last())
    }
}

proof fn lemma_octal_value_nonneg(s: Seq<char>)
    requires
        all_octal_digits(s),
    ensures
        octal_value(s) >= 0,
    decreases s.len(),
{
    if s.len() > 0 {
        assert(all_octal_digits(s.drop_last()));
        lemma_octal_value_nonneg(s.drop_last());
    }
}

/// The value of a digit string is at least the value of any of its prefixes:
/// appending digits never shrinks the value.
proof fn lemma_octal_value_prefix(s: Seq<char>, j: int)
    requires
        all_octal_digits(s),
        0 <= j <= s.len(),
    ensures
        octal_value(s.take(j)) <= octal_value(s),
    decreases s.len() - j,
{
    if j < s.len() {
        assert(s.take(j + 1).drop_last() =~= s.take(j));
        assert(s.take(j + 1).last() == s[j]);
        assert(all_octal_digits(s.take(j)));
        lemma_octal_value_nonneg(s.take(j));
        lemma_octal_value_prefix(s, j + 1);
    } else {
        assert(s.take(j) =~= s);
    }
}

/// Parses `s` as a base-8 unsigned integer.
///
/// Returns `Some` exactly when `s` is a non-empty string of octal digits
/// whose value fits in `u32`; the result is then that value. Returns `None`
/// otherwise: on an empty string, on any character outside `'0'..='7'`
/// (including signs and whitespace), and on overflow.
pub fn parse_octal(s: &str) -> (r: Option<u32>)
    ensures
        r is Some <==> s@.len() > 0 && all_octal_digits(s@) && octal_value(s@) <= u32::MAX,
        r is Some ==> r == Some(octal_value(s@) as u32),
{
    let n = s.unicode_len();
    if n == 0 {
        return None;
    }
    let mut i: usize = 0;
    let mut acc: u32 = 0;
    while i < n
        invariant
            n == s@.len(),
            0 < n,
            i <= n,
            all_octal_digits(s@.take(i as int)),
            acc == octal_value(s@.take(i as int)),
        decreases n - i,
    {
        let cv = s.get_char(i) as u32;
        if cv < 48 || cv > 55 {
            assert(!is_octal_digit(s@[i as int]));
            return None;
        }
        let d = cv - 48;
        proof {
            assert(s@.take(i + 1).drop_last() =~= s@.take(i as int));
            assert(s@.take(i + 1).last() == s@[i as int]);
            assert(all_octal_digits(s@.take(i + 1)));
        }
        if acc > (u32::MAX - d) / 8 {
            proof {
                assert((u32::MAX - d) / 8 * 8 + (u32::MAX - d) % 8 == u32::MAX - d);
                assert(acc * 8 + d > u32::MAX);
                if all_octal_digits(s@) {
                    lemma_octal_value_prefix(s@, i + 1);
                }
            }
            return None;
        }
        proof {
            assert((u32::MAX - d) / 8 * 8 + (u32::MAX - d) % 8 == u32::MAX - d);
            assert(acc * 8 + d <= u32::MAX);
        }
        acc = acc * 8 + d;
        i = i + 1;
    }
    proof {
        assert(s@.take(n as int) =~= s@);
    }
    Some(acc)
}

} // verus!
