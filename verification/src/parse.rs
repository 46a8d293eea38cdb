//! Signed decimal initiative values: what a valid numeral is, what it
//! denotes, and an executable parser proved against that meaning.

use vstd::prelude::*;
use vstd::string::StrSliceExecFns;

verus! {

/// `c` is an ASCII decimal digit.
pub open spec fn is_digit_char(c: char) -> bool {
    48 <= c as int && c as int <= 57
}

/// The value of one ASCII decimal digit.
pub open spec fn digit_val(c: char) -> int {
    c as int - 48
}

/// Every character of `s` is an ASCII decimal digit.
pub open spec fn all_digits(s: Seq<char>) -> bool {
    forall|i: int| 0 <= i < s.len() ==> is_digit_char(#[trigger] s[i])
}

/// The base-10 value of a digit string.
pub open spec fn digits_val(s: Seq<char>) -> int
    decreases s.len(),
{
    if s.len() == 0 {
        0
    } else {
        digits_val(s.drop_last()) * 10 + digit_val(s.last())
    }
}

/// A valid initiative numeral: an optional leading minus sign, then one
/// or more ASCII digits, denoting a value that fits in an `i32`.
pub open spec fn valid_int_str(s: Seq<char>) -> bool {
    if s.len() > 0 && s[0] == '-' {
        let d = s.skip(1);
        d.len() > 0 && all_digits(d) && digits_val(d) <= 2147483648
    } else {
        s.len() > 0 && all_digits(s) && digits_val(s) <= 2147483647
    }
}

/// The value a valid numeral denotes.
pub open spec fn int_str_val(s: Seq<char>) -> int {
    if s.len() > 0 && s[0] == '-' {
        -digits_val(s.skip(1))
    } else {
        digits_val(s)
    }
}

pub proof fn lemma_digits_val_nonneg(s: Seq<char>)
    requires
        all_digits(s),
    ensures
        digits_val(s) >= 0,
    decreases s.len(),
{
    if s.len() > 0 {
        assert forall|i: int| 0 <= i < s.drop_last().len() implies is_digit_char(
            #[trigger] s.drop_last()[i],
        ) by {
            assert(s.drop_last()[i] == s[i]);
        }
        lemma_digits_val_nonneg(s.drop_last());
    }
}

/// A digit string is worth at least as much as any of its prefixes.
pub proof fn lemma_digits_val_prefix_le(s: Seq<char>, i: int)
    requires
        all_digits(s),
        0 <= i <= s.len(),
    ensures
        digits_val(s.take(i)) <= digits_val(s),
    decreases s.len() - i,
{
    assert forall|j: int| 0 <= j < s.take(i).len() implies is_digit_char(
        #[trigger] s.take(i)[j],
    ) by {
        assert(s.take(i)[j] == s[j]);
    }
    if i == s.len() {
        assert(s.take(i) =~= s);
    } else {
        lemma_digits_val_prefix_le(s, i + 1);
        let t = s.take(i + 1);
        assert(t.drop_last() =~= s.take(i));
        assert(t.last() == s[i]);
        lemma_digits_val_nonneg(s.take(i));
    }
}

/// Parse a signed decimal numeral exactly as `valid_int_str` describes
/// it: `None` on anything else, including values outside the `i32`
/// range.
pub fn parse_i32(s: &str) -> (r: Option<i32>)
    ensures
        match r {
            Some(v) => valid_int_str(s@) && v as int == int_str_val(s@),
            None => !valid_int_str(s@),
        },
{
    let n = s.unicode_len();
    if n == 0 {
        return None;
    }
    let neg = s.get_char(0) == '-';
    let start: usize = if neg {
        1
    } else {
        0
    };
    if start == n {
        return None;
    }
    let ghost d = s@.skip(start as int);
    let mut m: u64 = 0;
    let mut i: usize = start;
    while i < n
        invariant
            start <= i <= n,
            start < n,
            n == s@.len(),
            neg == (s@[0] == '-'),
            start == if neg { 1int } else { 0int },
            d == s@.skip(start as int),
            all_digits(d.take(i - start)),
            m == digits_val(d.take(i - start)),
            m <= 2147483648,
        decreases n - i,
    {
        let c = s.get_char(i);
        let u = c as u32;
        if u < 48 || 57 < u {
            proof {
                assert(d[i - start] == s@[i as int]);
                assert(!all_digits(d));
                assert(s@.skip(0) =~= s@);
            }
            return None;
        }
        let dv: u64 = (u - 48) as u64;
        let m2: u64 = m * 10 + dv;
        proof {
            let t = d.take(i + 1 - start);
            assert(t.drop_last() =~= d.take(i - start));
            assert(t.last() == d[i - start]);
            assert(d[i - start] == s@[i as int]);
        }
        if m2 > 2147483648 {
            proof {
                if all_digits(d) {
                    lemma_digits_val_prefix_le(d, i + 1 - start);
                }
                assert(s@.skip(0) =~= s@);
            }
            return None;
        }
        m = m2;
        i = i + 1;
    }
    proof {
        assert(d.take(n - start) =~= d);
        assert(s@.skip(0) =~= s@);
    }
    if neg {
        if m == 2147483648 {
            Some(i32::MIN)
        } else {
            Some(0i32 - (m as i32))
        }
    } else {
        if m > 2147483647 {
            return None;
        }
        Some(m as i32)
    }
}

} // verus!
