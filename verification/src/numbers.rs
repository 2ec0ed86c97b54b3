//! Verified decimal `u32` parsing for attribute indices and group ids.

use vstd::prelude::*;

verus! {

/// A decimal digit.
pub open spec fn is_digit(c: char) -> bool {
    '0' <= c && c <= '9'
}

/// Numeric value of a decimal digit.
pub open spec fn digit_val(c: char) -> int {
    c as int - '0' as int
}

pub open spec fn all_digits(s: Seq<char>) -> bool {
    forall|i: int| 0 <= i < s.len() ==> is_digit(#[trigger] s[i])
}

/// Value of a digit string read most-significant first.
pub open spec fn digits_val(s: Seq<char>) -> int
    decreases s.len(),
{
    if s.len() == 0 {
        0
    } else {
        digits_val(s.drop_last()) * 10 + digit_val(s.last())
    }
}

/// The unsigned integer that `str::parse::<u32>` accepts: an optional leading
/// `+`, then at least one decimal digit, the value fitting in 32 bits.
pub open spec fn spec_parse_u32(s: Seq<char>) -> Option<u32> {
    let t = if s.len() > 0 && s[0] == '+' {
        s.drop_first()
    } else {
        s
    };
    if t.len() > 0 && all_digits(t) && digits_val(t) <= u32::MAX {
        Some(digits_val(t) as u32)
    } else {
        None
    }
}

pub proof fn lemma_digits_val_nonneg(s: Seq<char>)
    requires
        all_digits(s),
    ensures
        digits_val(s) >= 0,
    decreases s.len(),
{
    if s.len() > 0 {
        assert(all_digits(s.drop_last())) by {
            assert(forall|i: int|
                0 <= i < s.drop_last().len() ==> s.drop_last()[i] == #[trigger] s[i]);
        }
        lemma_digits_val_nonneg(s.drop_last());
    }
}

/// A digit string is worth at least any of its prefixes.
pub proof fn lemma_digits_val_prefix_le(s: Seq<char>, j: int)
    requires
        all_digits(s),
        0 <= j <= s.len(),
    ensures
        digits_val(s.subrange(0, j)) <= digits_val(s),
    decreases s.len() - j,
{
    if j == s.len() {
        assert(s.subrange(0, j) =~= s);
    } else {
        let p = s.subrange(0, j + 1);
        assert(all_digits(p)) by {
            assert(forall|i: int| 0 <= i < p.len() ==> p[i] == #[trigger] s[i]);
        }
        assert(p.drop_last() =~= s.subrange(0, j));
        lemma_digits_val_nonneg(s.subrange(0, j));
        assert(digits_val(p) == digits_val(s.subrange(0, j)) * 10 + digit_val(p.last()));
        assert(digit_val(p.last()) >= 0);
        assert(digits_val(s.subrange(0, j)) * 10 >= digits_val(s.subrange(0, j))) by (nonlinear_arith)
            requires
                digits_val(s.subrange(0, j)) >= 0,
        ;
        lemma_digits_val_prefix_le(s, j + 1);
    }
}

/// Parse a decimal `u32` as `str::parse::<u32>` would: an optional leading
/// `+`, then decimal digits; `None` on empty, malformed or overflowing text.
pub fn parse_u32(s: &str) -> (r: Option<u32>)
    ensures
        r == spec_parse_u32(s@),
{
    let n = s.unicode_len();
    let mut i: usize = 0;
    if n > 0 && s.get_char(0) == '+' {
        i = 1;
    }
    let ghost start = i as int;
    let ghost t = if s@.len() > 0 && s@[0] == '+' {
        s@.drop_first()
    } else {
        s@
    };
    proof {
        if s@.len() > 0 && s@[0] == '+' {
            assert(s@.drop_first() =~= s@.subrange(1, n as int));
        }
        assert(t =~= s@.subrange(start, n as int));
    }
    if i >= n {
        assert(t.len() == 0);
        return None;
    }
    let mut acc: u64 = 0;
    while i < n
        invariant
            0 <= start <= i as int <= n as int,
            n as int == s@.len(),
            start <= 1,
            t == (if s@.len() > 0 && s@[0] == '+' {
                s@.drop_first()
            } else {
                s@
            }),
            t == s@.subrange(start, n as int),
            all_digits(s@.subrange(start, i as int)),
            acc as int == digits_val(s@.subrange(start, i as int)),
            acc <= u32::MAX,
        decreases n as int - i as int,
    {
        let c = s.get_char(i);
        if c < '0' || c > '9' {
            proof {
                assert(t[i as int - start] == s@[i as int]);
                assert(!is_digit(t[i as int - start]));
                assert(!all_digits(t));
            }
            return None;
        }
        let d: u64 = (c as u32 - 48) as u64;
        let acc2: u64 = acc * 10 + d;
        proof {
            let p = s@.subrange(start, i as int + 1);
            assert(p.drop_last() =~= s@.subrange(start, i as int));
            assert(p.last() == s@[i as int]);
            assert(is_digit(s@[i as int]));
            assert(digits_val(p) == acc as int * 10 + digit_val(s@[i as int]));
            assert(digit_val(s@[i as int]) == d as int);
            assert forall|k: int| 0 <= k < p.len() implies is_digit(#[trigger] p[k]) by {
                if k < p.len() - 1 {
                    assert(p[k] == s@.subrange(start, i as int)[k]);
                } else {
                    assert(p[k] == s@[i as int]);
                }
            }
            assert(all_digits(p));
        }
        if acc2 > u32::MAX as u64 {
            proof {
                let p = s@.subrange(start, i as int + 1);
                if all_digits(t) {
                    assert(p =~= t.subrange(0, i as int + 1 - start));
                    lemma_digits_val_prefix_le(t, i as int + 1 - start);
                    assert(digits_val(t) > u32::MAX);
                }
            }
            return None;
        }
        acc = acc2;
        i = i + 1;
    }
    proof {
        assert(s@.subrange(start, n as int) == t);
        assert(all_digits(t));
        assert(acc as int == digits_val(t));
    }
    Some(acc as u32)
}

} // verus!
