//! Parsing unsigned decimal integers, as the page dimensions are given.

use vstd::prelude::*;

use crate::json::is_digit;
use crate::text::str_to_chars;

verus! {

/// Every character is a decimal digit.
pub open spec fn all_digits(s: Seq<char>) -> bool {
    forall|i: int| 0 <= i < s.len() ==> is_digit(s[i])
}

/// Value of a sequence of decimal digits, most significant first.
pub open spec fn dec_val(s: Seq<char>) -> int
    decreases s.len(),
{
    if s.len() == 0 {
        0
    } else {
        dec_val(s.drop_last()) * 10 + ((s.last() as u32) - 48)
    }
}

pub proof fn lemma_dec_val_nonneg(s: Seq<char>)
    requires
        all_digits(s),
    ensures
        dec_val(s) >= 0,
    decreases s.len(),
{
    if s.len() > 0 {
        assert(all_digits(s.drop_last()));
        lemma_dec_val_nonneg(s.drop_last());
    }
}

/// A digit prefix never exceeds the whole digit string in value.
pub proof fn lemma_dec_val_prefix(s: Seq<char>, k: int)
    requires
        0 <= k <= s.len(),
        all_digits(s),
    ensures
        dec_val(s.subrange(0, k)) <= dec_val(s),
    decreases s.len() - k,
{
    if k < s.len() {
        let p = s.subrange(0, k);
        let q = s.subrange(0, k + 1);
        assert(q.drop_last() =~= p);
        assert(all_digits(p));
        lemma_dec_val_nonneg(p);
        assert(dec_val(q) == dec_val(p) * 10 + ((q.last() as u32) - 48));
        lemma_dec_val_prefix(s, k + 1);
    } else {
        assert(s.subrange(0, k) =~= s);
    }
}

/// The number denoted by `s` as Rust's unsigned decimal parsing reads it: an
/// optional leading `+`, then one or more digits, fitting in 32 bits.
pub open spec fn spec_parse_u32(s: Seq<char>) -> Option<u32> {
    let d = if s.len() >= 1 && s[0] == '+' {
        s.subrange(1, s.len() as int)
    } else {
        s
    };
    if d.len() > 0 && all_digits(d) && dec_val(d) <= 0xFFFFFFFF {
        Some(dec_val(d) as u32)
    } else {
        None
    }
}

/// Parses an unsigned decimal integer, mirroring [`spec_parse_u32`].
pub fn parse_u32(s: &str) -> (r: Option<u32>)
    ensures
        r == spec_parse_u32(s@),
{
    let chars = str_to_chars(s);
    let n = chars.len();
    let start: usize = if n >= 1 && chars[0] == '+' {
        1
    } else {
        0
    };
    let ghost d = if s@.len() >= 1 && s@[0] == '+' {
        s@.subrange(1, s@.len() as int)
    } else {
        s@
    };
    proof {
        assert(d =~= chars@.subrange(start as int, n as int));
    }
    if start >= n {
        return None;
    }
    let mut val: u64 = 0;
    let mut i = start;
    while i < n
        invariant
            start <= i <= n,
            start < n,
            n == chars@.len(),
            chars@ == s@,
            d == chars@.subrange(start as int, n as int),
            d == (if s@.len() >= 1 && s@[0] == '+' {
                s@.subrange(1, s@.len() as int)
            } else {
                s@
            }),
            all_digits(d.subrange(0, i - start)),
            val == dec_val(d.subrange(0, i - start)),
            val <= 0xFFFFFFFF,
        decreases n - i,
    {
        let c = chars[i];
        let x = c as u32;
        if !(48 <= x && x <= 57) {
            proof {
                assert(!is_digit(d[i - start]));
            }
            return None;
        }
        let dv: u64 = (x - 48) as u64;
        let nv: u64 = val * 10 + dv;
        proof {
            let p = d.subrange(0, i - start);
            let q = d.subrange(0, i - start + 1);
            assert(q.drop_last() =~= p);
            assert(q.last() == c);
            assert(dec_val(q) == dec_val(p) * 10 + ((c as u32) - 48));
        }
        if nv > 0xFFFFFFFF {
            proof {
                if all_digits(d) {
                    lemma_dec_val_prefix(d, i - start + 1);
                }
            }
            return None;
        }
        val = nv;
        i = i + 1;
    }
    proof {
        assert(d.subrange(0, n - start) =~= d);
    }
    Some(val as u32)
}

} // verus!
