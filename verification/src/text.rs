//! Character-level helpers: building `String`s from characters and comparing
//! character vectors with string slices.

use vstd::prelude::*;
use vstd::string::StrSliceExecFns;

verus! {

/// Relies on std's `String::push`: appends exactly the given character.
#[verifier::external_body]
pub(crate) fn push_char(s: &mut String, c: char)
    ensures
        final(s)@ == old(s)@.push(c),
{
    s.push(c);
}

/// Relies on std's `char::from_u32`: `Some` exactly on Unicode scalar values
/// (code points outside the surrogate range `0xD800..0xE000` and at most
/// `0x10FFFF`), returning the character with that code point.
#[verifier::external_body]
pub(crate) fn char_of_u32(x: u32) -> (r: Option<char>)
    ensures
        r is Some <==> (x < 0xD800 || (0xE000 <= x && x <= 0x10FFFF)),
        r matches Some(c) ==> c == (x as char),
{
    char::from_u32(x)
}

/// Builds the `String` holding exactly the characters of `v`.
pub fn chars_to_string(v: &Vec<char>) -> (s: String)
    ensures
        s@ == v@,
{
    let mut s = String::new();
    let mut i: usize = 0;
    while i < v.len()
        invariant
            i <= v@.len(),
            s@ == v@.subrange(0, i as int),
        decreases v@.len() - i,
    {
        push_char(&mut s, v[i]);
        proof {
            assert(v@.subrange(0, i as int).push(v@[i as int]) =~= v@.subrange(0, i as int + 1));
        }
        i = i + 1;
    }
    proof {
        assert(v@.subrange(0, i as int) =~= v@);
    }
    s
}

/// Collects the characters of a string slice.
pub fn str_to_chars(s: &str) -> (v: Vec<char>)
    ensures
        v@ == s@,
{
    let n = s.unicode_len();
    let mut v: Vec<char> = Vec::new();
    let mut i: usize = 0;
    while i < n
        invariant
            n == s@.len(),
            i <= n,
            v@ == s@.subrange(0, i as int),
        decreases n - i,
    {
        let c = s.get_char(i);
        v.push(c);
        proof {
            assert(s@.subrange(0, i as int).push(s@[i as int]) =~= s@.subrange(0, i as int + 1));
        }
        i = i + 1;
    }
    proof {
        assert(s@.subrange(0, i as int) =~= s@);
    }
    v
}

/// Compares the characters of `v` with those of `s`.
pub fn chars_eq_str(v: &Vec<char>, s: &str) -> (b: bool)
    ensures
        b == (v@ == s@),
{
    let n = s.unicode_len();
    if v.len() != n {
        proof {
            assert(v@ != s@) by {
                if v@ == s@ {
                    assert(v@.len() == s@.len());
                }
            }
        }
        return false;
    }
    let mut i: usize = 0;
    while i < n
        invariant
            n == s@.len(),
            v@.len() == n,
            i <= n,
            forall|k: int| 0 <= k < i ==> v@[k] == s@[k],
        decreases n - i,
    {
        if v[i] != s.get_char(i) {
            return false;
        }
        i = i + 1;
    }
    proof {
        assert(v@ =~= s@);
    }
    true
}

} // verus!
