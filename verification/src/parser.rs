//! Executable JSON parser, verified against the specification functions of
//! [`crate::json`].

use vstd::prelude::*;

use crate::json::{
    arr_view, digits_end, hex4, hex_val, is_digit, json_doc, lemma_digits_end_bounds,
    lemma_skip_ws_bounds,
    lemma_number_end_bounds, members_view, number_end, parse_elements, parse_members,
    parse_str_body, parse_value, skip_ws, Json, JsonV,
};
use crate::text::{char_of_u32, str_to_chars};

verus! {

/// Advances past JSON whitespace, mirroring [`skip_ws`].
fn ws(s: &Vec<char>, i: usize) -> (r: usize)
    requires
        i <= s@.len(),
    ensures
        r as int == skip_ws(s@, i as int),
        i <= r <= s@.len(),
{
    let mut j = i;
    while j < s.len() && (s[j] == ' ' || s[j] == '\t' || s[j] == '\n' || s[j] == '\r')
        invariant
            i <= j <= s@.len(),
            skip_ws(s@, i as int) == skip_ws(s@, j as int),
        decreases s@.len() - j,
    {
        j = j + 1;
    }
    proof {
        lemma_skip_ws_bounds(s@, j as int);
    }
    j
}

/// Value of the four hexadecimal digits at `i`, mirroring [`hex4`].
fn p_hex4(s: &Vec<char>, i: usize) -> (r: Option<u32>)
    requires
        i <= s@.len(),
    ensures
        match r {
            Some(h) => hex4(s@, i as int) == h && h <= 0xFFFF,
            None => hex4(s@, i as int) < 0,
        },
{
    if s.len() - i < 4 {
        return None;
    }
    let d0 = hex_digit(s[i]);
    let d1 = hex_digit(s[i + 1]);
    let d2 = hex_digit(s[i + 2]);
    let d3 = hex_digit(s[i + 3]);
    match (d0, d1, d2, d3) {
        (Some(a), Some(b), Some(c), Some(d)) => Some(4096 * a + 256 * b + 16 * c + d),
        _ => None,
    }
}

/// Value of one hexadecimal digit, mirroring [`hex_val`].
fn hex_digit(c: char) -> (r: Option<u32>)
    ensures
        match r {
            Some(h) => hex_val(c) == h && h < 16,
            None => hex_val(c) < 0,
        },
{
    let x = c as u32;
    if 48 <= x && x <= 57 {
        Some(x - 48)
    } else if 97 <= x && x <= 102 {
        Some(x - 87)
    } else if 65 <= x && x <= 70 {
        Some(x - 55)
    } else {
        None
    }
}

/// Parses a string literal's body, mirroring [`parse_str_body`].
fn p_str_body(s: &Vec<char>, i: usize) -> (r: Option<(Vec<char>, usize)>)
    requires
        i <= s@.len(),
    ensures
        match r {
            Some(p) => parse_str_body(s@, i as int) == Some((p.0@, p.1 as int)) && i < p.1
                <= s@.len(),
            None => parse_str_body(s@, i as int) is None,
        },
    decreases s@.len() - i,
{
    if i >= s.len() {
        return None;
    }
    let c = s[i];
    if c == '"' {
        let t: Vec<char> = Vec::new();
        proof {
            assert(t@ =~= Seq::<char>::empty());
        }
        return Some((t, i + 1));
    }
    if c == '\\' {
        if i + 1 >= s.len() {
            return None;
        }
        let e = s[i + 1];
        if e == 'u' {
            let h = match p_hex4(s, i + 2) {
                Some(h) => h,
                None => {
                    return None;
                },
            };
            if 0xD800 <= h && h < 0xDC00 {
                // a high surrogate must be followed by an escaped low surrogate
                let has_low = s.len() - i >= 8 && s[i + 6] == '\\' && s[i + 7] == 'u';
                let l = if has_low {
                    p_hex4(s, i + 8)
                } else {
                    None
                };
                let lv = match l {
                    Some(lv) => {
                        if 0xDC00 <= lv && lv < 0xE000 {
                            lv
                        } else {
                            return None;
                        }
                    },
                    None => {
                        return None;
                    },
                };
                let cp: u32 = 0x10000 + (h - 0xD800) * 0x400 + (lv - 0xDC00);
                let ch = char_of_u32(cp).unwrap();
                match p_str_body(s, i + 12) {
                    Some((mut t, j)) => {
                        let ghost told = t@;
                        t.insert(0, ch);
                        proof {
                            assert(t@ =~= seq![ch] + told);
                        }
                        Some((t, j))
                    },
                    None => None,
                }
            } else if 0xDC00 <= h && h < 0xE000 {
                None
            } else {
                let ch = char_of_u32(h).unwrap();
                match p_str_body(s, i + 6) {
                    Some((mut t, j)) => {
                        let ghost told = t@;
                        t.insert(0, ch);
                        proof {
                            assert(t@ =~= seq![ch] + told);
                        }
                        Some((t, j))
                    },
                    None => None,
                }
            }
        } else {
            let ch = if e == '"' {
                '"'
            } else if e == '\\' {
                '\\'
            } else if e == '/' {
                '/'
            } else if e == 'b' {
                '\u{8}'
            } else if e == 'f' {
                '\u{c}'
            } else if e == 'n' {
                '\n'
            } else if e == 'r' {
                '\r'
            } else if e == 't' {
                '\t'
            } else {
                return None;
            };
            match p_str_body(s, i + 2) {
                Some((mut t, j)) => {
                    t.insert(0, ch);
                    proof {
                        let told = t@.remove(0);
                        assert(t@ =~= seq![ch] + told);
                    }
                    Some((t, j))
                },
                None => None,
            }
        }
    } else if (c as u32) < 32 {
        None
    } else {
        match p_str_body(s, i + 1) {
            Some((mut t, j)) => {
                let ghost told = t@;
                t.insert(0, c);
                proof {
                    assert(t@ =~= seq![c] + told);
                }
                Some((t, j))
            },
            None => None,
        }
    }
}

/// First index at or after `i` without a decimal digit, mirroring
/// [`digits_end`].
fn p_digits_end(s: &Vec<char>, i: usize) -> (r: usize)
    requires
        i <= s@.len(),
    ensures
        r as int == digits_end(s@, i as int),
        i <= r <= s@.len(),
{
    let mut j = i;
    while j < s.len() && is_digit_char(s[j])
        invariant
            i <= j <= s@.len(),
            digits_end(s@, i as int) == digits_end(s@, j as int),
        decreases s@.len() - j,
    {
        j = j + 1;
    }
    proof {
        lemma_digits_end_bounds(s@, j as int);
    }
    j
}

/// Tests for a decimal digit, mirroring [`is_digit`].
fn is_digit_char(c: char) -> (b: bool)
    ensures
        b == is_digit(c),
{
    let x = c as u32;
    48 <= x && x <= 57
}

/// End of the number starting at `i`, mirroring [`number_end`].
fn p_number_end(s: &Vec<char>, i: usize) -> (r: Option<usize>)
    requires
        i <= s@.len(),
    ensures
        match r {
            Some(e) => number_end(s@, i as int) == e && i < e <= s@.len(),
            None => number_end(s@, i as int) < 0,
        },
{
    proof {
        lemma_number_end_bounds(s@, i as int);
    }
    if i >= s.len() {
        return None;
    }
    let p = if s[i] == '-' {
        i + 1
    } else {
        i
    };
    if !(p < s.len() && {
        let x = s[p] as u32;
        48 <= x && x <= 57
    }) {
        return None;
    }
    let ie = if s[p] == '0' {
        p + 1
    } else {
        p_digits_end(s, p)
    };
    let fe = if ie < s.len() && s[ie] == '.' {
        if ie + 1 < s.len() && {
            let x = s[ie + 1] as u32;
            48 <= x && x <= 57
        } {
            p_digits_end(s, ie + 1)
        } else {
            return None;
        }
    } else {
        ie
    };
    if fe < s.len() && (s[fe] == 'e' || s[fe] == 'E') {
        let q = if fe + 1 < s.len() && (s[fe + 1] == '+' || s[fe + 1] == '-') {
            fe + 2
        } else {
            fe + 1
        };
        if q < s.len() && {
            let x = s[q] as u32;
            48 <= x && x <= 57
        } {
            Some(p_digits_end(s, q))
        } else {
            None
        }
    } else {
        Some(fe)
    }
}

/// Copies `s[a..b]`.
fn p_copy_range(s: &Vec<char>, a: usize, b: usize) -> (r: Vec<char>)
    requires
        a <= b <= s@.len(),
    ensures
        r@ == s@.subrange(a as int, b as int),
{
    let mut r: Vec<char> = Vec::new();
    let mut k = a;
    while k < b
        invariant
            a <= k <= b <= s@.len(),
            r@ == s@.subrange(a as int, k as int),
        decreases b - k,
    {
        r.push(s[k]);
        proof {
            assert(s@.subrange(a as int, k as int).push(s@[k as int]) =~= s@.subrange(
                a as int,
                k as int + 1,
            ));
        }
        k = k + 1;
    }
    r
}

/// Parses the value starting at `i`, mirroring [`parse_value`].
pub(crate) fn p_value(s: &Vec<char>, i: usize) -> (r: Option<(Json, usize)>)
    requires
        i <= s@.len(),
    ensures
        match r {
            Some(p) => parse_value(s@, i as int) == Some((p.0@, p.1 as int)) && i < p.1
                <= s@.len(),
            None => parse_value(s@, i as int) is None,
        },
    decreases s@.len() - i, 1int,
{
    if i >= s.len() {
        return None;
    }
    let c = s[i];
    if c == 'n' {
        if s.len() - i >= 4 && s[i + 1] == 'u' && s[i + 2] == 'l' && s[i + 3] == 'l' {
            Some((Json::Null, i + 4))
        } else {
            None
        }
    } else if c == 't' {
        if s.len() - i >= 4 && s[i + 1] == 'r' && s[i + 2] == 'u' && s[i + 3] == 'e' {
            Some((Json::Bool(true), i + 4))
        } else {
            None
        }
    } else if c == 'f' {
        if s.len() - i >= 5 && s[i + 1] == 'a' && s[i + 2] == 'l' && s[i + 3] == 's' && s[i + 4]
            == 'e' {
            Some((Json::Bool(false), i + 5))
        } else {
            None
        }
    } else if c == '"' {
        match p_str_body(s, i + 1) {
            Some((t, j)) => Some((Json::Str(t), j)),
            None => None,
        }
    } else if c == '-' || {
        let x = c as u32;
        48 <= x && x <= 57
    } {
        match p_number_end(s, i) {
            Some(e) => {
                let text = p_copy_range(s, i, e);
                Some((Json::Num(text), e))
            },
            None => None,
        }
    } else if c == '[' {
        let j = ws(s, i + 1);
        if j < s.len() && s[j] == ']' {
            let items: Vec<Json> = Vec::new();
            proof {
                assert(arr_view(items@) =~= Seq::<JsonV>::empty());
            }
            Some((Json::Arr(items), j + 1))
        } else {
            match p_elements(s, j) {
                Some((items, k)) => Some((Json::Arr(items), k)),
                None => None,
            }
        }
    } else if c == '{' {
        let j = ws(s, i + 1);
        if j < s.len() && s[j] == '}' {
            let ms: Vec<(Vec<char>, Json)> = Vec::new();
            proof {
                assert(members_view(ms@) =~= Seq::<(Seq<char>, JsonV)>::empty());
            }
            Some((Json::Obj(ms), j + 1))
        } else {
            match p_members(s, j) {
                Some((ms, k)) => Some((Json::Obj(ms), k)),
                None => None,
            }
        }
    } else {
        None
    }
}

/// Parses array elements, mirroring [`parse_elements`].
fn p_elements(s: &Vec<char>, i: usize) -> (r: Option<(Vec<Json>, usize)>)
    requires
        i <= s@.len(),
    ensures
        match r {
            Some(p) => parse_elements(s@, i as int) == Some((arr_view(p.0@), p.1 as int)) && i
                < p.1 <= s@.len(),
            None => parse_elements(s@, i as int) is None,
        },
    decreases s@.len() - i, 2int,
{
    match p_value(s, i) {
        Some((v, j0)) => {
            let j = ws(s, j0);
            if j < s.len() && s[j] == ']' {
                let mut items: Vec<Json> = Vec::new();
                items.push(v);
                proof {
                    assert(items@.subrange(1, items@.len() as int) =~= Seq::<Json>::empty());
                    assert(arr_view(Seq::<Json>::empty()) =~= Seq::<JsonV>::empty());
                    assert(arr_view(items@) =~= seq![items@[0]@]);
                }
                Some((items, j + 1))
            } else if j < s.len() && s[j] == ',' {
                let k = ws(s, j + 1);
                match p_elements(s, k) {
                    Some((mut items, m)) => {
                        let ghost vv = v@;
                        let ghost rest = items@;
                        items.insert(0, v);
                        proof {
                            assert(items@.subrange(1, items@.len() as int) =~= rest);
                            assert(arr_view(items@) =~= seq![vv] + arr_view(rest));
                        }
                        Some((items, m))
                    },
                    None => None,
                }
            } else {
                None
            }
        },
        None => None,
    }
}

/// Parses object members, mirroring [`parse_members`].
fn p_members(s: &Vec<char>, i: usize) -> (r: Option<(Vec<(Vec<char>, Json)>, usize)>)
    requires
        i <= s@.len(),
    ensures
        match r {
            Some(p) => parse_members(s@, i as int) == Some((members_view(p.0@), p.1 as int)) && i
                < p.1 <= s@.len(),
            None => parse_members(s@, i as int) is None,
        },
    decreases s@.len() - i, 2int,
{
    if !(i < s.len() && s[i] == '"') {
        return None;
    }
    match p_str_body(s, i + 1) {
        Some((key, j0)) => {
            let j = ws(s, j0);
            if j < s.len() && s[j] == ':' {
                let vp = ws(s, j + 1);
                match p_value(s, vp) {
                    Some((v, k0)) => {
                        let k = ws(s, k0);
                        if k < s.len() && s[k] == '}' {
                            let mut ms: Vec<(Vec<char>, Json)> = Vec::new();
                            ms.push((key, v));
                            proof {
                                assert(ms@.subrange(1, ms@.len() as int) =~= Seq::<(
                                    Vec<char>,
                                    Json,
                                )>::empty());
                                assert(members_view(Seq::<(Vec<char>, Json)>::empty()) =~= Seq::<
                                    (Seq<char>, JsonV),
                                >::empty());
                                assert(members_view(ms@) =~= seq![(ms@[0].0@, ms@[0].1@)]);
                            }
                            Some((ms, k + 1))
                        } else if k < s.len() && s[k] == ',' {
                            let m = ws(s, k + 1);
                            match p_members(s, m) {
                                Some((mut ms, e)) => {
                                    let ghost keyv = key@;
                                    let ghost vv = v@;
                                    let ghost rest = ms@;
                                    ms.insert(0, (key, v));
                                    proof {
                                        assert(ms@.subrange(1, ms@.len() as int) =~= rest);
                                        assert(members_view(ms@) =~= seq![(keyv, vv)]
                                            + members_view(rest));
                                    }
                                    Some((ms, e))
                                },
                                None => None,
                            }
                        } else {
                            None
                        }
                    },
                    None => None,
                }
            } else {
                None
            }
        },
        None => None,
    }
}

/// Decodes the JSON document held by `s`: exactly one value surrounded by
/// whitespace, per [`json_doc`].
pub fn decode_json(s: &str) -> (r: Option<Json>)
    ensures
        match r {
            Some(v) => json_doc(s@) == Some(v@),
            None => json_doc(s@) is None,
        },
{
    let chars = str_to_chars(s);
    let i = ws(&chars, 0);
    if i >= chars.len() {
        return None;
    }
    match p_value(&chars, i) {
        Some((v, j)) => {
            let e = ws(&chars, j);
            if e == chars.len() {
                Some(v)
            } else {
                None
            }
        },
        None => None,
    }
}

} // verus!
