//! JSON values and a verified parser for them.
//!
//! The grammar is standard JSON: one value surrounded by whitespace, where a
//! value is `null`, `true`, `false`, a number, a string with the usual
//! backslash escapes (including `\uXXXX` with surrogate pairs), an array or
//! an object. Numbers are kept as their literal text; nothing in this crate
//! computes with them.

use vstd::prelude::*;

verus! {

/// A decoded JSON value.
pub enum Json {
    Null,
    Bool(bool),
    /// A number, kept as its literal text.
    Num(Vec<char>),
    Str(Vec<char>),
    Arr(Vec<Json>),
    Obj(Vec<(Vec<char>, Json)>),
}

/// The mathematical model of a JSON value.
pub enum JsonV {
    Null,
    Bool(bool),
    Num(Seq<char>),
    Str(Seq<char>),
    Arr(Seq<JsonV>),
    Obj(Seq<(Seq<char>, JsonV)>),
}

/// Model of an array's elements.
pub open spec fn arr_view(items: Seq<Json>) -> Seq<JsonV>
    decreases items,
{
    if items.len() == 0 {
        Seq::empty()
    } else {
        seq![json_view(items[0])] + arr_view(items.subrange(1, items.len() as int))
    }
}

/// Model of an object's members.
pub open spec fn members_view(ms: Seq<(Vec<char>, Json)>) -> Seq<(Seq<char>, JsonV)>
    decreases ms,
{
    if ms.len() == 0 {
        Seq::empty()
    } else {
        seq![(ms[0].0@, json_view(ms[0].1))] + members_view(ms.subrange(1, ms.len() as int))
    }
}

pub proof fn lemma_arr_view_len(items: Seq<Json>)
    ensures
        arr_view(items).len() == items.len(),
    decreases items.len(),
{
    if items.len() > 0 {
        lemma_arr_view_len(items.subrange(1, items.len() as int));
    }
}

pub proof fn lemma_arr_view_index(items: Seq<Json>, i: int)
    requires
        0 <= i < items.len(),
    ensures
        arr_view(items)[i] == json_view(items[i]),
    decreases i,
{
    lemma_arr_view_len(items.subrange(1, items.len() as int));
    if i > 0 {
        lemma_arr_view_index(items.subrange(1, items.len() as int), i - 1);
    }
}

pub proof fn lemma_members_view_len(ms: Seq<(Vec<char>, Json)>)
    ensures
        members_view(ms).len() == ms.len(),
    decreases ms.len(),
{
    if ms.len() > 0 {
        lemma_members_view_len(ms.subrange(1, ms.len() as int));
    }
}

pub proof fn lemma_members_view_index(ms: Seq<(Vec<char>, Json)>, i: int)
    requires
        0 <= i < ms.len(),
    ensures
        members_view(ms)[i] == (ms[i].0@, json_view(ms[i].1)),
    decreases i,
{
    lemma_members_view_len(ms.subrange(1, ms.len() as int));
    if i > 0 {
        lemma_members_view_index(ms.subrange(1, ms.len() as int), i - 1);
    }
}

pub open spec fn json_view(j: Json) -> JsonV
    decreases j,
{
    match j {
        Json::Null => JsonV::Null,
        Json::Bool(b) => JsonV::Bool(b),
        Json::Num(t) => JsonV::Num(t@),
        Json::Str(t) => JsonV::Str(t@),
        Json::Arr(items) => JsonV::Arr(arr_view(items@)),
        Json::Obj(ms) => JsonV::Obj(members_view(ms@)),
    }
}

impl View for Json {
    type V = JsonV;

    open spec fn view(&self) -> JsonV {
        json_view(*self)
    }
}

/// A character is JSON whitespace: space, tab, line feed or carriage return.
pub open spec fn is_ws(c: char) -> bool {
    c == ' ' || c == '\t' || c == '\n' || c == '\r'
}

/// Index of the first non-whitespace character of `s` at or after `i`
/// (or `s.len()` when only whitespace remains).
pub open spec fn skip_ws(s: Seq<char>, i: int) -> int
    decreases s.len() - i,
{
    if 0 <= i && i < s.len() && is_ws(s[i]) {
        skip_ws(s, i + 1)
    } else {
        i
    }
}

pub proof fn lemma_skip_ws_bounds(s: Seq<char>, i: int)
    requires
        0 <= i <= s.len(),
    ensures
        i <= skip_ws(s, i) <= s.len(),
    decreases s.len() - i,
{
    if i < s.len() && is_ws(s[i]) {
        lemma_skip_ws_bounds(s, i + 1);
    }
}

/// A decimal digit.
pub open spec fn is_digit(c: char) -> bool {
    48 <= (c as u32) && (c as u32) <= 57
}

/// Value of a hexadecimal digit, or -1.
pub open spec fn hex_val(c: char) -> int {
    if 48 <= (c as u32) && (c as u32) <= 57 {
        (c as u32) - 48
    } else if 97 <= (c as u32) && (c as u32) <= 102 {
        (c as u32) - 87
    } else if 65 <= (c as u32) && (c as u32) <= 70 {
        (c as u32) - 55
    } else {
        -1
    }
}

/// Value of the four hexadecimal digits at `i`, or -1.
pub open spec fn hex4(s: Seq<char>, i: int) -> int {
    if 0 <= i && i + 4 <= s.len() && hex_val(s[i]) >= 0 && hex_val(s[i + 1]) >= 0 && hex_val(
        s[i + 2],
    ) >= 0 && hex_val(s[i + 3]) >= 0 {
        4096 * hex_val(s[i]) + 256 * hex_val(s[i + 1]) + 16 * hex_val(s[i + 2]) + hex_val(s[i + 3])
    } else {
        -1
    }
}

/// The character denoted by a single-character escape, if any.
pub open spec fn esc_char(c: char) -> Option<char> {
    if c == '"' {
        Some('"')
    } else if c == '\\' {
        Some('\\')
    } else if c == '/' {
        Some('/')
    } else if c == 'b' {
        Some('\u{8}')
    } else if c == 'f' {
        Some('\u{c}')
    } else if c == 'n' {
        Some('\n')
    } else if c == 'r' {
        Some('\r')
    } else if c == 't' {
        Some('\t')
    } else {
        None
    }
}

/// Parses the body of a string literal, `i` standing just after the opening
/// quote. Returns the decoded content and the index just after the closing
/// quote.
pub open spec fn parse_str_body(s: Seq<char>, i: int) -> Option<(Seq<char>, int)>
    decreases s.len() - i,
{
    if !(0 <= i < s.len()) {
        None
    } else {
        let c = s[i];
        if c == '"' {
            Some((Seq::empty(), i + 1))
        } else if c == '\\' {
            if i + 1 < s.len() {
                let e = s[i + 1];
                if e == 'u' {
                    let h = hex4(s, i + 2);
                    if h < 0 {
                        None
                    } else if 0xD800 <= h < 0xDC00 {
                        // a high surrogate must be followed by an escaped low surrogate
                        let l = if i + 8 <= s.len() && s[i + 6] == '\\' && s[i + 7] == 'u' {
                            hex4(s, i + 8)
                        } else {
                            -1
                        };
                        if 0xDC00 <= l < 0xE000 {
                            let cp = 0x10000 + (h - 0xD800) * 0x400 + (l - 0xDC00);
                            match parse_str_body(s, i + 12) {
                                Some((t, j)) => Some((seq![cp as char] + t, j)),
                                None => None,
                            }
                        } else {
                            None
                        }
                    } else if 0xDC00 <= h < 0xE000 {
                        None
                    } else {
                        match parse_str_body(s, i + 6) {
                            Some((t, j)) => Some((seq![h as char] + t, j)),
                            None => None,
                        }
                    }
                } else {
                    match esc_char(e) {
                        Some(c2) => match parse_str_body(s, i + 2) {
                            Some((t, j)) => Some((seq![c2] + t, j)),
                            None => None,
                        },
                        None => None,
                    }
                }
            } else {
                None
            }
        } else if (c as u32) < 32 {
            None
        } else {
            match parse_str_body(s, i + 1) {
                Some((t, j)) => Some((seq![c] + t, j)),
                None => None,
            }
        }
    }
}

/// First index at or after `i` that does not hold a decimal digit.
pub open spec fn digits_end(s: Seq<char>, i: int) -> int
    decreases s.len() - i,
{
    if 0 <= i < s.len() && is_digit(s[i]) {
        digits_end(s, i + 1)
    } else {
        i
    }
}

pub proof fn lemma_digits_end_bounds(s: Seq<char>, i: int)
    requires
        0 <= i <= s.len(),
    ensures
        i <= digits_end(s, i) <= s.len(),
    decreases s.len() - i,
{
    if i < s.len() && is_digit(s[i]) {
        lemma_digits_end_bounds(s, i + 1);
    }
}

/// Index just after the JSON number starting at `i`, or -1 when `i` does not
/// start a number.
pub open spec fn number_end(s: Seq<char>, i: int) -> int {
    if !(0 <= i < s.len()) {
        -1
    } else {
        let p = if s[i] == '-' {
            i + 1
        } else {
            i
        };
        if !(p < s.len() && is_digit(s[p])) {
            -1
        } else {
            let ie = if s[p] == '0' {
                p + 1
            } else {
                digits_end(s, p)
            };
            let fe = if ie < s.len() && s[ie] == '.' {
                if ie + 1 < s.len() && is_digit(s[ie + 1]) {
                    digits_end(s, ie + 1)
                } else {
                    -1
                }
            } else {
                ie
            };
            if fe < 0 {
                -1
            } else if fe < s.len() && (s[fe] == 'e' || s[fe] == 'E') {
                let q = if fe + 1 < s.len() && (s[fe + 1] == '+' || s[fe + 1] == '-') {
                    fe + 2
                } else {
                    fe + 1
                };
                if q < s.len() && is_digit(s[q]) {
                    digits_end(s, q)
                } else {
                    -1
                }
            } else {
                fe
            }
        }
    }
}

pub proof fn lemma_number_end_bounds(s: Seq<char>, i: int)
    ensures
        number_end(s, i) >= 0 ==> i < number_end(s, i) <= s.len(),
{
    if 0 <= i < s.len() {
        let p = if s[i] == '-' {
            i + 1
        } else {
            i
        };
        if p < s.len() && is_digit(s[p]) {
            lemma_digits_end_bounds(s, p);
            if p + 1 <= s.len() {
                lemma_digits_end_bounds(s, p + 1);
            }
            let ie = if s[p] == '0' {
                p + 1
            } else {
                digits_end(s, p)
            };
            assert(p < ie <= s.len());
            if ie < s.len() && s[ie] == '.' && ie + 1 < s.len() && is_digit(s[ie + 1]) {
                lemma_digits_end_bounds(s, ie + 1);
            }
            let fe = if ie < s.len() && s[ie] == '.' {
                if ie + 1 < s.len() && is_digit(s[ie + 1]) {
                    digits_end(s, ie + 1)
                } else {
                    -1
                }
            } else {
                ie
            };
            if fe >= 0 && fe < s.len() && (s[fe] == 'e' || s[fe] == 'E') {
                let q = if fe + 1 < s.len() && (s[fe + 1] == '+' || s[fe + 1] == '-') {
                    fe + 2
                } else {
                    fe + 1
                };
                if q < s.len() && is_digit(s[q]) {
                    lemma_digits_end_bounds(s, q);
                }
            }
        }
    }
}

/// Clamp of `j` into `lo < j <= hi`, used so that the recursion below
/// manifestly advances. Parsing positions always satisfy the bound, so at
/// every use the clamp returns `j` itself.
pub open spec fn adv(lo: int, j: int, hi: int) -> int {
    if lo < j && j <= hi {
        j
    } else {
        lo + 1
    }
}

/// Parses the JSON value starting at `i` (no leading whitespace). Returns the
/// value and the index just after it.
pub open spec fn parse_value(s: Seq<char>, i: int) -> Option<(JsonV, int)>
    decreases s.len() - i, 1int,
{
    if !(0 <= i < s.len()) {
        None
    } else {
        let c = s[i];
        if c == 'n' {
            if i + 4 <= s.len() && s[i + 1] == 'u' && s[i + 2] == 'l' && s[i + 3] == 'l' {
                Some((JsonV::Null, i + 4))
            } else {
                None
            }
        } else if c == 't' {
            if i + 4 <= s.len() && s[i + 1] == 'r' && s[i + 2] == 'u' && s[i + 3] == 'e' {
                Some((JsonV::Bool(true), i + 4))
            } else {
                None
            }
        } else if c == 'f' {
            if i + 5 <= s.len() && s[i + 1] == 'a' && s[i + 2] == 'l' && s[i + 3] == 's' && s[i + 4]
                == 'e' {
                Some((JsonV::Bool(false), i + 5))
            } else {
                None
            }
        } else if c == '"' {
            match parse_str_body(s, i + 1) {
                Some((t, j)) => Some((JsonV::Str(t), j)),
                None => None,
            }
        } else if c == '-' || is_digit(c) {
            let e = number_end(s, i);
            if e >= 0 {
                Some((JsonV::Num(s.subrange(i, e)), e))
            } else {
                None
            }
        } else if c == '[' {
            let j = adv(i, skip_ws(s, i + 1), s.len() as int);
            if j < s.len() && s[j] == ']' {
                Some((JsonV::Arr(Seq::empty()), j + 1))
            } else {
                match parse_elements(s, j) {
                    Some((items, k)) => Some((JsonV::Arr(items), k)),
                    None => None,
                }
            }
        } else if c == '{' {
            let j = adv(i, skip_ws(s, i + 1), s.len() as int);
            if j < s.len() && s[j] == '}' {
                Some((JsonV::Obj(Seq::empty()), j + 1))
            } else {
                match parse_members(s, j) {
                    Some((ms, k)) => Some((JsonV::Obj(ms), k)),
                    None => None,
                }
            }
        } else {
            None
        }
    }
}

/// Parses `value (ws ',' ws value)* ws ']'` starting at a value. Returns the
/// elements and the index just after the closing bracket.
pub open spec fn parse_elements(s: Seq<char>, i: int) -> Option<(Seq<JsonV>, int)>
    decreases s.len() - i, 2int,
{
    match parse_value(s, i) {
        Some((v, j0)) => {
            let j = adv(i, skip_ws(s, j0), s.len() as int);
            if j < s.len() && s[j] == ']' {
                Some((seq![v], j + 1))
            } else if j < s.len() && s[j] == ',' {
                let k = adv(j, skip_ws(s, j + 1), s.len() as int);
                match parse_elements(s, k) {
                    Some((rest, m)) => Some((seq![v] + rest, m)),
                    None => None,
                }
            } else {
                None
            }
        },
        None => None,
    }
}

/// Parses `string ws ':' ws value (ws ',' ws members...)* ws '}'` starting at
/// a member's key. Returns the members and the index just after the closing
/// brace.
pub open spec fn parse_members(s: Seq<char>, i: int) -> Option<(Seq<(Seq<char>, JsonV)>, int)>
    decreases s.len() - i, 2int,
{
    if !(0 <= i < s.len() && s[i] == '"') {
        None
    } else {
        match parse_str_body(s, i + 1) {
            Some((key, j0)) => {
                let j = adv(i, skip_ws(s, j0), s.len() as int);
                if j < s.len() && s[j] == ':' {
                    let vp = adv(j, skip_ws(s, j + 1), s.len() as int);
                    match parse_value(s, vp) {
                        Some((v, k0)) => {
                            let k = adv(vp, skip_ws(s, k0), s.len() as int);
                            if k < s.len() && s[k] == '}' {
                                Some((seq![(key, v)], k + 1))
                            } else if k < s.len() && s[k] == ',' {
                                let m = adv(k, skip_ws(s, k + 1), s.len() as int);
                                match parse_members(s, m) {
                                    Some((rest, e)) => Some((seq![(key, v)] + rest, e)),
                                    None => None,
                                }
                            } else {
                                None
                            }
                        },
                        None => None,
                    }
                } else {
                    None
                }
            },
            None => None,
        }
    }
}

/// The JSON document denoted by `s`: exactly one value, surrounded by
/// whitespace.
pub open spec fn json_doc(s: Seq<char>) -> Option<JsonV> {
    let i = skip_ws(s, 0);
    if 0 <= i < s.len() {
        match parse_value(s, i) {
            Some((v, j)) => if skip_ws(s, j) == s.len() {
                Some(v)
            } else {
                None
            },
            None => None,
        }
    } else {
        None
    }
}

} // verus!
