//! The JSON grammar as the installer reads and writes it: string
//! bodies with escapes, numbers, whole-value validation, and the
//! escaping used when rendering a document.  Every parsing function
//! exists twice: a specification-level definition over `Seq<char>`
//! positions, and an executable mirror proved equal to it.

use vstd::prelude::*;
use crate::text::{is_ws, ws, is_digit, digit, digit_char, read_digits, dec_digits, lemma_read_dec};

verus! {

/// The first position at or after `i` that does not hold JSON
/// whitespace.
pub open spec fn ws_end(s: Seq<char>, i: int) -> int
    decreases s.len() - i,
{
    if 0 <= i < s.len() && is_ws(s[i]) {
        ws_end(s, i + 1)
    } else {
        i
    }
}

/// Executable mirror of [`ws_end`].
pub fn ws_end_x(v: &Vec<char>, i: usize) -> (r: usize)
    requires
        i <= v@.len(),
    ensures
        r as int == ws_end(v@, i as int),
        i <= r <= v@.len(),
{
    let mut j = i;
    while j < v.len() && ws(v[j])
        invariant
            i <= j <= v@.len(),
            ws_end(v@, i as int) == ws_end(v@, j as int),
        decreases v@.len() - j,
    {
        j += 1;
    }
    j
}

/// The value of a hexadecimal digit, or `None`.
pub open spec fn hex_val(c: char) -> Option<int> {
    let n = c as u32;
    if 48 <= n <= 57 {
        Some((n - 48) as int)
    } else if 97 <= n <= 102 {
        Some((n - 87) as int)
    } else if 65 <= n <= 70 {
        Some((n - 55) as int)
    } else {
        None
    }
}

fn hex_val_x(c: char) -> (r: Option<u32>)
    ensures
        r matches Some(n) ==> hex_val(c) == Some(n as int) && n < 16,
        r is None ==> hex_val(c) is None,
{
    let n = c as u32;
    if 48 <= n && n <= 57 {
        Some(n - 48)
    } else if 97 <= n && n <= 102 {
        Some(n - 87)
    } else if 65 <= n && n <= 70 {
        Some(n - 55)
    } else {
        None
    }
}

/// The value of the four hexadecimal digits at `s[i..i+4]`.
pub open spec fn hex4(s: Seq<char>, i: int) -> Option<int> {
    if 0 <= i && i + 4 <= s.len() {
        match (hex_val(s[i]), hex_val(s[i + 1]), hex_val(s[i + 2]), hex_val(s[i + 3])) {
            (Some(a), Some(b), Some(c), Some(d)) => Some(a * 4096 + b * 256 + c * 16 + d),
            _ => None,
        }
    } else {
        None
    }
}

/// An escape sequence read at `i`, the position after the
/// backslash: the character it denotes and the position after it.
/// Surrogate code points in a `\u` escape are refused.
pub open spec fn esc_char(s: Seq<char>, i: int) -> Option<(char, int)> {
    if !(0 <= i < s.len()) {
        None
    } else {
        let c = s[i];
        if c == '"' {
            Some(('"', i + 1))
        } else if c == '\\' {
            Some(('\\', i + 1))
        } else if c == '/' {
            Some(('/', i + 1))
        } else if c == 'b' {
            Some(('\u{8}', i + 1))
        } else if c == 'f' {
            Some(('\u{c}', i + 1))
        } else if c == 'n' {
            Some(('\n', i + 1))
        } else if c == 'r' {
            Some(('\r', i + 1))
        } else if c == 't' {
            Some(('\t', i + 1))
        } else if c == 'u' {
            match hex4(s, i + 1) {
                Some(v) => if 0xD800 <= v <= 0xDFFF {
                    None
                } else {
                    Some(((v as u32) as char, i + 5))
                },
                None => None,
            }
        } else {
            None
        }
    }
}

fn esc_char_x(v: &Vec<char>, i: usize) -> (r: Option<(char, usize)>)
    requires
        i <= v@.len(),
    ensures
        r matches Some((c, j)) ==> esc_char(v@, i as int) == Some((c, j as int)) && i < j
            <= v@.len(),
        r is None ==> esc_char(v@, i as int) is None,
{
    if i >= v.len() {
        return None;
    }
    let c = v[i];
    match c {
        '"' => Some(('"', i + 1)),
        '\\' => Some(('\\', i + 1)),
        '/' => Some(('/', i + 1)),
        'b' => Some(('\u{8}', i + 1)),
        'f' => Some(('\u{c}', i + 1)),
        'n' => Some(('\n', i + 1)),
        'r' => Some(('\r', i + 1)),
        't' => Some(('\t', i + 1)),
        'u' => {
            if v.len() - i < 5 {
                return None;
            }
            let a = hex_val_x(v[i + 1]);
            let b = hex_val_x(v[i + 2]);
            let c2 = hex_val_x(v[i + 3]);
            let d = hex_val_x(v[i + 4]);
            match (a, b, c2, d) {
                (Some(a), Some(b), Some(c2), Some(d)) => {
                    let val: u32 = a * 4096 + b * 256 + c2 * 16 + d;
                    if 0xD800 <= val && val <= 0xDFFF {
                        None
                    } else {
                        match char::from_u32(val) {
                            Some(ch) => {
                                proof {
                                    assert(hex4(v@, i + 1) == Some(val as int));
                                    vstd::utf8::char_u32_cast(ch, val);
                                }
                                Some((ch, i + 5))
                            },
                            None => None,  // unreachable: the value is below the surrogate range
                        }
                    }
                },
                _ => None,
            }
        },
        _ => None,
    }
}

/// The body of a JSON string read at `i`, the position after the
/// opening quote: the denoted characters and the position after the
/// closing quote.
pub open spec fn str_body(s: Seq<char>, i: int) -> Option<(Seq<char>, int)>
    decreases s.len() - i,
{
    if !(0 <= i < s.len()) {
        None
    } else {
        let c = s[i];
        if c == '"' {
            Some((Seq::empty(), i + 1))
        } else if c == '\\' {
            match esc_char(s, i + 1) {
                Some((ch, j)) => if i + 1 < j <= s.len() {
                    match str_body(s, j) {
                        Some((t, k)) => Some((seq![ch] + t, k)),
                        None => None,
                    }
                } else {
                    None
                },
                None => None,
            }
        } else if (c as u32) < 0x20 {
            None
        } else {
            match str_body(s, i + 1) {
                Some((t, k)) => Some((seq![c] + t, k)),
                None => None,
            }
        }
    }
}

/// Executable mirror of [`str_body`].
pub fn str_body_x(v: &Vec<char>, i: usize) -> (r: Option<(Vec<char>, usize)>)
    requires
        i <= v@.len(),
    ensures
        r matches Some((t, j)) ==> str_body(v@, i as int) == Some((t@, j as int)) && i < j
            <= v@.len(),
        r is None ==> str_body(v@, i as int) is None,
    decreases v@.len() - i,
{
    if i >= v.len() {
        return None;
    }
    let c = v[i];
    if c == '"' {
        let t: Vec<char> = Vec::new();
        proof {
            assert(t@ =~= Seq::<char>::empty());
        }
        Some((t, i + 1))
    } else if c == '\\' {
        match esc_char_x(v, i + 1) {
            Some((ch, j)) => {
                match str_body_x(v, j) {
                    Some((t, k)) => {
                        let mut out: Vec<char> = Vec::new();
                        out.push(ch);
                        let mut t2 = t;
                        let ghost told = t2@;
                        out.append(&mut t2);
                        proof {
                            assert(out@ =~= seq![ch] + told);
                        }
                        Some((out, k))
                    },
                    None => None,
                }
            },
            None => None,
        }
    } else if (c as u32) < 0x20 {
        None
    } else {
        match str_body_x(v, i + 1) {
            Some((t, k)) => {
                let mut out: Vec<char> = Vec::new();
                out.push(c);
                let mut t2 = t;
                let ghost told = t2@;
                out.append(&mut t2);
                proof {
                    assert(out@ =~= seq![c] + told);
                }
                Some((out, k))
            },
            None => None,
        }
    }
}

/// The first position at or after `i` that does not hold a decimal
/// digit.
pub open spec fn digits_end(s: Seq<char>, i: int) -> int
    decreases s.len() - i,
{
    if 0 <= i < s.len() && is_digit(s[i]) {
        digits_end(s, i + 1)
    } else {
        i
    }
}

pub proof fn lemma_digits_end(s: Seq<char>, i: int)
    requires
        0 <= i <= s.len(),
    ensures
        i <= digits_end(s, i) <= s.len(),
    decreases s.len() - i,
{
    if i < s.len() && is_digit(s[i]) {
        lemma_digits_end(s, i + 1);
    }
}

/// Executable mirror of [`digits_end`].
pub fn digits_end_x(v: &Vec<char>, i: usize) -> (r: usize)
    requires
        i <= v@.len(),
    ensures
        r as int == digits_end(v@, i as int),
        i <= r <= v@.len(),
{
    let mut j = i;
    while j < v.len() && digit(v[j])
        invariant
            i <= j <= v@.len(),
            digits_end(v@, i as int) == digits_end(v@, j as int),
        decreases v@.len() - j,
    {
        j += 1;
    }
    j
}

/// The position after a JSON number read at `i`, or `None` when no
/// well-formed number starts there.
pub open spec fn num_end(s: Seq<char>, i: int) -> Option<int> {
    if !(0 <= i < s.len()) {
        None
    } else {
        let a = if s[i] == '-' { i + 1 } else { i };
        if !(a < s.len() && is_digit(s[a])) {
            None
        } else {
            let ie = if s[a] == '0' { a + 1 } else { digits_end(s, a) };
            let fe = if ie < s.len() && s[ie] == '.' {
                if digits_end(s, ie + 1) > ie + 1 {
                    digits_end(s, ie + 1)
                } else {
                    -1
                }
            } else {
                ie
            };
            if fe < 0 {
                None
            } else {
                let ee = if fe < s.len() && (s[fe] == 'e' || s[fe] == 'E') {
                    let b = if fe + 1 < s.len() && (s[fe + 1] == '+' || s[fe + 1] == '-') {
                        fe + 2
                    } else {
                        fe + 1
                    };
                    if b <= s.len() && digits_end(s, b) > b {
                        digits_end(s, b)
                    } else {
                        -1
                    }
                } else {
                    fe
                };
                if ee < 0 {
                    None
                } else {
                    Some(ee)
                }
            }
        }
    }
}

/// Executable mirror of [`num_end`].
pub fn num_end_x(v: &Vec<char>, i: usize) -> (r: Option<usize>)
    requires
        i <= v@.len(),
    ensures
        r matches Some(j) ==> num_end(v@, i as int) == Some(j as int) && i < j <= v@.len(),
        r is None ==> num_end(v@, i as int) is None,
{
    if i >= v.len() {
        return None;
    }
    let a: usize = if v[i] == '-' { i + 1 } else { i };
    if !(a < v.len() && digit(v[a])) {
        return None;
    }
    proof {
        lemma_digits_end(v@, a as int + 1);
    }
    let ie: usize = if v[a] == '0' { a + 1 } else { digits_end_x(v, a) };
    let fe_opt: Option<usize> = if ie < v.len() && v[ie] == '.' {
        let d = digits_end_x(v, ie + 1);
        if d > ie + 1 {
            Some(d)
        } else {
            None
        }
    } else {
        Some(ie)
    };
    let fe = match fe_opt {
        Some(fe) => fe,
        None => {
            return None;
        },
    };
    let ee_opt: Option<usize> = if fe < v.len() && (v[fe] == 'e' || v[fe] == 'E') {
        let b: usize = if fe + 1 < v.len() && (v[fe + 1] == '+' || v[fe + 1] == '-') {
            fe + 2
        } else {
            fe + 1
        };
        if b <= v.len() {
            let d = digits_end_x(v, b);
            if d > b {
                Some(d)
            } else {
                None
            }
        } else {
            None
        }
    } else {
        Some(fe)
    };
    match ee_opt {
        Some(ee) => Some(ee),
        None => None,
    }
}

/// A JSON number at `i` that deserializes into a 16-bit unsigned
/// integer: a plain run of digits whose value fits.
pub open spec fn u16_at(s: Seq<char>, i: int) -> Option<(u16, int)> {
    match num_end(s, i) {
        None => None,
        Some(e) => if forall|k: int| i <= k < e ==> is_digit(#[trigger] s[k]) {
            match read_digits(s.subrange(i, e), 0, 0, 0xFFFF) {
                Some(n) => Some((n as u16, e)),
                None => None,
            }
        } else {
            None
        },
    }
}

/// Executable mirror of [`u16_at`].
pub fn u16_at_x(v: &Vec<char>, i: usize) -> (r: Option<(u16, usize)>)
    requires
        i <= v@.len(),
    ensures
        r matches Some((n, j)) ==> u16_at(v@, i as int) == Some((n, j as int)) && i < j
            <= v@.len(),
        r is None ==> u16_at(v@, i as int) is None,
{
    let e = match num_end_x(v, i) {
        Some(e) => e,
        None => {
            return None;
        },
    };
    let mut j = i;
    let mut acc: u32 = 0;
    let ghost sub = v@.subrange(i as int, e as int);
    loop
        invariant
            i <= j <= e <= v@.len(),
            i < e,
            num_end(v@, i as int) == Some(e as int),
            acc <= 0xFFFF,
            sub == v@.subrange(i as int, e as int),
            forall|k: int| i <= k < j ==> is_digit(#[trigger] v@[k]),
            read_digits(sub, 0, 0, 0xFFFF) == read_digits(sub, j - i, acc as nat, 0xFFFF),
        decreases e - j,
    {
        if j == e {
            proof {
                assert(forall|k: int| i <= k < e ==> is_digit(#[trigger] v@[k]));
                assert(read_digits(sub, j - i, acc as nat, 0xFFFF) == Some(acc as nat));
            }
            return Some((acc as u16, e));
        }
        let c = v[j];
        if !digit(c) {
            proof {
                assert(sub[j - i] == v@[j as int]);
                assert(read_digits(sub, j - i, acc as nat, 0xFFFF) is None);
                assert(!(forall|k: int| i <= k < e ==> is_digit(#[trigger] v@[k])));
            }
            return None;
        }
        let d: u32 = c as u32 - 48;
        let next: u32 = acc * 10 + d;
        proof {
            assert(sub[j - i] == v@[j as int]);
        }
        if next > 0xFFFF {
            proof {
                assert(read_digits(sub, j - i, acc as nat, 0xFFFF) is None);
            }
            return None;
        }
        proof {
            assert(read_digits(sub, j - i, acc as nat, 0xFFFF) == read_digits(
                sub,
                j - i + 1,
                next as nat,
                0xFFFF,
            ));
        }
        acc = next;
        j += 1;
    }
}

/// The position after a complete JSON value read at `i`.
pub open spec fn value_end(s: Seq<char>, i: int) -> Option<int>
    decreases s.len() - i, 0int,
{
    if !(0 <= i < s.len()) {
        None
    } else {
        let c = s[i];
        if c == '"' {
            match str_body(s, i + 1) {
                Some((t, j)) => Some(j),
                None => None,
            }
        } else if c == '{' {
            let j = ws_end(s, i + 1);
            if i < j <= s.len() {
                obj_rest(s, j, true)
            } else {
                None
            }
        } else if c == '[' {
            let j = ws_end(s, i + 1);
            if i < j <= s.len() {
                arr_rest(s, j, true)
            } else {
                None
            }
        } else if c == 't' {
            if i + 4 <= s.len() && s[i + 1] == 'r' && s[i + 2] == 'u' && s[i + 3] == 'e' {
                Some(i + 4)
            } else {
                None
            }
        } else if c == 'f' {
            if i + 5 <= s.len() && s[i + 1] == 'a' && s[i + 2] == 'l' && s[i + 3] == 's' && s[i + 4]
                == 'e' {
                Some(i + 5)
            } else {
                None
            }
        } else if c == 'n' {
            if i + 4 <= s.len() && s[i + 1] == 'u' && s[i + 2] == 'l' && s[i + 3] == 'l' {
                Some(i + 4)
            } else {
                None
            }
        } else if c == '-' || is_digit(c) {
            num_end(s, i)
        } else {
            None
        }
    }
}

/// The positions after the remaining members of an object whose
/// opening brace (and any following whitespace) has been consumed.
/// `can_close` says whether a closing brace may come immediately,
/// which is so after the brace but not after a comma.
pub open spec fn obj_rest(s: Seq<char>, i: int, can_close: bool) -> Option<int>
    decreases s.len() - i, 1int,
{
    if !(0 <= i < s.len()) {
        None
    } else if s[i] == '}' && can_close {
        Some(i + 1)
    } else if s[i] == '"' {
        match str_body(s, i + 1) {
            Some((k, j)) => {
                let j2 = ws_end(s, j);
                if j < s.len() + 1 && j2 < s.len() && s[j2] == ':' {
                    let j3 = ws_end(s, j2 + 1);
                    if i < j3 <= s.len() {
                        match value_end(s, j3) {
                            Some(ve) => {
                                let j4 = ws_end(s, ve);
                                if 0 <= ve <= s.len() && j4 < s.len() {
                                    if s[j4] == ',' {
                                        let j5 = ws_end(s, j4 + 1);
                                        if i < j5 <= s.len() {
                                            obj_rest(s, j5, false)
                                        } else {
                                            None
                                        }
                                    } else if s[j4] == '}' {
                                        Some(j4 + 1)
                                    } else {
                                        None
                                    }
                                } else {
                                    None
                                }
                            },
                            None => None,
                        }
                    } else {
                        None
                    }
                } else {
                    None
                }
            },
            None => None,
        }
    } else {
        None
    }
}

/// The positions after the remaining elements of an array whose
/// opening bracket (and any following whitespace) has been
/// consumed.
pub open spec fn arr_rest(s: Seq<char>, i: int, can_close: bool) -> Option<int>
    decreases s.len() - i, 1int,
{
    if !(0 <= i < s.len()) {
        None
    } else if s[i] == ']' && can_close {
        Some(i + 1)
    } else {
        match value_end(s, i) {
            Some(ve) => {
                let j = ws_end(s, ve);
                if 0 <= ve <= s.len() && j < s.len() {
                    if s[j] == ',' {
                        let j2 = ws_end(s, j + 1);
                        if i < j2 <= s.len() {
                            arr_rest(s, j2, false)
                        } else {
                            None
                        }
                    } else if s[j] == ']' {
                        Some(j + 1)
                    } else {
                        None
                    }
                } else {
                    None
                }
            },
            None => None,
        }
    }
}

/// Executable mirror of [`value_end`].
pub fn value_end_x(v: &Vec<char>, i: usize) -> (r: Option<usize>)
    requires
        i <= v@.len(),
    ensures
        r matches Some(j) ==> value_end(v@, i as int) == Some(j as int) && i < j <= v@.len(),
        r is None ==> value_end(v@, i as int) is None,
    decreases v@.len() - i, 0int,
{
    if i >= v.len() {
        return None;
    }
    let c = v[i];
    if c == '"' {
        match str_body_x(v, i + 1) {
            Some((_t, j)) => Some(j),
            None => None,
        }
    } else if c == '{' {
        let j = ws_end_x(v, i + 1);
        obj_rest_x(v, j, true)
    } else if c == '[' {
        let j = ws_end_x(v, i + 1);
        arr_rest_x(v, j, true)
    } else if c == 't' {
        if v.len() - i >= 4 && v[i + 1] == 'r' && v[i + 2] == 'u' && v[i + 3] == 'e' {
            Some(i + 4)
        } else {
            None
        }
    } else if c == 'f' {
        if v.len() - i >= 5 && v[i + 1] == 'a' && v[i + 2] == 'l' && v[i + 3] == 's' && v[i + 4]
            == 'e' {
            Some(i + 5)
        } else {
            None
        }
    } else if c == 'n' {
        if v.len() - i >= 4 && v[i + 1] == 'u' && v[i + 2] == 'l' && v[i + 3] == 'l' {
            Some(i + 4)
        } else {
            None
        }
    } else if c == '-' || digit(c) {
        num_end_x(v, i)
    } else {
        None
    }
}

/// Executable mirror of [`obj_rest`].
pub fn obj_rest_x(v: &Vec<char>, i: usize, can_close: bool) -> (r: Option<usize>)
    requires
        i <= v@.len(),
    ensures
        r matches Some(j) ==> obj_rest(v@, i as int, can_close) == Some(j as int) && i < j
            <= v@.len(),
        r is None ==> obj_rest(v@, i as int, can_close) is None,
    decreases v@.len() - i, 1int,
{
    if i >= v.len() {
        return None;
    }
    if v[i] == '}' && can_close {
        return Some(i + 1);
    }
    if v[i] != '"' {
        return None;
    }
    let (_k, j) = match str_body_x(v, i + 1) {
        Some(r) => r,
        None => {
            return None;
        },
    };
    let j2 = ws_end_x(v, j);
    if !(j2 < v.len() && v[j2] == ':') {
        return None;
    }
    let j3 = ws_end_x(v, j2 + 1);
    let ve = match value_end_x(v, j3) {
        Some(ve) => ve,
        None => {
            return None;
        },
    };
    let j4 = ws_end_x(v, ve);
    if !(j4 < v.len()) {
        return None;
    }
    if v[j4] == ',' {
        let j5 = ws_end_x(v, j4 + 1);
        obj_rest_x(v, j5, false)
    } else if v[j4] == '}' {
        Some(j4 + 1)
    } else {
        None
    }
}

/// Executable mirror of [`arr_rest`].
pub fn arr_rest_x(v: &Vec<char>, i: usize, can_close: bool) -> (r: Option<usize>)
    requires
        i <= v@.len(),
    ensures
        r matches Some(j) ==> arr_rest(v@, i as int, can_close) == Some(j as int) && i < j
            <= v@.len(),
        r is None ==> arr_rest(v@, i as int, can_close) is None,
    decreases v@.len() - i, 1int,
{
    if i >= v.len() {
        return None;
    }
    if v[i] == ']' && can_close {
        return Some(i + 1);
    }
    let ve = match value_end_x(v, i) {
        Some(ve) => ve,
        None => {
            return None;
        },
    };
    let j = ws_end_x(v, ve);
    if !(j < v.len()) {
        return None;
    }
    if v[j] == ',' {
        let j2 = ws_end_x(v, j + 1);
        arr_rest_x(v, j2, false)
    } else if v[j] == ']' {
        Some(j + 1)
    } else {
        None
    }
}

/// The lowercase hexadecimal digit with value `n`.
pub open spec fn hex_char(n: int) -> char {
    if n < 10 {
        digit_char(n)
    } else if n == 10 { 'a' } else if n == 11 { 'b' } else if n == 12 { 'c' }
    else if n == 13 { 'd' } else if n == 14 { 'e' } else { 'f' }
}

/// What a character becomes inside a rendered JSON string: itself,
/// a two-character escape, or a `\u00..` escape for the remaining
/// control characters.
pub open spec fn esc_seq(c: char) -> Seq<char> {
    if c == '"' {
        seq!['\\', '"']
    } else if c == '\\' {
        seq!['\\', '\\']
    } else if c == '\u{8}' {
        seq!['\\', 'b']
    } else if c == '\u{c}' {
        seq!['\\', 'f']
    } else if c == '\n' {
        seq!['\\', 'n']
    } else if c == '\r' {
        seq!['\\', 'r']
    } else if c == '\t' {
        seq!['\\', 't']
    } else if (c as u32) < 0x20 {
        seq!['\\', 'u', '0', '0', hex_char(c as u32 as int / 16), hex_char(c as u32 as int % 16)]
    } else {
        seq![c]
    }
}

/// The body of the rendered JSON string for `s`.
pub open spec fn escape(s: Seq<char>) -> Seq<char>
    decreases s.len(),
{
    if s.len() == 0 {
        Seq::empty()
    } else {
        esc_seq(s[0]) + escape(s.skip(1))
    }
}

/// `s` rendered as a JSON string, quotes included.
pub open spec fn quoted(s: Seq<char>) -> Seq<char> {
    seq!['"'] + escape(s) + seq!['"']
}

pub proof fn lemma_escape_push(s: Seq<char>, c: char)
    ensures
        escape(s.push(c)) == escape(s) + esc_seq(c),
    decreases s.len(),
{
    if s.len() == 0 {
        assert(s.push(c)[0] == c);
        assert(s.push(c).skip(1) =~= s);
        assert(escape(s.push(c)) == esc_seq(c) + escape(s));
        assert(escape(s) =~= Seq::<char>::empty());
        assert(escape(s.push(c)) =~= escape(s) + esc_seq(c));
    } else {
        assert(s.push(c)[0] == s[0]);
        assert(s.push(c).skip(1) =~= s.skip(1).push(c));
        lemma_escape_push(s.skip(1), c);
        assert(escape(s.push(c)) == esc_seq(s[0]) + escape(s.skip(1).push(c)));
        assert(escape(s) == esc_seq(s[0]) + escape(s.skip(1)));
        assert(escape(s.push(c)) =~= escape(s) + esc_seq(c));
    }
}

fn hex_char_x(n: u32) -> (c: char)
    requires
        n < 16,
    ensures
        c == hex_char(n as int),
{
    match n {
        0 => '0',
        1 => '1',
        2 => '2',
        3 => '3',
        4 => '4',
        5 => '5',
        6 => '6',
        7 => '7',
        8 => '8',
        9 => '9',
        10 => 'a',
        11 => 'b',
        12 => 'c',
        13 => 'd',
        14 => 'e',
        _ => 'f',
    }
}

fn push_esc(out: &mut Vec<char>, c: char)
    ensures
        final(out)@ == old(out)@ + esc_seq(c),
{
    if c == '"' {
        out.push('\\');
        out.push('"');
    } else if c == '\\' {
        out.push('\\');
        out.push('\\');
    } else if c == '\u{8}' {
        out.push('\\');
        out.push('b');
    } else if c == '\u{c}' {
        out.push('\\');
        out.push('f');
    } else if c == '\n' {
        out.push('\\');
        out.push('n');
    } else if c == '\r' {
        out.push('\\');
        out.push('r');
    } else if c == '\t' {
        out.push('\\');
        out.push('t');
    } else if (c as u32) < 0x20 {
        out.push('\\');
        out.push('u');
        out.push('0');
        out.push('0');
        out.push(hex_char_x((c as u32) / 16));
        out.push(hex_char_x((c as u32) % 16));
    } else {
        out.push(c);
    }
    proof {
        assert(out@ =~= old(out)@ + esc_seq(c));
    }
}

/// Appends `s` rendered as a JSON string, quotes included.
pub fn push_quoted(out: &mut Vec<char>, s: &str)
    ensures
        final(out)@ == old(out)@ + quoted(s@),
{
    let v = crate::text::chars_vec(s);
    out.push('"');
    let mut i: usize = 0;
    while i < v.len()
        invariant
            i <= v@.len(),
            v@ == s@,
            out@ == old(out)@ + seq!['"'] + escape(v@.subrange(0, i as int)),
        decreases v@.len() - i,
    {
        proof {
            assert(v@.subrange(0, i as int).push(v@[i as int]) =~= v@.subrange(0, i + 1));
            lemma_escape_push(v@.subrange(0, i as int), v@[i as int]);
        }
        push_esc(out, v[i]);
        i += 1;
    }
    out.push('"');
    proof {
        assert(v@.subrange(0, v@.len() as int) =~= v@);
        assert(out@ =~= old(out)@ + quoted(s@));
    }
}

/// A hexadecimal digit reads back as its value.
pub proof fn lemma_hex_char_val(d: int)
    requires
        0 <= d < 16,
    ensures
        hex_val(hex_char(d)) == Some(d),
{
}

/// An escape tail written by [`esc_seq`] reads back as the escaped
/// character: at `i`, the position after the backslash.
pub proof fn lemma_esc_char_inverts(s: Seq<char>, i: int, c: char)
    requires
        0 <= i,
        esc_seq(c).len() >= 2,
        i + esc_seq(c).len() - 1 <= s.len(),
        s.subrange(i, i + esc_seq(c).len() - 1) == esc_seq(c).skip(1),
    ensures
        esc_char(s, i) == Some((c, i + esc_seq(c).len() - 1)),
{
    let tail = esc_seq(c).skip(1);
    let win = s.subrange(i, i + esc_seq(c).len() - 1);
    assert(forall|k: int| 0 <= k < tail.len() ==> s[i + k] == #[trigger] tail[k]) by {
        assert(forall|k: int| 0 <= k < tail.len() ==> win[k] == #[trigger] tail[k]);
    }
    if c == '"' || c == '\\' {
        assert(tail[0] == c);
        assert(s[i] == c);
    } else if c == '\u{8}' {
        assert(tail[0] == 'b');
        assert(s[i] == 'b');
    } else if c == '\u{c}' {
        assert(tail[0] == 'f');
        assert(s[i] == 'f');
    } else if c == '\n' {
        assert(tail[0] == 'n');
        assert(s[i] == 'n');
    } else if c == '\r' {
        assert(tail[0] == 'r');
        assert(s[i] == 'r');
    } else if c == '\t' {
        assert(tail[0] == 't');
        assert(s[i] == 't');
    } else {
        assert((c as u32) < 0x20);
        let cu = c as u32 as int;
        let hi = cu / 16;
        let lo = cu % 16;
        assert(tail[0] == 'u' && tail[1] == '0' && tail[2] == '0' && tail[3] == hex_char(hi)
            && tail[4] == hex_char(lo));
        assert(s[i] == 'u');
        assert(s[i + 1] == '0');
        assert(s[i + 2] == '0');
        assert(s[i + 3] == hex_char(hi));
        assert(s[i + 4] == hex_char(lo));
        lemma_hex_char_val(hi);
        lemma_hex_char_val(lo);
        assert(hex4(s, i + 1) == Some(hi * 16 + lo));
        assert(hi * 16 + lo == cu);
        let v = hi * 16 + lo;
        assert(!(0xD800 <= v <= 0xDFFF));
        vstd::utf8::char_u32_cast(c, c as u32);
        assert((v as u32) as char == c);
    }
}

/// The body written by [`escape`] followed by a closing quote reads
/// back as the original characters.
pub proof fn lemma_str_body_escape(s: Seq<char>, i: int, v: Seq<char>)
    requires
        0 <= i,
        i + escape(v).len() + 1 <= s.len(),
        s.subrange(i, i + escape(v).len() + 1) == escape(v) + seq!['"'],
    ensures
        str_body(s, i) == Some((v, i + escape(v).len() + 1)),
    decreases v.len(),
{
    let text = escape(v) + seq!['"'];
    let win = s.subrange(i, i + escape(v).len() + 1);
    assert(forall|k: int| 0 <= k < text.len() ==> s[i + k] == #[trigger] text[k]) by {
        assert(forall|k: int| 0 <= k < text.len() ==> win[k] == #[trigger] text[k]);
    }
    if v.len() == 0 {
        assert(escape(v) =~= Seq::<char>::empty());
        assert(text[0] == '"');
        assert(s[i] == '"');
        assert(str_body(s, i) == Some((Seq::<char>::empty(), i + 1)));
        assert(v =~= Seq::<char>::empty());
    } else {
        let c = v[0];
        let e = esc_seq(c);
        assert(escape(v) == e + escape(v.skip(1)));
        let i2 = i + e.len();
        let fin = i + escape(v).len() + 1;
        let tail_text = escape(v.skip(1)) + seq!['"'];
        assert(s.subrange(i2, fin) =~= tail_text) by {
            assert(forall|k: int| 0 <= k < fin - i2 ==> s.subrange(i2, fin)[k]
                == #[trigger] tail_text[k]) by {
                assert(forall|k: int| 0 <= k < fin - i2 ==> text[e.len() + k]
                    == #[trigger] tail_text[k]);
            }
        }
        if e.len() == 1 {
            assert(e[0] == c);
            assert(c != '"' && c != '\\' && (c as u32) >= 0x20);
            assert(text[0] == c);
            assert(s[i] == c);
            lemma_str_body_escape(s, i2, v.skip(1));
            assert(str_body(s, i) == Some((seq![c] + v.skip(1), fin)));
            assert(seq![c] + v.skip(1) =~= v);
        } else {
            assert(e[0] == '\\');
            assert(text[0] == '\\');
            assert(s[i] == '\\');
            assert(s.subrange(i + 1, i2) =~= e.skip(1)) by {
                assert(forall|k: int| 0 <= k < e.len() - 1 ==> s.subrange(i + 1, i2)[k]
                    == #[trigger] e.skip(1)[k]) by {
                    assert(forall|k: int| 0 <= k < e.len() - 1 ==> text[1 + k]
                        == #[trigger] e.skip(1)[k]);
                }
            }
            lemma_esc_char_inverts(s, i + 1, c);
            assert(esc_char(s, i + 1) == Some((c, i2)));
            lemma_str_body_escape(s, i2, v.skip(1));
            assert(str_body(s, i) == Some((seq![c] + v.skip(1), fin)));
            assert(seq![c] + v.skip(1) =~= v);
        }
    }
}

/// Skipping whitespace stops exactly at the first character that is
/// not whitespace.
pub proof fn lemma_ws_end_run(s: Seq<char>, i: int, e: int)
    requires
        0 <= i <= e <= s.len(),
        forall|k: int| i <= k < e ==> is_ws(#[trigger] s[k]),
        e == s.len() || !is_ws(s[e]),
    ensures
        ws_end(s, i) == e,
    decreases e - i,
{
    if i < e {
        lemma_ws_end_run(s, i + 1, e);
    }
}

/// A digit run ends exactly at the first character that is not a
/// digit.
pub proof fn lemma_digits_end_run(s: Seq<char>, i: int, e: int)
    requires
        0 <= i <= e <= s.len(),
        forall|k: int| i <= k < e ==> is_digit(#[trigger] s[k]),
        e == s.len() || !is_digit(s[e]),
    ensures
        digits_end(s, i) == e,
    decreases e - i,
{
    if i < e {
        lemma_digits_end_run(s, i + 1, e);
    }
}

/// A rendered decimal within the 16-bit range, followed by a
/// character that continues no number, reads back as that value.
pub proof fn lemma_u16_at_dec(s: Seq<char>, i: int, n: u16)
    requires
        0 <= i,
        i + dec_digits(n as nat).len() < s.len(),
        s.subrange(i, i + dec_digits(n as nat).len()) == dec_digits(n as nat),
        !is_digit(s[i + dec_digits(n as nat).len()]),
        s[i + dec_digits(n as nat).len()] != '.',
        s[i + dec_digits(n as nat).len()] != 'e',
        s[i + dec_digits(n as nat).len()] != 'E',
    ensures
        u16_at(s, i) == Some((n, i + dec_digits(n as nat).len())),
        num_end(s, i) == Some(i + dec_digits(n as nat).len()),
{
    let d = dec_digits(n as nat);
    let e = i + d.len();
    crate::text::lemma_dec_digits_shape(n as nat);
    assert forall|k: int| i <= k < e implies is_digit(#[trigger] s[k]) by {
        assert(s.subrange(i, e)[k - i] == d[k - i]);
    }
    assert(s.subrange(i, e)[0] == d[0]);
    assert(s[i] == d[0]);
    assert(is_digit(s[i]));
    assert(s[i] != '-');
    lemma_digits_end_run(s, i, e);
    if n == 0 {
        assert(d == seq!['0']);
        assert(s[i] == '0');
        assert(e == i + 1);
    } else {
        assert(s[i] != '0');
    }
    assert(num_end(s, i) == Some(e));
    lemma_read_dec(n as nat, 0xFFFF);
    assert(s.subrange(i, e) == d);
    assert(read_digits(s.subrange(i, e), 0, 0, 0xFFFF) == Some(n as nat));
    assert(u16_at(s, i) == Some((n, e)));
}

} // verus!
