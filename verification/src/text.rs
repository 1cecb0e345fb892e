//! Character and string utilities shared by the parsing and
//! rendering code: whitespace classification, digit handling,
//! conversion between `&str` and `Vec<char>`, decimal rendering,
//! decimal parsing, substring search and trimming.

use vstd::prelude::*;
use vstd::string::*;

verus! {

/// Relies on `char::from_u32`: returns the scalar value `n` as a
/// character, or `None` when `n` is a surrogate code point or above
/// the Unicode range.
pub assume_specification[ char::from_u32 ](n: u32) -> (c: Option<char>)
    ensures
        (n < 0xD800 || (0xE000 <= n <= 0x10FFFF)) <==> c is Some,
        c matches Some(ch) ==> ch as u32 == n,
;

/// The four whitespace characters of the JSON grammar.
pub open spec fn is_ws(c: char) -> bool {
    c == ' ' || c == '\t' || c == '\n' || c == '\r'
}

/// Executable mirror of [`is_ws`].
pub fn ws(c: char) -> (r: bool)
    ensures
        r == is_ws(c),
{
    c == ' ' || c == '\t' || c == '\n' || c == '\r'
}

/// ASCII whitespace as the trimming of operator input understands
/// it: the JSON whitespace characters together with the vertical tab
/// and the form feed.
pub open spec fn is_blank(c: char) -> bool {
    is_ws(c) || c == '\u{b}' || c == '\u{c}'
}

/// Executable mirror of [`is_blank`].
pub fn blank(c: char) -> (r: bool)
    ensures
        r == is_blank(c),
{
    c == ' ' || c == '\t' || c == '\n' || c == '\r' || c == '\u{b}' || c == '\u{c}'
}

/// A decimal digit.
pub open spec fn is_digit(c: char) -> bool {
    48 <= c as u32 <= 57
}

/// The numeric value of a decimal digit.
pub open spec fn digit_val(c: char) -> int {
    c as u32 - 48
}

/// Executable mirror of [`is_digit`].
pub fn digit(c: char) -> (r: bool)
    ensures
        r == is_digit(c),
{
    let n = c as u32;
    48 <= n && n <= 57
}

/// Relies on `String::push`: appends one character to the string.
#[verifier::external_body]
pub fn push_char(s: &mut String, c: char)
    ensures
        final(s)@ == old(s)@.push(c),
{
    s.push(c)
}

/// Collects the characters of a string slice into a vector.
pub fn chars_vec(s: &str) -> (r: Vec<char>)
    ensures
        r@ == s@,
{
    let n = s.unicode_len();
    let mut r: Vec<char> = Vec::new();
    let mut i: usize = 0;
    while i < n
        invariant
            n == s@.len(),
            i <= n,
            r@ == s@.subrange(0, i as int),
        decreases n - i,
    {
        r.push(s.get_char(i));
        i += 1;
        proof {
            assert(r@ =~= s@.subrange(0, i as int));
        }
    }
    proof {
        assert(r@ =~= s@);
    }
    r
}

/// Builds an owned string out of a character vector.
pub fn string_from_chars(v: &Vec<char>) -> (r: String)
    ensures
        r@ == v@,
{
    let mut r = String::new();
    let mut i: usize = 0;
    while i < v.len()
        invariant
            i <= v@.len(),
            r@ == v@.subrange(0, i as int),
        decreases v@.len() - i,
    {
        push_char(&mut r, v[i]);
        i += 1;
        proof {
            assert(r@ =~= v@.subrange(0, i as int));
        }
    }
    proof {
        assert(r@ =~= v@);
    }
    r
}

/// An owned copy of a string slice.
pub fn lit(s: &str) -> (r: String)
    ensures
        r@ == s@,
{
    String::from_str(s)
}

/// Concatenation of two string slices.
pub fn join2(a: &str, b: &str) -> (r: String)
    ensures
        r@ == a@ + b@,
{
    let mut s = String::from_str(a);
    s.append(b);
    s
}

/// Concatenation of three string slices.
pub fn join3(a: &str, b: &str, c: &str) -> (r: String)
    ensures
        r@ == a@ + b@ + c@,
{
    let mut s = String::from_str(a);
    s.append(b);
    s.append(c);
    s
}

/// Concatenation of four string slices.
pub fn join4(a: &str, b: &str, c: &str, d: &str) -> (r: String)
    ensures
        r@ == a@ + b@ + c@ + d@,
{
    let mut s = String::from_str(a);
    s.append(b);
    s.append(c);
    s.append(d);
    s
}

/// The decimal digit with value `n`.
pub open spec fn digit_char(n: int) -> char {
    if n == 0 { '0' } else if n == 1 { '1' } else if n == 2 { '2' } else if n == 3 { '3' }
    else if n == 4 { '4' } else if n == 5 { '5' } else if n == 6 { '6' } else if n == 7 { '7' }
    else if n == 8 { '8' } else { '9' }
}

/// The decimal rendering of a non-negative integer, most
/// significant digit first, without leading zeros (`0` itself is
/// rendered as one digit).
pub open spec fn dec_digits(n: nat) -> Seq<char>
    decreases n,
{
    if n < 10 {
        seq![digit_char(n as int)]
    } else {
        dec_digits(n / 10) + seq![digit_char((n % 10) as int)]
    }
}

/// The decimal rendering of a signed integer.
pub open spec fn dec_int(n: int) -> Seq<char> {
    if n < 0 {
        seq!['-'] + dec_digits((-n) as nat)
    } else {
        dec_digits(n as nat)
    }
}

fn digit_char_exec(n: u64) -> (c: char)
    requires
        n < 10,
    ensures
        c == digit_char(n as int),
{
    match n {
        0 => '0',
        1 => '1',
        2 => '2',
        3 => '3',
        4 => '4',
        5 => '5',
        6 => '6',
        7 => '7',
        8 => '8',
        _ => '9',
    }
}

pub fn push_dec(n: u64, out: &mut Vec<char>)
    ensures
        final(out)@ == old(out)@ + dec_digits(n as nat),
    decreases n,
{
    if n < 10 {
        out.push(digit_char_exec(n));
    } else {
        push_dec(n / 10, out);
        out.push(digit_char_exec(n % 10));
    }
    proof {
        assert(out@ =~= old(out)@ + dec_digits(n as nat));
    }
}

/// Renders a non-negative integer in decimal.
pub fn u64_string(n: u64) -> (r: String)
    ensures
        r@ == dec_digits(n as nat),
{
    let mut v: Vec<char> = Vec::new();
    push_dec(n, &mut v);
    proof {
        assert(v@ =~= dec_digits(n as nat));
    }
    string_from_chars(&v)
}

/// Renders a signed 32-bit integer in decimal.
pub fn i32_string(n: i32) -> (r: String)
    ensures
        r@ == dec_int(n as int),
{
    if n < 0 {
        let m: u64 = (-(n as i64)) as u64;
        let mut v: Vec<char> = Vec::new();
        v.push('-');
        push_dec(m, &mut v);
        proof {
            assert(v@ =~= dec_int(n as int));
        }
        string_from_chars(&v)
    } else {
        u64_string(n as u64)
    }
}

/// Result of reading the digit run `s[i..]` left to right into an
/// accumulator, refusing any non-digit character and any prefix
/// whose value exceeds `max`, as Rust's unsigned `from_str` does.
pub open spec fn read_digits(s: Seq<char>, i: int, acc: nat, max: nat) -> Option<nat>
    decreases s.len() - i,
{
    if i < 0 || i >= s.len() {
        Some(acc)
    } else if !is_digit(s[i]) {
        None
    } else if acc * 10 + digit_val(s[i]) > max {
        None
    } else {
        read_digits(s, i + 1, (acc * 10 + digit_val(s[i])) as nat, max)
    }
}

/// A successful digit read never exceeds its bound.
pub proof fn lemma_read_digits_le(s: Seq<char>, i: int, acc: nat, max: nat)
    requires
        acc <= max,
        read_digits(s, i, acc, max) is Some,
    ensures
        read_digits(s, i, acc, max).unwrap() <= max,
    decreases s.len() - i,
{
    if i < 0 || i >= s.len() {
    } else if is_digit(s[i]) && acc * 10 + digit_val(s[i]) <= max {
        lemma_read_digits_le(s, i + 1, (acc * 10 + digit_val(s[i])) as nat, max);
    }
}

/// The value of a decimal numeral as Rust's unsigned `from_str`
/// reads it: an optional leading `+`, then one or more digits, with
/// values above `max` refused.
pub open spec fn spec_parse_uint(s: Seq<char>, max: nat) -> Option<nat> {
    let body_start: int = if s.len() > 0 && s[0] == '+' { 1 } else { 0 };
    if s.len() == body_start {
        None
    } else {
        read_digits(s, body_start, 0, max)
    }
}

fn parse_uint_chars(v: &Vec<char>, max: u64) -> (r: Option<u64>)
    requires
        max <= 0xFFFF_FFFF,
    ensures
        r matches Some(n) ==> spec_parse_uint(v@, max as nat) == Some(n as nat) && n <= max,
        r is None ==> spec_parse_uint(v@, max as nat) is None,
{
    let mut i: usize = 0;
    if v.len() > 0 && v[0] == '+' {
        i = 1;
    }
    if i == v.len() {
        return None;
    }
    let mut acc: u64 = 0;
    loop
        invariant
            i <= v@.len(),
            acc <= max,
            max <= 0xFFFF_FFFF,
            spec_parse_uint(v@, max as nat) == read_digits(v@, i as int, acc as nat, max as nat),
        decreases v@.len() - i,
    {
        if i == v.len() {
            return Some(acc);
        }
        let c = v[i];
        if !digit(c) {
            return None;
        }
        let d: u64 = (c as u32 - 48) as u64;
        let next: u64 = acc * 10 + d;
        if next > max {
            return None;
        }
        acc = next;
        i += 1;
    }
}

/// Reads a 16-bit unsigned integer from text, as `str::parse::<u16>`
/// does.
pub fn parse_u16(s: &str) -> (r: Option<u16>)
    ensures
        r matches Some(n) ==> spec_parse_uint(s@, 0xFFFF) == Some(n as nat),
        r is None ==> spec_parse_uint(s@, 0xFFFF) is None,
{
    let v = chars_vec(s);
    match parse_uint_chars(&v, 0xFFFF) {
        Some(n) => Some(n as u16),
        None => None,
    }
}

/// Reads a 32-bit unsigned integer from a character vector, as
/// `str::parse::<u32>` does.
pub fn parse_u32_chars(v: &Vec<char>) -> (r: Option<u32>)
    ensures
        r matches Some(n) ==> spec_parse_uint(v@, 0xFFFF_FFFF) == Some(n as nat),
        r is None ==> spec_parse_uint(v@, 0xFFFF_FFFF) is None,
{
    match parse_uint_chars(v, 0xFFFF_FFFF) {
        Some(n) => Some(n as u32),
        None => None,
    }
}

/// A copy of the characters `v[a..b]`.
pub fn slice_chars(v: &Vec<char>, a: usize, b: usize) -> (r: Vec<char>)
    requires
        a <= b <= v@.len(),
    ensures
        r@ == v@.subrange(a as int, b as int),
{
    let mut out: Vec<char> = Vec::new();
    let mut i: usize = a;
    while i < b
        invariant
            a <= i <= b <= v@.len(),
            out@ == v@.subrange(a as int, i as int),
        decreases b - i,
    {
        out.push(v[i]);
        i += 1;
        proof {
            assert(out@ =~= v@.subrange(a as int, i as int));
        }
    }
    out
}

/// Reads a 32-bit unsigned integer from text, as `str::parse::<u32>`
/// does.
pub fn parse_u32(s: &str) -> (r: Option<u32>)
    ensures
        r matches Some(n) ==> spec_parse_uint(s@, 0xFFFF_FFFF) == Some(n as nat),
        r is None ==> spec_parse_uint(s@, 0xFFFF_FFFF) is None,
{
    let v = chars_vec(s);
    match parse_uint_chars(&v, 0xFFFF_FFFF) {
        Some(n) => Some(n as u32),
        None => None,
    }
}

/// Appends the characters of a string slice to a vector.
pub fn push_str_chars(out: &mut Vec<char>, s: &str)
    ensures
        final(out)@ == old(out)@ + s@,
{
    let n = s.unicode_len();
    let mut i: usize = 0;
    while i < n
        invariant
            n == s@.len(),
            i <= n,
            out@ == old(out)@ + s@.subrange(0, i as int),
        decreases n - i,
    {
        out.push(s.get_char(i));
        i += 1;
        proof {
            assert(out@ =~= old(out)@ + s@.subrange(0, i as int));
        }
    }
    proof {
        assert(s@.subrange(0, n as int) =~= s@);
    }
}

/// Element-wise equality of character vectors.
pub fn eq_chars(a: &Vec<char>, b: &Vec<char>) -> (r: bool)
    ensures
        r == (a@ == b@),
{
    if a.len() != b.len() {
        return false;
    }
    let mut i: usize = 0;
    while i < a.len()
        invariant
            a@.len() == b@.len(),
            i <= a@.len(),
            forall|k: int| 0 <= k < i ==> a@[k] == b@[k],
        decreases a@.len() - i,
    {
        if a[i] != b[i] {
            return false;
        }
        i += 1;
    }
    proof {
        assert(a@ =~= b@);
    }
    true
}

/// A digit character carries its value.
pub proof fn lemma_digit_char_val(d: int)
    requires
        0 <= d < 10,
    ensures
        is_digit(digit_char(d)),
        digit_val(digit_char(d)) == d,
{
}

/// The decimal rendering consists of digits, and never starts with
/// a zero unless it renders zero itself.
pub proof fn lemma_dec_digits_shape(n: nat)
    ensures
        dec_digits(n).len() >= 1,
        forall|k: int| 0 <= k < dec_digits(n).len() ==> is_digit(#[trigger] dec_digits(n)[k]),
        n > 0 ==> dec_digits(n)[0] != '0',
        n == 0 ==> dec_digits(n) == seq!['0'],
    decreases n,
{
    if n < 10 {
        lemma_digit_char_val(n as int);
    } else {
        lemma_dec_digits_shape(n / 10);
        lemma_digit_char_val((n % 10) as int);
        assert(dec_digits(n)[0] == dec_digits(n / 10)[0]);
        assert(forall|k: int|
            0 <= k < dec_digits(n).len() ==> is_digit(#[trigger] dec_digits(n)[k])) by {
            assert(forall|k: int|
                0 <= k < dec_digits(n / 10).len() ==> dec_digits(n)[k] == #[trigger] dec_digits(
                    n / 10,
                )[k]);
            assert(dec_digits(n)[dec_digits(n).len() - 1] == digit_char((n % 10) as int));
        }
    }
}

/// Appending one digit to the text multiplies the read value by
/// ten and adds the digit.
pub proof fn lemma_read_digits_push(t: Seq<char>, c: char, i: int, acc: nat, max: nat)
    requires
        0 <= i <= t.len(),
        is_digit(c),
    ensures
        read_digits(t.push(c), i, acc, max) == (match read_digits(t, i, acc, max) {
            Some(v) => if v * 10 + digit_val(c) <= max {
                Some((v * 10 + digit_val(c)) as nat)
            } else {
                None
            },
            None => None,
        }),
    decreases t.len() - i,
{
    if i == t.len() {
        assert(t.push(c)[i] == c);
        assert(read_digits(t, i, acc, max) == Some(acc));
        if acc * 10 + digit_val(c) <= max {
            assert(read_digits(t.push(c), i + 1, (acc * 10 + digit_val(c)) as nat, max) == Some(
                (acc * 10 + digit_val(c)) as nat,
            ));
        }
    } else {
        assert(t.push(c)[i] == t[i]);
        if is_digit(t[i]) && acc * 10 + digit_val(t[i]) <= max {
            lemma_read_digits_push(t, c, i + 1, (acc * 10 + digit_val(t[i])) as nat, max);
        }
    }
}

/// The decimal rendering of a value within the bound reads back as
/// that value.
pub proof fn lemma_read_dec(n: nat, max: nat)
    requires
        n <= max,
    ensures
        read_digits(dec_digits(n), 0, 0, max) == Some(n),
    decreases n,
{
    if n < 10 {
        lemma_digit_char_val(n as int);
        assert(read_digits(dec_digits(n), 1, n, max) == Some(n));
    } else {
        lemma_read_dec(n / 10, max);
        lemma_digit_char_val((n % 10) as int);
        assert(dec_digits(n) == dec_digits(n / 10).push(digit_char((n % 10) as int))) by {
            assert(dec_digits(n) =~= dec_digits(n / 10).push(digit_char((n % 10) as int)));
        }
        lemma_read_digits_push(dec_digits(n / 10), digit_char((n % 10) as int), 0, 0, max);
        assert((n / 10) * 10 + n % 10 == n);
    }
}

/// `needle` occurs as a contiguous run inside `hay`.
pub open spec fn contains_seq(hay: Seq<char>, needle: Seq<char>) -> bool {
    exists|i: int|
        0 <= i && i + needle.len() <= hay.len() && #[trigger] hay.subrange(i, i + needle.len())
            == needle
}

fn match_at(hay: &Vec<char>, needle: &Vec<char>, at: usize) -> (r: bool)
    requires
        at + needle@.len() <= hay@.len(),
    ensures
        r == (hay@.subrange(at as int, at + needle@.len()) == needle@),
{
    let hlen = hay.len();
    let nlen = needle.len();
    let mut j: usize = 0;
    while j < nlen
        invariant
            hlen == hay@.len(),
            nlen == needle@.len(),
            at + nlen <= hlen,
            j <= nlen,
            forall|k: int| 0 <= k < j ==> hay@[at + k] == needle@[k],
        decreases nlen - j,
    {
        if hay[at + j] != needle[j] {
            proof {
                assert(hay@.subrange(at as int, at + needle@.len())[j as int] != needle@[j as int]);
            }
            return false;
        }
        j += 1;
    }
    proof {
        assert(hay@.subrange(at as int, at + needle@.len()) =~= needle@);
    }
    true
}

/// Substring search over character vectors.
pub fn contains_chars(hay: &Vec<char>, needle: &Vec<char>) -> (r: bool)
    ensures
        r == contains_seq(hay@, needle@),
{
    if needle.len() > hay.len() {
        proof {
            assert(!contains_seq(hay@, needle@));
        }
        return false;
    }
    if needle.len() == 0 {
        proof {
            assert(hay@.subrange(0, 0 + needle@.len() as int) =~= needle@);
        }
        return true;
    }
    let stop: usize = hay.len() - needle.len();
    let mut i: usize = 0;
    loop
        invariant
            0 < needle@.len() <= hay@.len(),
            stop == hay@.len() - needle@.len(),
            stop < usize::MAX,
            i <= stop + 1,
            forall|k: int| 0 <= k < i ==> #[trigger] hay@.subrange(k, k + needle@.len())
                != needle@,
        decreases stop + 1 - i,
    {
        if i > stop {
            proof {
                assert(forall|k: int|
                    0 <= k && k + needle@.len() <= hay@.len()
                        ==> #[trigger] hay@.subrange(k, k + needle@.len()) != needle@);
            }
            return false;
        }
        if match_at(hay, needle, i) {
            proof {
                assert(0 <= i as int && i as int + needle@.len() <= hay@.len()
                    && hay@.subrange(i as int, i as int + needle@.len()) == needle@);
            }
            return true;
        }
        i += 1;
    }
}

/// Substring search over string slices, as `str::contains` answers
/// it for a literal pattern.
pub fn str_contains(hay: &str, needle: &str) -> (r: bool)
    ensures
        r == contains_seq(hay@, needle@),
{
    let h = chars_vec(hay);
    let n = chars_vec(needle);
    contains_chars(&h, &n)
}

/// `s` with the leading run of blank characters removed.
pub open spec fn trim_start(s: Seq<char>) -> Seq<char>
    decreases s.len(),
{
    if s.len() > 0 && is_blank(s[0]) {
        trim_start(s.skip(1))
    } else {
        s
    }
}

/// `s` with the trailing run of blank characters removed.
pub open spec fn trim_end(s: Seq<char>) -> Seq<char>
    decreases s.len(),
{
    if s.len() > 0 && is_blank(s[s.len() - 1]) {
        trim_end(s.drop_last())
    } else {
        s
    }
}

/// `s` with blank characters removed from both ends, as `str::trim`
/// on ASCII text.
pub open spec fn spec_trim(s: Seq<char>) -> Seq<char> {
    trim_end(trim_start(s))
}

/// Trims blank characters from both ends of a string.
pub fn trim(s: &str) -> (r: String)
    ensures
        r@ == spec_trim(s@),
{
    let v = chars_vec(s);
    proof {
        assert(v@.skip(0) =~= v@);
    }
    let mut a: usize = 0;
    while a < v.len() && blank(v[a])
        invariant
            a <= v@.len(),
            trim_start(s@) == trim_start(v@.skip(a as int)),
            v@ == s@,
        decreases v@.len() - a,
    {
        proof {
            assert(v@.skip(a as int).skip(1) =~= v@.skip(a + 1));
        }
        a += 1;
    }
    proof {
        assert(trim_start(s@) == v@.skip(a as int));
    }
    let mut b: usize = v.len();
    while b > a && blank(v[b - 1])
        invariant
            a <= b <= v@.len(),
            trim_end(v@.skip(a as int)) == trim_end(v@.subrange(a as int, b as int)),
            v@ == s@,
        decreases b,
    {
        proof {
            assert(v@.subrange(a as int, b as int).drop_last() =~= v@.subrange(a as int, b - 1));
        }
        b -= 1;
    }
    proof {
        assert(v@.skip(a as int) =~= v@.subrange(a as int, v@.len() as int));
        assert(trim_end(v@.subrange(a as int, b as int)) == v@.subrange(a as int, b as int));
    }
    let mut out: Vec<char> = Vec::new();
    let mut i: usize = a;
    while i < b
        invariant
            a <= i <= b <= v@.len(),
            out@ == v@.subrange(a as int, i as int),
        decreases b - i,
    {
        out.push(v[i]);
        i += 1;
        proof {
            assert(out@ =~= v@.subrange(a as int, i as int));
        }
    }
    proof {
        assert(out@ =~= v@.subrange(a as int, b as int));
    }
    string_from_chars(&out)
}

} // verus!
