//! The Java runtime probe: reading the output of the version query
//! for a major version of at least 21, the path arithmetic that
//! turns the binary's location into the runtime's root directory,
//! and the rule that decides whether the environment variable needs
//! to be written.

use vstd::prelude::*;
use crate::text::{
    is_blank, blank, contains_seq, contains_chars, chars_vec, slice_chars, parse_u32_chars,
    spec_parse_uint, spec_trim, trim, string_from_chars, str_contains,
};

verus! {

/// The first position at or after `i` that holds a line feed, or
/// the end of the text.
pub open spec fn line_end(s: Seq<char>, i: int) -> int
    decreases s.len() - i,
{
    if 0 <= i < s.len() && s[i] != '\n' {
        line_end(s, i + 1)
    } else {
        i
    }
}

fn line_end_x(v: &Vec<char>, i: usize) -> (r: usize)
    requires
        i <= v@.len(),
    ensures
        r as int == line_end(v@, i as int),
        i <= r <= v@.len(),
        r < v@.len() ==> v@[r as int] == '\n',
{
    let mut j = i;
    while j < v.len() && v[j] != '\n'
        invariant
            i <= j <= v@.len(),
            line_end(v@, i as int) == line_end(v@, j as int),
        decreases v@.len() - j,
    {
        j += 1;
    }
    j
}

/// A line as the version scan sees it: the text before the line
/// feed, with one trailing carriage return removed.
pub open spec fn strip_cr(line: Seq<char>) -> Seq<char> {
    if line.len() > 0 && line[line.len() - 1] == '\r' {
        line.drop_last()
    } else {
        line
    }
}

/// The line mentions a version at all: it holds `version` or
/// `openjdk`.
pub open spec fn line_marked(line: Seq<char>) -> bool {
    contains_seq(line, "version"@) || contains_seq(line, "openjdk"@)
}

/// The first position at or after `i` that is not blank.
pub open spec fn space_end(s: Seq<char>, i: int) -> int
    decreases s.len() - i,
{
    if 0 <= i < s.len() && is_blank(s[i]) {
        space_end(s, i + 1)
    } else {
        i
    }
}

fn space_end_x(v: &Vec<char>, i: usize) -> (r: usize)
    requires
        i <= v@.len(),
    ensures
        r as int == space_end(v@, i as int),
        i <= r <= v@.len(),
{
    let mut j = i;
    while j < v.len() && blank(v[j])
        invariant
            i <= j <= v@.len(),
            space_end(v@, i as int) == space_end(v@, j as int),
        decreases v@.len() - j,
    {
        j += 1;
    }
    j
}

/// The first position at or after `i` that is blank.
pub open spec fn word_end(s: Seq<char>, i: int) -> int
    decreases s.len() - i,
{
    if 0 <= i < s.len() && !is_blank(s[i]) {
        word_end(s, i + 1)
    } else {
        i
    }
}

fn word_end_x(v: &Vec<char>, i: usize) -> (r: usize)
    requires
        i <= v@.len(),
    ensures
        r as int == word_end(v@, i as int),
        i <= r <= v@.len(),
{
    let mut j = i;
    while j < v.len() && !blank(v[j])
        invariant
            i <= j <= v@.len(),
            word_end(v@, i as int) == word_end(v@, j as int),
        decreases v@.len() - j,
    {
        j += 1;
    }
    j
}

/// A quote character stripped from a word's ends.
pub open spec fn is_quote(c: char) -> bool {
    c == '"' || c == '\''
}

/// The word with leading quote characters removed.
pub open spec fn unquote_start(s: Seq<char>) -> Seq<char>
    decreases s.len(),
{
    if s.len() > 0 && is_quote(s[0]) {
        unquote_start(s.skip(1))
    } else {
        s
    }
}

/// The word with trailing quote characters removed.
pub open spec fn unquote_end(s: Seq<char>) -> Seq<char>
    decreases s.len(),
{
    if s.len() > 0 && is_quote(s[s.len() - 1]) {
        unquote_end(s.drop_last())
    } else {
        s
    }
}

/// The word with quote characters removed from both ends, as
/// `str::trim_matches` on that pattern.
pub open spec fn unquote(s: Seq<char>) -> Seq<char> {
    unquote_end(unquote_start(s))
}

fn unquote_x(v: &Vec<char>) -> (r: Vec<char>)
    ensures
        r@ == unquote(v@),
{
    proof {
        assert(v@.skip(0) =~= v@);
    }
    let mut a: usize = 0;
    while a < v.len() && (v[a] == '"' || v[a] == '\'')
        invariant
            a <= v@.len(),
            unquote_start(v@) == unquote_start(v@.skip(a as int)),
        decreases v@.len() - a,
    {
        proof {
            assert(v@.skip(a as int).skip(1) =~= v@.skip(a + 1));
        }
        a += 1;
    }
    proof {
        assert(unquote_start(v@) == v@.skip(a as int));
    }
    let mut b: usize = v.len();
    while b > a && (v[b - 1] == '"' || v[b - 1] == '\'')
        invariant
            a <= b <= v@.len(),
            unquote_end(v@.skip(a as int)) == unquote_end(v@.subrange(a as int, b as int)),
        decreases b,
    {
        proof {
            assert(v@.subrange(a as int, b as int).drop_last() =~= v@.subrange(a as int, b - 1));
        }
        b -= 1;
    }
    proof {
        assert(v@.skip(a as int) =~= v@.subrange(a as int, v@.len() as int));
        assert(unquote_end(v@.subrange(a as int, b as int)) == v@.subrange(a as int, b as int));
    }
    slice_chars(v, a, b)
}

/// The first position holding a dot, or the end.
pub open spec fn dot_end(s: Seq<char>, i: int) -> int
    decreases s.len() - i,
{
    if 0 <= i < s.len() && s[i] != '.' {
        dot_end(s, i + 1)
    } else {
        i
    }
}

fn dot_end_x(v: &Vec<char>, i: usize) -> (r: usize)
    requires
        i <= v@.len(),
    ensures
        r as int == dot_end(v@, i as int),
        i <= r <= v@.len(),
{
    let mut j = i;
    while j < v.len() && v[j] != '.'
        invariant
            i <= j <= v@.len(),
            dot_end(v@, i as int) == dot_end(v@, j as int),
        decreases v@.len() - j,
    {
        j += 1;
    }
    j
}

/// The word names a major version of at least 21: after stripping
/// quotes, the text before the first dot reads as a 32-bit unsigned
/// integer no smaller than 21.
pub open spec fn word_is_21(w: Seq<char>) -> bool {
    let c = unquote(w);
    let p = c.subrange(0, dot_end(c, 0));
    match spec_parse_uint(p, 0xFFFF_FFFF) {
        Some(n) => n >= 21,
        None => false,
    }
}

fn word_is_21_x(w: &Vec<char>) -> (r: bool)
    ensures
        r == word_is_21(w@),
{
    let c = unquote_x(w);
    let d = dot_end_x(&c, 0);
    let p = slice_chars(&c, 0, d);
    match parse_u32_chars(&p) {
        Some(n) => n >= 21,
        None => false,
    }
}

/// Some whitespace-separated word at or after `i` in the line
/// names a major version of at least 21.
pub open spec fn scan_words(line: Seq<char>, i: int) -> bool
    decreases line.len() - i,
{
    let a = space_end(line, i);
    if !(0 <= a < line.len()) {
        false
    } else {
        let b = word_end(line, a);
        if word_is_21(line.subrange(a, b)) {
            true
        } else if i < b <= line.len() {
            scan_words(line, b)
        } else {
            false
        }
    }
}

fn scan_words_x(line: &Vec<char>, i: usize) -> (r: bool)
    requires
        i <= line@.len(),
    ensures
        r == scan_words(line@, i as int),
    decreases line@.len() - i,
{
    let a = space_end_x(line, i);
    if a >= line.len() {
        return false;
    }
    let b = word_end_x(line, a);
    let w = slice_chars(line, a, b);
    if word_is_21_x(&w) {
        return true;
    }
    if i < b {
        scan_words_x(line, b)
    } else {
        false
    }
}

/// Some line of the combined version output both mentions a
/// version and holds a word naming a major version of at least 21.
pub open spec fn scan_lines(s: Seq<char>, i: int) -> bool
    decreases s.len() - i,
{
    if !(0 <= i < s.len()) {
        false
    } else {
        let e = line_end(s, i);
        let line = strip_cr(s.subrange(i, e));
        if 0 <= i <= e <= s.len() && line_marked(line) && scan_words(line, 0) {
            true
        } else if 0 <= i <= e < s.len() {
            scan_lines(s, e + 1)
        } else {
            false
        }
    }
}

/// The combined version output reports Java 21 or newer.
pub open spec fn spec_java21(s: Seq<char>) -> bool {
    scan_lines(s, 0)
}

/// Executable mirror of [`spec_java21`].
pub fn java21_reported(combined: &str) -> (r: bool)
    ensures
        r == spec_java21(combined@),
{
    let v = chars_vec(combined);
    let version_lit = chars_vec("version");
    let openjdk_lit = chars_vec("openjdk");
    let mut i: usize = 0;
    loop
        invariant
            i <= v@.len(),
            v@ == combined@,
            version_lit@ == "version"@,
            openjdk_lit@ == "openjdk"@,
            spec_java21(combined@) == scan_lines(v@, i as int),
        decreases v@.len() - i,
    {
        if i >= v.len() {
            return false;
        }
        let e = line_end_x(&v, i);
        let raw = slice_chars(&v, i, e);
        let line = if raw.len() > 0 && raw[raw.len() - 1] == '\r' {
            slice_chars(&raw, 0, raw.len() - 1)
        } else {
            slice_chars(&raw, 0, raw.len())
        };
        proof {
            assert(raw@.subrange(0, raw@.len() - 1) =~= raw@.drop_last());
            assert(raw@.subrange(0, raw@.len() as int) =~= raw@);
            assert(line@ == strip_cr(v@.subrange(i as int, e as int)));
        }
        let marked = contains_chars(&line, &version_lit) || contains_chars(&line, &openjdk_lit);
        if marked && scan_words_x(&line, 0) {
            return true;
        }
        if e >= v.len() {
            return false;
        }
        i = e + 1;
    }
}

/// A path separator: both directions of slash, as a Windows path
/// may hold either.
pub open spec fn is_sep(c: char) -> bool {
    c == '/' || c == '\\'
}

/// The position of the last separator in the path, or `-1`.
pub open spec fn last_sep(s: Seq<char>) -> int
    decreases s.len(),
{
    if s.len() == 0 {
        -1
    } else if is_sep(s[s.len() - 1]) {
        s.len() - 1
    } else {
        last_sep(s.drop_last())
    }
}

/// The path without its final component: everything before the
/// last separator (the separator itself is kept only when it is
/// the leading character), the empty path for a bare file name,
/// and nothing for an empty path.
pub open spec fn spec_parent(s: Seq<char>) -> Option<Seq<char>> {
    let l = last_sep(s);
    if l < 0 {
        if s.len() == 0 {
            None
        } else {
            Some(Seq::empty())
        }
    } else if l == 0 {
        Some(s.subrange(0, 1))
    } else {
        Some(s.subrange(0, l))
    }
}

fn last_sep_x(v: &Vec<char>) -> (r: Option<usize>)
    ensures
        r matches Some(l) ==> last_sep(v@) == l as int && l < v@.len(),
        r is None ==> last_sep(v@) == -1,
{
    let mut b = v.len();
    proof {
        assert(v@.subrange(0, v@.len() as int) =~= v@);
    }
    while b > 0 && !(v[b - 1] == '/' || v[b - 1] == '\\')
        invariant
            b <= v@.len(),
            last_sep(v@) == last_sep(v@.subrange(0, b as int)),
        decreases b,
    {
        proof {
            assert(v@.subrange(0, b as int).drop_last() =~= v@.subrange(0, b - 1));
        }
        b -= 1;
    }
    proof {
        assert(v@.subrange(0, v@.len() as int) =~= v@);
    }
    if b == 0 {
        None
    } else {
        proof {
            assert(v@.subrange(0, b as int).drop_last() =~= v@.subrange(0, b - 1));
        }
        Some(b - 1)
    }
}

/// The parent directory of a path, as [`spec_parent`] describes
/// it.
pub fn parent_dir(path: &str) -> (r: Option<String>)
    ensures
        (match r {
            Some(p) => spec_parent(path@) == Some(p@),
            None => spec_parent(path@) is None,
        }),
{
    let v = chars_vec(path);
    match last_sep_x(&v) {
        None => {
            if v.len() == 0 {
                None
            } else {
                let out: Vec<char> = Vec::new();
                proof {
                    assert(out@ =~= Seq::<char>::empty());
                }
                Some(string_from_chars(&out))
            }
        },
        Some(l) => {
            if l == 0 {
                let out = slice_chars(&v, 0, 1);
                Some(string_from_chars(&out))
            } else {
                let out = slice_chars(&v, 0, l);
                Some(string_from_chars(&out))
            }
        },
    }
}

/// The detected Java home: when the version output reports Java 21
/// or newer, the directory two levels above the `java` binary, and
/// nothing otherwise.
pub open spec fn spec_java_home(bin: Seq<char>, out: Seq<char>) -> Option<Seq<char>> {
    if spec_java21(out) {
        match spec_parent(bin) {
            Some(p) => spec_parent(p),
            None => None,
        }
    } else {
        None
    }
}

/// Turns the probe of the `java` binary — its resolved path and the
/// combined output of its version query — into the detected Java
/// home, as [`spec_java_home`] describes it.
pub fn java_home_from_probe(java_bin: &str, version_output: &str) -> (r: Option<String>)
    ensures
        (match r {
            Some(h) => spec_java_home(java_bin@, version_output@) == Some(h@),
            None => spec_java_home(java_bin@, version_output@) is None,
        }),
{
    if !java21_reported(version_output) {
        return None;
    }
    match parent_dir(java_bin) {
        Some(p) => parent_dir(p.as_str()),
        None => None,
    }
}

/// The environment variable must be written: the current value is
/// blank or does not mention `Java`.
pub open spec fn spec_needs_java_home(env_home: Seq<char>) -> bool {
    spec_trim(env_home).len() == 0 || !contains_seq(env_home, "Java"@)
}

/// Decides whether the system-wide `JAVA_HOME` needs to be written,
/// given the variable's current value.
pub fn should_set_java_home(env_home: &str) -> (r: bool)
    ensures
        r == spec_needs_java_home(env_home@),
{
    let t = trim(env_home);
    if t.as_str().unicode_len() == 0 {
        true
    } else {
        !str_contains(env_home, "Java")
    }
}

} // verus!
