//! The frontend configuration document: its schema, the exact
//! pretty-printed rendering the installer writes, the parser for
//! documents already on disk, and the read-modify-write update that
//! overwrites every schema field with freshly supplied values.

use vstd::prelude::*;
use crate::json::{
    quoted, push_quoted, ws_end, ws_end_x, str_body, str_body_x, u16_at, u16_at_x, value_end,
    value_end_x, escape,
};
use crate::text::{
    dec_digits, push_dec, push_str_chars, string_from_chars, chars_vec, eq_chars, spec_trim, trim,
    spec_parse_uint, parse_u16, is_ws, is_digit,
};

verus! {

/// The mathematical content of a configuration document: the three
/// required fields and the four optional database fields, an absent
/// one being `None`.
pub ghost struct SpecConfig {
    pub api_host: Seq<char>,
    pub jar_path: Seq<char>,
    pub backend_port: u16,
    pub db_host: Option<Seq<char>>,
    pub db_name: Option<Seq<char>>,
    pub db_user: Option<Seq<char>>,
    pub db_pass: Option<Seq<char>>,
}

/// A frontend configuration document.
pub struct FrontendConfig {
    pub api_host: String,
    pub jar_path: String,
    pub backend_port: u16,
    pub db_host: Option<String>,
    pub db_name: Option<String>,
    pub db_user: Option<String>,
    pub db_pass: Option<String>,
}

pub open spec fn view_opt(o: Option<String>) -> Option<Seq<char>> {
    match o {
        Some(s) => Some(s@),
        None => None,
    }
}

impl View for FrontendConfig {
    type V = SpecConfig;

    open spec fn view(&self) -> SpecConfig {
        SpecConfig {
            api_host: self.api_host@,
            jar_path: self.jar_path@,
            backend_port: self.backend_port,
            db_host: view_opt(self.db_host),
            db_name: view_opt(self.db_name),
            db_user: view_opt(self.db_user),
            db_pass: view_opt(self.db_pass),
        }
    }
}

/// One member's mathematical content: a string value or a 16-bit
/// number.
pub ghost enum MemberVal {
    S(Seq<char>),
    N(u16),
}

/// The text of one member: the quoted key, a colon and one space,
/// and the rendered value.
pub open spec fn member_text(key: Seq<char>, v: MemberVal) -> Seq<char> {
    quoted(key) + ": "@ + (match v {
        MemberVal::S(t) => quoted(t),
        MemberVal::N(n) => dec_digits(n as nat),
    })
}

/// The rendered text from a member key through the closing brace:
/// members separated by a comma, a line feed and the indentation,
/// the last followed by a line feed and the brace.
pub open spec fn rest_text(ms: Seq<(Seq<char>, MemberVal)>) -> Seq<char>
    decreases ms.len(),
{
    if ms.len() == 0 {
        Seq::empty()
    } else if ms.len() == 1 {
        member_text(ms[0].0, ms[0].1) + "\n}"@
    } else {
        member_text(ms[0].0, ms[0].1) + ",\n  "@ + rest_text(ms.skip(1))
    }
}

/// The member texts joined by the separator, without the closing
/// brace.
pub open spec fn joined(ms: Seq<(Seq<char>, MemberVal)>) -> Seq<char>
    decreases ms.len(),
{
    if ms.len() == 0 {
        Seq::empty()
    } else if ms.len() == 1 {
        member_text(ms[0].0, ms[0].1)
    } else {
        member_text(ms[0].0, ms[0].1) + ",\n  "@ + joined(ms.skip(1))
    }
}

pub proof fn lemma_rest_is_joined(ms: Seq<(Seq<char>, MemberVal)>)
    requires
        ms.len() >= 1,
    ensures
        rest_text(ms) == joined(ms) + "\n}"@,
    decreases ms.len(),
{
    if ms.len() == 1 {
    } else {
        lemma_rest_is_joined(ms.skip(1));
        assert(rest_text(ms) =~= joined(ms) + "\n}"@);
    }
}

pub proof fn lemma_joined_push(ms: Seq<(Seq<char>, MemberVal)>, m: (Seq<char>, MemberVal))
    requires
        ms.len() >= 1,
    ensures
        joined(ms.push(m)) == joined(ms) + ",\n  "@ + member_text(m.0, m.1),
    decreases ms.len(),
{
    if ms.len() == 1 {
        assert(ms.push(m)[0] == ms[0]);
        assert(ms.push(m).skip(1) =~= seq![m]);
        assert(seq![m][0] == m);
        assert(joined(seq![m]) == member_text(m.0, m.1));
        assert(joined(ms.push(m)) =~= joined(ms) + ",\n  "@ + member_text(m.0, m.1));
    } else {
        assert(ms.push(m)[0] == ms[0]);
        assert(ms.push(m).skip(1) =~= ms.skip(1).push(m));
        lemma_joined_push(ms.skip(1), m);
        assert(joined(ms.push(m)) =~= joined(ms) + ",\n  "@ + member_text(m.0, m.1));
    }
}

/// The members a document carries, in rendering order: the three
/// required fields, then each present database field.
pub open spec fn config_members_list(c: SpecConfig) -> Seq<(Seq<char>, MemberVal)> {
    let l0 = seq![
        ("API_HOST"@, MemberVal::S(c.api_host)),
        ("JAR_PATH"@, MemberVal::S(c.jar_path)),
        ("BACKEND_PORT"@, MemberVal::N(c.backend_port)),
    ];
    let l1 = if c.db_host is Some {
        l0.push(("DB_HOST"@, MemberVal::S(c.db_host.unwrap())))
    } else {
        l0
    };
    let l2 = if c.db_name is Some {
        l1.push(("DB_NAME"@, MemberVal::S(c.db_name.unwrap())))
    } else {
        l1
    };
    let l3 = if c.db_user is Some {
        l2.push(("DB_USER"@, MemberVal::S(c.db_user.unwrap())))
    } else {
        l2
    };
    if c.db_pass is Some {
        l3.push(("DB_PASS"@, MemberVal::S(c.db_pass.unwrap())))
    } else {
        l3
    }
}

/// The exact text of the rendered document: a pretty-printed JSON
/// object with two-space indentation, the required members first,
/// each present optional member after them, and no trailing
/// newline.
pub open spec fn spec_config_json(c: SpecConfig) -> Seq<char> {
    "{\n  "@ + rest_text(config_members_list(c))
}

fn push_member(out: &mut Vec<char>, key: &str, value: &str)
    ensures
        final(out)@ == old(out)@ + member_text(key@, MemberVal::S(value@)),
{
    push_quoted(out, key);
    push_str_chars(out, ": ");
    push_quoted(out, value);
    proof {
        assert(out@ =~= old(out)@ + member_text(key@, MemberVal::S(value@)));
    }
}

fn push_opt_db(
    out: &mut Vec<char>,
    key: &str,
    v: &Option<String>,
    Ghost(gl): Ghost<Seq<(Seq<char>, MemberVal)>>,
) -> (r: Ghost<Seq<(Seq<char>, MemberVal)>>)
    requires
        gl.len() >= 1,
        old(out)@ == "{\n  "@ + joined(gl),
    ensures
        r@ == (match v {
            Some(t) => gl.push((key@, MemberVal::S(t@))),
            None => gl,
        }),
        final(out)@ == "{\n  "@ + joined(r@),
{
    match v {
        Some(t) => {
            push_str_chars(out, ",\n  ");
            push_member(out, key, t.as_str());
            proof {
                lemma_joined_push(gl, (key@, MemberVal::S(t@)));
                assert(out@ =~= "{\n  "@ + joined(gl.push((key@, MemberVal::S(t@)))));
            }
            Ghost(gl.push((key@, MemberVal::S(t@))))
        },
        None => Ghost(gl),
    }
}

/// Renders a configuration document as the installer writes it.
#[verifier::rlimit(100)]
pub fn serialize_config(c: &FrontendConfig) -> (r: String)
    ensures
        r@ == spec_config_json(c@),
{
    let mut out: Vec<char> = Vec::new();
    push_str_chars(&mut out, "{\n  ");
    push_member(&mut out, "API_HOST", c.api_host.as_str());
    push_str_chars(&mut out, ",\n  ");
    push_member(&mut out, "JAR_PATH", c.jar_path.as_str());
    push_str_chars(&mut out, ",\n  ");
    push_quoted(&mut out, "BACKEND_PORT");
    push_str_chars(&mut out, ": ");
    push_dec(c.backend_port as u64, &mut out);
    let ghost l0 = seq![
        ("API_HOST"@, MemberVal::S(c.api_host@)),
        ("JAR_PATH"@, MemberVal::S(c.jar_path@)),
        ("BACKEND_PORT"@, MemberVal::N(c.backend_port)),
    ];
    proof {
        assert(joined(l0.skip(2)) == member_text(l0[2].0, l0[2].1)) by {
            assert(l0.skip(2).len() == 1);
            assert(l0.skip(2)[0] == l0[2]);
        }
        assert(l0.skip(1).skip(1) =~= l0.skip(2));
        assert(joined(l0.skip(1)) == member_text(l0[1].0, l0[1].1) + ",\n  "@ + joined(
            l0.skip(2),
        )) by {
            assert(l0.skip(1)[0] == l0[1]);
        }
        assert(member_text("BACKEND_PORT"@, MemberVal::N(c.backend_port)) == quoted(
            "BACKEND_PORT"@,
        ) + ": "@ + dec_digits(c.backend_port as nat));
        assert(out@ =~= "{\n  "@ + joined(l0));
    }
    let g1 = push_opt_db(&mut out, "DB_HOST", &c.db_host, Ghost(l0));
    let g2 = push_opt_db(&mut out, "DB_NAME", &c.db_name, g1);
    let g3 = push_opt_db(&mut out, "DB_USER", &c.db_user, g2);
    let g4 = push_opt_db(&mut out, "DB_PASS", &c.db_pass, g3);
    push_str_chars(&mut out, "\n}");
    proof {
        assert(g4@ == config_members_list(c@));
        lemma_rest_is_joined(g4@);
        assert(out@ =~= spec_config_json(c@));
    }
    string_from_chars(&out)
}

/// The fields collected so far while reading an object's members.
/// The outer option of a database field says whether the member was
/// seen; the inner one distinguishes a string value from `null`.
pub ghost struct CfgAcc {
    pub api_host: Option<Seq<char>>,
    pub jar_path: Option<Seq<char>>,
    pub backend_port: Option<u16>,
    pub db_host: Option<Option<Seq<char>>>,
    pub db_name: Option<Option<Seq<char>>>,
    pub db_user: Option<Option<Seq<char>>>,
    pub db_pass: Option<Option<Seq<char>>>,
}

pub open spec fn empty_acc() -> CfgAcc {
    CfgAcc {
        api_host: None,
        jar_path: None,
        backend_port: None,
        db_host: None,
        db_name: None,
        db_user: None,
        db_pass: None,
    }
}

pub struct CfgAccX {
    pub api_host: Option<String>,
    pub jar_path: Option<String>,
    pub backend_port: Option<u16>,
    pub db_host: Option<Option<String>>,
    pub db_name: Option<Option<String>>,
    pub db_user: Option<Option<String>>,
    pub db_pass: Option<Option<String>>,
}

pub open spec fn view_opt2(o: Option<Option<String>>) -> Option<Option<Seq<char>>> {
    match o {
        Some(inner) => Some(view_opt(inner)),
        None => None,
    }
}

impl View for CfgAccX {
    type V = CfgAcc;

    open spec fn view(&self) -> CfgAcc {
        CfgAcc {
            api_host: view_opt(self.api_host),
            jar_path: view_opt(self.jar_path),
            backend_port: self.backend_port,
            db_host: view_opt2(self.db_host),
            db_name: view_opt2(self.db_name),
            db_user: view_opt2(self.db_user),
            db_pass: view_opt2(self.db_pass),
        }
    }
}

/// A JSON string value read at `i`: its content and the position
/// after the closing quote.
pub open spec fn str_at(s: Seq<char>, i: int) -> Option<(Seq<char>, int)> {
    if 0 <= i < s.len() && s[i] == '"' {
        str_body(s, i + 1)
    } else {
        None
    }
}

fn str_at_x(v: &Vec<char>, i: usize) -> (r: Option<(Vec<char>, usize)>)
    requires
        i <= v@.len(),
    ensures
        r matches Some((t, j)) ==> str_at(v@, i as int) == Some((t@, j as int)) && i < j
            <= v@.len(),
        r is None ==> str_at(v@, i as int) is None,
{
    if i < v.len() && v[i] == '"' {
        str_body_x(v, i + 1)
    } else {
        None
    }
}

/// The literal `null` read at `i`.
pub open spec fn null_at(s: Seq<char>, i: int) -> bool {
    0 <= i && i + 4 <= s.len() && s[i] == 'n' && s[i + 1] == 'u' && s[i + 2] == 'l' && s[i + 3]
        == 'l'
}

fn null_at_x(v: &Vec<char>, i: usize) -> (r: bool)
    requires
        i <= v@.len(),
    ensures
        r == null_at(v@, i as int),
{
    v.len() - i >= 4 && v[i] == 'n' && v[i + 1] == 'u' && v[i + 2] == 'l' && v[i + 3] == 'l'
}

/// One member's value dispatched on its key: a schema field is
/// stored (a second occurrence is refused), an unknown member is
/// validated and skipped.  Returns the updated accumulator and the
/// position after the value.
pub open spec fn cfg_value(s: Seq<char>, i: int, k: Seq<char>, acc: CfgAcc) -> Option<
    (CfgAcc, int),
> {
    if k == "API_HOST"@ {
        if acc.api_host is Some {
            None
        } else {
            match str_at(s, i) {
                Some((t, e)) => Some((CfgAcc { api_host: Some(t), ..acc }, e)),
                None => None,
            }
        }
    } else if k == "JAR_PATH"@ {
        if acc.jar_path is Some {
            None
        } else {
            match str_at(s, i) {
                Some((t, e)) => Some((CfgAcc { jar_path: Some(t), ..acc }, e)),
                None => None,
            }
        }
    } else if k == "BACKEND_PORT"@ {
        if acc.backend_port is Some {
            None
        } else {
            match u16_at(s, i) {
                Some((n, e)) => Some((CfgAcc { backend_port: Some(n), ..acc }, e)),
                None => None,
            }
        }
    } else if k == "DB_HOST"@ {
        if acc.db_host is Some {
            None
        } else {
            match str_at(s, i) {
                Some((t, e)) => Some((CfgAcc { db_host: Some(Some(t)), ..acc }, e)),
                None => if null_at(s, i) {
                    Some((CfgAcc { db_host: Some(None), ..acc }, i + 4))
                } else {
                    None
                },
            }
        }
    } else if k == "DB_NAME"@ {
        if acc.db_name is Some {
            None
        } else {
            match str_at(s, i) {
                Some((t, e)) => Some((CfgAcc { db_name: Some(Some(t)), ..acc }, e)),
                None => if null_at(s, i) {
                    Some((CfgAcc { db_name: Some(None), ..acc }, i + 4))
                } else {
                    None
                },
            }
        }
    } else if k == "DB_USER"@ {
        if acc.db_user is Some {
            None
        } else {
            match str_at(s, i) {
                Some((t, e)) => Some((CfgAcc { db_user: Some(Some(t)), ..acc }, e)),
                None => if null_at(s, i) {
                    Some((CfgAcc { db_user: Some(None), ..acc }, i + 4))
                } else {
                    None
                },
            }
        }
    } else if k == "DB_PASS"@ {
        if acc.db_pass is Some {
            None
        } else {
            match str_at(s, i) {
                Some((t, e)) => Some((CfgAcc { db_pass: Some(Some(t)), ..acc }, e)),
                None => if null_at(s, i) {
                    Some((CfgAcc { db_pass: Some(None), ..acc }, i + 4))
                } else {
                    None
                },
            }
        }
    } else {
        match value_end(s, i) {
            Some(e) => Some((acc, e)),
            None => None,
        }
    }
}

fn key_is(k: &Vec<char>, lit: &str) -> (r: bool)
    ensures
        r == (k@ == lit@),
{
    let l = chars_vec(lit);
    eq_chars(k, &l)
}

fn cfg_value_x(v: &Vec<char>, i: usize, k: &Vec<char>, acc: CfgAccX) -> (r: Option<
    (CfgAccX, usize),
>)
    requires
        i <= v@.len(),
    ensures
        r matches Some((a2, j)) ==> cfg_value(v@, i as int, k@, acc@) == Some((a2@, j as int)) && i
            < j <= v@.len(),
        r is None ==> cfg_value(v@, i as int, k@, acc@) is None,
{
    let vlen = v.len();
    if key_is(k, "API_HOST") {
        if acc.api_host.is_some() {
            None
        } else {
            match str_at_x(v, i) {
                Some((t, e)) => Some((
                    CfgAccX { api_host: Some(string_from_chars(&t)), ..acc },
                    e,
                )),
                None => None,
            }
        }
    } else if key_is(k, "JAR_PATH") {
        if acc.jar_path.is_some() {
            None
        } else {
            match str_at_x(v, i) {
                Some((t, e)) => Some((
                    CfgAccX { jar_path: Some(string_from_chars(&t)), ..acc },
                    e,
                )),
                None => None,
            }
        }
    } else if key_is(k, "BACKEND_PORT") {
        if acc.backend_port.is_some() {
            None
        } else {
            match u16_at_x(v, i) {
                Some((n, e)) => Some((CfgAccX { backend_port: Some(n), ..acc }, e)),
                None => None,
            }
        }
    } else if key_is(k, "DB_HOST") {
        if acc.db_host.is_some() {
            None
        } else {
            match str_at_x(v, i) {
                Some((t, e)) => Some((
                    CfgAccX { db_host: Some(Some(string_from_chars(&t))), ..acc },
                    e,
                )),
                None => if null_at_x(v, i) {
                    Some((CfgAccX { db_host: Some(None), ..acc }, i + 4))
                } else {
                    None
                },
            }
        }
    } else if key_is(k, "DB_NAME") {
        if acc.db_name.is_some() {
            None
        } else {
            match str_at_x(v, i) {
                Some((t, e)) => Some((
                    CfgAccX { db_name: Some(Some(string_from_chars(&t))), ..acc },
                    e,
                )),
                None => if null_at_x(v, i) {
                    Some((CfgAccX { db_name: Some(None), ..acc }, i + 4))
                } else {
                    None
                },
            }
        }
    } else if key_is(k, "DB_USER") {
        if acc.db_user.is_some() {
            None
        } else {
            match str_at_x(v, i) {
                Some((t, e)) => Some((
                    CfgAccX { db_user: Some(Some(string_from_chars(&t))), ..acc },
                    e,
                )),
                None => if null_at_x(v, i) {
                    Some((CfgAccX { db_user: Some(None), ..acc }, i + 4))
                } else {
                    None
                },
            }
        }
    } else if key_is(k, "DB_PASS") {
        if acc.db_pass.is_some() {
            None
        } else {
            match str_at_x(v, i) {
                Some((t, e)) => Some((
                    CfgAccX { db_pass: Some(Some(string_from_chars(&t))), ..acc },
                    e,
                )),
                None => if null_at_x(v, i) {
                    Some((CfgAccX { db_pass: Some(None), ..acc }, i + 4))
                } else {
                    None
                },
            }
        }
    } else {
        match value_end_x(v, i) {
            Some(e) => Some((acc, e)),
            None => None,
        }
    }
}

/// The members of the document object from a position that must
/// hold a member key, through the closing brace: the collected
/// fields and the position after the brace.
pub open spec fn cfg_members(s: Seq<char>, i: int, acc: CfgAcc) -> Option<(CfgAcc, int)>
    decreases s.len() - i,
{
    if !(0 <= i < s.len()) {
        None
    } else if s[i] != '"' {
        None
    } else {
        match str_body(s, i + 1) {
            Some((k, j)) => {
                let j2 = ws_end(s, j);
                if 0 <= j <= s.len() && j2 < s.len() && s[j2] == ':' {
                    let j3 = ws_end(s, j2 + 1);
                    if i < j3 <= s.len() {
                        match cfg_value(s, j3, k, acc) {
                            Some((acc2, ve)) => if i < ve <= s.len() {
                                let j4 = ws_end(s, ve);
                                if j4 < s.len() && s[j4] == ',' {
                                    let j5 = ws_end(s, j4 + 1);
                                    if i < j5 <= s.len() {
                                        cfg_members(s, j5, acc2)
                                    } else {
                                        None
                                    }
                                } else if j4 < s.len() && s[j4] == '}' {
                                    Some((acc2, j4 + 1))
                                } else {
                                    None
                                }
                            } else {
                                None
                            },
                            None => None,
                        }
                    } else {
                        None
                    }
                } else {
                    None
                }
            },
            None => None,
        }
    }
}

fn cfg_members_x(v: &Vec<char>, i: usize, acc: CfgAccX) -> (r: Option<(CfgAccX, usize)>)
    requires
        i <= v@.len(),
    ensures
        r matches Some((a2, j)) ==> cfg_members(v@, i as int, acc@) == Some((a2@, j as int)) && i
            < j <= v@.len(),
        r is None ==> cfg_members(v@, i as int, acc@) is None,
    decreases v@.len() - i,
{
    if i >= v.len() {
        return None;
    }
    if v[i] != '"' {
        return None;
    }
    let (k, j) = match str_body_x(v, i + 1) {
        Some(r) => r,
        None => {
            return None;
        },
    };
    let j2 = ws_end_x(v, j);
    if !(j2 < v.len() && v[j2] == ':') {
        return None;
    }
    let j3 = ws_end_x(v, j2 + 1);
    let (acc2, ve) = match cfg_value_x(v, j3, &k, acc) {
        Some(r) => r,
        None => {
            return None;
        },
    };
    let j4 = ws_end_x(v, ve);
    if j4 < v.len() && v[j4] == ',' {
        let j5 = ws_end_x(v, j4 + 1);
        cfg_members_x(v, j5, acc2)
    } else if j4 < v.len() && v[j4] == '}' {
        Some((acc2, j4 + 1))
    } else {
        None
    }
}

/// The document a finished accumulator denotes, if the three
/// required fields were all present.
pub open spec fn finish_acc(acc: CfgAcc) -> Option<SpecConfig> {
    match (acc.api_host, acc.jar_path, acc.backend_port) {
        (Some(h), Some(j), Some(p)) => Some(
            SpecConfig {
                api_host: h,
                jar_path: j,
                backend_port: p,
                db_host: flatten_opt(acc.db_host),
                db_name: flatten_opt(acc.db_name),
                db_user: flatten_opt(acc.db_user),
                db_pass: flatten_opt(acc.db_pass),
            },
        ),
        _ => None,
    }
}

pub open spec fn flatten_opt(o: Option<Option<Seq<char>>>) -> Option<Seq<char>> {
    match o {
        Some(inner) => inner,
        None => None,
    }
}

/// The document denoted by a full text: one JSON object, surrounded
/// by nothing but whitespace, holding every required field exactly
/// once, each optional field at most once, and any unknown members,
/// which are ignored.
pub open spec fn spec_parse_config(s: Seq<char>) -> Option<SpecConfig> {
    let i0 = ws_end(s, 0);
    if 0 <= i0 < s.len() && s[i0] == '{' {
        let j = ws_end(s, i0 + 1);
        if 0 <= j <= s.len() {
            if j < s.len() && s[j] == '}' {
                None  // the required fields are missing
            } else {
                match cfg_members(s, j, empty_acc()) {
                    Some((acc, e)) => if 0 <= e <= s.len() && ws_end(s, e) == s.len() {
                        finish_acc(acc)
                    } else {
                        None
                    },
                    None => None,
                }
            }
        } else {
            None
        }
    } else {
        None
    }
}

/// Reads a configuration document from text.
pub fn parse_config(s: &str) -> (r: Option<FrontendConfig>)
    ensures
        r matches Some(c) ==> spec_parse_config(s@) == Some(c@),
        r is None ==> spec_parse_config(s@) is None,
{
    let v = chars_vec(s);
    let i0 = ws_end_x(&v, 0);
    if !(i0 < v.len() && v[i0] == '{') {
        return None;
    }
    let j = ws_end_x(&v, i0 + 1);
    if j < v.len() && v[j] == '}' {
        return None;
    }
    let acc0 = CfgAccX {
        api_host: None,
        jar_path: None,
        backend_port: None,
        db_host: None,
        db_name: None,
        db_user: None,
        db_pass: None,
    };
    proof {
        assert(acc0@ == empty_acc());
    }
    let (acc, e) = match cfg_members_x(&v, j, acc0) {
        Some(r) => r,
        None => {
            return None;
        },
    };
    let tail = ws_end_x(&v, e);
    if tail != v.len() {
        return None;
    }
    let (api_host, jar_path, backend_port) = match (acc.api_host, acc.jar_path, acc.backend_port) {
        (Some(h), Some(jp), Some(p)) => (h, jp, p),
        _ => {
            return None;
        },
    };
    Some(
        FrontendConfig {
            api_host,
            jar_path,
            backend_port,
            db_host: flatten_x(acc.db_host),
            db_name: flatten_x(acc.db_name),
            db_user: flatten_x(acc.db_user),
            db_pass: flatten_x(acc.db_pass),
        },
    )
}

fn flatten_x(o: Option<Option<String>>) -> (r: Option<String>)
    ensures
        view_opt(r) == flatten_opt(view_opt2(o)),
{
    match o {
        Some(inner) => inner,
        None => None,
    }
}

/// Why an update of the document could not be carried out.
#[derive(Clone, Copy, Debug, PartialEq, Eq, Structural)]
pub enum ConfigError {
    /// The supplied port is not a 16-bit unsigned integer.
    BadPort,
    /// The document already on disk could not be read as a
    /// configuration.
    Parse,
}

impl ConfigError {
    /// The operator-facing description of the failure.
    pub fn message(&self) -> (r: String)
        ensures
            *self is BadPort ==> r@ == "Niepoprawny numer portu"@,
            *self is Parse ==> r@ == "Błąd parsowania JSON: niepoprawna zawartość pliku"@,
    {
        match self {
            ConfigError::BadPort => crate::text::lit("Niepoprawny numer portu"),
            ConfigError::Parse => crate::text::lit(
                "Błąd parsowania JSON: niepoprawna zawartość pliku",
            ),
        }
    }
}

/// The document built from freshly supplied values.
pub open spec fn cfg_of_args(
    host: Seq<char>,
    port: u16,
    jar: Seq<char>,
    db_host: Option<Seq<char>>,
    db_name: Option<Seq<char>>,
    db_user: Option<Seq<char>>,
    db_pass: Option<Seq<char>>,
) -> SpecConfig {
    SpecConfig { api_host: host, jar_path: jar, backend_port: port, db_host, db_name, db_user, db_pass }
}

/// What an update of the document produces, given the text already
/// on disk (`None` when there is no file): the exact new text, or
/// the error.  The port must be a 16-bit unsigned integer; a
/// non-empty existing text must parse, though every parsed field is
/// then overwritten.
pub open spec fn spec_render_config(
    host: Seq<char>,
    port: Seq<char>,
    jar: Seq<char>,
    db_host: Option<Seq<char>>,
    db_name: Option<Seq<char>>,
    db_user: Option<Seq<char>>,
    db_pass: Option<Seq<char>>,
    existing: Option<Seq<char>>,
) -> Result<Seq<char>, ConfigError> {
    match spec_parse_uint(port, 0xFFFF) {
        None => Err(ConfigError::BadPort),
        Some(p) => {
            let parse_needed = match existing {
                Some(t) => spec_trim(t).len() > 0,
                None => false,
            };
            if parse_needed && spec_parse_config(existing.unwrap()) is None {
                Err(ConfigError::Parse)
            } else {
                Ok(
                    spec_config_json(
                        cfg_of_args(host, p as u16, jar, db_host, db_name, db_user, db_pass),
                    ),
                )
            }
        },
    }
}

pub open spec fn view_opt_str(o: Option<&str>) -> Option<Seq<char>> {
    match o {
        Some(s) => Some(s@),
        None => None,
    }
}

fn opt_to_string(o: Option<&str>) -> (r: Option<String>)
    ensures
        view_opt(r) == view_opt_str(o),
{
    match o {
        Some(s) => Some(crate::text::lit(s)),
        None => None,
    }
}

/// Computes the new text of the configuration document, mirroring
/// a read-modify-write update: the existing text, when there is one
/// and it is not blank, must parse, and every schema field is then
/// replaced by the supplied values, so the result depends on the
/// supplied values alone.
pub fn render_config(
    host: &str,
    port: &str,
    jar: &str,
    db_host: Option<&str>,
    db_name: Option<&str>,
    db_user: Option<&str>,
    db_pass: Option<&str>,
    existing: Option<&str>,
) -> (r: Result<String, ConfigError>)
    ensures
        (match r {
            Ok(out) => spec_render_config(
                host@,
                port@,
                jar@,
                view_opt_str(db_host),
                view_opt_str(db_name),
                view_opt_str(db_user),
                view_opt_str(db_pass),
                view_opt_str(existing),
            ) == Ok::<Seq<char>, ConfigError>(out@),
            Err(e) => spec_render_config(
                host@,
                port@,
                jar@,
                view_opt_str(db_host),
                view_opt_str(db_name),
                view_opt_str(db_user),
                view_opt_str(db_pass),
                view_opt_str(existing),
            ) == Err::<Seq<char>, ConfigError>(e),
        }),
{
    let port_num: u16 = match parse_u16(port) {
        Some(n) => n,
        None => {
            return Err(ConfigError::BadPort);
        },
    };
    match existing {
        Some(t) => {
            let trimmed = trim(t);
            if trimmed.as_str().unicode_len() > 0 {
                if parse_config(t).is_none() {
                    return Err(ConfigError::Parse);
                }
            }
        },
        None => {},
    }
    let fresh = FrontendConfig {
        api_host: crate::text::lit(host),
        jar_path: crate::text::lit(jar),
        backend_port: port_num,
        db_host: opt_to_string(db_host),
        db_name: opt_to_string(db_name),
        db_user: opt_to_string(db_user),
        db_pass: opt_to_string(db_pass),
    };
    let out = serialize_config(&fresh);
    Ok(out)
}

/// Rewriting the document with the same supplied values yields the
/// same bytes, whatever previous content the update read and
/// overwrote: two successful updates that differ only in the
/// existing text produce equal output.
pub proof fn lemma_update_deterministic(
    host: Seq<char>,
    port: Seq<char>,
    jar: Seq<char>,
    db_host: Option<Seq<char>>,
    db_name: Option<Seq<char>>,
    db_user: Option<Seq<char>>,
    db_pass: Option<Seq<char>>,
    existing1: Option<Seq<char>>,
    existing2: Option<Seq<char>>,
)
    requires
        spec_render_config(host, port, jar, db_host, db_name, db_user, db_pass, existing1) is Ok,
        spec_render_config(host, port, jar, db_host, db_name, db_user, db_pass, existing2) is Ok,
    ensures
        spec_render_config(host, port, jar, db_host, db_name, db_user, db_pass, existing1)
            == spec_render_config(host, port, jar, db_host, db_name, db_user, db_pass, existing2),
{
}

/// A document whose database fields are all absent renders with
/// exactly the three required members: no `DB_`-prefixed key
/// stands in the text.
pub proof fn lemma_no_db_members(c: SpecConfig)
    requires
        c.db_host is None,
        c.db_name is None,
        c.db_user is None,
        c.db_pass is None,
    ensures
        spec_config_json(c) == "{\n  "@ + member_text("API_HOST"@, MemberVal::S(c.api_host))
            + ",\n  "@ + member_text("JAR_PATH"@, MemberVal::S(c.jar_path)) + ",\n  "@
            + member_text("BACKEND_PORT"@, MemberVal::N(c.backend_port)) + "\n}"@,
{
    let ms = config_members_list(c);
    assert(ms.len() == 3);
    assert(ms.skip(1)[0] == ms[1]);
    assert(ms.skip(1).skip(1) =~= ms.skip(2));
    assert(ms.skip(2)[0] == ms[2]);
    assert(ms.skip(2).len() == 1);
    assert(rest_text(ms.skip(2)) == member_text(ms[2].0, ms[2].1) + "\n}"@);
    assert(rest_text(ms.skip(1)) == member_text(ms[1].0, ms[1].1) + ",\n  "@ + rest_text(
        ms.skip(2),
    ));
    assert(rest_text(ms) == member_text(ms[0].0, ms[0].1) + ",\n  "@ + rest_text(ms.skip(1)));
    assert(spec_config_json(c) =~= "{\n  "@ + member_text("API_HOST"@, MemberVal::S(c.api_host))
        + ",\n  "@ + member_text("JAR_PATH"@, MemberVal::S(c.jar_path)) + ",\n  "@
        + member_text("BACKEND_PORT"@, MemberVal::N(c.backend_port)) + "\n}"@);
}

/// What one member does to the accumulator, mirroring
/// [`cfg_value`]: a schema field of the right shape is stored once,
/// an unknown member changes nothing, anything else fails.
pub open spec fn upd_acc(acc: CfgAcc, key: Seq<char>, v: MemberVal) -> Option<CfgAcc> {
    if key == "API_HOST"@ {
        if acc.api_host is Some {
            None
        } else {
            match v {
                MemberVal::S(t) => Some(CfgAcc { api_host: Some(t), ..acc }),
                _ => None,
            }
        }
    } else if key == "JAR_PATH"@ {
        if acc.jar_path is Some {
            None
        } else {
            match v {
                MemberVal::S(t) => Some(CfgAcc { jar_path: Some(t), ..acc }),
                _ => None,
            }
        }
    } else if key == "BACKEND_PORT"@ {
        if acc.backend_port is Some {
            None
        } else {
            match v {
                MemberVal::N(n) => Some(CfgAcc { backend_port: Some(n), ..acc }),
                _ => None,
            }
        }
    } else if key == "DB_HOST"@ {
        if acc.db_host is Some {
            None
        } else {
            match v {
                MemberVal::S(t) => Some(CfgAcc { db_host: Some(Some(t)), ..acc }),
                _ => None,
            }
        }
    } else if key == "DB_NAME"@ {
        if acc.db_name is Some {
            None
        } else {
            match v {
                MemberVal::S(t) => Some(CfgAcc { db_name: Some(Some(t)), ..acc }),
                _ => None,
            }
        }
    } else if key == "DB_USER"@ {
        if acc.db_user is Some {
            None
        } else {
            match v {
                MemberVal::S(t) => Some(CfgAcc { db_user: Some(Some(t)), ..acc }),
                _ => None,
            }
        }
    } else if key == "DB_PASS"@ {
        if acc.db_pass is Some {
            None
        } else {
            match v {
                MemberVal::S(t) => Some(CfgAcc { db_pass: Some(Some(t)), ..acc }),
                _ => None,
            }
        }
    } else {
        Some(acc)
    }
}

/// The accumulator after a run of members.
pub open spec fn fold_acc(ms: Seq<(Seq<char>, MemberVal)>, acc: CfgAcc) -> Option<CfgAcc>
    decreases ms.len(),
{
    if ms.len() == 0 {
        Some(acc)
    } else {
        match upd_acc(acc, ms[0].0, ms[0].1) {
            Some(a2) => fold_acc(ms.skip(1), a2),
            None => None,
        }
    }
}

/// Reading the rendered members recovers exactly the folded
/// accumulator, and consumes the text to its end.
#[verifier::rlimit(100)]
pub proof fn lemma_cfg_members_text(
    s: Seq<char>,
    i: int,
    ms: Seq<(Seq<char>, MemberVal)>,
    acc: CfgAcc,
)
    requires
        0 <= i <= s.len(),
        ms.len() >= 1,
        s.subrange(i, s.len() as int) == rest_text(ms),
        fold_acc(ms, acc) is Some,
    ensures
        cfg_members(s, i, acc) == Some((fold_acc(ms, acc).unwrap(), s.len() as int)),
    decreases ms.len(),
{
    reveal_strlit(": ");
    reveal_strlit("\n}");
    reveal_strlit(",\n  ");
    let key = ms[0].0;
    let v = ms[0].1;
    let rt = rest_text(ms);
    let qk = quoted(key);
    let vtext = match v {
        MemberVal::S(t) => quoted(t),
        MemberVal::N(n) => dec_digits(n as nat),
    };
    let mt = member_text(key, v);
    assert(mt == qk + ": "@ + vtext);
    assert(forall|k: int| 0 <= k < rt.len() ==> s[i + k] == #[trigger] rt[k]) by {
        assert(forall|k: int|
            0 <= k < rt.len() ==> s.subrange(i, s.len() as int)[k] == #[trigger] rt[k]);
    }
    assert(s.len() - i == rt.len());
    let j = i + qk.len();
    let j3 = j + 2;
    let ve = j3 + vtext.len();
    assert(rt[0] == '"') by {
        assert(qk[0] == '"');
    }
    assert(s[i] == '"');
    assert(s.subrange(i + 1, j) =~= escape(key) + seq!['"']) by {
        assert(forall|k: int|
            0 <= k < qk.len() - 1 ==> s.subrange(i + 1, j)[k] == #[trigger] (escape(key)
                + seq!['"'])[k]) by {
            assert(forall|k: int|
                0 <= k < qk.len() - 1 ==> rt[1 + k] == #[trigger] (escape(key) + seq!['"'])[k])
                by {
                assert(forall|k: int|
                    0 <= k < qk.len() - 1 ==> qk[1 + k] == #[trigger] (escape(key)
                        + seq!['"'])[k]);
            }
        }
    }
    crate::json::lemma_str_body_escape(s, i + 1, key);
    assert(str_body(s, i + 1) == Some((key, j)));
    assert(rt[j - i] == ':') by {
        assert(mt[j - i] == ": "@[0]);
    }
    assert(s[j] == ':');
    assert(rt[j + 1 - i] == ' ') by {
        assert(mt[j + 1 - i] == ": "@[1]);
    }
    assert(s[j + 1] == ' ');
    assert(ws_end(s, j) == j);
    assert(vtext.len() > 0) by {
        match v {
            MemberVal::S(t) => {},
            MemberVal::N(n) => {
                crate::text::lemma_dec_digits_shape(n as nat);
            },
        }
    }
    assert(rt[j3 - i] == vtext[0]) by {
        assert(mt[j3 - i] == vtext[0]);
    }
    assert(s[j3] == vtext[0]);
    match v {
        MemberVal::S(t) => {
            assert(vtext[0] == '"');
            assert(!is_ws(s[j3]));
        },
        MemberVal::N(n) => {
            crate::text::lemma_dec_digits_shape(n as nat);
            assert(is_digit(vtext[0]));
            assert(!is_ws(s[j3]));
        },
    }
    crate::json::lemma_ws_end_run(s, j + 1, j3);
    assert(ws_end(s, j + 1) == j3);
    // the character after the value: a comma or a line feed
    let after: char = if ms.len() == 1 { '\n' } else { ',' };
    assert(rt[ve - i] == after) by {
        if ms.len() == 1 {
            assert(rt == mt + "\n}"@);
            assert(rt[mt.len() as int] == "\n}"@[0]);
        } else {
            assert(rt == mt + ",\n  "@ + rest_text(ms.skip(1)));
            assert(rt[mt.len() as int] == ",\n  "@[0]);
        }
    }
    assert(s[ve] == after);
    // value facts
    match v {
        MemberVal::S(t) => {
            assert(s.subrange(j3 + 1, ve) =~= escape(t) + seq!['"']) by {
                assert(forall|k: int|
                    0 <= k < vtext.len() - 1 ==> s.subrange(j3 + 1, ve)[k] == #[trigger] (escape(
                        t,
                    ) + seq!['"'])[k]) by {
                    assert(forall|k: int|
                        0 <= k < vtext.len() - 1 ==> rt[j3 + 1 - i + k] == #[trigger] (escape(t)
                            + seq!['"'])[k]) by {
                        assert(forall|k: int|
                            0 <= k < vtext.len() - 1 ==> mt[j3 + 1 - i + k] == #[trigger] (escape(
                                t,
                            ) + seq!['"'])[k]) by {
                            assert(forall|k: int|
                                0 <= k < vtext.len() - 1 ==> vtext[1 + k] == #[trigger] (escape(t)
                                    + seq!['"'])[k]);
                        }
                    }
                }
            }
            crate::json::lemma_str_body_escape(s, j3 + 1, t);
            assert(str_body(s, j3 + 1) == Some((t, ve)));
            assert(str_at(s, j3) == Some((t, ve)));
            assert(value_end(s, j3) == Some(ve));
        },
        MemberVal::N(n) => {
            assert(s.subrange(j3, ve) =~= dec_digits(n as nat)) by {
                assert(forall|k: int|
                    0 <= k < vtext.len() ==> s.subrange(j3, ve)[k] == #[trigger] dec_digits(
                        n as nat,
                    )[k]) by {
                    assert(forall|k: int|
                        0 <= k < vtext.len() ==> rt[j3 - i + k] == #[trigger] dec_digits(
                            n as nat,
                        )[k]) by {
                        assert(forall|k: int|
                            0 <= k < vtext.len() ==> mt[j3 - i + k] == #[trigger] dec_digits(
                                n as nat,
                            )[k]);
                    }
                }
            }
            assert(!is_digit(after) && after != '.' && after != 'e' && after != 'E');
            crate::json::lemma_u16_at_dec(s, j3, n);
            assert(u16_at(s, j3) == Some((n, ve)));
            assert(value_end(s, j3) == Some(ve));
            assert(str_at(s, j3) is None);
        },
    }
    let acc2 = upd_acc(acc, key, v).unwrap();
    assert(cfg_value(s, j3, key, acc) == Some((acc2, ve)));
    if ms.len() == 1 {
        assert(rt[ve + 1 - i] == '}') by {
            assert(rt[mt.len() as int + 1] == "\n}"@[1]);
        }
        assert(s[ve + 1] == '}');
        assert(ve + 2 == s.len());
        crate::json::lemma_ws_end_run(s, ve, ve + 1);
        assert(ws_end(s, ve) == ve + 1);
        assert(ms.skip(1).len() == 0);
        assert(fold_acc(ms, acc) == Some(acc2));
        assert(cfg_members(s, i, acc) == Some((acc2, ve + 2)));
    } else {
        assert(ws_end(s, ve) == ve);
        assert(rt[ve + 1 - i] == '\n' && rt[ve + 2 - i] == ' ' && rt[ve + 3 - i] == ' ') by {
            assert(rt[mt.len() as int + 1] == ",\n  "@[1]);
            assert(rt[mt.len() as int + 2] == ",\n  "@[2]);
            assert(rt[mt.len() as int + 3] == ",\n  "@[3]);
        }
        assert(s[ve + 1] == '\n' && s[ve + 2] == ' ' && s[ve + 3] == ' ');
        let nxt = rest_text(ms.skip(1));
        assert(nxt.len() > 0) by {
            assert(ms.skip(1).len() >= 1);
            assert(quoted(ms.skip(1)[0].0).len() >= 2);
        }
        assert(rt[ve + 4 - i] == nxt[0]) by {
            assert(rt[mt.len() as int + 4] == nxt[0]);
        }
        assert(nxt[0] == '"') by {
            assert(quoted(ms.skip(1)[0].0)[0] == '"');
            assert(member_text(ms.skip(1)[0].0, ms.skip(1)[0].1)[0] == '"');
        }
        assert(s[ve + 4] == '"');
        crate::json::lemma_ws_end_run(s, ve + 1, ve + 4);
        assert(ws_end(s, ve + 1) == ve + 4);
        assert(s.subrange(ve + 4, s.len() as int) =~= nxt) by {
            assert(forall|k: int|
                0 <= k < nxt.len() ==> s.subrange(ve + 4, s.len() as int)[k] == #[trigger] nxt[k])
                by {
                assert(forall|k: int|
                    0 <= k < nxt.len() ==> rt[mt.len() as int + 4 + k] == #[trigger] nxt[k]);
            }
        }
        assert(fold_acc(ms.skip(1), acc2) is Some);
        lemma_cfg_members_text(s, ve + 4, ms.skip(1), acc2);
        assert(fold_acc(ms, acc) == fold_acc(ms.skip(1), acc2));
        assert(cfg_members(s, i, acc) == cfg_members(s, ve + 4, acc2));
    }
}

/// A successful update that was handed no database fields at all —
/// as every update on the remote path is — writes exactly the three
/// required members: no `DB_`-prefixed key stands in the document.
pub proof fn lemma_remote_update_has_no_db_members(
    api: Seq<char>,
    port: Seq<char>,
    jar: Seq<char>,
    existing: Option<Seq<char>>,
    out: Seq<char>,
)
    requires
        spec_render_config(api, port, jar, None, None, None, None, existing) == Ok::<
            Seq<char>,
            ConfigError,
        >(out),
    ensures
        spec_parse_uint(port, 0xFFFF) is Some,
        out == "{\n  "@ + member_text("API_HOST"@, MemberVal::S(api)) + ",\n  "@ + member_text(
            "JAR_PATH"@,
            MemberVal::S(jar),
        ) + ",\n  "@ + member_text(
            "BACKEND_PORT"@,
            MemberVal::N(spec_parse_uint(port, 0xFFFF).unwrap() as u16),
        ) + "\n}"@,
{
    let p = spec_parse_uint(port, 0xFFFF).unwrap();
    let start: int = if port.len() > 0 && port[0] == '+' {
        1
    } else {
        0
    };
    crate::text::lemma_read_digits_le(port, start, 0, 0xFFFF);
    let c = cfg_of_args(api, p as u16, jar, None, None, None, None);
    lemma_no_db_members(c);
}

/// The accumulator folds one further member at the end.
pub proof fn lemma_fold_acc_push(
    ms: Seq<(Seq<char>, MemberVal)>,
    m: (Seq<char>, MemberVal),
    acc: CfgAcc,
)
    ensures
        fold_acc(ms.push(m), acc) == (match fold_acc(ms, acc) {
            Some(x) => upd_acc(x, m.0, m.1),
            None => None,
        }),
    decreases ms.len(),
{
    if ms.len() == 0 {
        assert(ms.push(m)[0] == m);
        assert(ms.push(m).skip(1) =~= Seq::<(Seq<char>, MemberVal)>::empty());
        match upd_acc(acc, m.0, m.1) {
            Some(a2) => {
                assert(fold_acc(ms.push(m).skip(1), a2) == Some(a2));
            },
            None => {},
        }
    } else {
        assert(ms.push(m)[0] == ms[0]);
        assert(ms.push(m).skip(1) =~= ms.skip(1).push(m));
        match upd_acc(acc, ms[0].0, ms[0].1) {
            Some(a2) => {
                lemma_fold_acc_push(ms.skip(1), m, a2);
            },
            None => {},
        }
    }
}

/// The seven schema keys are pairwise distinct, so each dispatch
/// in [`upd_acc`] and [`cfg_value`] reaches its own branch.
pub proof fn lemma_keys_distinct()
    ensures
        "JAR_PATH"@ != "API_HOST"@,
        "BACKEND_PORT"@ != "API_HOST"@,
        "BACKEND_PORT"@ != "JAR_PATH"@,
        "DB_HOST"@ != "API_HOST"@,
        "DB_HOST"@ != "JAR_PATH"@,
        "DB_HOST"@ != "BACKEND_PORT"@,
        "DB_NAME"@ != "API_HOST"@,
        "DB_NAME"@ != "JAR_PATH"@,
        "DB_NAME"@ != "BACKEND_PORT"@,
        "DB_NAME"@ != "DB_HOST"@,
        "DB_USER"@ != "API_HOST"@,
        "DB_USER"@ != "JAR_PATH"@,
        "DB_USER"@ != "BACKEND_PORT"@,
        "DB_USER"@ != "DB_HOST"@,
        "DB_USER"@ != "DB_NAME"@,
        "DB_PASS"@ != "API_HOST"@,
        "DB_PASS"@ != "JAR_PATH"@,
        "DB_PASS"@ != "BACKEND_PORT"@,
        "DB_PASS"@ != "DB_HOST"@,
        "DB_PASS"@ != "DB_NAME"@,
        "DB_PASS"@ != "DB_USER"@,
{
    reveal_strlit("API_HOST");
    reveal_strlit("JAR_PATH");
    reveal_strlit("BACKEND_PORT");
    reveal_strlit("DB_HOST");
    reveal_strlit("DB_NAME");
    reveal_strlit("DB_USER");
    reveal_strlit("DB_PASS");
    assert("JAR_PATH"@[0] != "API_HOST"@[0]);
    assert("DB_NAME"@[3] != "DB_HOST"@[3]);
    assert("DB_USER"@[3] != "DB_HOST"@[3]);
    assert("DB_USER"@[3] != "DB_NAME"@[3]);
    assert("DB_PASS"@[3] != "DB_HOST"@[3]);
    assert("DB_PASS"@[3] != "DB_NAME"@[3]);
    assert("DB_PASS"@[3] != "DB_USER"@[3]);
}

/// Reading back a rendered document recovers exactly the document
/// that was rendered.
#[verifier::rlimit(60)]
pub proof fn lemma_config_round_trip(c: SpecConfig)
    ensures
        spec_parse_config(spec_config_json(c)) == Some(c),
{
    reveal_strlit("{\n  ");
    lemma_keys_distinct();
    let ms = config_members_list(c);
    let s = spec_config_json(c);
    let e = empty_acc();
    // the fold over the three required members
    let l0 = seq![
        ("API_HOST"@, MemberVal::S(c.api_host)),
        ("JAR_PATH"@, MemberVal::S(c.jar_path)),
        ("BACKEND_PORT"@, MemberVal::N(c.backend_port)),
    ];
    assert(l0.skip(1)[0] == l0[1]);
    assert(l0.skip(1).skip(1) =~= l0.skip(2));
    assert(l0.skip(2)[0] == l0[2]);
    assert(l0.skip(2).skip(1).len() == 0);
    let a1 = upd_acc(e, "API_HOST"@, MemberVal::S(c.api_host)).unwrap();
    let a2 = upd_acc(a1, "JAR_PATH"@, MemberVal::S(c.jar_path)).unwrap();
    let a3 = upd_acc(a2, "BACKEND_PORT"@, MemberVal::N(c.backend_port)).unwrap();
    assert(fold_acc(l0.skip(2).skip(1), a3) == Some(a3));
    assert(fold_acc(l0.skip(2), a2) == Some(a3));
    assert(fold_acc(l0.skip(1), a1) == Some(a3));
    assert(fold_acc(l0, e) == Some(a3));
    let ghost mut lst = l0;
    let ghost mut af = a3;
    if c.db_host is Some {
        let m = ("DB_HOST"@, MemberVal::S(c.db_host.unwrap()));
        lemma_fold_acc_push(lst, m, e);
        af = upd_acc(af, m.0, m.1).unwrap();
        lst = lst.push(m);
        assert(fold_acc(lst, e) == Some(af));
    }
    if c.db_name is Some {
        let m = ("DB_NAME"@, MemberVal::S(c.db_name.unwrap()));
        lemma_fold_acc_push(lst, m, e);
        af = upd_acc(af, m.0, m.1).unwrap();
        lst = lst.push(m);
        assert(fold_acc(lst, e) == Some(af));
    }
    if c.db_user is Some {
        let m = ("DB_USER"@, MemberVal::S(c.db_user.unwrap()));
        lemma_fold_acc_push(lst, m, e);
        af = upd_acc(af, m.0, m.1).unwrap();
        lst = lst.push(m);
        assert(fold_acc(lst, e) == Some(af));
    }
    if c.db_pass is Some {
        let m = ("DB_PASS"@, MemberVal::S(c.db_pass.unwrap()));
        lemma_fold_acc_push(lst, m, e);
        af = upd_acc(af, m.0, m.1).unwrap();
        lst = lst.push(m);
        assert(fold_acc(lst, e) == Some(af));
    }
    assert(lst == ms);
    assert(fold_acc(ms, e) == Some(af));
    assert(af.api_host == Some(c.api_host));
    assert(af.jar_path == Some(c.jar_path));
    assert(af.backend_port == Some(c.backend_port));
    // the text walk
    let rt = rest_text(ms);
    assert(ms[0] == l0[0]);
    assert(rt.len() > 0 && rt[0] == '"') by {
        assert(quoted(ms[0].0)[0] == '"');
        assert(member_text(ms[0].0, ms[0].1)[0] == '"');
        if ms.len() == 1 {
        } else {
        }
    }
    assert(s.len() == 4 + rt.len());
    assert(s[0] == '{' && s[1] == '\n' && s[2] == ' ' && s[3] == ' ') by {
        assert(s[0] == "{\n  "@[0]);
        assert(s[1] == "{\n  "@[1]);
        assert(s[2] == "{\n  "@[2]);
        assert(s[3] == "{\n  "@[3]);
    }
    assert(s[4] == rt[0]);
    assert(ws_end(s, 0) == 0);
    crate::json::lemma_ws_end_run(s, 1, 4);
    assert(ws_end(s, 1) == 4);
    assert(s.subrange(4, s.len() as int) =~= rt) by {
        assert(forall|k: int| 0 <= k < rt.len() ==> s.subrange(4, s.len() as int)[k]
            == #[trigger] rt[k]) by {
            assert(forall|k: int| 0 <= k < rt.len() ==> s[4 + k] == #[trigger] rt[k]);
        }
    }
    lemma_cfg_members_text(s, 4, ms, e);
    assert(cfg_members(s, 4, e) == Some((af, s.len() as int)));
    assert(ws_end(s, s.len() as int) == s.len() as int);
    assert(finish_acc(af) == Some(c)) by {
        let got = finish_acc(af).unwrap();
        assert(got.api_host == c.api_host);
        assert(got.jar_path == c.jar_path);
        assert(got.backend_port == c.backend_port);
        assert(got.db_host == c.db_host);
        assert(got.db_name == c.db_name);
        assert(got.db_user == c.db_user);
        assert(got.db_pass == c.db_pass);
    }
    assert(spec_parse_config(s) == Some(c));
}

/// Writing the document, reading it back, and writing again with
/// the same supplied values yields byte-identical output: the text
/// written over a file the update itself produced is the text that
/// was already there.
pub proof fn lemma_update_round_trip(
    host: Seq<char>,
    port: Seq<char>,
    jar: Seq<char>,
    db_host: Option<Seq<char>>,
    db_name: Option<Seq<char>>,
    db_user: Option<Seq<char>>,
    db_pass: Option<Seq<char>>,
    out: Seq<char>,
)
    requires
        spec_render_config(host, port, jar, db_host, db_name, db_user, db_pass, None) == Ok::<
            Seq<char>,
            ConfigError,
        >(out),
    ensures
        spec_render_config(host, port, jar, db_host, db_name, db_user, db_pass, Some(out)) == Ok::<
            Seq<char>,
            ConfigError,
        >(out),
{
    let p = spec_parse_uint(port, 0xFFFF).unwrap();
    let c = cfg_of_args(host, p as u16, jar, db_host, db_name, db_user, db_pass);
    lemma_config_round_trip(c);
}

} // verus!