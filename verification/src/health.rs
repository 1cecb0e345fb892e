//! Classification of the remote backend's health probe: the probe
//! URL, and the reading of the response body, which is expected to
//! be a JSON object whose top-level `status` member is the string
//! `UP`.

use vstd::prelude::*;
use crate::json::{ws_end, ws_end_x, str_body, str_body_x, value_end, value_end_x, quoted};
use crate::text::{join4, join2, lit, chars_vec, string_from_chars};

verus! {

/// The health endpoint for a backend address and port.
pub fn health_url(url: &str, port: &str) -> (r: String)
    ensures
        r@ == url@ + ":"@ + port@ + "/actuator/health"@,
{
    join4(url, ":", port, "/actuator/health")
}

/// What the top-level `status` member of an object held, while the
/// scan walks the members: not seen yet, seen with a value that is
/// not a string, or seen as a string.  A later occurrence of the
/// member replaces an earlier one.
pub open spec fn upd_status(
    found: Option<Option<Seq<char>>>,
    k: Seq<char>,
    v: Option<Seq<char>>,
) -> Option<Option<Seq<char>>> {
    if k == "status"@ {
        Some(v)
    } else {
        found
    }
}

/// Walks the members of the top-level object from a position that
/// must hold a member key, validating them as [`crate::json::obj_rest`]
/// does, and tracking the last `status` member: `Some(Some(t))` for
/// a string value `t`, `Some(None)` for a value of any other kind.
pub open spec fn status_scan(
    s: Seq<char>,
    i: int,
    found: Option<Option<Seq<char>>>,
) -> Option<(Option<Option<Seq<char>>>, int)>
    decreases s.len() - i,
{
    if !(0 <= i < s.len()) {
        None
    } else if s[i] != '"' {
        None
    } else {
        match str_body(s, i + 1) {
            Some((k, j)) => {
                let j2 = ws_end(s, j);
                if 0 <= j <= s.len() && j2 < s.len() && s[j2] == ':' {
                    let j3 = ws_end(s, j2 + 1);
                    if i < j3 <= s.len() {
                        let parsed: Option<(Option<Seq<char>>, int)> = if j3 < s.len() && s[j3]
                            == '"' {
                            match str_body(s, j3 + 1) {
                                Some((t, ve)) => Some((Some(t), ve)),
                                None => None,
                            }
                        } else {
                            match value_end(s, j3) {
                                Some(ve) => Some((None, ve)),
                                None => None,
                            }
                        };
                        match parsed {
                            Some((v, ve)) => if i < ve <= s.len() {
                                let found2 = upd_status(found, k, v);
                                let j4 = ws_end(s, ve);
                                if j4 < s.len() && s[j4] == ',' {
                                    let j5 = ws_end(s, j4 + 1);
                                    if i < j5 <= s.len() {
                                        status_scan(s, j5, found2)
                                    } else {
                                        None
                                    }
                                } else if j4 < s.len() && s[j4] == '}' {
                                    Some((found2, j4 + 1))
                                } else {
                                    None
                                }
                            } else {
                                None
                            },
                            None => None,
                        }
                    } else {
                        None
                    }
                } else {
                    None
                }
            },
            None => None,
        }
    }
}

fn status_scan_x(v: &Vec<char>, i: usize, found: Option<Option<String>>) -> (r: Option<
    (Option<Option<String>>, usize),
>)
    requires
        i <= v@.len(),
    ensures
        r matches Some((f, j)) ==> status_scan(v@, i as int, crate::config::view_opt2(found))
            == Some((crate::config::view_opt2(f), j as int)) && i < j <= v@.len(),
        r is None ==> status_scan(v@, i as int, crate::config::view_opt2(found)) is None,
    decreases v@.len() - i,
{
    if i >= v.len() {
        return None;
    }
    if v[i] != '"' {
        return None;
    }
    let (k, j) = match str_body_x(v, i + 1) {
        Some(r) => r,
        None => {
            return None;
        },
    };
    let j2 = ws_end_x(v, j);
    if !(j2 < v.len() && v[j2] == ':') {
        return None;
    }
    let j3 = ws_end_x(v, j2 + 1);
    let parsed: Option<(Option<String>, usize)> = if j3 < v.len() && v[j3] == '"' {
        match str_body_x(v, j3 + 1) {
            Some((t, ve)) => Some((Some(string_from_chars(&t)), ve)),
            None => None,
        }
    } else {
        match value_end_x(v, j3) {
            Some(ve) => Some((None, ve)),
            None => None,
        }
    };
    let (val, ve) = match parsed {
        Some(r) => r,
        None => {
            return None;
        },
    };
    let found2: Option<Option<String>> = if crate::text::eq_chars(&k, &chars_vec("status")) {
        Some(val)
    } else {
        found
    };
    let j4 = ws_end_x(v, ve);
    if j4 < v.len() && v[j4] == ',' {
        let j5 = ws_end_x(v, j4 + 1);
        status_scan_x(v, j5, found2)
    } else if j4 < v.len() && v[j4] == '}' {
        Some((found2, j4 + 1))
    } else {
        None
    }
}

/// What a response body says: not JSON at all, the status string
/// `UP`, or anything else, rendered as the diagnostic text shown to
/// the operator (`"DOWN"` with its quotes for another string, the
/// word `null` when no string status is present).
pub ghost enum SpecBody {
    Invalid,
    Up,
    Other(Seq<char>),
}

/// The reading of a response body.
pub open spec fn spec_health_body(s: Seq<char>) -> SpecBody {
    let i0 = ws_end(s, 0);
    if !(0 <= i0 < s.len()) {
        SpecBody::Invalid
    } else if s[i0] == '{' {
        let j = ws_end(s, i0 + 1);
        if !(0 <= j <= s.len()) {
            SpecBody::Invalid
        } else if j < s.len() && s[j] == '}' {
            if 0 <= j + 1 <= s.len() && ws_end(s, j + 1) == s.len() {
                SpecBody::Other("null"@)
            } else {
                SpecBody::Invalid
            }
        } else {
            match status_scan(s, j, None) {
                Some((found, e)) => if 0 <= e <= s.len() && ws_end(s, e) == s.len() {
                    match found {
                        Some(Some(t)) => if t == "UP"@ {
                            SpecBody::Up
                        } else {
                            SpecBody::Other(quoted(t))
                        },
                        _ => SpecBody::Other("null"@),
                    }
                } else {
                    SpecBody::Invalid
                },
                None => SpecBody::Invalid,
            }
        }
    } else {
        match value_end(s, i0) {
            Some(e) => if 0 <= e <= s.len() && ws_end(s, e) == s.len() {
                SpecBody::Other("null"@)
            } else {
                SpecBody::Invalid
            },
            None => SpecBody::Invalid,
        }
    }
}

/// Executable verdict on a response body.
pub enum BodyVerdict {
    Invalid,
    Up,
    Other(String),
}

/// Reads a response body, as [`spec_health_body`] describes it.
pub fn health_body_verdict(body: &str) -> (r: BodyVerdict)
    ensures
        r is Invalid <==> spec_health_body(body@) is Invalid,
        r is Up <==> spec_health_body(body@) is Up,
        r matches BodyVerdict::Other(d) ==> spec_health_body(body@) == SpecBody::Other(d@),
{
    let v = chars_vec(body);
    let i0 = ws_end_x(&v, 0);
    if i0 >= v.len() {
        return BodyVerdict::Invalid;
    }
    if v[i0] == '{' {
        let j = ws_end_x(&v, i0 + 1);
        if j < v.len() && v[j] == '}' {
            if ws_end_x(&v, j + 1) == v.len() {
                return BodyVerdict::Other(lit("null"));
            } else {
                return BodyVerdict::Invalid;
            }
        }
        match status_scan_x(&v, j, None) {
            Some((found, e)) => {
                if ws_end_x(&v, e) != v.len() {
                    return BodyVerdict::Invalid;
                }
                match found {
                    Some(Some(t)) => {
                        if crate::text::eq_chars(&chars_vec(t.as_str()), &chars_vec("UP")) {
                            BodyVerdict::Up
                        } else {
                            let mut out: Vec<char> = Vec::new();
                            crate::json::push_quoted(&mut out, t.as_str());
                            proof {
                                assert(out@ =~= quoted(t@));
                            }
                            BodyVerdict::Other(string_from_chars(&out))
                        }
                    },
                    _ => BodyVerdict::Other(lit("null")),
                }
            },
            None => BodyVerdict::Invalid,
        }
    } else {
        match value_end_x(&v, i0) {
            Some(e) => {
                if ws_end_x(&v, e) == v.len() {
                    BodyVerdict::Other(lit("null"))
                } else {
                    BodyVerdict::Invalid
                }
            },
            None => BodyVerdict::Invalid,
        }
    }
}

/// What the probe of the health endpoint came back with, as plain
/// values: a transport failure, a response outside the 2xx range
/// (carrying the rendered status line), or a 2xx response's body.
pub enum HealthProbe {
    Transport(String),
    BadStatus(String),
    Body(String),
}

/// The reading of a whole probe outcome: the operator-facing
/// success message, or the operator-facing failure text.
pub ghost enum SpecProbe {
    Transport(Seq<char>),
    BadStatus(Seq<char>),
    Body(Seq<char>),
}

impl View for HealthProbe {
    type V = SpecProbe;

    open spec fn view(&self) -> SpecProbe {
        match self {
            HealthProbe::Transport(e) => SpecProbe::Transport(e@),
            HealthProbe::BadStatus(st) => SpecProbe::BadStatus(st@),
            HealthProbe::Body(b) => SpecProbe::Body(b@),
        }
    }
}

/// The classification of a probe outcome.
pub open spec fn spec_classify_health(p: SpecProbe) -> Result<Seq<char>, Seq<char>> {
    match p {
        SpecProbe::Transport(e) => Err("Błąd połączenia: "@ + e),
        SpecProbe::BadStatus(st) => Err("HTTP status: "@ + st),
        SpecProbe::Body(b) => match spec_health_body(b) {
            SpecBody::Up => Ok("Połączenie OK - status UP"@),
            SpecBody::Other(d) => Err("Status: "@ + d),
            SpecBody::Invalid => Err("Niepoprawna odpowiedź JSON"@),
        },
    }
}

/// Classifies a probe of the health endpoint: `Ok` exactly when a
/// 2xx response carried a JSON object whose `status` member is the
/// string `UP`, and the exact diagnostic text otherwise.
pub fn classify_health(p: &HealthProbe) -> (r: Result<String, String>)
    ensures
        (match r {
            Ok(m) => spec_classify_health(p@) == Ok::<Seq<char>, Seq<char>>(m@),
            Err(e) => spec_classify_health(p@) == Err::<Seq<char>, Seq<char>>(e@),
        }),
{
    match p {
        HealthProbe::Transport(e) => Err(join2("Błąd połączenia: ", e.as_str())),
        HealthProbe::BadStatus(st) => Err(join2("HTTP status: ", st.as_str())),
        HealthProbe::Body(b) => {
            match health_body_verdict(b.as_str()) {
                BodyVerdict::Up => Ok(lit("Połączenie OK - status UP")),
                BodyVerdict::Other(d) => Err(join2("Status: ", d.as_str())),
                BodyVerdict::Invalid => Err(lit("Niepoprawna odpowiedź JSON")),
            }
        },
    }
}

} // verus!
