//! Database provisioning rules: the validation a database name must
//! pass before any SQL is issued, and the exact statement text of
//! the idempotent creation.

use vstd::prelude::*;
use crate::text::join3;

verus! {

/// A character allowed in a database name: an ASCII letter, an
/// ASCII digit, or an underscore.
pub open spec fn is_ident_char(c: char) -> bool {
    let n = c as u32;
    (48 <= n <= 57) || (65 <= n <= 90) || (97 <= n <= 122) || c == '_'
}

/// A valid database name: non-empty, made of identifier characters
/// alone.  The creation statement quotes the name with backticks
/// but does not escape it, so nothing else may pass.
pub open spec fn is_db_ident(s: Seq<char>) -> bool {
    s.len() > 0 && forall|i: int| 0 <= i < s.len() ==> is_ident_char(#[trigger] s[i])
}

/// Checks a database name, as [`is_db_ident`] describes it.
pub fn valid_db_name(s: &str) -> (r: bool)
    ensures
        r == is_db_ident(s@),
{
    let v = crate::text::chars_vec(s);
    if v.len() == 0 {
        return false;
    }
    let mut i: usize = 0;
    while i < v.len()
        invariant
            i <= v@.len(),
            v@ == s@,
            forall|k: int| 0 <= k < i ==> is_ident_char(#[trigger] v@[k]),
        decreases v@.len() - i,
    {
        let c = v[i];
        let n = c as u32;
        if !((48 <= n && n <= 57) || (65 <= n && n <= 90) || (97 <= n && n <= 122) || c == '_') {
            return false;
        }
        i += 1;
    }
    true
}

/// The statement that creates the database when it does not exist
/// yet: the name stands between backticks, unescaped, which is why
/// [`is_db_ident`] must hold first.
pub open spec fn spec_create_sql(name: Seq<char>) -> Seq<char> {
    "CREATE DATABASE IF NOT EXISTS `"@ + name + "`"@
}

/// Renders the idempotent creation statement for a validated name.
pub fn create_database_sql(name: &str) -> (r: String)
    requires
        is_db_ident(name@),
    ensures
        r@ == spec_create_sql(name@),
{
    join3("CREATE DATABASE IF NOT EXISTS `", name, "`")
}

} // verus!
