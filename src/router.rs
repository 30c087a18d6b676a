//! Database naming: sanitised identifiers, `{platform}_{tenant}` names, and
//! the validation that guards every identifier spliced into DDL.
use vstd::prelude::*;
use crate::text::{
    chars_of, string_of, is_digit_spec, is_lower_spec, is_upper_spec, lower_char, to_lower,
    starts_with_at, push_str, push_all, eq_str, slice_chars, matches_at,
};

verus! {

/// The longest identifier PostgreSQL keeps without truncation.
pub const MAX_IDENTIFIER_LEN: usize = 63;

/// Whether `s` is a lowercase PostgreSQL identifier: 1 to 63 characters, the
/// first a lowercase ASCII letter or `_`, the rest lowercase letters, digits or `_`.
pub open spec fn valid_identifier_spec(s: Seq<char>) -> bool {
    &&& 1 <= s.len() <= 63
    &&& (is_lower_spec(s[0]) || s[0] == '_')
    &&& forall|k: int| 0 <= k < s.len() ==> ident_char(#[trigger] s[k])
}

pub open spec fn ident_char(c: char) -> bool {
    is_lower_spec(c) || is_digit_spec(c) || c == '_'
}

fn valid_chars(v: &Vec<char>) -> (r: bool)
    ensures
        r == valid_identifier_spec(v@),
{
    if v.len() == 0 || v.len() > MAX_IDENTIFIER_LEN {
        return false;
    }
    let first = v[0];
    if !(('a' <= first && first <= 'z') || first == '_') {
        return false;
    }
    let mut i: usize = 0;
    while i < v.len()
        invariant
            i <= v@.len(),
            forall|k: int| 0 <= k < i ==> ident_char(#[trigger] v@[k]),
        decreases v@.len() - i,
    {
        let c = v[i];
        if !(('a' <= c && c <= 'z') || ('0' <= c && c <= '9') || c == '_') {
            return false;
        }
        i = i + 1;
    }
    true
}

/// Validates a database or role name before it is formatted into DDL.
pub fn is_valid_identifier(name: &str) -> (r: bool)
    ensures
        r == valid_identifier_spec(name@),
{
    let v = chars_of(name);
    valid_chars(&v)
}

/// Validates the name of a stored function before it is called by name.
pub fn is_valid_function_name(name: &str) -> (r: bool)
    ensures
        r == valid_identifier_spec(name@),
{
    let v = chars_of(name);
    valid_chars(&v)
}

/// ASCII letters and digits become lowercase; every other character becomes `_`.
pub open spec fn sanitize_char(c: char) -> char {
    if is_upper_spec(c) || is_lower_spec(c) || is_digit_spec(c) {
        lower_char(c)
    } else {
        '_'
    }
}

/// Index of the first character at or after `i` that is not `_` (or the length).
pub open spec fn skip_underscore_from(s: Seq<char>, i: int) -> int
    decreases s.len() - i,
{
    if i < 0 || i >= s.len() {
        s.len() as int
    } else if s[i] == '_' {
        skip_underscore_from(s, i + 1)
    } else {
        i
    }
}

/// One past the last character before `j` that is not `_` (or 0).
pub open spec fn drop_underscore_to(s: Seq<char>, j: int) -> int
    decreases j,
{
    if j <= 0 || j > s.len() {
        0
    } else if s[j - 1] == '_' {
        drop_underscore_to(s, j - 1)
    } else {
        j
    }
}

pub open spec fn trim_underscores(s: Seq<char>) -> Seq<char> {
    let a = skip_underscore_from(s, 0);
    let b = drop_underscore_to(s, s.len() as int);
    if a < b {
        s.subrange(a, b)
    } else {
        Seq::empty()
    }
}

/// The identifier that `s` sanitises to: each character mapped by
/// `sanitize_char`, then leading and trailing `_` removed.
pub open spec fn sanitize_spec(s: Seq<char>) -> Seq<char> {
    trim_underscores(s.map_values(|c: char| sanitize_char(c)))
}

fn sanitize_chars(s: &Vec<char>) -> (r: Vec<char>)
    ensures
        r@ == sanitize_spec(s@),
{
    let mut m: Vec<char> = Vec::new();
    let mut i: usize = 0;
    while i < s.len()
        invariant
            i <= s@.len(),
            m@ == s@.subrange(0, i as int).map_values(|c: char| sanitize_char(c)),
        decreases s@.len() - i,
    {
        let c = s[i];
        let d = if ('A' <= c && c <= 'Z') || ('a' <= c && c <= 'z') || ('0' <= c && c <= '9') {
            to_lower(c)
        } else {
            '_'
        };
        m.push(d);
        i = i + 1;
        assert(m@ =~= s@.subrange(0, i as int).map_values(|c: char| sanitize_char(c)));
    }
    assert(s@.subrange(0, s@.len() as int) =~= s@);
    let ghost mapped = m@;
    let mut a: usize = 0;
    while a < m.len() && m[a] == '_'
        invariant
            a <= m@.len(),
            skip_underscore_from(mapped, 0) == skip_underscore_from(mapped, a as int),
            m@ == mapped,
        decreases m@.len() - a,
    {
        a = a + 1;
    }
    let mut b = m.len();
    while b > 0 && m[b - 1] == '_'
        invariant
            b <= m@.len(),
            drop_underscore_to(mapped, mapped.len() as int) == drop_underscore_to(mapped, b as int),
            m@ == mapped,
        decreases b,
    {
        b = b - 1;
    }
    if a < b {
        slice_chars(&m, a, b)
    } else {
        Vec::new()
    }
}

/// Sanitises a platform or tenant name to the PostgreSQL identifier alphabet.
pub fn sanitize_identifier(s: &str) -> (r: String)
    ensures
        r@ == sanitize_spec(s@),
{
    let v = chars_of(s);
    let r = sanitize_chars(&v);
    string_of(&r)
}

/// `{platform}_main`, or `{platform}_{tenant}` for a tenant database.
pub open spec fn database_name_spec(platform: Seq<char>, tenant: Option<Seq<char>>) -> Seq<char> {
    match tenant {
        Some(t) => platform + seq!['_'] + t,
        None => platform + "_main"@,
    }
}

/// Whether `p` is a prefix of `s`.
pub open spec fn has_prefix(s: Seq<char>, p: Seq<char>) -> bool {
    starts_with_at(s, 0, p)
}

/// `{sanitised platform}_`: how every database name of the platform begins.
pub open spec fn platform_prefix(platform: Seq<char>) -> Seq<char> {
    sanitize_spec(platform) + seq!['_']
}

/// What follows the prefix `p` in `s`.
pub open spec fn after_prefix(s: Seq<char>, p: Seq<char>) -> Seq<char> {
    s.subrange(p.len() as int, s.len() as int)
}

/// Whether `p` is a suffix of `s`.
pub open spec fn has_suffix(s: Seq<char>, p: Seq<char>) -> bool {
    starts_with_at(s, s.len() - p.len(), p)
}

/// Joins a platform and an optional tenant id into a database name, unsanitised.
pub fn format_database_name(platform: &str, tenant_id: Option<&str>) -> (r: String)
    ensures
        r@ == database_name_spec(platform@, match tenant_id {
            Some(t) => Some(t@),
            None => None,
        }),
{
    let mut out: Vec<char> = Vec::new();
    push_str(&mut out, platform);
    match tenant_id {
        Some(t) => {
            out.push('_');
            push_str(&mut out, t);
        },
        None => {
            push_str(&mut out, "_main");
        },
    }
    string_of(&out)
}

/// Whether a database is the main database or a tenant database.
#[derive(Debug, Clone, Copy, PartialEq, Eq, Structural)]
pub enum DatabaseType {
    Main,
    Tenant,
}

/// Maps platforms and tenants to database names and back.
pub struct DatabaseRouter;

impl DatabaseRouter {
    pub fn new() -> (r: Self) {
        DatabaseRouter
    }

    /// The database of a platform (`{platform}_main`) or of one of its tenants
    /// (`{platform}_{tenant}`), both parts sanitised.
    pub fn database_name(&self, platform: &str, tenant_id: Option<&str>) -> (r: String)
        ensures
            r@ == database_name_spec(sanitize_spec(platform@), match tenant_id {
                Some(t) => Some(sanitize_spec(t@)),
                None => None,
            }),
    {
        let p = sanitize_chars(&chars_of(platform));
        let mut out = p;
        match tenant_id {
            Some(t) => {
                let s = sanitize_chars(&chars_of(t));
                out.push('_');
                push_all(&mut out, &s);
            },
            None => {
                push_str(&mut out, "_main");
            },
        }
        string_of(&out)
    }

    /// The part of a database name before its first `_`, where it has one.
    pub fn platform_from_database(&self, db_name: &str) -> (r: Option<String>)
        ensures
            r is Some <==> (exists|k: int| 0 <= k < db_name@.len() && db_name@[k] == '_'),
            r matches Some(p) ==> {
                &&& p@.len() < db_name@.len()
                &&& db_name@[p@.len() as int] == '_'
                &&& p@ == db_name@.subrange(0, p@.len() as int)
                &&& forall|k: int| 0 <= k < p@.len() ==> p@[k] != '_'
            },
    {
        let v = chars_of(db_name);
        let mut i: usize = 0;
        while i < v.len()
            invariant
                i <= v@.len(),
                v@ == db_name@,
                forall|k: int| 0 <= k < i ==> v@[k] != '_',
            decreases v@.len() - i,
        {
            if v[i] == '_' {
                let p = slice_chars(&v, 0, i);
                return Some(string_of(&p));
            }
            i = i + 1;
        }
        None
    }

    /// Whether `db_name` starts with `{sanitised platform}_`.
    pub fn belongs_to_platform(&self, db_name: &str, platform: &str) -> (r: bool)
        ensures
            r == has_prefix(db_name@, platform_prefix(platform@)),
    {
        let mut prefix = sanitize_chars(&chars_of(platform));
        prefix.push('_');
        assert(prefix@ =~= platform_prefix(platform@));
        let v = chars_of(db_name);
        matches_at(&v, 0, &prefix)
    }

    /// Whether `db_name` ends with `_main`.
    pub fn is_main_database(&self, db_name: &str) -> (r: bool)
        ensures
            r == has_suffix(db_name@, "_main"@),
    {
        let v = chars_of(db_name);
        let suffix = chars_of("_main");
        if v.len() < suffix.len() {
            return false;
        }
        matches_at(&v, v.len() - suffix.len(), &suffix)
    }

    /// The tenant part of a database name of `platform`; `None` for its main
    /// database and for databases of other platforms.
    pub fn tenant_id_from_database(&self, db_name: &str, platform: &str) -> (r: Option<String>)
        ensures
            !has_prefix(db_name@, platform_prefix(platform@)) ==> r is None,
            has_prefix(db_name@, platform_prefix(platform@)) ==> (r is Some <==> after_prefix(
                db_name@,
                platform_prefix(platform@),
            ) != "main"@),
            r matches Some(t) ==> t@ == after_prefix(db_name@, platform_prefix(platform@)),
    {
        let mut prefix = sanitize_chars(&chars_of(platform));
        prefix.push('_');
        assert(prefix@ =~= platform_prefix(platform@));
        let v = chars_of(db_name);
        if !matches_at(&v, 0, &prefix) {
            return None;
        }
        let rest = slice_chars(&v, prefix.len(), v.len());
        if eq_str(&rest, "main") {
            None
        } else {
            Some(string_of(&rest))
        }
    }

    /// `Main` for names ending in `_main`, else `Tenant`.
    pub fn database_type(&self, db_name: &str) -> (r: DatabaseType)
        ensures
            r == (if has_suffix(db_name@, "_main"@) { DatabaseType::Main } else { DatabaseType::Tenant }),
    {
        if self.is_main_database(db_name) {
            DatabaseType::Main
        } else {
            DatabaseType::Tenant
        }
    }
}

} // verus!
