//! Custom types (enums, composites, domains): their kind, their checksum and
//! what deployment does with each.
use vstd::prelude::*;
use crate::checksum::{checksum_spec, compute_checksum};
use crate::checksum::{normalize_sql, normalize_sql_spec};
use crate::error::GatewayError;
use crate::functions::{find_from, first_match};
use crate::text::{chars_of, contains, contains_seq, string_of};

verus! {

/// The kind of a custom type.
#[derive(Debug, Clone, Copy, PartialEq, Eq, Structural)]
pub enum TypeKind {
    Enum,
    Composite,
    Domain,
    Unknown,
}

/// A custom type read from a `types/` file.
#[derive(Debug, Clone)]
pub struct CustomType {
    pub name: String,
    pub type_kind: TypeKind,
    pub sql: String,
    pub checksum: String,
}

/// A tracked custom type.
#[derive(Debug, Clone)]
pub struct DeployedType {
    pub name: String,
    pub checksum: String,
}

/// The kind a definition declares, read from its normal form.
pub open spec fn kind_spec(n: Seq<char>) -> TypeKind {
    if contains_seq(n, "as enum"@) {
        TypeKind::Enum
    } else if contains_seq(n, "create domain"@) {
        TypeKind::Domain
    } else if contains_seq(n, "create type"@) && contains_seq(n, " as ("@) {
        TypeKind::Composite
    } else {
        TypeKind::Unknown
    }
}

/// End of the run of word characters from `i`.
pub open spec fn word_end_spec(s: Seq<char>, i: int) -> int
    decreases s.len() - i,
{
    if i < 0 || i >= s.len() {
        s.len() as int
    } else if crate::text::is_word_spec(s[i]) {
        word_end_spec(s, i + 1)
    } else {
        i
    }
}

/// The name after the first occurrence of `head` in the normal form `n`.
pub open spec fn name_after(n: Seq<char>, head: Seq<char>) -> Option<Seq<char>> {
    match first_match(n, head, 0) {
        None => None,
        Some(p) => {
            let e = word_end_spec(n, p + head.len());
            if e > p + head.len() {
                Some(n.subrange(p + head.len(), e))
            } else {
                None
            }
        },
    }
}

/// The name a type definition declares: after `create domain ` for a domain,
/// after `create type ` otherwise, in its normal form.
pub open spec fn type_name_spec(n: Seq<char>) -> Option<Seq<char>> {
    if kind_spec(n) == TypeKind::Domain {
        name_after(n, "create domain "@)
    } else {
        name_after(n, "create type "@)
    }
}

fn name_after_exec(n: &Vec<char>, head: &str) -> (r: Option<Vec<char>>)
    ensures
        r matches Some(v) ==> name_after(n@, head@) == Some(v@),
        r is None ==> name_after(n@, head@) is None,
{
    let h = chars_of(head);
    match find_from(n, 0, &h) {
        None => None,
        Some(p) => {
            let total = n.len();
            assert(p + h@.len() <= total);
            let start = p + h.len();
            let mut e = start;
            while e < n.len() && crate::text::is_word_char(n[e])
                invariant
                    start <= e <= n@.len(),
                    word_end_spec(n@, start as int) == word_end_spec(n@, e as int),
                decreases n@.len() - e,
            {
                e = e + 1;
            }
            if e > start {
                Some(crate::text::slice_chars(n, start, e))
            } else {
                None
            }
        },
    }
}

/// What deployment does with one type file.
#[derive(Debug, Clone, Copy, PartialEq, Eq, Structural)]
pub enum TypeAction {
    /// Tracked with the same checksum.
    Skip,
    /// The type exists already: the live type is left as it is, the tracking updated.
    RecordExisting,
    /// Run the file and record it.
    Create,
}

/// Deploys the custom types of a schema.
pub struct CustomTypeManager;

impl CustomTypeManager {
    pub fn new() -> (r: Self) {
        CustomTypeManager
    }

    fn kind_of(&self, n: &Vec<char>) -> (r: TypeKind)
        ensures
            r == kind_spec(n@),
    {
        if contains(n, &chars_of("as enum")) {
            TypeKind::Enum
        } else if contains(n, &chars_of("create domain")) {
            TypeKind::Domain
        } else if contains(n, &chars_of("create type")) && contains(n, &chars_of(" as (")) {
            TypeKind::Composite
        } else {
            TypeKind::Unknown
        }
    }

    /// The kind of type a definition declares, read from its normal form.
    pub fn type_kind(&self, sql: &str) -> (r: TypeKind)
        ensures
            r == kind_spec(normalize_sql_spec(sql@)),
    {
        let n = normalize_sql(sql);
        self.kind_of(&chars_of(n.as_str()))
    }

    /// Reads a type definition: its name, kind and checksum, all taken from
    /// its normal form; fails where no type name can be read.
    pub fn parse_type(&self, sql: &str) -> (r: Result<CustomType, GatewayError>)
        ensures
            type_name_spec(normalize_sql_spec(sql@)) is None <==> r is Err,
            r matches Ok(t) ==> Some(t.name@) == type_name_spec(normalize_sql_spec(sql@))
                && t.type_kind == kind_spec(normalize_sql_spec(sql@))
                && t.checksum@ == checksum_spec(sql@)
                && t.sql@ == sql@,
            r matches Err(e) ==> e is SchemaExtractionFailed,
    {
        let n = chars_of(normalize_sql(sql).as_str());
        let kind = self.kind_of(&n);
        let name = if matches!(kind, TypeKind::Domain) {
            name_after_exec(&n, "create domain ")
        } else {
            name_after_exec(&n, "create type ")
        };
        match name {
            Some(v) => Ok(CustomType {
                name: string_of(&v),
                type_kind: kind,
                sql: string_of(&chars_of(sql)),
                checksum: compute_checksum(sql),
            }),
            None => Err(GatewayError::SchemaExtractionFailed {
                cause: string_of(&chars_of("Could not extract type name from SQL")),
            }),
        }
    }

    /// The formatting-insensitive checksum of a type definition.
    pub fn compute_checksum(&self, sql: &str) -> (r: String)
        ensures
            r@ == checksum_spec(sql@),
    {
        compute_checksum(sql)
    }

    /// The decision for one type file: `recorded` is the tracked checksum, if
    /// any, `exists` whether a type of that name is in the database.
    pub fn type_action(&self, recorded: Option<&str>, exists: bool, checksum: &str) -> (r: TypeAction)
        ensures
            r == (match recorded {
                Some(t) => if t@ == checksum@ {
                    TypeAction::Skip
                } else if exists {
                    TypeAction::RecordExisting
                } else {
                    TypeAction::Create
                },
                None => if exists {
                    TypeAction::RecordExisting
                } else {
                    TypeAction::Create
                },
            }),
    {
        match recorded {
            Some(t) => {
                if crate::text::eq_chars(&chars_of(t), &chars_of(checksum)) {
                    TypeAction::Skip
                } else if exists {
                    TypeAction::RecordExisting
                } else {
                    TypeAction::Create
                }
            },
            None => {
                if exists {
                    TypeAction::RecordExisting
                } else {
                    TypeAction::Create
                }
            },
        }
    }
}

/// Type definitions with the same normal form (they differ only in comments,
/// whitespace runs and letter case) read as the same type.
pub proof fn lemma_parse_type_depends_on_normal_form(a: Seq<char>, b: Seq<char>)
    requires
        normalize_sql_spec(a) == normalize_sql_spec(b),
    ensures
        type_name_spec(normalize_sql_spec(a)) == type_name_spec(normalize_sql_spec(b)),
        kind_spec(normalize_sql_spec(a)) == kind_spec(normalize_sql_spec(b)),
        checksum_spec(a) == checksum_spec(b),
{
}

} // verus!
