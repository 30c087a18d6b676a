//! Extension installation: the statement that installs an extension, and how
//! a failed installation is reported.
use vstd::prelude::*;
use crate::error::GatewayError;
use crate::text::{
    chars_of, string_of, push_str, contains, contains_seq, trim_seq, trim_vec, slice_chars, matches_at,
    starts_with_at,
};

verus! {

/// An extension to install, named after its file.
#[derive(Debug, Clone)]
pub struct Extension {
    pub name: String,
    pub version: Option<String>,
    pub schema: Option<String>,
}

/// `CREATE EXTENSION IF NOT EXISTS "name" [SCHEMA "schema"] [VERSION 'version']`.
pub open spec fn create_extension_spec(e: Extension) -> Seq<char> {
    "CREATE EXTENSION IF NOT EXISTS \""@ + e.name@ + "\""@ + match e.schema {
        Some(s) => " SCHEMA \""@ + s@ + "\""@,
        None => Seq::empty(),
    } + match e.version {
        Some(v) => " VERSION '"@ + v@ + "'"@,
        None => Seq::empty(),
    }
}

/// Whether a server error says that the extension is not available on the cluster.
pub open spec fn not_available_spec(message: Seq<char>) -> bool {
    contains_seq(message, "could not open extension control file"@)
        || (contains_seq(message, "extension"@) && contains_seq(message, "is not available"@))
}

/// Installs the extensions of a schema.
pub struct ExtensionManager;

impl ExtensionManager {
    pub fn new() -> (r: Self) {
        ExtensionManager
    }

    /// The statement that installs `extension`.
    pub fn build_create_extension_sql(&self, extension: &Extension) -> (r: String)
        ensures
            r@ == create_extension_spec(*extension),
    {
        let mut out: Vec<char> = Vec::new();
        push_str(&mut out, "CREATE EXTENSION IF NOT EXISTS \"");
        push_str(&mut out, extension.name.as_str());
        push_str(&mut out, "\"");
        match &extension.schema {
            Some(s) => {
                push_str(&mut out, " SCHEMA \"");
                push_str(&mut out, s.as_str());
                push_str(&mut out, "\"");
            },
            None => {},
        }
        match &extension.version {
            Some(v) => {
                push_str(&mut out, " VERSION '");
                push_str(&mut out, v.as_str());
                push_str(&mut out, "'");
            },
            None => {},
        }
        assert(out@ =~= create_extension_spec(*extension));
        string_of(&out)
    }

    /// The error for a failed installation: `ExtensionNotAvailable` where the
    /// server lacks the extension, `ExtensionInstallFailed` otherwise.
    pub fn install_error(&self, database: &str, extension: &str, message: &str) -> (r: GatewayError)
        ensures
            not_available_spec(message@) ==> (r matches GatewayError::ExtensionNotAvailable { extension: e, cause }
                && e@ == extension@ && cause@ == message@),
            !not_available_spec(message@) ==> (r matches GatewayError::ExtensionInstallFailed { database: d, extension: e, cause }
                && d@ == database@ && e@ == extension@ && cause@ == message@),
    {
        let m = chars_of(message);
        let not_available = contains(&m, &chars_of("could not open extension control file"))
            || (contains(&m, &chars_of("extension")) && contains(&m, &chars_of("is not available")));
        if not_available {
            GatewayError::ExtensionNotAvailable {
                extension: string_of(&chars_of(extension)),
                cause: string_of(&m),
            }
        } else {
            GatewayError::ExtensionInstallFailed {
                database: string_of(&chars_of(database)),
                extension: string_of(&chars_of(extension)),
                cause: string_of(&m),
            }
        }
    }
}

/// Past the `--` pairs that open a comment line, from `k` on.
pub open spec fn after_dashes(line: Seq<char>, k: int) -> int
    decreases line.len() - k,
{
    if 0 <= k && k + 1 < line.len() && line[k] == '-' && line[k + 1] == '-' {
        after_dashes(line, k + 2)
    } else {
        k
    }
}

/// What a trimmed line sets: `-- version: v` the version, `-- schema: s` the schema.
pub open spec fn apply_header_line(line: Seq<char>, v: Option<Seq<char>>, sc: Option<Seq<char>>) -> (Option<Seq<char>>, Option<Seq<char>>) {
    if line.len() >= 2 && line[0] == '-' && line[1] == '-' {
        let k = after_dashes(line, 0);
        let c = trim_seq(line.subrange(k, line.len() as int));
        if starts_with_at(c, 0, "version:"@) {
            (Some(trim_seq(c.subrange(8, c.len() as int))), sc)
        } else if starts_with_at(c, 0, "schema:"@) {
            (v, Some(trim_seq(c.subrange(7, c.len() as int))))
        } else {
            (v, sc)
        }
    } else {
        (v, sc)
    }
}

/// The version and schema that the lines of `s` from `i` on set, the current
/// line read so far being `cur`; later lines win.
pub open spec fn header_from(s: Seq<char>, i: int, cur: Seq<char>, v: Option<Seq<char>>, sc: Option<Seq<char>>) -> (Option<Seq<char>>, Option<Seq<char>>)
    decreases s.len() - i,
{
    if i < 0 || i >= s.len() {
        apply_header_line(trim_seq(cur), v, sc)
    } else if s[i] == '\n' {
        let r = apply_header_line(trim_seq(cur), v, sc);
        header_from(s, i + 1, Seq::empty(), r.0, r.1)
    } else {
        header_from(s, i + 1, cur.push(s[i]), v, sc)
    }
}

pub open spec fn opt_seq(o: Option<String>) -> Option<Seq<char>> {
    match o {
        Some(x) => Some(x@),
        None => None,
    }
}

fn apply_line(line: &Vec<char>, version: &mut Option<String>, schema: &mut Option<String>)
    ensures
        (opt_seq(*final(version)), opt_seq(*final(schema))) == apply_header_line(line@, opt_seq(*old(version)), opt_seq(*old(schema))),
{
    if line.len() >= 2 && line[0] == '-' && line[1] == '-' {
        let mut k: usize = 0;
        while k < line.len() && k + 1 < line.len() && line[k] == '-' && line[k + 1] == '-'
            invariant
                k <= line@.len(),
                after_dashes(line@, 0) == after_dashes(line@, k as int),
            decreases line@.len() - k,
        {
            k = k + 2;
        }
        let comment = trim_vec(&slice_chars(line, k, line.len()));
        let vk = chars_of("version:");
        let sk = chars_of("schema:");
        proof {
            reveal_strlit("version:");
            reveal_strlit("schema:");
        }
        if matches_at(&comment, 0, &vk) {
            let v = trim_vec(&slice_chars(&comment, vk.len(), comment.len()));
            *version = Some(string_of(&v));
        } else if matches_at(&comment, 0, &sk) {
            let v = trim_vec(&slice_chars(&comment, sk.len(), comment.len()));
            *schema = Some(string_of(&v));
        }
    }
}

/// Reads `-- key: value` header lines of an extension file: `version:` and
/// `schema:` set the version and the target schema; the last of each wins.
pub fn parse_extension(name: &str, content: &str) -> (r: Extension)
    ensures
        r.name@ == name@,
        (opt_seq(r.version), opt_seq(r.schema)) == header_from(content@, 0, Seq::empty(), None, None),
{
    let text = chars_of(content);
    let mut version: Option<String> = None;
    let mut schema: Option<String> = None;
    let mut cur: Vec<char> = Vec::new();
    let mut i: usize = 0;
    while i < text.len()
        invariant
            i <= text@.len(),
            text@ == content@,
            header_from(text@, i as int, cur@, opt_seq(version), opt_seq(schema)) == header_from(content@, 0, Seq::empty(), None, None),
        decreases text@.len() - i,
    {
        let c = text[i];
        if c == '\n' {
            apply_line(&trim_vec(&cur), &mut version, &mut schema);
            cur = Vec::new();
        } else {
            cur.push(c);
        }
        i = i + 1;
    }
    apply_line(&trim_vec(&cur), &mut version, &mut schema);
    Extension { name: string_of(&chars_of(name)), version, schema }
}

} // verus!
