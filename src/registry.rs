//! Where the schema store keeps platforms and schemas on disk: paths only.
//! Reading and writing the files is the caller's part.
use vstd::prelude::*;
use crate::error::GatewayError;
use crate::text::{chars_of, string_of, push_str};

verus! {

/// `base` joined with the relative component `part`, with one `/` between.
pub open spec fn join_path(base: Seq<char>, part: Seq<char>) -> Seq<char> {
    if base.len() == 0 {
        part
    } else if base.last() == '/' {
        base + part
    } else {
        base + seq!['/'] + part
    }
}

/// Joins a relative component onto a directory path.
pub fn join_path_exec(base: &str, part: &str) -> (r: String)
    ensures
        r@ == join_path(base@, part@),
{
    let b = chars_of(base);
    let mut out = crate::text::copy_chars(&b);
    if b.len() > 0 && b[b.len() - 1] != '/' {
        out.push('/');
    }
    push_str(&mut out, part);
    proof {
        assert(out@ =~= join_path(base@, part@));
    }
    string_of(&out)
}

/// Information about a stored schema.
#[derive(Debug, Clone)]
pub struct StoredSchema {
    pub name: String,
    pub path: String,
    pub checksum: String,
    pub has_extensions: bool,
    pub has_types: bool,
    pub has_tables: bool,
    pub has_functions: bool,
    pub has_seeders: bool,
    pub has_migrations: bool,
}

/// The registry of platforms under a data directory.
pub struct PlatformRegistry {
    pub data_dir: String,
}

impl PlatformRegistry {
    pub fn new(data_dir: &str) -> (r: Self)
        ensures
            r.data_dir@ == data_dir@,
    {
        PlatformRegistry { data_dir: string_of(&chars_of(data_dir)) }
    }

    /// `<data_dir>/<platform>`.
    pub fn platform_dir(&self, platform: &str) -> (r: String)
        ensures
            r@ == join_path(self.data_dir@, platform@),
    {
        join_path_exec(self.data_dir.as_str(), platform)
    }

    /// `<data_dir>/<platform>/platform.json`.
    pub fn platform_json_path(&self, platform: &str) -> (r: String)
        ensures
            r@ == join_path(join_path(self.data_dir@, platform@), "platform.json"@),
    {
        let dir = self.platform_dir(platform);
        join_path_exec(dir.as_str(), "platform.json")
    }
}

/// The store of schema bundles under a data directory.
pub struct SchemaStore {
    pub data_dir: String,
}

/// `<data_dir>/<platform>/<schema>/<folder>`.
pub open spec fn schema_folder(data_dir: Seq<char>, platform: Seq<char>, schema: Seq<char>, folder: Seq<char>) -> Seq<char> {
    join_path(join_path(join_path(data_dir, platform), schema), folder)
}

impl SchemaStore {
    pub fn new(data_dir: &str) -> (r: Self)
        ensures
            r.data_dir@ == data_dir@,
    {
        SchemaStore { data_dir: string_of(&chars_of(data_dir)) }
    }

    /// `<data_dir>/<platform>/<schema>`.
    pub fn schema_dir(&self, platform: &str, schema_name: &str) -> (r: String)
        ensures
            r@ == join_path(join_path(self.data_dir@, platform@), schema_name@),
    {
        let p = join_path_exec(self.data_dir.as_str(), platform);
        join_path_exec(p.as_str(), schema_name)
    }

    fn folder(&self, platform: &str, schema_name: &str, folder: &str) -> (r: String)
        ensures
            r@ == schema_folder(self.data_dir@, platform@, schema_name@, folder@),
    {
        let d = self.schema_dir(platform, schema_name);
        join_path_exec(d.as_str(), folder)
    }

    /// The stored schema `schema_name` of `platform`, given the artifact folders
    /// found in its directory (`None` where the directory does not exist).
    /// `checksum` is the one recorded when the archive was stored.
    pub fn get_schema(&self, platform: &str, schema_name: &str, folders: Option<&Vec<String>>, checksum: &str) -> (r: Result<StoredSchema, GatewayError>)
        ensures
            folders is None <==> r is Err,
            r matches Err(e) ==> (e matches GatewayError::InvalidRequest { message }
                && message@ == "Schema '"@ + schema_name@ + "' not found for platform '"@ + platform@ + "'"@),
            r matches Ok(s) ==> {
                let fs = folders->0@.map_values(|f: String| f@);
                &&& s.name@ == schema_name@
                &&& s.checksum@ == checksum@
                &&& s.path@ == join_path(join_path(self.data_dir@, platform@), schema_name@)
                &&& s.has_extensions == fs.contains("extensions"@)
                &&& s.has_types == fs.contains("types"@)
                &&& s.has_tables == fs.contains("tables"@)
                &&& s.has_functions == fs.contains("functions"@)
                &&& s.has_seeders == fs.contains("seeders"@)
                &&& s.has_migrations == fs.contains("migrations"@)
            },
    {
        match folders {
            None => {
                let mut m: Vec<char> = Vec::new();
                push_str(&mut m, "Schema '");
                push_str(&mut m, schema_name);
                push_str(&mut m, "' not found for platform '");
                push_str(&mut m, platform);
                push_str(&mut m, "'");
                assert(m@ =~= "Schema '"@ + schema_name@ + "' not found for platform '"@ + platform@ + "'"@);
                Err(GatewayError::InvalidRequest { message: string_of(&m) })
            },
            Some(fs) => Ok(StoredSchema {
                name: string_of(&chars_of(schema_name)),
                path: self.schema_dir(platform, schema_name),
                checksum: string_of(&chars_of(checksum)),
                has_extensions: has_folder(fs, "extensions"),
                has_types: has_folder(fs, "types"),
                has_tables: has_folder(fs, "tables"),
                has_functions: has_folder(fs, "functions"),
                has_seeders: has_folder(fs, "seeders"),
                has_migrations: has_folder(fs, "migrations"),
            }),
        }
    }

    pub fn extensions_dir(&self, platform: &str, schema_name: &str) -> (r: String)
        ensures
            r@ == schema_folder(self.data_dir@, platform@, schema_name@, "extensions"@),
    {
        self.folder(platform, schema_name, "extensions")
    }

    pub fn types_dir(&self, platform: &str, schema_name: &str) -> (r: String)
        ensures
            r@ == schema_folder(self.data_dir@, platform@, schema_name@, "types"@),
    {
        self.folder(platform, schema_name, "types")
    }

    pub fn tables_dir(&self, platform: &str, schema_name: &str) -> (r: String)
        ensures
            r@ == schema_folder(self.data_dir@, platform@, schema_name@, "tables"@),
    {
        self.folder(platform, schema_name, "tables")
    }

    pub fn functions_dir(&self, platform: &str, schema_name: &str) -> (r: String)
        ensures
            r@ == schema_folder(self.data_dir@, platform@, schema_name@, "functions"@),
    {
        self.folder(platform, schema_name, "functions")
    }

    pub fn seeders_dir(&self, platform: &str, schema_name: &str) -> (r: String)
        ensures
            r@ == schema_folder(self.data_dir@, platform@, schema_name@, "seeders"@),
    {
        self.folder(platform, schema_name, "seeders")
    }

    pub fn migrations_dir(&self, platform: &str, schema_name: &str) -> (r: String)
        ensures
            r@ == schema_folder(self.data_dir@, platform@, schema_name@, "migrations"@),
    {
        self.folder(platform, schema_name, "migrations")
    }
}

fn has_folder(fs: &Vec<String>, name: &str) -> (r: bool)
    ensures
        r == fs@.map_values(|f: String| f@).contains(name@),
{
    let target = chars_of(name);
    let mut i: usize = 0;
    while i < fs.len()
        invariant
            i <= fs@.len(),
            target@ == name@,
            forall|k: int| 0 <= k < i ==> fs@[k]@ != name@,
        decreases fs@.len() - i,
    {
        if crate::text::eq_chars(&chars_of(fs[i].as_str()), &target) {
            assert(fs@.map_values(|f: String| f@)[i as int] == name@);
            return true;
        }
        i = i + 1;
    }
    proof {
        let v = fs@.map_values(|f: String| f@);
        if v.contains(name@) {
            let k = choose|k: int| 0 <= k < v.len() && v[k] == name@;
            assert(fs@[k]@ == name@);
        }
    }
    false
}

/// Whether a name may name a platform or a schema: non-empty, ASCII letters,
/// digits and `_` only.
pub open spec fn valid_store_name(s: Seq<char>) -> bool {
    s.len() > 0 && forall|k: int| 0 <= k < s.len() ==> crate::text::is_word_spec(#[trigger] s[k])
}

pub fn is_valid_store_name(s: &str) -> (r: bool)
    ensures
        r == valid_store_name(s@),
{
    let v = chars_of(s);
    if v.len() == 0 {
        return false;
    }
    let mut i: usize = 0;
    while i < v.len()
        invariant
            i <= v@.len(),
            v@ == s@,
            forall|k: int| 0 <= k < i ==> crate::text::is_word_spec(#[trigger] v@[k]),
        decreases v@.len() - i,
    {
        if !crate::text::is_word_char(v[i]) {
            return false;
        }
        i = i + 1;
    }
    true
}

/// Adds `schema` to a platform's list of schemas unless it is there already.
pub fn add_schema_name(schemas: &mut Vec<String>, schema: &str)
    ensures
        (exists|k: int| 0 <= k < old(schemas)@.len() && #[trigger] old(schemas)@[k]@ == schema@) ==> final(schemas)@ == old(schemas)@,
        !(exists|k: int| 0 <= k < old(schemas)@.len() && #[trigger] old(schemas)@[k]@ == schema@) ==> (
            final(schemas)@.len() == old(schemas)@.len() + 1
            && final(schemas)@.subrange(0, old(schemas)@.len() as int) == old(schemas)@
            && final(schemas)@.last()@ == schema@),
{
    let target = chars_of(schema);
    let mut i: usize = 0;
    while i < schemas.len()
        invariant
            i <= schemas@.len(),
            schemas@ == old(schemas)@,
            target@ == schema@,
            forall|k: int| 0 <= k < i ==> #[trigger] schemas@[k]@ != schema@,
        decreases schemas@.len() - i,
    {
        if crate::text::eq_chars(&chars_of(schemas[i].as_str()), &target) {
            return;
        }
        i = i + 1;
    }
    schemas.push(string_of(&target));
    assert(schemas@.subrange(0, old(schemas)@.len() as int) =~= old(schemas)@);
}

} // verus!
