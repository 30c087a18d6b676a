//! The post-migration verifier: compares what the declarative schema expects
//! with what the database holds, and renders the drift it finds.
use vstd::prelude::*;
use crate::api::migrate_v2::VerificationInfo;
use crate::error::GatewayError;
use crate::diff::{
    change_type_label, change_type_name, ChangeView, SchemaChange, SchemaDiffChecker, TableSchema, changes_view,
};
use crate::text::{chars_of, string_of, push_str, push_all, push_decimal, decimal_spec};

verus! {

#[derive(Debug, Clone)]
pub struct ExtensionVerification {
    pub expected: Vec<String>,
    pub found: Vec<String>,
    pub missing: Vec<String>,
}

#[derive(Debug, Clone)]
pub struct TypeVerification {
    pub expected: Vec<String>,
    pub found: Vec<String>,
    pub missing: Vec<String>,
}

#[derive(Debug, Clone)]
pub struct TableMismatch {
    pub table: String,
    pub issue: String,
}

#[derive(Debug, Clone)]
pub struct TableVerification {
    pub expected: Vec<String>,
    pub found: Vec<String>,
    pub missing: Vec<String>,
    pub mismatches: Vec<TableMismatch>,
}

#[derive(Debug, Clone)]
pub struct MissingSeeder {
    pub table: String,
    pub count: usize,
    pub keys: Vec<String>,
}

#[derive(Debug, Clone)]
pub struct SeederVerification {
    pub missing: Vec<MissingSeeder>,
}

/// The outcome of a verification, section by section.
#[derive(Debug, Clone)]
pub struct VerificationResult {
    pub passed: bool,
    pub extensions: ExtensionVerification,
    pub types: TypeVerification,
    pub tables: TableVerification,
    pub seeders: SeederVerification,
}

pub open spec fn names(v: Seq<String>) -> Seq<Seq<char>> {
    v.map_values(|s: String| s@)
}

/// The names of `expected` that `found` lacks, in order.
pub open spec fn missing_spec(expected: Seq<Seq<char>>, found: Seq<Seq<char>>) -> Seq<Seq<char>>
    decreases expected.len(),
{
    if expected.len() == 0 {
        Seq::empty()
    } else if found.contains(expected.last()) {
        missing_spec(expected.drop_last(), found)
    } else {
        missing_spec(expected.drop_last(), found).push(expected.last())
    }
}

proof fn lemma_missing_empty(expected: Seq<Seq<char>>, found: Seq<Seq<char>>)
    ensures
        missing_spec(expected, found).len() == 0 <==> forall|k: int| 0 <= k < expected.len() ==> found.contains(#[trigger] expected[k]),
    decreases expected.len(),
{
    if expected.len() > 0 {
        let e = expected.drop_last();
        lemma_missing_empty(e, found);
        let n = expected.len() - 1;
        if found.contains(expected.last()) {
            if missing_spec(expected, found).len() == 0 {
                assert forall|k: int| 0 <= k < expected.len() implies found.contains(#[trigger] expected[k]) by {
                    if k < n {
                        assert(e[k] == expected[k]);
                    }
                }
            }
            if forall|k: int| 0 <= k < expected.len() ==> found.contains(#[trigger] expected[k]) {
                assert forall|k: int| 0 <= k < e.len() implies found.contains(#[trigger] e[k]) by {
                    assert(e[k] == expected[k]);
                }
            }
        } else {
            assert(!found.contains(expected[n]));
        }
    }
}

fn copy_string(s: &String) -> (r: String)
    ensures
        r@ == s@,
{
    string_of(&chars_of(s.as_str()))
}

fn contains_name(v: &Vec<String>, n: &String) -> (r: bool)
    ensures
        r == names(v@).contains(n@),
{
    let target = chars_of(n.as_str());
    let mut i: usize = 0;
    while i < v.len()
        invariant
            i <= v@.len(),
            target@ == n@,
            forall|k: int| 0 <= k < i ==> v@[k]@ != n@,
        decreases v@.len() - i,
    {
        if crate::text::eq_chars(&chars_of(v[i].as_str()), &target) {
            assert(names(v@)[i as int] == n@);
            return true;
        }
        i = i + 1;
    }
    proof {
        if names(v@).contains(n@) {
            let k = choose|k: int| 0 <= k < names(v@).len() && names(v@)[k] == n@;
            assert(v@[k]@ == n@);
        }
    }
    false
}

/// The expected names that were not found, in order.
pub fn missing_names(expected: &Vec<String>, found: &Vec<String>) -> (r: Vec<String>)
    ensures
        names(r@) == missing_spec(names(expected@), names(found@)),
{
    let mut r: Vec<String> = Vec::new();
    let mut i: usize = 0;
    while i < expected.len()
        invariant
            i <= expected@.len(),
            names(r@) == missing_spec(names(expected@).subrange(0, i as int), names(found@)),
        decreases expected@.len() - i,
    {
        let ghost pre = names(expected@).subrange(0, i as int);
        assert(names(expected@).subrange(0, i + 1).drop_last() =~= pre);
        let ghost before = names(r@);
        if !contains_name(found, &expected[i]) {
            r.push(copy_string(&expected[i]));
            assert(names(r@) =~= before.push(expected@[i as int]@));
        }
        i = i + 1;
    }
    assert(names(expected@).subrange(0, expected@.len() as int) =~= names(expected@));
    r
}

fn copy_names(v: &Vec<String>) -> (r: Vec<String>)
    ensures
        names(r@) == names(v@),
{
    let mut r: Vec<String> = Vec::new();
    let mut i: usize = 0;
    while i < v.len()
        invariant
            i <= v@.len(),
            names(r@) == names(v@).subrange(0, i as int),
        decreases v@.len() - i,
    {
        let ghost before = names(r@);
        r.push(copy_string(&v[i]));
        assert(names(r@) =~= before.push(v@[i as int]@));
        i = i + 1;
        assert(names(r@) =~= names(v@).subrange(0, i as int));
    }
    assert(names(v@).subrange(0, v@.len() as int) =~= names(v@));
    r
}

/// The mismatch reported for a change that loses data or is incompatible.
pub open spec fn mismatch_issue(c: ChangeView) -> Seq<char> {
    match c.column {
        Some(col) => change_type_name(c.change_type) + " column '"@ + col + "': "@ + match c.from_type {
            Some(f) => f,
            None => "-"@,
        } + " -> "@ + match c.to_type {
            Some(t) => t,
            None => "-"@,
        },
        None => change_type_name(c.change_type),
    }
}

pub open spec fn mismatch_reports(ms: Seq<TableMismatch>, cs: Seq<ChangeView>) -> bool {
    ms.len() == cs.len() && forall|k: int| 0 <= k < cs.len() ==> (#[trigger] ms[k]).table@ == cs[k].table
        && ms[k].issue@ == mismatch_issue(cs[k])
}

fn mismatch_of(c: &SchemaChange) -> (r: TableMismatch)
    ensures
        r.table@ == c@.table,
        r.issue@ == mismatch_issue(c@),
{
    let mut out: Vec<char> = Vec::new();
    push_str(&mut out, change_type_label(c.change_type));
    match &c.column {
        Some(col) => {
            push_str(&mut out, " column '");
            push_str(&mut out, col.as_str());
            push_str(&mut out, "': ");
            match &c.from_type {
                Some(f) => push_str(&mut out, f.as_str()),
                None => push_str(&mut out, "-"),
            }
            push_str(&mut out, " -> ");
            match &c.to_type {
                Some(t) => push_str(&mut out, t.as_str()),
                None => push_str(&mut out, "-"),
            }
        },
        None => {},
    }
    assert(out@ =~= mismatch_issue(c@));
    TableMismatch { table: copy_string(&c.table), issue: string_of(&out) }
}

fn push_mismatches(ms: &mut Vec<TableMismatch>, cs: &Vec<SchemaChange>, Ghost(prev): Ghost<Seq<ChangeView>>)
    requires
        mismatch_reports(old(ms)@, prev),
    ensures
        mismatch_reports(final(ms)@, prev + changes_view(cs@)),
{
    let mut i: usize = 0;
    while i < cs.len()
        invariant
            i <= cs@.len(),
            mismatch_reports(ms@, prev + changes_view(cs@).subrange(0, i as int)),
        decreases cs@.len() - i,
    {
        let m = mismatch_of(&cs[i]);
        ms.push(m);
        i = i + 1;
        assert(prev + changes_view(cs@).subrange(0, i as int) =~= (prev + changes_view(cs@).subrange(0, i - 1 as int)).push(cs@[i - 1]@));
    }
    assert(changes_view(cs@).subrange(0, cs@.len() as int) =~= changes_view(cs@));
}

pub open spec fn table_names_of(ts: Seq<TableSchema>) -> Seq<Seq<char>> {
    ts.map_values(|t: TableSchema| t.name@)
}

/// Whether a section of names was checked: `missing` lists what `expected`
/// has and `found` lacks.
pub open spec fn names_checked(expected: Seq<String>, found: Seq<String>, missing: Seq<String>) -> bool {
    names(missing) == missing_spec(names(expected), names(found))
}

/// Every section is clean: nothing missing, no table mismatching.
pub open spec fn all_clean(r: VerificationResult) -> bool {
    &&& r.extensions.missing@.len() == 0
    &&& r.types.missing@.len() == 0
    &&& r.tables.missing@.len() == 0
    &&& r.tables.mismatches@.len() == 0
    &&& r.seeders.missing@.len() == 0
}

pub open spec fn bullet_lines(items: Seq<Seq<char>>) -> Seq<char>
    decreases items.len(),
{
    if items.len() == 0 {
        Seq::empty()
    } else {
        bullet_lines(items.drop_last()) + "  - "@ + items.last() + "\n"@
    }
}

pub open spec fn section(title: Seq<char>, items: Seq<Seq<char>>) -> Seq<char> {
    if items.len() == 0 {
        Seq::empty()
    } else {
        title + bullet_lines(items) + "\n"@
    }
}

pub open spec fn rule_line() -> Seq<char> {
    "═══════════════════════════════════════════════════════════════\n"@
}

pub open spec fn mismatch_line(m: TableMismatch) -> Seq<char> {
    m.table@ + ": "@ + m.issue@
}

pub open spec fn seeder_line(m: MissingSeeder) -> Seq<char> {
    m.table@ + " ("@ + decimal_spec(m.count as nat) + " missing records)"@
}

/// The text of a failing report: one section per kind of drift, then what to do.
pub open spec fn error_log_spec(r: VerificationResult) -> Seq<char> {
    rule_line() + "              SCHEMA VERIFICATION FAILED\n"@ + rule_line() + "\n"@
        + section("MISSING EXTENSIONS:\n"@, names(r.extensions.missing@))
        + section("MISSING TYPES:\n"@, names(r.types.missing@))
        + section("TABLE SCHEMA MISMATCHES:\n"@, r.tables.mismatches@.map_values(|m: TableMismatch| mismatch_line(m)))
        + section("MISSING TABLES:\n"@, names(r.tables.missing@))
        + section("MISSING SEEDER RECORDS:\n"@, r.seeders.missing@.map_values(|m: MissingSeeder| seeder_line(m)))
        + rule_line() + "ACTION REQUIRED: Add migration(s) to fix schema drift\n"@ + rule_line()
}

fn push_section(out: &mut Vec<char>, title: &str, items: &Vec<Vec<char>>)
    ensures
        final(out)@ == old(out)@ + section(title@, crate::text::texts(items@)),
{
    if items.len() == 0 {
        assert(old(out)@ + section(title@, crate::text::texts(items@)) =~= old(out)@);
        return;
    }
    let ghost start = out@;
    push_str(out, title);
    let ghost head = out@;
    let mut i: usize = 0;
    while i < items.len()
        invariant
            i <= items@.len(),
            out@ == head + bullet_lines(crate::text::texts(items@).subrange(0, i as int)),
        decreases items@.len() - i,
    {
        assert(crate::text::texts(items@).subrange(0, i + 1).drop_last() =~= crate::text::texts(items@).subrange(0, i as int));
        push_str(out, "  - ");
        push_all(out, &items[i]);
        push_str(out, "\n");
        i = i + 1;
        assert(out@ =~= head + bullet_lines(crate::text::texts(items@).subrange(0, i as int)));
    }
    assert(crate::text::texts(items@).subrange(0, items@.len() as int) =~= crate::text::texts(items@));
    push_str(out, "\n");
    assert(out@ =~= start + section(title@, crate::text::texts(items@)));
}

fn name_chars(v: &Vec<String>) -> (r: Vec<Vec<char>>)
    ensures
        crate::text::texts(r@) == names(v@),
{
    let mut r: Vec<Vec<char>> = Vec::new();
    let mut i: usize = 0;
    while i < v.len()
        invariant
            i <= v@.len(),
            crate::text::texts(r@) == names(v@).subrange(0, i as int),
        decreases v@.len() - i,
    {
        let ghost before = crate::text::texts(r@);
        r.push(chars_of(v[i].as_str()));
        assert(crate::text::texts(r@) =~= before.push(v@[i as int]@));
        i = i + 1;
        assert(crate::text::texts(r@) =~= names(v@).subrange(0, i as int));
    }
    assert(names(v@).subrange(0, v@.len() as int) =~= names(v@));
    r
}

impl VerificationResult {
    /// A passing report with every section empty.
    pub fn new() -> (r: Self)
        ensures
            r.passed,
            all_clean(r),
            r.extensions.expected@.len() == 0 && r.extensions.found@.len() == 0,
            r.types.expected@.len() == 0 && r.types.found@.len() == 0,
            r.tables.expected@.len() == 0 && r.tables.found@.len() == 0,
    {
        VerificationResult {
            passed: true,
            extensions: ExtensionVerification { expected: Vec::new(), found: Vec::new(), missing: Vec::new() },
            types: TypeVerification { expected: Vec::new(), found: Vec::new(), missing: Vec::new() },
            tables: TableVerification {
                expected: Vec::new(),
                found: Vec::new(),
                missing: Vec::new(),
                mismatches: Vec::new(),
            },
            seeders: SeederVerification { missing: Vec::new() },
        }
    }

    /// The human-readable report of the drift found.
    pub fn error_log(&self) -> (r: String)
        ensures
            r@ == error_log_spec(*self),
    {
        let mut out: Vec<char> = Vec::new();
        push_str(&mut out, "═══════════════════════════════════════════════════════════════\n");
        push_str(&mut out, "              SCHEMA VERIFICATION FAILED\n");
        push_str(&mut out, "═══════════════════════════════════════════════════════════════\n");
        push_str(&mut out, "\n");
        push_section(&mut out, "MISSING EXTENSIONS:\n", &name_chars(&self.extensions.missing));
        push_section(&mut out, "MISSING TYPES:\n", &name_chars(&self.types.missing));
        let mut ms: Vec<Vec<char>> = Vec::new();
        let mut i: usize = 0;
        while i < self.tables.mismatches.len()
            invariant
                i <= self.tables.mismatches@.len(),
                crate::text::texts(ms@) == self.tables.mismatches@.subrange(0, i as int).map_values(|m: TableMismatch| mismatch_line(m)),
            decreases self.tables.mismatches@.len() - i,
        {
            let m = &self.tables.mismatches[i];
            let mut l: Vec<char> = Vec::new();
            push_str(&mut l, m.table.as_str());
            push_str(&mut l, ": ");
            push_str(&mut l, m.issue.as_str());
            let ghost before = crate::text::texts(ms@);
            ms.push(l);
            assert(crate::text::texts(ms@) =~= before.push(l@));
            i = i + 1;
            assert(crate::text::texts(ms@) =~= self.tables.mismatches@.subrange(0, i as int).map_values(|m: TableMismatch| mismatch_line(m)));
        }
        assert(self.tables.mismatches@.subrange(0, self.tables.mismatches@.len() as int) =~= self.tables.mismatches@);
        push_section(&mut out, "TABLE SCHEMA MISMATCHES:\n", &ms);
        push_section(&mut out, "MISSING TABLES:\n", &name_chars(&self.tables.missing));
        let mut ss: Vec<Vec<char>> = Vec::new();
        let mut k: usize = 0;
        while k < self.seeders.missing.len()
            invariant
                k <= self.seeders.missing@.len(),
                crate::text::texts(ss@) == self.seeders.missing@.subrange(0, k as int).map_values(|m: MissingSeeder| seeder_line(m)),
            decreases self.seeders.missing@.len() - k,
        {
            let m = &self.seeders.missing[k];
            let mut l: Vec<char> = Vec::new();
            push_str(&mut l, m.table.as_str());
            push_str(&mut l, " (");
            push_decimal(&mut l, m.count as u64);
            push_str(&mut l, " missing records)");
            let ghost before = crate::text::texts(ss@);
            ss.push(l);
            assert(crate::text::texts(ss@) =~= before.push(l@));
            k = k + 1;
            assert(crate::text::texts(ss@) =~= self.seeders.missing@.subrange(0, k as int).map_values(|m: MissingSeeder| seeder_line(m)));
        }
        assert(self.seeders.missing@.subrange(0, self.seeders.missing@.len() as int) =~= self.seeders.missing@);
        push_section(&mut out, "MISSING SEEDER RECORDS:\n", &ss);
        push_str(&mut out, "═══════════════════════════════════════════════════════════════\n");
        push_str(&mut out, "ACTION REQUIRED: Add migration(s) to fix schema drift\n");
        push_str(&mut out, "═══════════════════════════════════════════════════════════════\n");
        assert(out@ =~= error_log_spec(*self));
        string_of(&out)
    }
}

/// The post-migration verifier.
pub struct SchemaVerifier {
    diff_checker: SchemaDiffChecker,
}

impl SchemaVerifier {
    pub fn new() -> (r: Self) {
        SchemaVerifier { diff_checker: SchemaDiffChecker::new() }
    }

    /// The extension section: the names the files declare against those installed.
    pub fn check_extensions(&self, expected: &Vec<String>, found: &Vec<String>) -> (r: ExtensionVerification)
        ensures
            names(r.expected@) == names(expected@),
            names(r.found@) == names(found@),
            names_checked(r.expected@, r.found@, r.missing@),
    {
        ExtensionVerification { expected: copy_names(expected), found: copy_names(found), missing: missing_names(expected, found) }
    }

    /// The type section: the names the files declare against those present.
    pub fn check_types(&self, expected: &Vec<String>, found: &Vec<String>) -> (r: TypeVerification)
        ensures
            names(r.expected@) == names(expected@),
            names(r.found@) == names(found@),
            names_checked(r.expected@, r.found@, r.missing@),
    {
        TypeVerification { expected: copy_names(expected), found: copy_names(found), missing: missing_names(expected, found) }
    }

    /// The table section: desired tables against live ones; every change of
    /// their diff that loses data or is incompatible is a mismatch.
    pub fn check_tables(&self, desired: &Vec<TableSchema>, current: &Vec<TableSchema>) -> (r: TableVerification)
        requires
            crate::diff::names_unique(desired@),
            crate::diff::names_unique(current@),
        ensures
            names(r.expected@) == table_names_of(desired@),
            names(r.found@) == table_names_of(current@),
            names_checked(r.expected@, r.found@, r.missing@),
            exists|d: crate::diff::SchemaDiff| #[trigger] d.holds(crate::diff::schema_changes(desired@, current@))
                && mismatch_reports(r.mismatches@, changes_view(d.dataloss_changes@) + changes_view(d.incompatible_changes@)),
    {
        let mut expected: Vec<String> = Vec::new();
        let mut i: usize = 0;
        while i < desired.len()
            invariant
                i <= desired@.len(),
                names(expected@) == table_names_of(desired@).subrange(0, i as int),
            decreases desired@.len() - i,
        {
            let ghost before = names(expected@);
            expected.push(copy_string(&desired[i].name));
            assert(names(expected@) =~= before.push(desired@[i as int].name@));
            i = i + 1;
            assert(names(expected@) =~= table_names_of(desired@).subrange(0, i as int));
        }
        assert(table_names_of(desired@).subrange(0, desired@.len() as int) =~= table_names_of(desired@));
        let mut found: Vec<String> = Vec::new();
        let mut k: usize = 0;
        while k < current.len()
            invariant
                k <= current@.len(),
                names(found@) == table_names_of(current@).subrange(0, k as int),
            decreases current@.len() - k,
        {
            let ghost before = names(found@);
            found.push(copy_string(&current[k].name));
            assert(names(found@) =~= before.push(current@[k as int].name@));
            k = k + 1;
            assert(names(found@) =~= table_names_of(current@).subrange(0, k as int));
        }
        assert(table_names_of(current@).subrange(0, current@.len() as int) =~= table_names_of(current@));
        let missing = missing_names(&expected, &found);
        let diff = self.diff_checker.diff_schemas(desired, current);
        let mut mismatches: Vec<TableMismatch> = Vec::new();
        assert(mismatch_reports(mismatches@, Seq::empty()));
        push_mismatches(&mut mismatches, &diff.dataloss_changes, Ghost(Seq::empty()));
        assert(Seq::<ChangeView>::empty() + changes_view(diff.dataloss_changes@) =~= changes_view(diff.dataloss_changes@));
        push_mismatches(&mut mismatches, &diff.incompatible_changes, Ghost(changes_view(diff.dataloss_changes@)));
        TableVerification { expected, found, missing, mismatches }
    }

    /// Assembles the report; it passes exactly when every section is clean.
    pub fn assemble(
        &self,
        extensions: ExtensionVerification,
        types: TypeVerification,
        tables: TableVerification,
        seeders: SeederVerification,
    ) -> (r: VerificationResult)
        ensures
            r.passed == all_clean(r),
            r.extensions == extensions,
            r.types == types,
            r.tables == tables,
            r.seeders == seeders,
    {
        let passed = extensions.missing.len() == 0 && types.missing.len() == 0 && tables.missing.len() == 0
            && tables.mismatches.len() == 0 && seeders.missing.len() == 0;
        VerificationResult { passed, extensions, types, tables, seeders }
    }
}

/// A report assembled from checked sections passes exactly when every expected
/// extension, type and table was found, no table mismatches and no seeder
/// records are missing.
pub proof fn lemma_passed_iff_expected_found(r: VerificationResult)
    requires
        r.passed == all_clean(r),
        names_checked(r.extensions.expected@, r.extensions.found@, r.extensions.missing@),
        names_checked(r.types.expected@, r.types.found@, r.types.missing@),
        names_checked(r.tables.expected@, r.tables.found@, r.tables.missing@),
    ensures
        r.passed <==> (
            (forall|k: int| 0 <= k < r.extensions.expected@.len() ==> names(r.extensions.found@).contains(#[trigger] names(r.extensions.expected@)[k]))
            && (forall|k: int| 0 <= k < r.types.expected@.len() ==> names(r.types.found@).contains(#[trigger] names(r.types.expected@)[k]))
            && (forall|k: int| 0 <= k < r.tables.expected@.len() ==> names(r.tables.found@).contains(#[trigger] names(r.tables.expected@)[k]))
            && r.tables.mismatches@.len() == 0 && r.seeders.missing@.len() == 0),
{
    lemma_missing_empty(names(r.extensions.expected@), names(r.extensions.found@));
    lemma_missing_empty(names(r.types.expected@), names(r.types.found@));
    lemma_missing_empty(names(r.tables.expected@), names(r.tables.found@));
    assert(names(r.extensions.missing@).len() == r.extensions.missing@.len());
    assert(names(r.types.missing@).len() == r.types.missing@.len());
    assert(names(r.tables.missing@).len() == r.tables.missing@.len());
}

/// During a migrate over several databases, the schema diff and the
/// verification run on the first one only.
pub fn checks_database(position: usize) -> (r: bool)
    ensures
        r == (position == 0),
{
    position == 0
}

/// What a verification means for the migrate run: a failing report stops it
/// with `MigrationFailed` (its cause the report's text), unless `force` is
/// set; otherwise the run goes on, with a warning where the report failed.
pub fn verification_outcome(database: &str, r: &VerificationResult, force: bool) -> (res: Result<bool, GatewayError>)
    ensures
        res is Err <==> (!r.passed && !force),
        res matches Ok(w) ==> w == !r.passed,
        res matches Err(e) ==> (e matches GatewayError::MigrationFailed { database: d, migration, cause }
            && d@ == database@ && migration@ == "verification"@ && cause@ == error_log_spec(*r)),
{
    if r.passed {
        Ok(false)
    } else if force {
        Ok(true)
    } else {
        Err(GatewayError::MigrationFailed {
            database: string_of(&chars_of(database)),
            migration: string_of(&chars_of("verification")),
            cause: r.error_log(),
        })
    }
}

/// The status of a finished migrate run.
pub fn migrate_status(warnings: bool) -> (r: &'static str)
    ensures
        warnings ==> r@ == "completed_with_warnings"@,
        !warnings ==> r@ == "completed"@,
{
    if warnings {
        "completed_with_warnings"
    } else {
        "completed"
    }
}

/// The summary of a verification in a migrate reply.
pub fn verification_info(r: &VerificationResult) -> (v: VerificationInfo)
    ensures
        v.passed == r.passed,
        v.extensions_verified == (r.extensions.missing@.len() == 0),
        v.types_verified == (r.types.missing@.len() == 0),
        v.tables_verified == (r.tables.missing@.len() == 0 && r.tables.mismatches@.len() == 0),
        v.seeders_verified == (r.seeders.missing@.len() == 0),
        r.passed ==> v.error_log is None,
        !r.passed ==> (v.error_log matches Some(l) && l@ == error_log_spec(*r)),
{
    VerificationInfo {
        passed: r.passed,
        extensions_verified: r.extensions.missing.len() == 0,
        types_verified: r.types.missing.len() == 0,
        tables_verified: r.tables.missing.len() == 0 && r.tables.mismatches.len() == 0,
        seeders_verified: r.seeders.missing.len() == 0,
        error_log: if r.passed { None } else { Some(r.error_log()) },
    }
}

} // verus!
