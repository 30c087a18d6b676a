//! The schema diff: compares the desired tables against the live ones, column by
//! column, and classifies each change through the type matrix.
use vstd::prelude::*;
use crate::error::GatewayError;
use crate::text::{
    push_all,
    chars_of, string_of, push_str, push_decimal, upper_vec, upper_seq, decimal_spec, eq_chars,
};
use crate::types::{check_spec, Compat, TypeChecker, TypeCompatibility};

verus! {

/// A column of a table, as desired or as found in the database.
#[derive(Debug, Clone)]
pub struct ColumnSchema {
    pub name: String,
    pub data_type: String,
    pub is_nullable: bool,
    pub column_default: Option<String>,
    pub character_maximum_length: Option<u32>,
    pub numeric_precision: Option<u32>,
    pub numeric_scale: Option<u32>,
}

/// A table and its columns; column names are unique within a table.
#[derive(Debug, Clone)]
pub struct TableSchema {
    pub name: String,
    pub columns: Vec<ColumnSchema>,
}

#[derive(Debug, Clone, Copy, PartialEq, Eq, Structural)]
pub enum ChangeType {
    CreateTable,
    DropTable,
    AddColumn,
    DropColumn,
    ModifyColumnType,
    ModifyColumnNullable,
    ModifyColumnDefault,
}

#[derive(Debug, Clone, Copy, PartialEq, Eq, Structural)]
pub enum ChangeCompatibility {
    Safe,
    DataLoss,
    Incompatible,
}

/// A single schema change.
#[derive(Debug, Clone)]
pub struct SchemaChange {
    pub table: String,
    pub change_type: ChangeType,
    pub column: Option<String>,
    pub from_type: Option<String>,
    pub to_type: Option<String>,
    pub compatibility: ChangeCompatibility,
    pub reason: Option<String>,
}

/// A schema change with its texts as sequences.
pub struct ChangeView {
    pub table: Seq<char>,
    pub change_type: ChangeType,
    pub column: Option<Seq<char>>,
    pub from_type: Option<Seq<char>>,
    pub to_type: Option<Seq<char>>,
    pub compatibility: ChangeCompatibility,
    pub reason: Option<Seq<char>>,
}

pub open spec fn opt_view(o: Option<String>) -> Option<Seq<char>> {
    match o {
        Some(s) => Some(s@),
        None => None,
    }
}

impl View for SchemaChange {
    type V = ChangeView;

    open spec fn view(&self) -> ChangeView {
        ChangeView {
            table: self.table@,
            change_type: self.change_type,
            column: opt_view(self.column),
            from_type: opt_view(self.from_type),
            to_type: opt_view(self.to_type),
            compatibility: self.compatibility,
            reason: opt_view(self.reason),
        }
    }
}

pub open spec fn changes_view(v: Seq<SchemaChange>) -> Seq<ChangeView> {
    v.map_values(|c: SchemaChange| c@)
}

/// The changes of a diff, sorted by how safe they are.
#[derive(Debug, Clone)]
pub struct SchemaDiff {
    pub safe_changes: Vec<SchemaChange>,
    pub dataloss_changes: Vec<SchemaChange>,
    pub incompatible_changes: Vec<SchemaChange>,
}

/// The changes of `cs` that have compatibility `k`, in order.
pub open spec fn of_kind(cs: Seq<ChangeView>, k: ChangeCompatibility) -> Seq<ChangeView>
    decreases cs.len(),
{
    if cs.len() == 0 {
        Seq::empty()
    } else if cs.last().compatibility == k {
        of_kind(cs.drop_last(), k).push(cs.last())
    } else {
        of_kind(cs.drop_last(), k)
    }
}

impl SchemaDiff {
    /// The diff holds exactly the changes of `cs`, each in the list of its kind.
    #[verifier::opaque]
    pub open spec fn holds(&self, cs: Seq<ChangeView>) -> bool {
        &&& changes_view(self.safe_changes@) == of_kind(cs, ChangeCompatibility::Safe)
        &&& changes_view(self.dataloss_changes@) == of_kind(cs, ChangeCompatibility::DataLoss)
        &&& changes_view(self.incompatible_changes@) == of_kind(cs, ChangeCompatibility::Incompatible)
    }

    pub fn new() -> (r: Self)
        ensures
            r.holds(Seq::empty()),
    {
        let r = SchemaDiff {
            safe_changes: Vec::new(),
            dataloss_changes: Vec::new(),
            incompatible_changes: Vec::new(),
        };
        reveal(SchemaDiff::holds);
        assert(changes_view(r.safe_changes@) =~= Seq::empty());
        assert(changes_view(r.dataloss_changes@) =~= Seq::empty());
        assert(changes_view(r.incompatible_changes@) =~= Seq::empty());
        r
    }

    /// No change loses data or is incompatible.
    pub fn is_safe(&self) -> (r: bool)
        ensures
            r == (self.dataloss_changes@.len() == 0 && self.incompatible_changes@.len() == 0),
    {
        self.dataloss_changes.len() == 0 && self.incompatible_changes.len() == 0
    }

    /// Some change was found.
    pub fn has_changes(&self) -> (r: bool)
        ensures
            r == (self.safe_changes@.len() > 0 || self.dataloss_changes@.len() > 0
                || self.incompatible_changes@.len() > 0),
    {
        self.safe_changes.len() > 0 || self.dataloss_changes.len() > 0
            || self.incompatible_changes.len() > 0
    }

    /// Files a change under its kind.
    pub fn add_change(&mut self, change: SchemaChange)
        ensures
            forall|cs: Seq<ChangeView>| old(self).holds(cs) ==> final(self).holds(cs.push(change@)),
            change.compatibility == ChangeCompatibility::Safe ==> final(self).safe_changes@ == old(self).safe_changes@.push(change)
                && final(self).dataloss_changes@ == old(self).dataloss_changes@
                && final(self).incompatible_changes@ == old(self).incompatible_changes@,
            change.compatibility == ChangeCompatibility::DataLoss ==> final(self).dataloss_changes@ == old(self).dataloss_changes@.push(change)
                && final(self).safe_changes@ == old(self).safe_changes@
                && final(self).incompatible_changes@ == old(self).incompatible_changes@,
            change.compatibility == ChangeCompatibility::Incompatible ==> final(self).incompatible_changes@ == old(self).incompatible_changes@.push(change)
                && final(self).safe_changes@ == old(self).safe_changes@
                && final(self).dataloss_changes@ == old(self).dataloss_changes@,
    {
        let ghost c = change@;
        let ghost before = *self;
        match change.compatibility {
            ChangeCompatibility::Safe => self.safe_changes.push(change),
            ChangeCompatibility::DataLoss => self.dataloss_changes.push(change),
            ChangeCompatibility::Incompatible => self.incompatible_changes.push(change),
        }
        proof {
            reveal(SchemaDiff::holds);
            assert forall|cs: Seq<ChangeView>| before.holds(cs) implies self.holds(cs.push(c)) by {
                assert(cs.push(c).drop_last() =~= cs);
                assert(changes_view(self.safe_changes@) =~= of_kind(cs.push(c), ChangeCompatibility::Safe));
                assert(changes_view(self.dataloss_changes@) =~= of_kind(cs.push(c), ChangeCompatibility::DataLoss));
                assert(changes_view(self.incompatible_changes@) =~= of_kind(cs.push(c), ChangeCompatibility::Incompatible));
            }
        }
    }
}

/// The full type text of a column: the uppercased type with its length, or
/// with precision and scale for NUMERIC and DECIMAL.
pub open spec fn full_type_spec(c: ColumnSchema) -> Seq<char> {
    let base = upper_seq(c.data_type@);
    match c.character_maximum_length {
        Some(len) => base + "("@ + decimal_spec(len as nat) + ")"@,
        None => match (c.numeric_precision, c.numeric_scale) {
            (Some(p), Some(s)) => if base == "NUMERIC"@ || base == "DECIMAL"@ {
                base + "("@ + decimal_spec(p as nat) + ","@ + decimal_spec(s as nat) + ")"@
            } else {
                base
            },
            _ => base,
        },
    }
}

impl ColumnSchema {
    /// The full type text, e.g. `VARCHAR(100)` or `NUMERIC(10,2)`.
    pub fn full_type(&self) -> (r: String)
        ensures
            r@ == full_type_spec(*self),
    {
        let base = upper_vec(&chars_of(self.data_type.as_str()));
        let mut out = crate::text::copy_chars(&base);
        match self.character_maximum_length {
            Some(len) => {
                push_str(&mut out, "(");
                push_decimal(&mut out, len as u64);
                push_str(&mut out, ")");
            },
            None => match (self.numeric_precision, self.numeric_scale) {
                (Some(p), Some(s)) => {
                    if crate::text::eq_str(&base, "NUMERIC") || crate::text::eq_str(&base, "DECIMAL") {
                        push_str(&mut out, "(");
                        push_decimal(&mut out, p as u64);
                        push_str(&mut out, ",");
                        push_decimal(&mut out, s as u64);
                        push_str(&mut out, ")");
                    }
                },
                _ => {},
            },
        }
        proof {
            assert(out@ =~= full_type_spec(*self));
        }
        string_of(&out)
    }
}

/// Position of the first table named `n`.
pub open spec fn find_table(ts: Seq<TableSchema>, n: Seq<char>) -> Option<int> {
    if exists|i: int| 0 <= i < ts.len() && #[trigger] ts[i].name@ == n {
        Some(choose|i: int| 0 <= i < ts.len() && #[trigger] ts[i].name@ == n && forall|j: int| 0 <= j < i ==> ts[j].name@ != n)
    } else {
        None
    }
}

/// Position of the first column named `n`.
pub open spec fn find_column(cs: Seq<ColumnSchema>, n: Seq<char>) -> Option<int> {
    if exists|i: int| 0 <= i < cs.len() && #[trigger] cs[i].name@ == n {
        Some(choose|i: int| 0 <= i < cs.len() && #[trigger] cs[i].name@ == n && forall|j: int| 0 <= j < i ==> cs[j].name@ != n)
    } else {
        None
    }
}

pub open spec fn nullability(nullable: bool) -> Seq<char> {
    if nullable {
        "NULLABLE"@
    } else {
        "NOT NULL"@
    }
}

/// The type change of a column present on both sides, if its type changed.
pub open spec fn type_change(t: Seq<char>, d: ColumnSchema, c: ColumnSchema) -> Seq<ChangeView> {
    let from = full_type_spec(c);
    let to = full_type_spec(d);
    let mk = |k: ChangeCompatibility, r: Option<Seq<char>>| ChangeView {
        table: t,
        change_type: ChangeType::ModifyColumnType,
        column: Some(d.name@),
        from_type: Some(from),
        to_type: Some(to),
        compatibility: k,
        reason: r,
    };
    match check_spec(from, to) {
        Compat::Identical => Seq::empty(),
        Compat::Safe => seq![mk(ChangeCompatibility::Safe, None)],
        Compat::DataLoss(r) => seq![mk(ChangeCompatibility::DataLoss, Some(r))],
        Compat::Incompatible(r) => seq![mk(ChangeCompatibility::Incompatible, Some(r))],
    }
}

/// The nullability change of a column present on both sides, if it changed.
pub open spec fn nullable_change(t: Seq<char>, d: ColumnSchema, c: ColumnSchema) -> Seq<ChangeView> {
    if d.is_nullable == c.is_nullable {
        Seq::empty()
    } else {
        seq![ChangeView {
            table: t,
            change_type: ChangeType::ModifyColumnNullable,
            column: Some(d.name@),
            from_type: Some(nullability(c.is_nullable)),
            to_type: Some(nullability(d.is_nullable)),
            compatibility: if d.is_nullable { ChangeCompatibility::Safe } else { ChangeCompatibility::DataLoss },
            reason: if d.is_nullable { None } else { Some("May fail if NULL values exist"@) },
        }]
    }
}

/// The change that adding column `d` amounts to.
pub open spec fn add_column_change(t: Seq<char>, d: ColumnSchema) -> ChangeView {
    let strict = !d.is_nullable && d.column_default is None;
    ChangeView {
        table: t,
        change_type: ChangeType::AddColumn,
        column: Some(d.name@),
        from_type: None,
        to_type: Some(full_type_spec(d)),
        compatibility: if strict { ChangeCompatibility::DataLoss } else { ChangeCompatibility::Safe },
        reason: if strict {
            Some("Adding NOT NULL column without DEFAULT requires data migration"@)
        } else {
            None
        },
    }
}

/// The changes for the desired columns `ds[0..k]` against the live columns `cs`.
pub open spec fn desired_column_changes(t: Seq<char>, ds: Seq<ColumnSchema>, cs: Seq<ColumnSchema>, k: int) -> Seq<ChangeView>
    decreases k,
{
    if k <= 0 || k > ds.len() {
        Seq::empty()
    } else {
        desired_column_changes(t, ds, cs, k - 1) + desired_column_step(t, ds[k - 1], cs)
    }
}

/// The changes for one desired column `d` against the live columns `cs`.
pub open spec fn desired_column_step(t: Seq<char>, d: ColumnSchema, cs: Seq<ColumnSchema>) -> Seq<ChangeView> {
    match find_column(cs, d.name@) {
        None => seq![add_column_change(t, d)],
        Some(j) => type_change(t, d, cs[j]) + nullable_change(t, d, cs[j]),
    }
}

/// The drops for the live columns `cs[0..k]` that are not desired.
pub open spec fn dropped_column_changes(t: Seq<char>, ds: Seq<ColumnSchema>, cs: Seq<ColumnSchema>, k: int) -> Seq<ChangeView>
    decreases k,
{
    if k <= 0 || k > cs.len() {
        Seq::empty()
    } else {
        dropped_column_changes(t, ds, cs, k - 1) + dropped_column_step(t, ds, cs[k - 1])
    }
}

/// The drop of live column `c` where it is not desired.
pub open spec fn dropped_column_step(t: Seq<char>, ds: Seq<ColumnSchema>, c: ColumnSchema) -> Seq<ChangeView> {
    if find_column(ds, c.name@) is None {
            seq![ChangeView {
                table: t,
                change_type: ChangeType::DropColumn,
                column: Some(c.name@),
                from_type: Some(full_type_spec(c)),
                to_type: None,
                compatibility: ChangeCompatibility::DataLoss,
                reason: Some("Dropping column will delete all data in that column"@),
            }]
    } else {
        Seq::empty()
    }
}

/// The changes between a desired table and the live table of the same name.
pub open spec fn table_changes(t: Seq<char>, d: TableSchema, c: TableSchema) -> Seq<ChangeView> {
    desired_column_changes(t, d.columns@, c.columns@, d.columns@.len() as int)
        + dropped_column_changes(t, d.columns@, c.columns@, c.columns@.len() as int)
}

/// The changes for the desired tables `ds[0..k]`.
pub open spec fn desired_table_changes(ds: Seq<TableSchema>, cs: Seq<TableSchema>, k: int) -> Seq<ChangeView>
    decreases k,
{
    if k <= 0 || k > ds.len() {
        Seq::empty()
    } else {
        desired_table_changes(ds, cs, k - 1) + desired_table_step(ds[k - 1], cs)
    }
}

/// The changes for one desired table `d` against the live tables `cs`.
pub open spec fn desired_table_step(d: TableSchema, cs: Seq<TableSchema>) -> Seq<ChangeView> {
    {
        match find_table(cs, d.name@) {
            None => seq![ChangeView {
                table: d.name@,
                change_type: ChangeType::CreateTable,
                column: None,
                from_type: None,
                to_type: None,
                compatibility: ChangeCompatibility::Safe,
                reason: None,
            }],
            Some(j) => table_changes(d.name@, d, cs[j]),
        }
    }
}

/// The drops for the live tables `cs[0..k]` that are not desired.
pub open spec fn dropped_table_changes(ds: Seq<TableSchema>, cs: Seq<TableSchema>, k: int) -> Seq<ChangeView>
    decreases k,
{
    if k <= 0 || k > cs.len() {
        Seq::empty()
    } else {
        dropped_table_changes(ds, cs, k - 1) + dropped_table_step(ds, cs[k - 1])
    }
}

/// The drop of live table `c` where it is not desired.
pub open spec fn dropped_table_step(ds: Seq<TableSchema>, c: TableSchema) -> Seq<ChangeView> {
    {
        if find_table(ds, c.name@) is None {
            seq![ChangeView {
                table: c.name@,
                change_type: ChangeType::DropTable,
                column: None,
                from_type: None,
                to_type: None,
                compatibility: ChangeCompatibility::DataLoss,
                reason: Some("Dropping table will delete all data"@),
            }]
        } else {
            Seq::empty()
        }
    }
}

/// Every change from the live schema `cs` to the desired schema `ds`, in order:
/// desired tables first (created, or compared column by column), then drops.
pub open spec fn schema_changes(ds: Seq<TableSchema>, cs: Seq<TableSchema>) -> Seq<ChangeView> {
    desired_table_changes(ds, cs, ds.len() as int) + dropped_table_changes(ds, cs, cs.len() as int)
}

fn find_table_exec(ts: &Vec<TableSchema>, n: &str) -> (r: Option<usize>)
    ensures
        r matches Some(j) ==> j < ts@.len() && find_table(ts@, n@) == Some(j as int),
        r is None ==> find_table(ts@, n@) is None,
{
    let target = chars_of(n);
    let mut i: usize = 0;
    while i < ts.len()
        invariant
            i <= ts@.len(),
            target@ == n@,
            forall|j: int| 0 <= j < i ==> ts@[j].name@ != n@,
        decreases ts@.len() - i,
    {
        if eq_chars(&chars_of(ts[i].name.as_str()), &target) {
            proof {
                let w = choose|w: int| 0 <= w < ts@.len() && #[trigger] ts@[w].name@ == n@ && forall|j: int| 0 <= j < w ==> ts@[j].name@ != n@;
                if w < i {
                } else if w > i {
                    assert(ts@[i as int].name@ == n@);
                }
            }
            return Some(i);
        }
        i = i + 1;
    }
    None
}

fn find_column_exec(cs: &Vec<ColumnSchema>, n: &str) -> (r: Option<usize>)
    ensures
        r matches Some(j) ==> j < cs@.len() && find_column(cs@, n@) == Some(j as int),
        r is None ==> find_column(cs@, n@) is None,
{
    let target = chars_of(n);
    let mut i: usize = 0;
    while i < cs.len()
        invariant
            i <= cs@.len(),
            target@ == n@,
            forall|j: int| 0 <= j < i ==> cs@[j].name@ != n@,
        decreases cs@.len() - i,
    {
        if eq_chars(&chars_of(cs[i].name.as_str()), &target) {
            proof {
                let w = choose|w: int| 0 <= w < cs@.len() && #[trigger] cs@[w].name@ == n@ && forall|j: int| 0 <= j < w ==> cs@[j].name@ != n@;
                if w < i {
                } else if w > i {
                    assert(cs@[i as int].name@ == n@);
                }
            }
            return Some(i);
        }
        i = i + 1;
    }
    None
}

fn some_text(s: &str) -> (r: Option<String>)
    ensures
        opt_view(r) == Some(s@),
{
    Some(string_of(&chars_of(s)))
}

fn copy_string(s: &String) -> (r: String)
    ensures
        r@ == s@,
{
    string_of(&chars_of(s.as_str()))
}

/// Compares desired tables against live tables.
pub struct SchemaDiffChecker {
    type_checker: TypeChecker,
}

impl SchemaDiffChecker {
    pub fn new() -> (r: Self) {
        SchemaDiffChecker { type_checker: TypeChecker::new() }
    }

    fn diff_column_type(&self, diff: &mut SchemaDiff, table: &String, d: &ColumnSchema, c: &ColumnSchema, Ghost(cs): Ghost<Seq<ChangeView>>)
        requires
            old(diff).holds(cs),
        ensures
            final(diff).holds(cs + type_change(table@, *d, *c)),
    {
        let desired_type = d.full_type();
        let current_type = c.full_type();
        let compat = self.type_checker.check_compatibility(current_type.as_str(), desired_type.as_str());
        let ghost tc = type_change(table@, *d, *c);
        match compat {
            TypeCompatibility::Identical => {
                assert(cs + tc =~= cs);
            },
            TypeCompatibility::Safe => {
                let ch = SchemaChange {
                    table: copy_string(table),
                    change_type: ChangeType::ModifyColumnType,
                    column: Some(copy_string(&d.name)),
                    from_type: Some(current_type),
                    to_type: Some(desired_type),
                    compatibility: ChangeCompatibility::Safe,
                    reason: None,
                };
                diff.add_change(ch);
                assert(cs.push(ch@) =~= cs + tc);
            },
            TypeCompatibility::DataLoss { reason } => {
                let ch = SchemaChange {
                    table: copy_string(table),
                    change_type: ChangeType::ModifyColumnType,
                    column: Some(copy_string(&d.name)),
                    from_type: Some(current_type),
                    to_type: Some(desired_type),
                    compatibility: ChangeCompatibility::DataLoss,
                    reason: Some(reason),
                };
                diff.add_change(ch);
                assert(cs.push(ch@) =~= cs + tc);
            },
            TypeCompatibility::Incompatible { reason } => {
                let ch = SchemaChange {
                    table: copy_string(table),
                    change_type: ChangeType::ModifyColumnType,
                    column: Some(copy_string(&d.name)),
                    from_type: Some(current_type),
                    to_type: Some(desired_type),
                    compatibility: ChangeCompatibility::Incompatible,
                    reason: Some(reason),
                };
                diff.add_change(ch);
                assert(cs.push(ch@) =~= cs + tc);
            },
        }
    }

    fn diff_nullable(&self, diff: &mut SchemaDiff, table: &String, d: &ColumnSchema, c: &ColumnSchema, Ghost(cs): Ghost<Seq<ChangeView>>)
        requires
            old(diff).holds(cs),
        ensures
            final(diff).holds(cs + nullable_change(table@, *d, *c)),
    {
        let ghost nc = nullable_change(table@, *d, *c);
        if d.is_nullable == c.is_nullable {
            assert(cs + nc =~= cs);
            return;
        }
        let from = if c.is_nullable { some_text("NULLABLE") } else { some_text("NOT NULL") };
        let to = if d.is_nullable { some_text("NULLABLE") } else { some_text("NOT NULL") };
        let ch = SchemaChange {
            table: copy_string(table),
            change_type: ChangeType::ModifyColumnNullable,
            column: Some(copy_string(&d.name)),
            from_type: from,
            to_type: to,
            compatibility: if d.is_nullable { ChangeCompatibility::Safe } else { ChangeCompatibility::DataLoss },
            reason: if d.is_nullable { None } else { some_text("May fail if NULL values exist") },
        };
        diff.add_change(ch);
        assert(cs.push(ch@) =~= cs + nc);
    }

    fn diff_desired_column(&self, diff: &mut SchemaDiff, table: &String, d: &ColumnSchema, cols: &Vec<ColumnSchema>, Ghost(before): Ghost<Seq<ChangeView>>)
        requires
            old(diff).holds(before),
        ensures
            final(diff).holds(before + desired_column_step(table@, *d, cols@)),
    {
        match find_column_exec(cols, d.name.as_str()) {
            None => {
                let strict = !d.is_nullable && d.column_default.is_none();
                let ch = SchemaChange {
                    table: copy_string(table),
                    change_type: ChangeType::AddColumn,
                    column: Some(copy_string(&d.name)),
                    from_type: None,
                    to_type: Some(d.full_type()),
                    compatibility: if strict { ChangeCompatibility::DataLoss } else { ChangeCompatibility::Safe },
                    reason: if strict {
                        some_text("Adding NOT NULL column without DEFAULT requires data migration")
                    } else {
                        None
                    },
                };
                diff.add_change(ch);
                assert(before.push(ch@) =~= before + desired_column_step(table@, *d, cols@));
            },
            Some(j) => {
                self.diff_column_type(diff, table, d, &cols[j], Ghost(before));
                let ghost mid = before + type_change(table@, *d, cols@[j as int]);
                self.diff_nullable(diff, table, d, &cols[j], Ghost(mid));
                assert(mid + nullable_change(table@, *d, cols@[j as int]) =~= before + desired_column_step(table@, *d, cols@));
            },
        }
    }

    fn diff_dropped_column(&self, diff: &mut SchemaDiff, table: &String, ds: &Vec<ColumnSchema>, c: &ColumnSchema, Ghost(before): Ghost<Seq<ChangeView>>)
        requires
            old(diff).holds(before),
        ensures
            final(diff).holds(before + dropped_column_step(table@, ds@, *c)),
    {
        match find_column_exec(ds, c.name.as_str()) {
            None => {
                let ch = SchemaChange {
                    table: copy_string(table),
                    change_type: ChangeType::DropColumn,
                    column: Some(copy_string(&c.name)),
                    from_type: Some(c.full_type()),
                    to_type: None,
                    compatibility: ChangeCompatibility::DataLoss,
                    reason: some_text("Dropping column will delete all data in that column"),
                };
                diff.add_change(ch);
                assert(before.push(ch@) =~= before + dropped_column_step(table@, ds@, *c));
            },
            Some(_) => {
                assert(before =~= before + dropped_column_step(table@, ds@, *c));
            },
        }
    }

    #[verifier::rlimit(40)]
    fn diff_table_columns(&self, diff: &mut SchemaDiff, table: &String, desired: &TableSchema, current: &TableSchema, Ghost(cs): Ghost<Seq<ChangeView>>)
        requires
            old(diff).holds(cs),
        ensures
            final(diff).holds(cs + table_changes(table@, *desired, *current)),
    {
        let ds = &desired.columns;
        let cols = &current.columns;
        let mut i: usize = 0;
        while i < ds.len()
            invariant
                i <= ds@.len(),
                ds@ == desired.columns@,
                cols@ == current.columns@,
                diff.holds(cs + desired_column_changes(table@, ds@, cols@, i as int)),
            decreases ds@.len() - i,
        {
            let ghost before = cs + desired_column_changes(table@, ds@, cols@, i as int);
            self.diff_desired_column(diff, table, &ds[i], cols, Ghost(before));
            assert(before + desired_column_step(table@, ds@[i as int], cols@) =~= cs + desired_column_changes(table@, ds@, cols@, i + 1));
            i = i + 1;
        }
        let ghost head = cs + desired_column_changes(table@, ds@, cols@, ds@.len() as int);
        let mut k: usize = 0;
        while k < cols.len()
            invariant
                k <= cols@.len(),
                ds@ == desired.columns@,
                cols@ == current.columns@,
                diff.holds(head + dropped_column_changes(table@, ds@, cols@, k as int)),
            decreases cols@.len() - k,
        {
            let ghost before = head + dropped_column_changes(table@, ds@, cols@, k as int);
            self.diff_dropped_column(diff, table, ds, &cols[k], Ghost(before));
            assert(before + dropped_column_step(table@, ds@, cols@[k as int]) =~= head + dropped_column_changes(table@, ds@, cols@, k + 1));
            k = k + 1;
        }
        assert(head + dropped_column_changes(table@, ds@, cols@, cols@.len() as int) =~= cs + table_changes(table@, *desired, *current));
    }

    fn diff_desired_table(&self, diff: &mut SchemaDiff, d: &TableSchema, current: &Vec<TableSchema>, Ghost(before): Ghost<Seq<ChangeView>>)
        requires
            old(diff).holds(before),
        ensures
            final(diff).holds(before + desired_table_step(*d, current@)),
    {
        match find_table_exec(current, d.name.as_str()) {
            None => {
                let ch = SchemaChange {
                    table: copy_string(&d.name),
                    change_type: ChangeType::CreateTable,
                    column: None,
                    from_type: None,
                    to_type: None,
                    compatibility: ChangeCompatibility::Safe,
                    reason: None,
                };
                diff.add_change(ch);
                assert(before.push(ch@) =~= before + desired_table_step(*d, current@));
            },
            Some(j) => {
                self.diff_table_columns(diff, &d.name, d, &current[j], Ghost(before));
            },
        }
    }

    fn diff_dropped_table(&self, diff: &mut SchemaDiff, desired: &Vec<TableSchema>, c: &TableSchema, Ghost(before): Ghost<Seq<ChangeView>>)
        requires
            old(diff).holds(before),
        ensures
            final(diff).holds(before + dropped_table_step(desired@, *c)),
    {
        match find_table_exec(desired, c.name.as_str()) {
            None => {
                let ch = SchemaChange {
                    table: copy_string(&c.name),
                    change_type: ChangeType::DropTable,
                    column: None,
                    from_type: None,
                    to_type: None,
                    compatibility: ChangeCompatibility::DataLoss,
                    reason: some_text("Dropping table will delete all data"),
                };
                diff.add_change(ch);
                assert(before.push(ch@) =~= before + dropped_table_step(desired@, *c));
            },
            Some(_) => {
                assert(before =~= before + dropped_table_step(desired@, *c));
            },
        }
    }

    /// The diff from the live tables `current` to the desired tables `desired`:
    /// each change of `schema_changes`, filed under its kind.
    #[verifier::rlimit(40)]
    pub fn diff_schemas(&self, desired: &Vec<TableSchema>, current: &Vec<TableSchema>) -> (r: SchemaDiff)
        requires
            names_unique(desired@),
            names_unique(current@),
        ensures
            r.holds(schema_changes(desired@, current@)),
    {
        let mut diff = SchemaDiff::new();
        let mut i: usize = 0;
        while i < desired.len()
            invariant
                i <= desired@.len(),
                diff.holds(desired_table_changes(desired@, current@, i as int)),
            decreases desired@.len() - i,
        {
            let ghost before = desired_table_changes(desired@, current@, i as int);
            self.diff_desired_table(&mut diff, &desired[i], current, Ghost(before));
            assert(before + desired_table_step(desired@[i as int], current@) =~= desired_table_changes(desired@, current@, i + 1));
            i = i + 1;
        }
        let ghost head = desired_table_changes(desired@, current@, desired@.len() as int);
        let mut k: usize = 0;
        while k < current.len()
            invariant
                k <= current@.len(),
                diff.holds(head + dropped_table_changes(desired@, current@, k as int)),
            decreases current@.len() - k,
        {
            let ghost before = head + dropped_table_changes(desired@, current@, k as int);
            self.diff_dropped_table(&mut diff, desired, &current[k], Ghost(before));
            assert(before + dropped_table_step(desired@, current@[k as int]) =~= head + dropped_table_changes(desired@, current@, k + 1));
            k = k + 1;
        }
        diff
    }
}

/// No two tables share a name, and no two columns of a table do.
pub open spec fn names_unique(ts: Seq<TableSchema>) -> bool {
    &&& forall|a: int, b: int| 0 <= a < b < ts.len() ==> #[trigger] ts[a].name@ != #[trigger] ts[b].name@
    &&& forall|t: int| 0 <= t < ts.len() ==> columns_unique(#[trigger] ts[t].columns@)
}

pub open spec fn columns_unique(cs: Seq<ColumnSchema>) -> bool {
    forall|a: int, b: int| 0 <= a < b < cs.len() ==> #[trigger] cs[a].name@ != #[trigger] cs[b].name@
}

proof fn lemma_find_column_self(cs: Seq<ColumnSchema>, k: int)
    requires
        columns_unique(cs),
        0 <= k < cs.len(),
    ensures
        find_column(cs, cs[k].name@) == Some(k),
{
    let n = cs[k].name@;
    assert(exists|i: int| 0 <= i < cs.len() && #[trigger] cs[i].name@ == n);
    let c = choose|i: int| 0 <= i < cs.len() && #[trigger] cs[i].name@ == n && forall|j: int| 0 <= j < i ==> cs[j].name@ != n;
    if c != k {
        assert(forall|j: int| 0 <= j < k ==> cs[j].name@ != n);
        if c < k {
        } else {
        }
    }
}

proof fn lemma_find_table_self(ts: Seq<TableSchema>, k: int)
    requires
        forall|a: int, b: int| 0 <= a < b < ts.len() ==> #[trigger] ts[a].name@ != #[trigger] ts[b].name@,
        0 <= k < ts.len(),
    ensures
        find_table(ts, ts[k].name@) == Some(k),
{
    let n = ts[k].name@;
    assert(exists|i: int| 0 <= i < ts.len() && #[trigger] ts[i].name@ == n);
    assert(forall|j: int| 0 <= j < k ==> ts[j].name@ != n);
}

proof fn lemma_columns_unchanged(t: Seq<char>, cs: Seq<ColumnSchema>, k: int)
    requires
        columns_unique(cs),
        0 <= k <= cs.len(),
    ensures
        desired_column_changes(t, cs, cs, k).len() == 0,
        dropped_column_changes(t, cs, cs, k).len() == 0,
    decreases k,
{
    if k > 0 {
        lemma_columns_unchanged(t, cs, k - 1);
        lemma_find_column_self(cs, k - 1);
        crate::types::lemma_check_reflexive(full_type_spec(cs[k - 1]));
    }
}

proof fn lemma_tables_unchanged(ts: Seq<TableSchema>, k: int)
    requires
        names_unique(ts),
        0 <= k <= ts.len(),
    ensures
        desired_table_changes(ts, ts, k).len() == 0,
        dropped_table_changes(ts, ts, k).len() == 0,
    decreases k,
{
    if k > 0 {
        lemma_tables_unchanged(ts, k - 1);
        lemma_find_table_self(ts, k - 1);
        let t = ts[k - 1];
        assert(columns_unique(t.columns@));
        lemma_columns_unchanged(t.name@, t.columns@, t.columns@.len() as int);
    }
}

/// A schema compared with itself yields no change at all: a converged
/// database passes the diff with nothing to report.
pub proof fn lemma_converged_schema_has_no_changes(ts: Seq<TableSchema>)
    requires
        names_unique(ts),
    ensures
        schema_changes(ts, ts).len() == 0,
{
    lemma_tables_unchanged(ts, ts.len() as int);
}

fn columns_unique_exec(cs: &Vec<ColumnSchema>) -> (r: bool)
    ensures
        r == columns_unique(cs@),
{
    let mut a: usize = 0;
    while a < cs.len()
        invariant
            a <= cs@.len(),
            forall|x: int, y: int| 0 <= x < a && x < y < cs@.len() ==> #[trigger] cs@[x].name@ != #[trigger] cs@[y].name@,
        decreases cs@.len() - a,
    {
        let na = chars_of(cs[a].name.as_str());
        let mut b = a + 1;
        while b < cs.len()
            invariant
                a < b <= cs@.len(),
                na@ == cs@[a as int].name@,
                forall|x: int, y: int| 0 <= x < a && x < y < cs@.len() ==> #[trigger] cs@[x].name@ != #[trigger] cs@[y].name@,
                forall|y: int| a < y < b ==> cs@[a as int].name@ != #[trigger] cs@[y].name@,
            decreases cs@.len() - b,
        {
            if eq_chars(&na, &chars_of(cs[b].name.as_str())) {
                return false;
            }
            b = b + 1;
        }
        a = a + 1;
    }
    true
}

/// Whether no two tables share a name and no two columns of a table do, as
/// `diff_schemas` asks of its inputs.
pub fn schema_names_unique(ts: &Vec<TableSchema>) -> (r: bool)
    ensures
        r == names_unique(ts@),
{
    let mut a: usize = 0;
    while a < ts.len()
        invariant
            a <= ts@.len(),
            forall|x: int, y: int| 0 <= x < a && x < y < ts@.len() ==> #[trigger] ts@[x].name@ != #[trigger] ts@[y].name@,
            forall|t: int| 0 <= t < a ==> columns_unique(#[trigger] ts@[t].columns@),
        decreases ts@.len() - a,
    {
        if !columns_unique_exec(&ts[a].columns) {
            return false;
        }
        let na = chars_of(ts[a].name.as_str());
        let mut b = a + 1;
        while b < ts.len()
            invariant
                a < b <= ts@.len(),
                na@ == ts@[a as int].name@,
                forall|x: int, y: int| 0 <= x < a && x < y < ts@.len() ==> #[trigger] ts@[x].name@ != #[trigger] ts@[y].name@,
                forall|y: int| a < y < b ==> ts@[a as int].name@ != #[trigger] ts@[y].name@,
            decreases ts@.len() - b,
        {
            if eq_chars(&na, &chars_of(ts[b].name.as_str())) {
                return false;
            }
            b = b + 1;
        }
        a = a + 1;
    }
    true
}

/// The name of a change kind, as it is spelled in reports.
pub open spec fn change_type_name(t: ChangeType) -> Seq<char> {
    match t {
        ChangeType::CreateTable => "CreateTable"@,
        ChangeType::DropTable => "DropTable"@,
        ChangeType::AddColumn => "AddColumn"@,
        ChangeType::DropColumn => "DropColumn"@,
        ChangeType::ModifyColumnType => "ModifyColumnType"@,
        ChangeType::ModifyColumnNullable => "ModifyColumnNullable"@,
        ChangeType::ModifyColumnDefault => "ModifyColumnDefault"@,
    }
}

pub fn change_type_label(t: ChangeType) -> (r: &'static str)
    ensures
        r@ == change_type_name(t),
{
    match t {
        ChangeType::CreateTable => "CreateTable",
        ChangeType::DropTable => "DropTable",
        ChangeType::AddColumn => "AddColumn",
        ChangeType::DropColumn => "DropColumn",
        ChangeType::ModifyColumnType => "ModifyColumnType",
        ChangeType::ModifyColumnNullable => "ModifyColumnNullable",
        ChangeType::ModifyColumnDefault => "ModifyColumnDefault",
    }
}

/// `Kind table.column: reason`, with `*` for a table-level change and
/// `fallback` where the change gives no reason.
pub open spec fn blocking_line(c: ChangeView, fallback: Seq<char>) -> Seq<char> {
    change_type_name(c.change_type) + " "@ + c.table + "."@ + match c.column {
        Some(col) => col,
        None => "*"@,
    } + ": "@ + match c.reason {
        Some(r) => r,
        None => fallback,
    }
}

/// One line per blocking change: data-losing ones first, then incompatible ones.
pub open spec fn blocking_lines(diff: SchemaDiff) -> Seq<Seq<char>> {
    changes_view(diff.dataloss_changes@).map_values(|c: ChangeView| blocking_line(c, "potential data loss"@))
        + changes_view(diff.incompatible_changes@).map_values(|c: ChangeView| blocking_line(c, "incompatible types"@))
}

/// The reason given when a migration is blocked.
pub open spec fn blocked_cause(diff: SchemaDiff) -> Seq<char> {
    "Schema changes blocked due to potential data loss. "@ + crate::text::decimal_spec(blocking_lines(diff).len())
        + " issues found:\n  - "@ + crate::text::join_seq(blocking_lines(diff), "\n  - "@)
        + "\n\nUse force=true to proceed anyway."@
}

fn blocking_line_exec(c: &SchemaChange, fallback: &str) -> (r: Vec<char>)
    ensures
        r@ == blocking_line(c@, fallback@),
{
    let mut out: Vec<char> = Vec::new();
    push_str(&mut out, change_type_label(c.change_type));
    push_str(&mut out, " ");
    push_str(&mut out, c.table.as_str());
    push_str(&mut out, ".");
    match &c.column {
        Some(col) => push_str(&mut out, col.as_str()),
        None => push_str(&mut out, "*"),
    }
    push_str(&mut out, ": ");
    match &c.reason {
        Some(r) => push_str(&mut out, r.as_str()),
        None => push_str(&mut out, fallback),
    }
    assert(out@ =~= blocking_line(c@, fallback@));
    out
}

/// The diff gate: refuses, before any SQL runs, a diff that holds a
/// data-losing or incompatible change, unless `force` is set.
pub fn gate_migration(diff: &SchemaDiff, database: &str, force: bool) -> (r: Result<(), GatewayError>)
    ensures
        r is Err <==> (!force && (diff.dataloss_changes@.len() > 0 || diff.incompatible_changes@.len() > 0)),
        r matches Err(e) ==> (e matches GatewayError::MigrationFailed { database: d, migration, cause }
            && d@ == database@ && migration@ == "schema validation"@ && cause@ == blocked_cause(*diff)),
{
    if force || diff.is_safe() {
        return Ok(());
    }
    let mut lines: Vec<Vec<char>> = Vec::new();
    let mut i: usize = 0;
    while i < diff.dataloss_changes.len()
        invariant
            i <= diff.dataloss_changes@.len(),
            crate::text::texts(lines@) == changes_view(diff.dataloss_changes@).subrange(0, i as int).map_values(|c: ChangeView| blocking_line(c, "potential data loss"@)),
        decreases diff.dataloss_changes@.len() - i,
    {
        let l = blocking_line_exec(&diff.dataloss_changes[i], "potential data loss");
        let ghost before = crate::text::texts(lines@);
        lines.push(l);
        assert(crate::text::texts(lines@) =~= before.push(l@));
        assert(changes_view(diff.dataloss_changes@)[i as int] == diff.dataloss_changes@[i as int]@);
        i = i + 1;
        assert(crate::text::texts(lines@) =~= changes_view(diff.dataloss_changes@).subrange(0, i as int).map_values(|c: ChangeView| blocking_line(c, "potential data loss"@)));
    }
    let ghost first = crate::text::texts(lines@);
    let mut k: usize = 0;
    while k < diff.incompatible_changes.len()
        invariant
            k <= diff.incompatible_changes@.len(),
            crate::text::texts(lines@) == first + changes_view(diff.incompatible_changes@).subrange(0, k as int).map_values(|c: ChangeView| blocking_line(c, "incompatible types"@)),
        decreases diff.incompatible_changes@.len() - k,
    {
        let l = blocking_line_exec(&diff.incompatible_changes[k], "incompatible types");
        let ghost before = crate::text::texts(lines@);
        lines.push(l);
        assert(crate::text::texts(lines@) =~= before.push(l@));
        assert(changes_view(diff.incompatible_changes@)[k as int] == diff.incompatible_changes@[k as int]@);
        k = k + 1;
        assert(crate::text::texts(lines@) =~= first + changes_view(diff.incompatible_changes@).subrange(0, k as int).map_values(|c: ChangeView| blocking_line(c, "incompatible types"@)));
    }
    assert(changes_view(diff.dataloss_changes@).subrange(0, diff.dataloss_changes@.len() as int) =~= changes_view(diff.dataloss_changes@));
    assert(changes_view(diff.incompatible_changes@).subrange(0, diff.incompatible_changes@.len() as int) =~= changes_view(diff.incompatible_changes@));
    assert(crate::text::texts(lines@) =~= blocking_lines(*diff));
    let mut m: Vec<char> = Vec::new();
    push_str(&mut m, "Schema changes blocked due to potential data loss. ");
    push_decimal(&mut m, lines.len() as u64);
    push_str(&mut m, " issues found:\n  - ");
    crate::text::push_joined(&mut m, &lines, "\n  - ");
    push_str(&mut m, "\n\nUse force=true to proceed anyway.");
    assert(m@ =~= blocked_cause(*diff));
    Err(GatewayError::MigrationFailed {
        database: string_of(&chars_of(database)),
        migration: string_of(&chars_of("schema validation")),
        cause: string_of(&m),
    })
}

/// One line of a diff report: `  <mark> <Kind> table[.column][: from -> to][ Reason]`.
pub open spec fn change_line(c: ChangeView, mark: Seq<char>) -> Seq<char> {
    "  "@ + mark + " "@ + change_type_name(c.change_type) + change_subject(c) + change_types(c)
        + change_reason(c) + "\n"@
}

pub open spec fn change_subject(c: ChangeView) -> Seq<char> {
    match c.column {
        Some(col) => " "@ + c.table + "."@ + col,
        None => " "@ + c.table,
    }
}

pub open spec fn change_types(c: ChangeView) -> Seq<char> {
    match (c.from_type, c.to_type) {
        (Some(f), Some(t)) => ": "@ + f + " -> "@ + t,
        (None, Some(t)) => ": "@ + t,
        _ => Seq::empty(),
    }
}

pub open spec fn change_reason(c: ChangeView) -> Seq<char> {
    match c.reason {
        Some(r) => "\n      Reason: "@ + r,
        None => Seq::empty(),
    }
}

fn subject_chars(c: &SchemaChange) -> (r: Vec<char>)
    ensures
        r@ == change_subject(c@),
{
    let mut out: Vec<char> = Vec::new();
    push_str(&mut out, " ");
    push_str(&mut out, c.table.as_str());
    match &c.column {
        Some(col) => {
            push_str(&mut out, ".");
            push_str(&mut out, col.as_str());
        },
        None => {},
    }
    assert(out@ =~= change_subject(c@));
    out
}

fn types_chars(c: &SchemaChange) -> (r: Vec<char>)
    ensures
        r@ == change_types(c@),
{
    let mut out: Vec<char> = Vec::new();
    match (&c.from_type, &c.to_type) {
        (Some(f), Some(t)) => {
            push_str(&mut out, ": ");
            push_str(&mut out, f.as_str());
            push_str(&mut out, " -> ");
            push_str(&mut out, t.as_str());
        },
        (None, Some(t)) => {
            push_str(&mut out, ": ");
            push_str(&mut out, t.as_str());
        },
        _ => {},
    }
    assert(out@ =~= change_types(c@));
    out
}

fn reason_chars(c: &SchemaChange) -> (r: Vec<char>)
    ensures
        r@ == change_reason(c@),
{
    let mut out: Vec<char> = Vec::new();
    match &c.reason {
        Some(r) => {
            push_str(&mut out, "\n      Reason: ");
            push_str(&mut out, r.as_str());
        },
        None => {},
    }
    assert(out@ =~= change_reason(c@));
    out
}

pub open spec fn change_lines(cs: Seq<ChangeView>, mark: Seq<char>) -> Seq<char>
    decreases cs.len(),
{
    if cs.len() == 0 {
        Seq::empty()
    } else {
        change_lines(cs.drop_last(), mark) + change_line(cs.last(), mark)
    }
}

pub open spec fn report_rule() -> Seq<char> {
    "═══════════════════════════════════════════════════════════════\n"@
}

pub open spec fn report_thin() -> Seq<char> {
    "───────────────────────────────────────────────────────────────\n"@
}

pub open spec fn report_section(title: Seq<char>, cs: Seq<ChangeView>, mark: Seq<char>) -> Seq<char> {
    if cs.len() == 0 {
        Seq::empty()
    } else {
        title + "("@ + crate::text::decimal_spec(cs.len()) + "):\n"@ + report_thin() + change_lines(cs, mark) + "\n"@
    }
}

/// The readable report of a diff.
pub open spec fn format_diff_spec(d: SchemaDiff) -> Seq<char> {
    let head = report_rule() + "                      SCHEMA DIFF REPORT\n"@ + report_rule() + "\n"@;
    let safe = changes_view(d.safe_changes@);
    let loss = changes_view(d.dataloss_changes@);
    let bad = changes_view(d.incompatible_changes@);
    if safe.len() == 0 && loss.len() == 0 && bad.len() == 0 {
        head + "No schema changes detected.\n"@
    } else {
        head + report_section("SAFE CHANGES "@, safe, "✓"@) + report_section("⚠️  DATALOSS CHANGES "@, loss, "⚠"@)
            + report_section("❌ INCOMPATIBLE CHANGES "@, bad, "✗"@) + report_rule() + if loss.len() == 0 && bad.len() == 0 {
            "Result: SAFE - Migration can proceed\n"@
        } else {
            "Result: BLOCKED - Use force=true to proceed\n"@
        }
    }
}

fn push_change(out: &mut Vec<char>, c: &SchemaChange, mark: &str)
    ensures
        final(out)@ == old(out)@ + change_line(c@, mark@),
{
    let ghost start = out@;
    push_str(out, "  ");
    push_str(out, mark);
    push_str(out, " ");
    push_str(out, change_type_label(c.change_type));
    push_all(out, &subject_chars(c));
    push_all(out, &types_chars(c));
    push_all(out, &reason_chars(c));
    push_str(out, "\n");
    assert(out@ =~= start + change_line(c@, mark@));
}

fn push_section(out: &mut Vec<char>, title: &str, cs: &Vec<SchemaChange>, mark: &str)
    ensures
        final(out)@ == old(out)@ + report_section(title@, changes_view(cs@), mark@),
{
    let ghost start = out@;
    if cs.len() == 0 {
        assert(start + report_section(title@, changes_view(cs@), mark@) =~= start);
        return;
    }
    push_str(out, title);
    push_str(out, "(");
    push_decimal(out, cs.len() as u64);
    push_str(out, "):\n");
    push_str(out, "───────────────────────────────────────────────────────────────\n");
    let ghost head = out@;
    let mut i: usize = 0;
    while i < cs.len()
        invariant
            i <= cs@.len(),
            out@ == head + change_lines(changes_view(cs@).subrange(0, i as int), mark@),
        decreases cs@.len() - i,
    {
        assert(changes_view(cs@).subrange(0, i + 1).drop_last() =~= changes_view(cs@).subrange(0, i as int));
        push_change(out, &cs[i], mark);
        i = i + 1;
        assert(out@ =~= head + change_lines(changes_view(cs@).subrange(0, i as int), mark@));
    }
    assert(changes_view(cs@).subrange(0, cs@.len() as int) =~= changes_view(cs@));
    push_str(out, "\n");
    assert(out@ =~= start + report_section(title@, changes_view(cs@), mark@));
}

impl SchemaDiffChecker {
    /// The readable report of a diff: its changes by kind, then the verdict.
    pub fn format_diff(diff: &SchemaDiff) -> (r: String)
        ensures
            r@ == format_diff_spec(*diff),
    {
        let mut out: Vec<char> = Vec::new();
        push_str(&mut out, "═══════════════════════════════════════════════════════════════\n");
        push_str(&mut out, "                      SCHEMA DIFF REPORT\n");
        push_str(&mut out, "═══════════════════════════════════════════════════════════════\n");
        push_str(&mut out, "\n");
        if !diff.has_changes() {
            push_str(&mut out, "No schema changes detected.\n");
            assert(out@ =~= format_diff_spec(*diff));
            return string_of(&out);
        }
        push_section(&mut out, "SAFE CHANGES ", &diff.safe_changes, "✓");
        push_section(&mut out, "⚠️  DATALOSS CHANGES ", &diff.dataloss_changes, "⚠");
        push_section(&mut out, "❌ INCOMPATIBLE CHANGES ", &diff.incompatible_changes, "✗");
        push_str(&mut out, "═══════════════════════════════════════════════════════════════\n");
        if diff.is_safe() {
            push_str(&mut out, "Result: SAFE - Migration can proceed\n");
        } else {
            push_str(&mut out, "Result: BLOCKED - Use force=true to proceed\n");
        }
        assert(out@ =~= format_diff_spec(*diff));
        string_of(&out)
    }
}

/// The desired form of a column read from a table file: nullable unless NOT
/// NULL or a primary key; a default where it declares one; its full type text
/// as written, uppercased.
pub open spec fn desired_column_spec(c: crate::dependency::ColumnInfo, d: ColumnSchema) -> bool {
    &&& d.name@ == c.name@
    &&& d.data_type@ == c.data_type@
    &&& d.is_nullable == (c.is_nullable && !c.is_primary_key)
    &&& (d.column_default is Some <==> c.has_default)
    &&& d.character_maximum_length is None
    &&& d.numeric_precision is None
    &&& d.numeric_scale is None
}

impl SchemaDiffChecker {
    /// The desired schema of a table read from its file.
    pub fn desired_table(info: &crate::dependency::TableInfo) -> (r: TableSchema)
        ensures
            r.name@ == info.name@,
            r.columns@.len() == info.columns@.len(),
            forall|k: int| 0 <= k < info.columns@.len() ==> desired_column_spec(info.columns@[k], #[trigger] r.columns@[k]),
    {
        let mut columns: Vec<ColumnSchema> = Vec::new();
        let mut k: usize = 0;
        while k < info.columns.len()
            invariant
                k <= info.columns@.len(),
                columns@.len() == k,
                forall|m: int| 0 <= m < k ==> desired_column_spec(info.columns@[m], #[trigger] columns@[m]),
            decreases info.columns@.len() - k,
        {
            let c = &info.columns[k];
            columns.push(ColumnSchema {
                name: copy_string(&c.name),
                data_type: copy_string(&c.data_type),
                is_nullable: c.is_nullable && !c.is_primary_key,
                column_default: if c.has_default { some_text("default") } else { None },
                character_maximum_length: None,
                numeric_precision: None,
                numeric_scale: None,
            });
            k = k + 1;
        }
        TableSchema { name: copy_string(&info.name), columns }
    }
}

} // verus!
