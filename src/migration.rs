//! The migration runner's logic: the order in which migration files run, and
//! which of them are still to run.
use vstd::prelude::*;
use crate::error::GatewayError;
use crate::graph::{
    is_acyclic, is_dependency_order, name_graph, order_by_names, strs, strss, takes_smallest,
};
use crate::text::{chars_of, string_of, push_str, eq_chars};
use crate::dependency::{info_dep_names, info_graph, info_names, TableInfo};

verus! {

/// A migration file.
#[derive(Debug, Clone)]
pub struct MigrationFile {
    pub name: String,
    pub path: String,
    pub checksum: String,
}

/// Whether migration files stand in an order their tables allow.
#[derive(Debug, Clone)]
pub struct DependencyValidation {
    pub is_valid: bool,
    pub issues: Vec<DependencyIssue>,
    pub suggested_order: Vec<String>,
}

/// A table that references a table defined by a later migration.
#[derive(Debug, Clone)]
pub struct DependencyIssue {
    pub migration: String,
    pub table: String,
    pub depends_on: String,
    pub depends_on_defined_in: Option<String>,
    pub message: String,
}

pub open spec fn texts_of(v: Seq<String>) -> Seq<Seq<char>> {
    v.map_values(|s: String| s@)
}

/// The first migration at or after `j` that defines table `t`.
pub open spec fn definer_from(defines: Seq<Seq<Seq<char>>>, t: Seq<char>, j: int) -> Option<int>
    decreases defines.len() - j,
{
    if j < 0 || j >= defines.len() {
        None
    } else if defines[j].contains(t) {
        Some(j)
    } else {
        definer_from(defines, t, j + 1)
    }
}

/// The migrations that migration `i` depends on, by name: for each table its
/// tables reference, the migration that defines that table, where it is another one.
pub open spec fn migration_deps(names: Seq<Seq<char>>, defines: Seq<Seq<Seq<char>>>, refs: Seq<Seq<char>>, i: int) -> Seq<Seq<char>>
    decreases refs.len(),
{
    if refs.len() == 0 {
        Seq::empty()
    } else {
        let rest = migration_deps(names, defines, refs.drop_last(), i);
        match definer_from(defines, refs.last(), 0) {
            Some(j) => if j != i { rest.push(names[j]) } else { rest },
            None => rest,
        }
    }
}

/// The migration graph: migrations by name, each with the names of the
/// migrations defining the tables it references.
pub open spec fn migration_graph(names: Seq<Seq<char>>, defines: Seq<Seq<Seq<char>>>, refs: Seq<Seq<Seq<char>>>) -> Seq<Seq<usize>> {
    name_graph(names, Seq::new(names.len(), |i: int| migration_deps(names, defines, refs[i], i)))
}

fn contains_text(v: &Vec<Vec<char>>, t: &Vec<char>) -> (r: bool)
    ensures
        r == strs(v@).contains(t@),
{
    let mut i: usize = 0;
    while i < v.len()
        invariant
            i <= v@.len(),
            forall|k: int| 0 <= k < i ==> v@[k]@ != t@,
        decreases v@.len() - i,
    {
        if eq_chars(&v[i], t) {
            assert(strs(v@)[i as int] == t@);
            return true;
        }
        i = i + 1;
    }
    proof {
        if strs(v@).contains(t@) {
            let k = choose|k: int| 0 <= k < strs(v@).len() && strs(v@)[k] == t@;
            assert(v@[k]@ == t@);
        }
    }
    false
}

fn definer(defines: &Vec<Vec<Vec<char>>>, t: &Vec<char>) -> (r: Option<usize>)
    ensures
        r matches Some(j) ==> j < defines@.len() && definer_from(strss(defines@), t@, 0) == Some(j as int),
        r is None ==> definer_from(strss(defines@), t@, 0) is None,
{
    let mut j: usize = 0;
    while j < defines.len()
        invariant
            j <= defines@.len(),
            definer_from(strss(defines@), t@, 0) == definer_from(strss(defines@), t@, j as int),
        decreases defines@.len() - j,
    {
        if contains_text(&defines[j], t) {
            return Some(j);
        }
        j = j + 1;
    }
    None
}

/// A migration's table references, `dep`, a table that a later migration
/// defines first.
pub open spec fn later_definer(defines: Seq<Seq<Seq<char>>>, i: int, dep: Seq<char>) -> bool {
    match definer_from(defines, dep, 0) {
        Some(j) => j > i,
        None => false,
    }
}

/// Some table of some migration references a table defined by a later migration.
pub open spec fn has_forward_reference(tables: Seq<Vec<TableInfo>>) -> bool {
    exists|i: int, t: int, d: int| 0 <= i < tables.len() && 0 <= t < tables[i]@.len()
        && 0 <= d < tables[i]@[t].depends_on@.len() && #[trigger] later_definer(mig_defines(tables), i, tables[i]@[t].depends_on@[d]@)
}

/// All the tables of all the migrations, in order.
pub open spec fn flat_tables(tables: Seq<Vec<TableInfo>>) -> Seq<TableInfo>
    decreases tables.len(),
{
    if tables.len() == 0 {
        Seq::empty()
    } else {
        flat_tables(tables.drop_last()) + tables.last()@
    }
}

/// The names and references of all the tables, in order.
fn flatten_tables(tables: &Vec<Vec<TableInfo>>) -> (r: (Vec<Vec<char>>, Vec<Vec<Vec<char>>>))
    ensures
        strs(r.0@) == info_names(flat_tables(tables@)),
        strss(r.1@) == info_dep_names(flat_tables(tables@)),
{
    let mut names: Vec<Vec<char>> = Vec::new();
    let mut deps: Vec<Vec<Vec<char>>> = Vec::new();
    let mut i: usize = 0;
    while i < tables.len()
        invariant
            i <= tables@.len(),
            strs(names@) == info_names(flat_tables(tables@.subrange(0, i as int))),
            strss(deps@) == info_dep_names(flat_tables(tables@.subrange(0, i as int))),
        decreases tables@.len() - i,
    {
        let ts = &tables[i];
        let ghost n0 = strs(names@);
        let ghost d0 = strss(deps@);
        let mut t: usize = 0;
        while t < ts.len()
            invariant
                t <= ts@.len(),
                strs(names@) == n0 + info_names(ts@.subrange(0, t as int)),
                strss(deps@) == d0 + info_dep_names(ts@.subrange(0, t as int)),
            decreases ts@.len() - t,
        {
            let ghost (nb, db) = (strs(names@), strss(deps@));
            names.push(chars_of(ts[t].name.as_str()));
            let mut dv: Vec<Vec<char>> = Vec::new();
            let ds = &ts[t].depends_on;
            let mut k: usize = 0;
            while k < ds.len()
                invariant
                    k <= ds@.len(),
                    strs(dv@) == ds@.subrange(0, k as int).map_values(|d: String| d@),
                decreases ds@.len() - k,
            {
                let ghost b = strs(dv@);
                dv.push(chars_of(ds[k].as_str()));
                assert(strs(dv@) =~= b.push(ds@[k as int]@));
                k = k + 1;
                assert(strs(dv@) =~= ds@.subrange(0, k as int).map_values(|d: String| d@));
            }
            assert(ds@.subrange(0, ds@.len() as int) =~= ds@);
            deps.push(dv);
            assert(strs(names@) =~= nb.push(ts@[t as int].name@));
            assert(strss(deps@) =~= db.push(ts@[t as int].depends_on@.map_values(|d: String| d@)));
            t = t + 1;
            assert(strs(names@) =~= n0 + info_names(ts@.subrange(0, t as int)));
            assert(strss(deps@) =~= d0 + info_dep_names(ts@.subrange(0, t as int)));
        }
        assert(ts@.subrange(0, ts@.len() as int) =~= ts@);
        assert(tables@.subrange(0, i + 1).drop_last() =~= tables@.subrange(0, i as int));
        assert(info_names(flat_tables(tables@.subrange(0, i + 1))) =~= info_names(flat_tables(tables@.subrange(0, i as int))) + info_names(ts@));
        assert(info_dep_names(flat_tables(tables@.subrange(0, i + 1))) =~= info_dep_names(flat_tables(tables@.subrange(0, i as int))) + info_dep_names(ts@));
        i = i + 1;
    }
    assert(tables@.subrange(0, tables@.len() as int) =~= tables@);
    (names, deps)
}

pub open spec fn file_names(ms: Seq<MigrationFile>) -> Seq<Seq<char>> {
    ms.map_values(|m: MigrationFile| m.name@)
}

/// The tables each migration defines.
pub open spec fn mig_defines(tables: Seq<Vec<TableInfo>>) -> Seq<Seq<Seq<char>>> {
    tables.map_values(|ts: Vec<TableInfo>| ts@.map_values(|t: TableInfo| t.name@))
}

/// The tables that the tables of a migration reference, in order.
pub open spec fn refs_of(ts: Seq<TableInfo>) -> Seq<Seq<char>>
    decreases ts.len(),
{
    if ts.len() == 0 {
        Seq::empty()
    } else {
        refs_of(ts.drop_last()) + ts.last().depends_on@.map_values(|d: String| d@)
    }
}

pub open spec fn mig_refs(tables: Seq<Vec<TableInfo>>) -> Seq<Seq<Seq<char>>> {
    tables.map_values(|ts: Vec<TableInfo>| refs_of(ts@))
}

fn refs_chars(ts: &Vec<TableInfo>) -> (r: Vec<Vec<char>>)
    ensures
        strs(r@) == refs_of(ts@),
{
    let mut r: Vec<Vec<char>> = Vec::new();
    let mut t: usize = 0;
    while t < ts.len()
        invariant
            t <= ts@.len(),
            strs(r@) == refs_of(ts@.subrange(0, t as int)),
        decreases ts@.len() - t,
    {
        let ghost head = strs(r@);
        let ds = &ts[t].depends_on;
        let mut k: usize = 0;
        while k < ds.len()
            invariant
                k <= ds@.len(),
                strs(r@) == head + ds@.subrange(0, k as int).map_values(|d: String| d@),
            decreases ds@.len() - k,
        {
            let ghost before = strs(r@);
            r.push(chars_of(ds[k].as_str()));
            assert(strs(r@) =~= before.push(ds@[k as int]@));
            k = k + 1;
            assert(strs(r@) =~= head + ds@.subrange(0, k as int).map_values(|d: String| d@));
        }
        assert(ds@.subrange(0, ds@.len() as int) =~= ds@);
        assert(ts@.subrange(0, t + 1).drop_last() =~= ts@.subrange(0, t as int));
        t = t + 1;
    }
    assert(ts@.subrange(0, ts@.len() as int) =~= ts@);
    r
}

/// Runs the migrations of a schema in dependency order.
pub struct MigrationRunner;

impl MigrationRunner {
    pub fn new() -> (r: Self) {
        MigrationRunner
    }

    /// The order in which migrations run, given for each migration the tables
    /// it defines and the tables those reference: every migration after the
    /// migrations defining the tables it references, the lexically smallest
    /// name first among those ready. Fails with the migrations that cannot be
    /// ordered when the references form a cycle.
    pub fn order_migrations(
        &self,
        names: &Vec<Vec<char>>,
        defines: &Vec<Vec<Vec<char>>>,
        refs: &Vec<Vec<Vec<char>>>,
    ) -> (r: Result<Vec<usize>, GatewayError>)
        requires
            names@.len() == defines@.len(),
            names@.len() == refs@.len(),
        ensures
            r is Ok <==> is_acyclic(migration_graph(strs(names@), strss(defines@), strss(refs@))),
            r matches Ok(order) ==> is_dependency_order(migration_graph(strs(names@), strss(defines@), strss(refs@)), order@)
                && takes_smallest(strs(names@), migration_graph(strs(names@), strss(defines@), strss(refs@)), order@),
            r matches Err(e) ==> e is SchemaExtractionFailed,
    {
        let ghost dn = Seq::new(names@.len(), |i: int| migration_deps(strs(names@), strss(defines@), strss(refs@)[i], i));
        let mut dep_names: Vec<Vec<Vec<char>>> = Vec::new();
        let mut i: usize = 0;
        while i < names.len()
            invariant
                i <= names@.len(),
                names@.len() == defines@.len(),
                names@.len() == refs@.len(),
                dep_names@.len() == i,
                dn == Seq::new(names@.len(), |i: int| migration_deps(strs(names@), strss(defines@), strss(refs@)[i], i)),
                forall|m: int| 0 <= m < i ==> #[trigger] strs(dep_names@[m]@) == dn[m],
            decreases names@.len() - i,
        {
            let rs = &refs[i];
            let mut d: Vec<Vec<char>> = Vec::new();
            let mut k: usize = 0;
            while k < rs.len()
                invariant
                    i < names@.len(),
                    names@.len() == defines@.len(),
                    names@.len() == refs@.len(),
                    rs@ == refs@[i as int]@,
                    k <= rs@.len(),
                    strs(d@) == migration_deps(strs(names@), strss(defines@), strs(rs@).subrange(0, k as int), i as int),
                decreases rs@.len() - k,
            {
                let ghost pre = strs(rs@).subrange(0, k as int);
                assert(strs(rs@).subrange(0, k + 1).drop_last() =~= pre);
                let ghost before = strs(d@);
                match definer(defines, &rs[k]) {
                    Some(j) => {
                        if j != i {
                            d.push(crate::text::copy_chars(&names[j]));
                            assert(strs(d@) =~= before.push(strs(names@)[j as int]));
                        }
                    },
                    None => {},
                }
                k = k + 1;
            }
            assert(strs(rs@).subrange(0, rs@.len() as int) =~= strs(rs@));
            dep_names.push(d);
            i = i + 1;
        }
        assert(strss(dep_names@) =~= dn);
        match order_by_names(names, &dep_names) {
            Ok(order) => Ok(order),
            Err(rest) => {
                let mut m: Vec<char> = Vec::new();
                push_str(&mut m, "Circular dependency detected in migrations: ");
                let mut p: usize = 0;
                while p < rest.len()
                    invariant
                        p <= rest@.len(),
                        forall|q: int| 0 <= q < rest@.len() ==> #[trigger] rest@[q] < names@.len(),
                    decreases rest@.len() - p,
                {
                    if p > 0 {
                        push_str(&mut m, ", ");
                    }
                    crate::text::push_all(&mut m, &names[rest[p]]);
                    p = p + 1;
                }
                Err(GatewayError::SchemaExtractionFailed { cause: string_of(&m) })
            },
        }
    }

    /// Orders migration files by their tables: `tables[i]` are the tables
    /// that `migrations[i]` creates. Each migration comes after the migrations
    /// defining the tables its tables reference, the lexically smallest name
    /// first among those ready; a cycle of references fails.
    pub fn order_by_dependencies(&self, migrations: Vec<MigrationFile>, tables: &Vec<Vec<TableInfo>>) -> (r: Result<Vec<MigrationFile>, GatewayError>)
        requires
            migrations@.len() == tables@.len(),
        ensures
            r is Ok <==> is_acyclic(migration_graph(file_names(migrations@), mig_defines(tables@), mig_refs(tables@))),
            r matches Ok(v) ==> exists|order: Seq<usize>|
                #[trigger] is_dependency_order(migration_graph(file_names(migrations@), mig_defines(tables@), mig_refs(tables@)), order)
                && takes_smallest(file_names(migrations@), migration_graph(file_names(migrations@), mig_defines(tables@), mig_refs(tables@)), order)
                && v@ == order.map_values(|i: usize| migrations@[i as int]),
            r matches Err(e) ==> e is SchemaExtractionFailed,
    {
        let mut names: Vec<Vec<char>> = Vec::new();
        let mut defines: Vec<Vec<Vec<char>>> = Vec::new();
        let mut refs: Vec<Vec<Vec<char>>> = Vec::new();
        let mut i: usize = 0;
        while i < migrations.len()
            invariant
                i <= migrations@.len(),
                migrations@.len() == tables@.len(),
                strs(names@) == file_names(migrations@).subrange(0, i as int),
                strss(defines@) == mig_defines(tables@).subrange(0, i as int),
                strss(refs@) == mig_refs(tables@).subrange(0, i as int),
            decreases migrations@.len() - i,
        {
            let ghost (n0, d0, r0) = (strs(names@), strss(defines@), strss(refs@));
            names.push(chars_of(migrations[i].name.as_str()));
            defines.push(defined_names(&tables[i]));
            refs.push(refs_chars(&tables[i]));
            assert(strs(names@) =~= n0.push(migrations@[i as int].name@));
            assert(strss(defines@) =~= d0.push(tables@[i as int]@.map_values(|t: TableInfo| t.name@)));
            assert(strss(refs@) =~= r0.push(refs_of(tables@[i as int]@)));
            i = i + 1;
            assert(strs(names@) =~= file_names(migrations@).subrange(0, i as int));
            assert(strss(defines@) =~= mig_defines(tables@).subrange(0, i as int));
            assert(strss(refs@) =~= mig_refs(tables@).subrange(0, i as int));
        }
        assert(file_names(migrations@).subrange(0, i as int) =~= file_names(migrations@));
        assert(mig_defines(tables@).subrange(0, i as int) =~= mig_defines(tables@));
        assert(mig_refs(tables@).subrange(0, i as int) =~= mig_refs(tables@));
        let order = self.order_migrations(&names, &defines, &refs)?;
        let ghost orig = migrations@;
        let n = migrations.len();
        let mut migrations = migrations;
        let mut slots: Vec<Option<MigrationFile>> = Vec::new();
        while migrations.len() > 0
            invariant
                n == orig.len(),
                slots@.len() <= n,
                migrations@ == orig.subrange(0, n - slots@.len()),
                forall|m: int| 0 <= m < slots@.len() ==> #[trigger] slots@[m] == Some(orig[n - 1 - m]),
            decreases migrations@.len(),
        {
            match migrations.pop() {
                Some(f) => slots.push(Some(f)),
                None => {},
            }
        }
        let mut out: Vec<MigrationFile> = Vec::new();
        let mut p: usize = 0;
        let ghost g = migration_graph(strs(names@), strss(defines@), strss(refs@));
        while p < order.len()
            invariant
                n == orig.len(),
                slots@.len() == n,
                names@.len() == n,
                p <= order@.len(),
                is_dependency_order(g, order@),
                g.len() == n,
                forall|i: int| 0 <= i < n && !order@.subrange(0, p as int).contains(i as usize) ==> #[trigger] slots@[n - 1 - i] == Some(orig[i]),
                out@ == order@.subrange(0, p as int).map_values(|i: usize| orig[i as int]),
            decreases order@.len() - p,
        {
            let i = order[p];
            assert(!order@.subrange(0, p as int).contains(i)) by {
                if order@.subrange(0, p as int).contains(i) {
                    let q = choose|q: int| 0 <= q < p && order@.subrange(0, p as int)[q] == i;
                    assert(order@[q] == order@[p as int]);
                }
            }
            let ghost before = slots@;
            let t = slots[n - 1 - i].take();
            proof {
                assert forall|k: int| 0 <= k < n && !order@.subrange(0, p + 1).contains(k as usize) implies #[trigger] slots@[n - 1 - k] == Some(orig[k]) by {
                    assert(order@.subrange(0, p + 1)[p as int] == i);
                    if order@.subrange(0, p as int).contains(k as usize) {
                        let q = choose|q: int| 0 <= q < p && order@.subrange(0, p as int)[q] == k as usize;
                        assert(order@.subrange(0, p + 1)[q] == k as usize);
                    }
                    assert(k != i);
                    assert(before[n - 1 - k] == Some(orig[k]));
                }
            }
            out.push(t.unwrap());
            p = p + 1;
            assert(out@ =~= order@.subrange(0, p as int).map_values(|i: usize| orig[i as int]));
        }
        assert(order@.subrange(0, order@.len() as int) =~= order@);
        Ok(out)
    }

    /// The migrations still to run: those whose name is not among `applied`, in order.
    pub fn pending_migrations(&self, ordered: &Vec<MigrationFile>, applied: &Vec<String>) -> (r: Vec<usize>)
        ensures
            forall|k: int| 0 <= k < r@.len() ==> #[trigger] r@[k] < ordered@.len() && !texts_of(applied@).contains(ordered@[r@[k] as int].name@),
            forall|j: int| 0 <= j < ordered@.len() && !texts_of(applied@).contains(#[trigger] ordered@[j].name@) ==> r@.contains(j as usize),
            forall|p: int, q: int| 0 <= p < q < r@.len() ==> #[trigger] r@[p] < #[trigger] r@[q],
    {
        let mut r: Vec<usize> = Vec::new();
        let mut j: usize = 0;
        while j < ordered.len()
            invariant
                j <= ordered@.len(),
                forall|k: int| 0 <= k < r@.len() ==> #[trigger] r@[k] < j && !texts_of(applied@).contains(ordered@[r@[k] as int].name@),
                forall|m: int| 0 <= m < j && !texts_of(applied@).contains(#[trigger] ordered@[m].name@) ==> r@.contains(m as usize),
                forall|p: int, q: int| 0 <= p < q < r@.len() ==> #[trigger] r@[p] < #[trigger] r@[q],
            decreases ordered@.len() - j,
        {
            let target = chars_of(ordered[j].name.as_str());
            let mut found = false;
            let mut k: usize = 0;
            while k < applied.len()
                invariant
                    k <= applied@.len(),
                    target@ == ordered@[j as int].name@,
                    found == texts_of(applied@).subrange(0, k as int).contains(ordered@[j as int].name@),
                decreases applied@.len() - k,
            {
                let ghost pre = texts_of(applied@).subrange(0, k as int);
                let ghost post = texts_of(applied@).subrange(0, k + 1);
                if eq_chars(&chars_of(applied[k].as_str()), &target) {
                    found = true;
                    assert(post[k as int] == ordered@[j as int].name@);
                } else {
                    proof {
                        if post.contains(ordered@[j as int].name@) != pre.contains(ordered@[j as int].name@) {
                            let q = choose|q: int| 0 <= q < post.len() && post[q] == ordered@[j as int].name@;
                            if q < k {
                                assert(pre[q] == post[q]);
                            }
                        }
                        if pre.contains(ordered@[j as int].name@) {
                            let q = choose|q: int| 0 <= q < pre.len() && pre[q] == ordered@[j as int].name@;
                            assert(post[q] == pre[q]);
                        }
                    }
                }
                proof {
                    if found && pre.contains(ordered@[j as int].name@) {
                        let q = choose|q: int| 0 <= q < pre.len() && pre[q] == ordered@[j as int].name@;
                        assert(post[q] == pre[q]);
                    }
                }
                k = k + 1;
            }
            assert(texts_of(applied@).subrange(0, applied@.len() as int) =~= texts_of(applied@));
            if !found {
                let ghost old_r = r@;
                r.push(j);
                proof {
                    assert forall|m: int| 0 <= m < j + 1 && !texts_of(applied@).contains(#[trigger] ordered@[m].name@) implies r@.contains(m as usize) by {
                        if m < j {
                            let q = choose|q: int| 0 <= q < old_r.len() && old_r[q] == m as usize;
                            assert(r@[q] == m as usize);
                        } else {
                            assert(r@[old_r.len() as int] == j);
                        }
                    }
                }
            }
            j = j + 1;
        }
        r
    }
}

pub open spec fn opt_text(o: Option<String>) -> Option<Seq<char>> {
    match o {
        Some(s) => Some(s@),
        None => None,
    }
}

/// An issue names a migration and a later migration that defines, first, the
/// table it references.
pub open spec fn issue_sound(names: Seq<String>, tables: Seq<Vec<TableInfo>>, issue: DependencyIssue) -> bool {
    exists|i: int, j: int|
        0 <= i < names.len() && 0 <= j < names.len() && issue.migration@ == #[trigger] names[i]@
        && opt_text(issue.depends_on_defined_in) == Some(#[trigger] names[j]@)
        && forward_reference(tables.map_values(|ts: Vec<TableInfo>| ts@.map_values(|t: TableInfo| t.name@)), i, issue.depends_on@, j)
}

pub open spec fn issues_sound(names: Seq<String>, tables: Seq<Vec<TableInfo>>, issues: Seq<DependencyIssue>) -> bool {
    forall|k: int| 0 <= k < issues.len() ==> #[trigger] issue_sound(names, tables, issues[k])
}

/// Table `t` of migration `i` references a table that migration `j`, a
/// later one, defines first.
pub open spec fn forward_reference(defines: Seq<Seq<Seq<char>>>, i: int, dep: Seq<char>, j: int) -> bool {
    definer_from(defines, dep, 0) == Some(j) && j > i
}

fn defined_names(tables: &Vec<TableInfo>) -> (r: Vec<Vec<char>>)
    ensures
        strs(r@) == tables@.map_values(|t: TableInfo| t.name@),
{
    let mut r: Vec<Vec<char>> = Vec::new();
    let mut k: usize = 0;
    while k < tables.len()
        invariant
            k <= tables@.len(),
            strs(r@) == tables@.subrange(0, k as int).map_values(|t: TableInfo| t.name@),
        decreases tables@.len() - k,
    {
        let ghost before = strs(r@);
        r.push(chars_of(tables[k].name.as_str()));
        assert(strs(r@) =~= before.push(tables@[k as int].name@));
        k = k + 1;
        assert(strs(r@) =~= tables@.subrange(0, k as int).map_values(|t: TableInfo| t.name@));
    }
    assert(tables@.subrange(0, tables@.len() as int) =~= tables@);
    r
}

impl MigrationRunner {
    /// Checks that migrations, in the order given, create every table before
    /// a later migration's table references it. `tables[i]` are the tables of
    /// migration `i`. Every issue reported is such a forward reference, and the
    /// migrations are valid exactly when there is none. The suggested order is
    /// the creation order of all the tables together; it fails exactly when
    /// their references form a cycle.
    pub fn validate_dependencies(&self, names: &Vec<String>, tables: &Vec<Vec<TableInfo>>) -> (r: Result<DependencyValidation, GatewayError>)
        requires
            names@.len() == tables@.len(),
        ensures
            r is Ok <==> is_acyclic(info_graph(flat_tables(tables@))),
            r matches Ok(v) ==> v.is_valid == (v.issues@.len() == 0),
            r matches Ok(v) ==> issues_sound(names@, tables@, v.issues@),
            r matches Ok(v) ==> (v.is_valid <==> !has_forward_reference(tables@)),
            r matches Ok(v) ==> exists|order: Seq<usize>|
                #[trigger] is_dependency_order(info_graph(flat_tables(tables@)), order)
                && takes_smallest(info_names(flat_tables(tables@)), info_graph(flat_tables(tables@)), order)
                && texts_of(v.suggested_order@) == order.map_values(|i: usize| info_names(flat_tables(tables@))[i as int]),
            r matches Err(e) ==> e is SchemaExtractionFailed,
    {
        let mut defines: Vec<Vec<Vec<char>>> = Vec::new();
        let mut i: usize = 0;
        while i < tables.len()
            invariant
                i <= tables@.len(),
                strss(defines@) == tables@.subrange(0, i as int).map_values(|ts: Vec<TableInfo>| ts@.map_values(|t: TableInfo| t.name@)),
            decreases tables@.len() - i,
        {
            let ghost before = strss(defines@);
            let d = defined_names(&tables[i]);
            defines.push(d);
            assert(strss(defines@) =~= before.push(tables@[i as int]@.map_values(|t: TableInfo| t.name@)));
            i = i + 1;
            assert(strss(defines@) =~= tables@.subrange(0, i as int).map_values(|ts: Vec<TableInfo>| ts@.map_values(|t: TableInfo| t.name@)));
        }
        assert(tables@.subrange(0, tables@.len() as int) =~= tables@);
        let ghost dv = tables@.map_values(|ts: Vec<TableInfo>| ts@.map_values(|t: TableInfo| t.name@));
        assert(defines@.len() == strss(defines@).len());
        let mut issues: Vec<DependencyIssue> = Vec::new();
        let mut m: usize = 0;
        while m < tables.len()
            invariant
                m <= tables@.len(),
                names@.len() == tables@.len(),
                defines@.len() == tables@.len(),
                dv == tables@.map_values(|ts: Vec<TableInfo>| ts@.map_values(|t: TableInfo| t.name@)),
                strss(defines@) == dv,
                issues@.len() > 0 ==> has_forward_reference(tables@),
                issues@.len() == 0 ==> forall|i: int, t: int, d: int| 0 <= i < m && 0 <= t < tables@[i]@.len()
                    && 0 <= d < tables@[i]@[t].depends_on@.len() ==> !#[trigger] later_definer(dv, i, tables@[i]@[t].depends_on@[d]@),
                forall|k: int| 0 <= k < issues@.len() ==> exists|i: int, j: int|
                    0 <= i < names@.len() && 0 <= j < names@.len() && (#[trigger] issues@[k]).migration@ == names@[i]@
                    && opt_text(issues@[k].depends_on_defined_in) == Some(names@[j]@)
                    && forward_reference(dv, i, issues@[k].depends_on@, j),
            decreases tables@.len() - m,
        {
            let ts = &tables[m];
            let mut t: usize = 0;
            while t < ts.len()
                invariant
                    m < tables@.len(),
                    names@.len() == tables@.len(),
                    defines@.len() == tables@.len(),
                    dv == tables@.map_values(|ts: Vec<TableInfo>| ts@.map_values(|t: TableInfo| t.name@)),
                    strss(defines@) == dv,
                    t <= ts@.len(),
                    ts@ == tables@[m as int]@,
                    issues@.len() > 0 ==> has_forward_reference(tables@),
                    issues@.len() == 0 ==> forall|i: int, t: int, d: int| 0 <= i < m && 0 <= t < tables@[i]@.len()
                        && 0 <= d < tables@[i]@[t].depends_on@.len() ==> !#[trigger] later_definer(dv, i, tables@[i]@[t].depends_on@[d]@),
                    issues@.len() == 0 ==> forall|t2: int, d: int| 0 <= t2 < t && 0 <= d < ts@[t2].depends_on@.len()
                        ==> !#[trigger] later_definer(dv, m as int, ts@[t2].depends_on@[d]@),
                    forall|k: int| 0 <= k < issues@.len() ==> exists|i: int, j: int|
                        0 <= i < names@.len() && 0 <= j < names@.len() && (#[trigger] issues@[k]).migration@ == names@[i]@
                        && opt_text(issues@[k].depends_on_defined_in) == Some(names@[j]@)
                        && forward_reference(dv, i, issues@[k].depends_on@, j),
                decreases ts@.len() - t,
            {
                let table = &ts[t];
                let mut d: usize = 0;
                while d < table.depends_on.len()
                    invariant
                        m < tables@.len(),
                        names@.len() == tables@.len(),
                        defines@.len() == tables@.len(),
                        dv == tables@.map_values(|ts: Vec<TableInfo>| ts@.map_values(|t: TableInfo| t.name@)),
                        strss(defines@) == dv,
                        d <= table.depends_on@.len(),
                        t < ts@.len(),
                        ts@ == tables@[m as int]@,
                        *table == ts@[t as int],
                        issues@.len() > 0 ==> has_forward_reference(tables@),
                        issues@.len() == 0 ==> forall|i: int, t: int, d: int| 0 <= i < m && 0 <= t < tables@[i]@.len()
                            && 0 <= d < tables@[i]@[t].depends_on@.len() ==> !#[trigger] later_definer(dv, i, tables@[i]@[t].depends_on@[d]@),
                        issues@.len() == 0 ==> forall|t2: int, d2: int| 0 <= t2 < t && 0 <= d2 < ts@[t2].depends_on@.len()
                            ==> !#[trigger] later_definer(dv, m as int, ts@[t2].depends_on@[d2]@),
                        issues@.len() == 0 ==> forall|d2: int| 0 <= d2 < d
                            ==> !#[trigger] later_definer(dv, m as int, table.depends_on@[d2]@),
                        forall|k: int| 0 <= k < issues@.len() ==> exists|i: int, j: int|
                            0 <= i < names@.len() && 0 <= j < names@.len() && (#[trigger] issues@[k]).migration@ == names@[i]@
                            && opt_text(issues@[k].depends_on_defined_in) == Some(names@[j]@)
                            && forward_reference(dv, i, issues@[k].depends_on@, j),
                    decreases table.depends_on@.len() - d,
                {
                    let dep = &table.depends_on[d];
                    let found = definer(&defines, &chars_of(dep.as_str()));
                    proof {
                        match found {
                            Some(j) => {
                                if j <= m {
                                    assert(!later_definer(dv, m as int, dep@));
                                }
                            },
                            None => {
                                assert(!later_definer(dv, m as int, dep@));
                            },
                        }
                    }
                    match found {
                        Some(j) => {
                            if j > m {
                                let mut msg: Vec<char> = Vec::new();
                                push_str(&mut msg, "Table '");
                                push_str(&mut msg, table.name.as_str());
                                push_str(&mut msg, "' in '");
                                push_str(&mut msg, names[m].as_str());
                                push_str(&mut msg, "' references '");
                                push_str(&mut msg, dep.as_str());
                                push_str(&mut msg, "' which is defined later in '");
                                push_str(&mut msg, names[j].as_str());
                                push_str(&mut msg, "'");
                                let issue = DependencyIssue {
                                    migration: string_of(&chars_of(names[m].as_str())),
                                    table: string_of(&chars_of(table.name.as_str())),
                                    depends_on: string_of(&chars_of(dep.as_str())),
                                    depends_on_defined_in: Some(string_of(&chars_of(names[j].as_str()))),
                                    message: string_of(&msg),
                                };
                                let ghost old_issues = issues@;
                                assert(definer_from(dv, dep@, 0) == Some(j as int));
                                issues.push(issue);
                                proof {
                                    assert(dv == mig_defines(tables@));
                                    assert(tables@[m as int]@[t as int].depends_on@[d as int]@ == dep@);
                                    assert(later_definer(mig_defines(tables@), m as int, tables@[m as int]@[t as int].depends_on@[d as int]@));
                                    assert(has_forward_reference(tables@));
                                    assert forall|k: int| 0 <= k < issues@.len() implies exists|i: int, j2: int|
                                        0 <= i < names@.len() && 0 <= j2 < names@.len() && (#[trigger] issues@[k]).migration@ == names@[i]@
                                        && opt_text(issues@[k].depends_on_defined_in) == Some(names@[j2]@)
                                        && forward_reference(dv, i, issues@[k].depends_on@, j2) by {
                                        if k < old_issues.len() {
                                            assert(issues@[k] == old_issues[k]);
                                        } else {
                                            assert(issues@[k].migration@ == names@[m as int]@);
                                            assert(forward_reference(dv, m as int, issues@[k].depends_on@, j as int));
                                        }
                                    }
                                }
                            }
                        },
                        None => {},
                    }
                    d = d + 1;
                }
                t = t + 1;
            }
            m = m + 1;
        }
        let (flat_names, flat_deps) = flatten_tables(tables);
        assert(flat_names@.len() == strs(flat_names@).len());
        assert(flat_deps@.len() == strss(flat_deps@).len());
        let order = match order_by_names(&flat_names, &flat_deps) {
            Ok(order) => order,
            Err(_) => {
                return Err(GatewayError::SchemaExtractionFailed {
                    cause: string_of(&chars_of("Circular dependency detected - cannot determine creation order")),
                });
            },
        };
        let mut suggested_order: Vec<String> = Vec::new();
        let mut p: usize = 0;
        while p < order.len()
            invariant
                p <= order@.len(),
                forall|q: int| 0 <= q < order@.len() ==> #[trigger] order@[q] < flat_names@.len(),
                texts_of(suggested_order@) == order@.subrange(0, p as int).map_values(|i: usize| strs(flat_names@)[i as int]),
            decreases order@.len() - p,
        {
            let ghost before = texts_of(suggested_order@);
            suggested_order.push(string_of(&flat_names[order[p]]));
            assert(texts_of(suggested_order@) =~= before.push(strs(flat_names@)[order@[p as int] as int]));
            p = p + 1;
            assert(texts_of(suggested_order@) =~= order@.subrange(0, p as int).map_values(|i: usize| strs(flat_names@)[i as int]));
        }
        assert(order@.subrange(0, order@.len() as int) =~= order@);
        assert(is_dependency_order(info_graph(flat_tables(tables@)), order@));
        let is_valid = issues.len() == 0;
        proof {
            if issues@.len() == 0 && has_forward_reference(tables@) {
                let (i, t, d) = choose|i: int, t: int, d: int| 0 <= i < tables@.len() && 0 <= t < tables@[i]@.len()
                    && 0 <= d < tables@[i]@[t].depends_on@.len() && #[trigger] later_definer(mig_defines(tables@), i, tables@[i]@[t].depends_on@[d]@);
                assert(dv == mig_defines(tables@));
            }
            assert forall|k: int| 0 <= k < issues@.len() implies #[trigger] issue_sound(names@, tables@, issues@[k]) by {
                let (i, j) = choose|i: int, j: int|
                    0 <= i < names@.len() && 0 <= j < names@.len() && (#[trigger] issues@[k]).migration@ == names@[i]@
                    && opt_text(issues@[k].depends_on_defined_in) == Some(names@[j]@)
                    && forward_reference(dv, i, issues@[k].depends_on@, j);
                assert(forward_reference(tables@.map_values(|ts: Vec<TableInfo>| ts@.map_values(|t: TableInfo| t.name@)), i, issues@[k].depends_on@, j));
            }
        }
        Ok(DependencyValidation { is_valid, issues, suggested_order })
    }
}

} // verus!
