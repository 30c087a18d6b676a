//! Table definitions, their creation order, and the decision taken for each
//! table on deployment.
use vstd::prelude::*;
use crate::error::GatewayError;
use crate::graph::{
    is_acyclic, is_blocked_set, is_dependency_order, name_graph, order_by_names, takes_smallest,
    strs, strss,
};
use crate::text::{chars_of, push_str, string_of};

verus! {

/// A table definition read from a `tables/` file.
#[derive(Debug, Clone)]
pub struct TableDefinition {
    pub name: String,
    pub file_path: String,
    pub sql: String,
    pub checksum: String,
    pub depends_on: Vec<String>,
}

/// What a table deployment did.
#[derive(Debug, Clone)]
pub struct TableDeployResult {
    pub tables_created: usize,
    pub tables_skipped: usize,
    pub creation_order: Vec<String>,
}

pub open spec fn table_names(ts: Seq<TableDefinition>) -> Seq<Seq<char>> {
    ts.map_values(|t: TableDefinition| t.name@)
}

pub open spec fn table_dep_names(ts: Seq<TableDefinition>) -> Seq<Seq<Seq<char>>> {
    ts.map_values(|t: TableDefinition| t.depends_on@.map_values(|d: String| d@))
}

/// The foreign-key graph of a list of tables.
pub open spec fn table_graph(ts: Seq<TableDefinition>) -> Seq<Seq<usize>> {
    name_graph(table_names(ts), table_dep_names(ts))
}

/// `names[0], names[1], …` joined by `", "`.
pub open spec fn join_names(names: Seq<Seq<char>>) -> Seq<char>
    decreases names.len(),
{
    if names.len() == 0 {
        Seq::empty()
    } else if names.len() == 1 {
        names[0]
    } else {
        join_names(names.drop_last()) + ", "@ + names.last()
    }
}

/// The cause reported for tables that cannot be ordered.
pub open spec fn cycle_cause(ts: Seq<TableDefinition>, rest: Seq<usize>) -> Seq<char> {
    "Circular dependency detected: "@ + join_names(rest.map_values(|i: usize| ts[i as int].name@))
}

/// What deployment does with one table, given what is recorded and what exists.
#[derive(Debug, Clone, Copy, PartialEq, Eq, Structural)]
pub enum TableAction {
    /// Tracked with the same checksum: nothing to do.
    Skip,
    /// Present in the database but not recorded: record it as deployed.
    Adopt,
    /// Tracked or present with another checksum: left to migrations, recorded anew.
    AdoptChanged,
    /// Absent: run its SQL and record it.
    Create,
}

/// The tables of a schema, deployed in foreign-key order.
pub struct TableDeployer;

impl TableDeployer {
    pub fn new() -> (r: Self) {
        TableDeployer
    }

    /// The decision for one table: `recorded` is the checksum recorded for it, if
    /// any, `exists` whether the database has it, `checksum` that of its file.
    pub fn table_action(&self, recorded: Option<&str>, exists: bool, checksum: &str) -> (r: TableAction)
        ensures
            r == (match recorded {
                Some(t) => if t@ == checksum@ {
                    TableAction::Skip
                } else if exists {
                    TableAction::AdoptChanged
                } else {
                    TableAction::Create
                },
                None => if exists {
                    TableAction::Adopt
                } else {
                    TableAction::Create
                },
            }),
    {
        match recorded {
            Some(t) => {
                if crate::text::eq_chars(&chars_of(t), &chars_of(checksum)) {
                    TableAction::Skip
                } else if exists {
                    TableAction::AdoptChanged
                } else {
                    TableAction::Create
                }
            },
            None => {
                if exists {
                    TableAction::Adopt
                } else {
                    TableAction::Create
                }
            },
        }
    }

    /// Orders tables so that each comes after the tables its foreign keys
    /// reference (references to tables outside the list, and to itself, are
    /// ignored), taking the lexically smallest name first among those ready;
    /// fails with the tables that cannot be ordered when references form a cycle.
    pub fn order_by_dependencies(&self, tables: Vec<TableDefinition>) -> (r: Result<Vec<TableDefinition>, GatewayError>)
        ensures
            r is Ok <==> is_acyclic(table_graph(tables@)),
            r matches Ok(v) ==> exists|order: Seq<usize>|
                #![trigger is_dependency_order(table_graph(tables@), order)]
                is_dependency_order(table_graph(tables@), order) && takes_smallest(
                    table_names(tables@),
                    table_graph(tables@),
                    order,
                ) && v@ == order.map_values(|i: usize| tables@[i as int]),
            r matches Err(e) ==> exists|rest: Seq<usize>|
                #![trigger is_blocked_set(table_graph(tables@), rest)]
                is_blocked_set(table_graph(tables@), rest) && (e matches GatewayError::SchemaExtractionFailed { cause } && cause@ == cycle_cause(tables@, rest)),
    {
        let mut names: Vec<Vec<char>> = Vec::new();
        let mut dep_names: Vec<Vec<Vec<char>>> = Vec::new();
        let mut i: usize = 0;
        while i < tables.len()
            invariant
                i <= tables@.len(),
                names@.len() == i,
                dep_names@.len() == i,
                forall|m: int| 0 <= m < i ==> #[trigger] names@[m]@ == tables@[m].name@,
                forall|m: int| 0 <= m < i ==> #[trigger] strs(dep_names@[m]@) == tables@[m].depends_on@.map_values(|d: String| d@),
            decreases tables@.len() - i,
        {
            names.push(chars_of(tables[i].name.as_str()));
            let ds = &tables[i].depends_on;
            let mut dv: Vec<Vec<char>> = Vec::new();
            let mut k: usize = 0;
            while k < ds.len()
                invariant
                    k <= ds@.len(),
                    strs(dv@) == ds@.subrange(0, k as int).map_values(|d: String| d@),
                decreases ds@.len() - k,
            {
                let ghost before = strs(dv@);
                let c = chars_of(ds[k].as_str());
                assert(c@ == ds@[k as int]@);
                dv.push(c);
                assert(strs(dv@) =~= before.push(ds@[k as int]@));
                k = k + 1;
                assert(strs(dv@) =~= ds@.subrange(0, k as int).map_values(|d: String| d@));
            }
            assert(ds@.subrange(0, ds@.len() as int) =~= ds@);
            dep_names.push(dv);
            i = i + 1;
        }
        assert(strs(names@) =~= table_names(tables@));
        assert(strss(dep_names@) =~= table_dep_names(tables@));
        match order_by_names(&names, &dep_names) {
            Ok(order) => {
                let ghost orig = tables@;
                let n = tables.len();
                let mut tables = tables;
                let mut slots: Vec<Option<TableDefinition>> = Vec::new();
                while tables.len() > 0
                    invariant
                        n == orig.len(),
                        slots@.len() <= n,
                        tables@ == orig.subrange(0, n - slots@.len()),
                        forall|m: int| 0 <= m < slots@.len() ==> #[trigger] slots@[m] == Some(orig[n - 1 - m]),
                    decreases tables@.len(),
                {
                    match tables.pop() {
                        Some(t) => {
                            slots.push(Some(t));
                        },
                        None => {},
                    }
                }
                let mut out: Vec<TableDefinition> = Vec::new();
                let mut p: usize = 0;
                while p < order.len()
                    invariant
                        n == orig.len(),
                        slots@.len() == n,
                        p <= order@.len(),
                        is_dependency_order(table_graph(orig), order@),
                        forall|i: int| 0 <= i < n && !order@.subrange(0, p as int).contains(i as usize) ==> #[trigger] slots@[n - 1 - i] == Some(orig[i]),
                        out@ == order@.subrange(0, p as int).map_values(|i: usize| orig[i as int]),
                    decreases order@.len() - p,
                {
                    let i = order[p];
                    assert(i < n);
                    assert(!order@.subrange(0, p as int).contains(i)) by {
                        if order@.subrange(0, p as int).contains(i) {
                            let q = choose|q: int| 0 <= q < p && order@.subrange(0, p as int)[q] == i;
                            assert(order@[q] == order@[p as int]);
                        }
                    }
                    let ghost before = slots@;
                    let t = slots[n - 1 - i].take();
                    proof {
                        assert forall|k: int| 0 <= k < n && !order@.subrange(0, p + 1).contains(k as usize) implies #[trigger] slots@[n - 1 - k] == Some(orig[k]) by {
                            assert(order@.subrange(0, p + 1)[p as int] == i);
                            if order@.subrange(0, p as int).contains(k as usize) {
                                let q = choose|q: int| 0 <= q < p && order@.subrange(0, p as int)[q] == k as usize;
                                assert(order@.subrange(0, p + 1)[q] == k as usize);
                            }
                            assert(k != i);
                            assert(before[n - 1 - k] == Some(orig[k]));
                        }
                    }
                    if let Some(t) = t {
                        out.push(t);
                    }
                    p = p + 1;
                    assert(out@ =~= order@.subrange(0, p as int).map_values(|i: usize| orig[i as int]));
                }
                assert(order@.subrange(0, order@.len() as int) =~= order@);
                Ok(out)
            },
            Err(rest) => {
                let mut m: Vec<char> = Vec::new();
                push_str(&mut m, "Circular dependency detected: ");
                let mut p: usize = 0;
                while p < rest.len()
                    invariant
                        p <= rest@.len(),
                        forall|q: int| 0 <= q < rest@.len() ==> #[trigger] rest@[q] < tables@.len(),
                        m@ == "Circular dependency detected: "@ + join_names(
                            rest@.subrange(0, p as int).map_values(|i: usize| tables@[i as int].name@),
                        ),
                    decreases rest@.len() - p,
                {
                    let ghost before = rest@.subrange(0, p as int).map_values(|i: usize| tables@[i as int].name@);
                    let ghost after = rest@.subrange(0, p + 1).map_values(|i: usize| tables@[i as int].name@);
                    assert(after.drop_last() =~= before);
                    if p > 0 {
                        push_str(&mut m, ", ");
                    }
                    push_str(&mut m, tables[rest[p]].name.as_str());
                    proof {
                        if p > 0 {
                            assert(m@ =~= "Circular dependency detected: "@ + join_names(after));
                        } else {
                            assert(m@ =~= "Circular dependency detected: "@ + join_names(after));
                        }
                    }
                    p = p + 1;
                }
                assert(rest@.subrange(0, rest@.len() as int) =~= rest@);
                assert(is_blocked_set(table_graph(tables@), rest@));
                Err(GatewayError::SchemaExtractionFailed { cause: string_of(&m) })
            },
        }
    }
}

impl TableDeployer {
    /// The definition a table file gives: the first table its SQL creates,
    /// with the checksum of the whole file; `None` where the file creates no
    /// table or its tables reference each other in a cycle.
    pub fn parse_table_definition(&self, file_name: &str, content: &str) -> (r: Option<TableDefinition>)
        ensures
            r matches Some(t) ==> t.file_path@ == file_name@ && t.sql@ == crate::text::trim_seq(content@)
                && t.checksum@ == crate::checksum::checksum_spec(content@),
    {
        let analysis = match crate::dependency::DependencyAnalyzer::analyze_sql(content) {
            Ok(a) => a,
            Err(_) => return None,
        };
        if analysis.tables.len() == 0 {
            return None;
        }
        let first = &analysis.tables[0];
        let mut depends_on: Vec<String> = Vec::new();
        let mut k: usize = 0;
        while k < first.depends_on.len()
            invariant
                k <= first.depends_on@.len(),
            decreases first.depends_on@.len() - k,
        {
            depends_on.push(string_of(&chars_of(first.depends_on[k].as_str())));
            k = k + 1;
        }
        Some(TableDefinition {
            name: string_of(&chars_of(first.name.as_str())),
            file_path: string_of(&chars_of(file_name)),
            sql: string_of(&crate::text::trim_vec(&chars_of(content))),
            checksum: crate::checksum::compute_checksum(content),
            depends_on,
        })
    }
}

} // verus!
