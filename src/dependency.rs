//! The dependency analyzer: reads CREATE TABLE statements, their columns and
//! foreign keys, and orders the tables so that referenced ones come first.
use vstd::prelude::*;
use crate::graph::{
    is_acyclic, is_dependency_order, name_graph, order_by_names, strs, strss, takes_smallest,
};
use crate::text::{
    chars_of, string_of, push_str, push_all, push_decimal, lower_vec, upper_vec, trim_vec, is_word_char, matches_at, skip_space, slice_chars, eq_chars, contains,
};

verus! {

/// A foreign key from a column of one table to a column of another.
#[derive(Debug, Clone)]
pub struct ForeignKeyDependency {
    pub from_table: String,
    pub from_column: String,
    pub to_table: String,
    pub to_column: String,
    pub on_delete: Option<String>,
    pub on_update: Option<String>,
}

/// An inline `REFERENCES table(column)` of a column.
#[derive(Debug, Clone)]
pub struct ColumnReference {
    pub table: String,
    pub column: String,
    pub on_delete: Option<String>,
    pub on_update: Option<String>,
}

/// A column definition.
#[derive(Debug, Clone)]
pub struct ColumnInfo {
    pub name: String,
    pub data_type: String,
    pub is_nullable: bool,
    pub is_primary_key: bool,
    pub has_default: bool,
    pub references: Option<ColumnReference>,
}

/// A table with its columns, keys and the tables it depends on.
#[derive(Debug, Clone)]
pub struct TableInfo {
    pub name: String,
    pub columns: Vec<ColumnInfo>,
    pub primary_key: Option<Vec<String>>,
    pub foreign_keys: Vec<ForeignKeyDependency>,
    pub depends_on: Vec<String>,
}

/// The result of an analysis. The graphs list each table once, in the order
/// the tables were read.
#[derive(Debug, Clone)]
pub struct DependencyAnalysis {
    pub tables: Vec<TableInfo>,
    pub creation_order: Vec<String>,
    pub dependency_graph: Vec<(String, Vec<String>)>,
    pub reverse_dependencies: Vec<(String, Vec<String>)>,
    pub circular_dependencies: Vec<Vec<String>>,
}

pub open spec fn info_names(ts: Seq<TableInfo>) -> Seq<Seq<char>> {
    ts.map_values(|t: TableInfo| t.name@)
}

pub open spec fn info_dep_names(ts: Seq<TableInfo>) -> Seq<Seq<Seq<char>>> {
    ts.map_values(|t: TableInfo| t.depends_on@.map_values(|d: String| d@))
}

/// The foreign-key graph of analysed tables.
pub open spec fn info_graph(ts: Seq<TableInfo>) -> Seq<Seq<usize>> {
    name_graph(info_names(ts), info_dep_names(ts))
}

pub open spec fn texts_of(v: Seq<String>) -> Seq<Seq<char>> {
    v.map_values(|s: String| s@)
}

/// Each foreign-key target appears once in `deps`, and `deps` names only targets.
pub open spec fn deps_of_keys(deps: Seq<Seq<char>>, fks: Seq<ForeignKeyDependency>) -> bool {
    &&& deps.no_duplicates()
    &&& forall|k: int| 0 <= k < fks.len() ==> deps.contains(#[trigger] fks[k].to_table@)
    &&& forall|k: int| 0 <= k < deps.len() ==> key_targets(fks).contains(#[trigger] deps[k])
}

/// The target tables of foreign keys, in order.
pub open spec fn key_targets(fks: Seq<ForeignKeyDependency>) -> Seq<Seq<char>> {
    fks.map_values(|f: ForeignKeyDependency| f.to_table@)
}

/// The numbered creation-order lines for the first `k` tables.
pub open spec fn order_lines(co: Seq<Seq<char>>, k: int) -> Seq<char>
    decreases k,
{
    if k <= 0 || k > co.len() {
        Seq::empty()
    } else {
        order_lines(co, k - 1) + "  "@ + crate::text::decimal_spec(k as nat) + ". "@ + co[k - 1] + "\n"@
    }
}

/// The opening of an analysis report: the title, the table count and the
/// numbered creation order.
pub open spec fn analysis_head(a: DependencyAnalysis) -> Seq<char> {
    "═══════════════════════════════════════════════════════════════\n"@
        + "                    TABLE DEPENDENCY ANALYSIS\n"@
        + "═══════════════════════════════════════════════════════════════\n"@ + "\n"@ + "Found "@
        + crate::text::decimal_spec(a.tables@.len()) + " tables\n\n"@
        + "CREATION ORDER (tables must be created in this sequence):\n"@
        + "───────────────────────────────────────────────────────────────\n"@
        + order_lines(texts_of(a.creation_order@), a.creation_order@.len() as int) + "\n"@
}

/// `a` analyses `ts`: a creation order of the graph that takes the smallest
/// ready name first, and one graph entry per table with its dependencies.
pub open spec fn analysis_of(ts: Seq<TableInfo>, a: DependencyAnalysis) -> bool {
    &&& is_acyclic(info_graph(ts))
    &&& exists|order: Seq<usize>| #![trigger is_dependency_order(info_graph(ts), order)]
        is_dependency_order(info_graph(ts), order)
        && takes_smallest(info_names(ts), info_graph(ts), order)
        && texts_of(a.creation_order@) == order.map_values(|i: usize| info_names(ts)[i as int])
    &&& a.dependency_graph@.len() == ts.len()
    &&& forall|k: int| 0 <= k < ts.len() ==> (#[trigger] a.dependency_graph@[k]).0@ == ts[k].name@
        && texts_of(a.dependency_graph@[k].1@) == texts_of(ts[k].depends_on@)
}

/// Whether the comment-free text holds `REFERENCES`, in any letter case.
pub open spec fn references_anywhere(sql: Seq<char>) -> bool {
    crate::text::contains_seq(crate::text::upper_seq(crate::checksum::strip_comments_spec(sql)), "REFERENCES"@)
}

/// Nodes without dependencies can be ordered as they stand.
proof fn lemma_no_deps_acyclic(names: Seq<Seq<char>>, deps: Seq<Seq<Seq<char>>>)
    requires
        names.len() == deps.len(),
        names.len() <= usize::MAX,
        forall|k: int| 0 <= k < deps.len() ==> #[trigger] deps[k].len() == 0,
    ensures
        is_acyclic(name_graph(names, deps)),
{
    let g = name_graph(names, deps);
    let order = Seq::new(names.len(), |i: int| i as usize);
    assert forall|p: int| 0 <= p < order.len() implies #[trigger] order[p] < g.len() by {}
    assert(order.no_duplicates()) by {
        assert forall|a: int, b: int| 0 <= a < order.len() && 0 <= b < order.len() && a != b implies order[a] != order[b] by {}
    }
    assert forall|i: usize| i < g.len() implies #[trigger] order.contains(i) by {
        assert(order[i as int] == i);
    }
    assert forall|p: int| 0 <= p < order.len() implies crate::graph::deps_placed(g, order.subrange(0, p), #[trigger] order[p] as int) by {
        assert(deps[p] =~= Seq::<Seq<char>>::empty());
        assert(g[p].len() == 0);
    }
    assert(crate::graph::is_dependency_order(g, order));
}

/// End of the run of word characters starting at `i`.
fn word_end(v: &Vec<char>, i: usize) -> (r: usize)
    requires
        i <= v@.len(),
    ensures
        i <= r <= v@.len(),
{
    let mut k = i;
    while k < v.len() && is_word_char(v[k])
        invariant
            i <= k <= v@.len(),
        decreases v@.len() - k,
    {
        k = k + 1;
    }
    k
}

/// Where `kw` (uppercase) stands at `i` of the uppercased text, the position after it.
fn keyword_at(up: &Vec<char>, i: usize, kw: &str) -> (r: Option<usize>)
    requires
        i <= up@.len(),
    ensures
        r matches Some(e) ==> i <= e <= up@.len(),
{
    let k = chars_of(kw);
    if matches_at(up, i, &k) {
        let total = up.len();
        assert(i + k@.len() <= total);
        Some(i + k.len())
    } else {
        None
    }
}

/// Position of the first occurrence of `kw` at or after `from`.
fn find_keyword(up: &Vec<char>, from: usize, kw: &str) -> (r: Option<usize>)
    requires
        from <= up@.len(),
    ensures
        r matches Some(p) ==> from <= p <= up@.len(),
{
    let k = chars_of(kw);
    let mut p = from;
    while p < up.len()
        invariant
            from <= p <= up@.len(),
        decreases up@.len() - p,
    {
        if matches_at(up, p, &k) {
            return Some(p);
        }
        p = p + 1;
    }
    None
}

/// `KW1` followed by whitespace and `KW2` at `i`; the position after `KW2`.
fn two_keywords(up: &Vec<char>, i: usize, a: &str, b: &str) -> (r: Option<usize>)
    requires
        i <= up@.len(),
    ensures
        r matches Some(e) ==> i <= e <= up@.len(),
{
    match keyword_at(up, i, a) {
        Some(e) => {
            let s = skip_space(up, e);
            if s == e {
                return None;
            }
            keyword_at(up, s, b)
        },
        None => None,
    }
}

/// `ON <action> CASCADE|RESTRICT|SET NULL|SET DEFAULT|NO ACTION` in `up`, the
/// action uppercased with its words separated by one space.
fn on_action(up: &Vec<char>, action: &str) -> (r: Option<String>) {
    let mut p: usize = 0;
    while p < up.len()
        invariant
            p <= up@.len(),
        decreases up@.len() - p,
    {
        match two_keywords(up, p, "ON", action) {
            Some(e) => {
                let s = skip_space(up, e);
                if s > e {
                    if keyword_at(up, s, "CASCADE").is_some() {
                        return Some(string_of(&chars_of("CASCADE")));
                    }
                    if keyword_at(up, s, "RESTRICT").is_some() {
                        return Some(string_of(&chars_of("RESTRICT")));
                    }
                    if two_keywords(up, s, "SET", "NULL").is_some() {
                        return Some(string_of(&chars_of("SET NULL")));
                    }
                    if two_keywords(up, s, "SET", "DEFAULT").is_some() {
                        return Some(string_of(&chars_of("SET DEFAULT")));
                    }
                    if two_keywords(up, s, "NO", "ACTION").is_some() {
                        return Some(string_of(&chars_of("NO ACTION")));
                    }
                }
            },
            None => {},
        }
        p = p + 1;
    }
    None
}

/// `( word )` at `i` (spaces allowed inside): the word and the position after `)`.
fn parenthesised_word(v: &Vec<char>, i: usize) -> (r: Option<(Vec<char>, usize)>)
    requires
        i <= v@.len(),
    ensures
        r matches Some((w, e)) ==> i <= e <= v@.len() && w@.len() > 0,
{
    let a = skip_space(v, i);
    if a >= v.len() || v[a] != '(' {
        return None;
    }
    let b = skip_space(v, a + 1);
    let c = word_end(v, b);
    if c == b {
        return None;
    }
    let d = skip_space(v, c);
    if d >= v.len() || v[d] != ')' {
        return None;
    }
    Some((slice_chars(v, b, c), d + 1))
}

/// `REFERENCES table(column)` from position `from` of the part, with the actions after it.
fn reference_after(part: &Vec<char>, up: &Vec<char>, from: usize) -> (r: Option<ColumnReference>)
    requires
        part@.len() == up@.len(),
        from <= up@.len(),
{
    let p = match find_keyword(up, from, "REFERENCES") {
        Some(p) => p,
        None => return None,
    };
    let e = match keyword_at(up, p, "REFERENCES") {
        Some(e) => e,
        None => return None,
    };
    let s = skip_space(part, e);
    if s == e {
        return None;
    }
    let t = word_end(part, s);
    if t == s {
        return None;
    }
    let (col, after) = match parenthesised_word(part, t) {
        Some(x) => x,
        None => return None,
    };
    let rest = slice_chars(up, after, up.len());
    Some(ColumnReference {
        table: string_of(&lower_vec(&slice_chars(part, s, t))),
        column: string_of(&lower_vec(&col)),
        on_delete: on_action(&rest, "DELETE"),
        on_update: on_action(&rest, "UPDATE"),
    })
}

/// Splits a table body at the commas outside parentheses; parts are trimmed.
fn split_body(body: &Vec<char>) -> (r: Vec<Vec<char>>) {
    let mut parts: Vec<Vec<char>> = Vec::new();
    let mut cur: Vec<char> = Vec::new();
    let mut depth: usize = 0;
    let mut i: usize = 0;
    while i < body.len()
        invariant
            i <= body@.len(),
        decreases body@.len() - i,
    {
        let c = body[i];
        if c == '(' {
            if depth < usize::MAX {
                depth = depth + 1;
            }
            cur.push(c);
        } else if c == ')' {
            if depth > 0 {
                depth = depth - 1;
            }
            cur.push(c);
        } else if c == ',' && depth == 0 {
            parts.push(trim_vec(&cur));
            cur = Vec::new();
        } else {
            cur.push(c);
        }
        i = i + 1;
    }
    let last = trim_vec(&cur);
    if last.len() > 0 {
        parts.push(last);
    }
    parts
}

/// The column names of `PRIMARY KEY (a, b)`.
fn primary_key_columns(part: &Vec<char>) -> (r: Option<Vec<String>>) {
    let mut a: usize = 0;
    while a < part.len() && part[a] != '('
        invariant
            a <= part@.len(),
        decreases part@.len() - a,
    {
        a = a + 1;
    }
    if a >= part.len() {
        return None;
    }
    let mut b = a + 1;
    while b < part.len() && part[b] != ')'
        invariant
            a < b <= part@.len(),
        decreases part@.len() - b,
    {
        b = b + 1;
    }
    if b >= part.len() || b == a + 1 {
        return None;
    }
    let mut cols: Vec<String> = Vec::new();
    let mut cur: Vec<char> = Vec::new();
    let mut i = a + 1;
    while i < b
        invariant
            a < i <= b <= part@.len(),
        decreases b - i,
    {
        if part[i] == ',' {
            cols.push(string_of(&lower_vec(&trim_vec(&cur))));
            cur = Vec::new();
        } else {
            cur.push(part[i]);
        }
        i = i + 1;
    }
    cols.push(string_of(&lower_vec(&trim_vec(&cur))));
    Some(cols)
}

/// `FOREIGN KEY (col) REFERENCES table(col) [actions]`.
fn table_level_foreign_key(part: &Vec<char>, up: &Vec<char>, table: &Vec<char>) -> (r: Option<ForeignKeyDependency>)
    requires
        part@.len() == up@.len(),
{
    let p = match find_keyword(up, 0, "FOREIGN") {
        Some(p) => p,
        None => return None,
    };
    let e = match two_keywords(up, p, "FOREIGN", "KEY") {
        Some(e) => e,
        None => return None,
    };
    let (from_col, after) = match parenthesised_word(part, e) {
        Some(x) => x,
        None => return None,
    };
    let s = skip_space(up, after);
    if keyword_at(up, s, "REFERENCES").is_none() {
        return None;
    }
    match reference_after(part, up, s) {
        Some(r) => Some(ForeignKeyDependency {
            from_table: string_of(table),
            from_column: string_of(&lower_vec(&from_col)),
            to_table: r.table,
            to_column: r.column,
            on_delete: r.on_delete,
            on_update: r.on_update,
        }),
        None => None,
    }
}

/// A column definition `name type[(…)][[]] [constraints]`.
fn parse_column(part: &Vec<char>, up: &Vec<char>) -> (r: Option<ColumnInfo>)
    requires
        part@.len() == up@.len(),
{
    let a = word_end(part, 0);
    if a == 0 {
        return None;
    }
    let b = skip_space(part, a);
    if b == a {
        return None;
    }
    let c = word_end(part, b);
    if c == b {
        return None;
    }
    let mut end = c;
    let d = skip_space(part, c);
    if d < part.len() && part[d] == '(' {
        let mut k = d + 1;
        while k < part.len() && part[k] != ')'
            invariant
                d < k <= part@.len(),
            decreases part@.len() - k,
        {
            k = k + 1;
        }
        if k < part.len() && k > d + 1 {
            end = k + 1;
        }
    }
    let f = skip_space(part, end);
    if f < part.len() && part[f] == '[' {
        let g = skip_space(part, f + 1);
        if g < part.len() && part[g] == ']' {
            end = g + 1;
        }
    }
    let references = reference_after(part, up, 0);
    Some(ColumnInfo {
        name: string_of(&lower_vec(&slice_chars(part, 0, a))),
        data_type: string_of(&upper_vec(&slice_chars(part, b, end))),
        is_nullable: !contains(up, &chars_of("NOT NULL")),
        is_primary_key: contains(up, &chars_of("PRIMARY KEY")),
        has_default: contains(up, &chars_of("DEFAULT")) || contains(up, &chars_of("SERIAL")),
        references,
    })
}

fn has_name(deps: &Vec<String>, name: &String) -> (r: bool)
    ensures
        r == texts_of(deps@).contains(name@),
{
    let target = chars_of(name.as_str());
    let mut i: usize = 0;
    while i < deps.len()
        invariant
            i <= deps@.len(),
            target@ == name@,
            forall|k: int| 0 <= k < i ==> deps@[k]@ != name@,
        decreases deps@.len() - i,
    {
        if eq_chars(&chars_of(deps[i].as_str()), &target) {
            assert(texts_of(deps@)[i as int] == name@);
            return true;
        }
        i = i + 1;
    }
    proof {
        if texts_of(deps@).contains(name@) {
            let k = choose|k: int| 0 <= k < texts_of(deps@).len() && texts_of(deps@)[k] == name@;
            assert(deps@[k]@ == name@);
        }
    }
    false
}

/// The distinct targets of a table's foreign keys, in order of first mention.
fn dependencies_of(fks: &Vec<ForeignKeyDependency>) -> (r: Vec<String>)
    ensures
        deps_of_keys(texts_of(r@), fks@),
{
    let mut deps: Vec<String> = Vec::new();
    let mut i: usize = 0;
    while i < fks.len()
        invariant
            i <= fks@.len(),
            texts_of(deps@).no_duplicates(),
            forall|k: int| 0 <= k < i ==> texts_of(deps@).contains(#[trigger] fks@[k].to_table@),
            forall|k: int| 0 <= k < deps@.len() ==> key_targets(fks@).contains(#[trigger] texts_of(deps@)[k]),
        decreases fks@.len() - i,
    {
        let name = &fks[i].to_table;
        if !has_name(&deps, name) {
            let ghost before = texts_of(deps@);
            deps.push(copy_string(name));
            proof {
                assert(texts_of(deps@) =~= before.push(name@));
                assert(key_targets(fks@)[i as int] == name@);
                assert forall|k: int| 0 <= k < i + 1 implies texts_of(deps@).contains(#[trigger] fks@[k].to_table@) by {
                    if k < i {
                        let j = choose|j: int| 0 <= j < before.len() && before[j] == fks@[k].to_table@;
                        assert(texts_of(deps@)[j] == fks@[k].to_table@);
                    } else {
                        assert(texts_of(deps@)[before.len() as int] == name@);
                    }
                }
                assert forall|k: int| 0 <= k < deps@.len() implies key_targets(fks@).contains(#[trigger] texts_of(deps@)[k]) by {
                    if k < before.len() {
                        assert(texts_of(deps@)[k] == before[k]);
                    }
                }
            }
        }
        i = i + 1;
    }
    deps
}

/// Parses a table body into its columns, foreign keys and primary key.
/// `refs` tells whether the text holds `REFERENCES` at all; where it does not,
/// no foreign key is looked for.
fn parse_table_body(body: &Vec<char>, table: &Vec<char>, refs: bool) -> (r: (Vec<ColumnInfo>, Vec<ForeignKeyDependency>, Option<Vec<String>>))
    ensures
        !refs ==> r.1@.len() == 0,
{
    let mut columns: Vec<ColumnInfo> = Vec::new();
    let mut fks: Vec<ForeignKeyDependency> = Vec::new();
    let mut primary_key: Option<Vec<String>> = None;
    let parts = split_body(body);
    let mut i: usize = 0;
    while i < parts.len()
        invariant
            i <= parts@.len(),
            !refs ==> fks@.len() == 0,
        decreases parts@.len() - i,
    {
        let part = &parts[i];
        if part.len() > 0 {
            let up = upper_vec(part);
            if keyword_at(&up, 0, "PRIMARY KEY").is_some() {
                match primary_key_columns(part) {
                    Some(cols) => {
                        primary_key = Some(cols);
                    },
                    None => {},
                }
            } else if contains(&up, &chars_of("FOREIGN KEY")) {
                if refs {
                    match table_level_foreign_key(part, &up, table) {
                        Some(fk) => fks.push(fk),
                        None => {},
                    }
                }
            } else if keyword_at(&up, 0, "CHECK").is_some() || keyword_at(&up, 0, "CONSTRAINT").is_some()
                || keyword_at(&up, 0, "UNIQUE").is_some() {
            } else {
                match parse_column(part, &up) {
                    Some(col) => {
                        if col.is_primary_key && primary_key.is_none() {
                            let mut pk: Vec<String> = Vec::new();
                            pk.push(string_of(&chars_of(col.name.as_str())));
                            primary_key = Some(pk);
                        }
                        match &col.references {
                            Some(r) if refs => {
                                fks.push(ForeignKeyDependency {
                                    from_table: string_of(table),
                                    from_column: string_of(&chars_of(col.name.as_str())),
                                    to_table: string_of(&chars_of(r.table.as_str())),
                                    to_column: string_of(&chars_of(r.column.as_str())),
                                    on_delete: match &r.on_delete {
                                        Some(a) => Some(string_of(&chars_of(a.as_str()))),
                                        None => None,
                                    },
                                    on_update: match &r.on_update {
                                        Some(a) => Some(string_of(&chars_of(a.as_str()))),
                                        None => None,
                                    },
                                });
                            },
                            _ => {},
                        }
                        columns.push(col);
                    },
                    None => {},
                }
            }
        }
        i = i + 1;
    }
    (columns, fks, primary_key)
}

/// Where a CREATE TABLE statement starts at `p` of the uppercased text, the
/// position after `CREATE TABLE [IF NOT EXISTS]` and its whitespace.
fn create_table_at(up: &Vec<char>, p: usize) -> (r: Option<usize>)
    requires
        p <= up@.len(),
    ensures
        r matches Some(e) ==> p <= e <= up@.len(),
{
    if p > 0 && is_word_char(up[p - 1]) {
        return None;
    }
    let e = match two_keywords(up, p, "CREATE", "TABLE") {
        Some(e) => e,
        None => return None,
    };
    let s = skip_space(up, e);
    if s == e {
        return None;
    }
    match two_keywords(up, s, "IF", "NOT") {
        Some(n) => {
            let t = skip_space(up, n);
            match keyword_at(up, t, "EXISTS") {
                Some(x) => {
                    let u = skip_space(up, x);
                    if u > x {
                        return Some(u);
                    }
                    Some(s)
                },
                None => Some(s),
            }
        },
        None => Some(s),
    }
}

/// The `)` that closes a table body opened before `from`: the first `)` that
/// only whitespace separates from a `;` or from the end of the text.
fn body_end(v: &Vec<char>, from: usize) -> (r: Option<usize>)
    requires
        from <= v@.len(),
    ensures
        r matches Some(e) ==> from <= e < v@.len(),
{
    let mut k = from;
    while k < v.len()
        invariant
            from <= k <= v@.len(),
        decreases v@.len() - k,
    {
        if v[k] == ')' {
            let n = skip_space(v, k + 1);
            if n == v.len() || v[n] == ';' {
                return Some(k);
            }
        }
        k = k + 1;
    }
    None
}

/// Reads the CREATE TABLE statements of a SQL text, comments ignored.
pub(crate) fn extract_tables(sql: &str) -> (r: Vec<TableInfo>)
    ensures
        forall|k: int| 0 <= k < r@.len() ==> deps_of_keys(texts_of((#[trigger] r@[k]).depends_on@), r@[k].foreign_keys@),
        !references_anywhere(sql@) ==> forall|k: int| 0 <= k < r@.len() ==> (#[trigger] r@[k]).depends_on@.len() == 0,
{
    let text = crate::checksum::strip_comments(&chars_of(sql));
    let up = upper_vec(&text);
    let refs = contains(&up, &chars_of("REFERENCES"));
    let mut tables: Vec<TableInfo> = Vec::new();
    let mut p: usize = 0;
    while p < up.len()
        invariant
            p <= up@.len(),
            up@.len() == text@.len(),
            forall|k: int| 0 <= k < tables@.len() ==> deps_of_keys(texts_of((#[trigger] tables@[k]).depends_on@), tables@[k].foreign_keys@),
            refs == references_anywhere(sql@),
            up@ == crate::text::upper_seq(crate::checksum::strip_comments_spec(sql@)),
            !refs ==> forall|k: int| 0 <= k < tables@.len() ==> (#[trigger] tables@[k]).depends_on@.len() == 0,
        decreases up@.len() - p,
    {
        let mut next = p + 1;
        match create_table_at(&up, p) {
            Some(s) => {
                let w = word_end(&text, s);
                if w > s {
                    let o = skip_space(&text, w);
                    if o < text.len() && text[o] == '(' {
                        match body_end(&text, o + 1) {
                            Some(e) => {
                                let name = lower_vec(&slice_chars(&text, s, w));
                                let body = slice_chars(&text, o + 1, e);
                                let (columns, foreign_keys, primary_key) = parse_table_body(&body, &name, refs);
                                let depends_on = dependencies_of(&foreign_keys);
                                proof {
                                    if !refs {
                                        if texts_of(depends_on@).len() > 0 {
                                            assert(key_targets(foreign_keys@).contains(texts_of(depends_on@)[0]));
                                        }
                                    }
                                }
                                tables.push(TableInfo {
                                    name: string_of(&name),
                                    columns,
                                    primary_key,
                                    foreign_keys,
                                    depends_on,
                                });
                                next = e + 1;
                            },
                            None => {},
                        }
                    }
                }
            },
            None => {},
        }
        p = next;
    }
    tables
}

fn copy_string(s: &String) -> (r: String)
    ensures
        r@ == s@,
{
    string_of(&chars_of(s.as_str()))
}

fn copy_strings(v: &Vec<String>) -> (r: Vec<String>)
    ensures
        texts_of(r@) == texts_of(v@),
{
    let mut r: Vec<String> = Vec::new();
    let mut i: usize = 0;
    while i < v.len()
        invariant
            i <= v@.len(),
            texts_of(r@) == texts_of(v@).subrange(0, i as int),
        decreases v@.len() - i,
    {
        let ghost before = texts_of(r@);
        r.push(copy_string(&v[i]));
        assert(texts_of(r@) =~= before.push(v@[i as int]@));
        i = i + 1;
        assert(texts_of(r@) =~= texts_of(v@).subrange(0, i as int));
    }
    assert(texts_of(v@).subrange(0, v@.len() as int) =~= texts_of(v@));
    r
}

/// Reads and orders the tables of a SQL text.
pub struct DependencyAnalyzer;

impl DependencyAnalyzer {
    /// Analyses a SQL text: reads its CREATE TABLE statements (comments
    /// ignored) and orders them as `analyze_tables` does.
    pub fn analyze_sql(sql: &str) -> (r: Result<DependencyAnalysis, String>)
        ensures
            r matches Ok(a) ==> {
                &&& forall|k: int| 0 <= k < a.tables@.len() ==> deps_of_keys(texts_of((#[trigger] a.tables@[k]).depends_on@), a.tables@[k].foreign_keys@)
                &&& analysis_of(a.tables@, a)
            },
            r matches Err(msg) ==> msg@ == "Circular dependency detected - cannot determine creation order"@,
            !references_anywhere(sql@) ==> r is Ok,
    {
        let tables = extract_tables(sql);
        proof {
            if !references_anywhere(sql@) {
                assert forall|k: int| 0 <= k < info_dep_names(tables@).len() implies #[trigger] info_dep_names(tables@)[k].len() == 0 by {
                    assert(tables@[k].depends_on@.len() == 0);
                }
                let n = tables.len();
                lemma_no_deps_acyclic(info_names(tables@), info_dep_names(tables@));
            }
        }
        Self::analyze_tables(tables)
    }

    /// Analyses tables: each table's dependencies, the graph and its reverse,
    /// and a creation order in which every table follows the tables it
    /// references (tables not among them are external and left out; a table
    /// may reference itself), the lexically smallest ready name first. Fails
    /// exactly when the references form a cycle.
    pub fn analyze_tables(tables: Vec<TableInfo>) -> (r: Result<DependencyAnalysis, String>)
        ensures
            r is Ok <==> is_acyclic(info_graph(tables@)),
            r matches Ok(a) ==> a.tables@ == tables@ && analysis_of(tables@, a),
            r matches Err(msg) ==> msg@ == "Circular dependency detected - cannot determine creation order"@,
    {
        let mut names: Vec<Vec<char>> = Vec::new();
        let mut dep_names: Vec<Vec<Vec<char>>> = Vec::new();
        let mut graph: Vec<(String, Vec<String>)> = Vec::new();
        let mut i: usize = 0;
        while i < tables.len()
            invariant
                i <= tables@.len(),
                names@.len() == i,
                dep_names@.len() == i,
                graph@.len() == i,
                forall|m: int| 0 <= m < i ==> #[trigger] names@[m]@ == tables@[m].name@,
                forall|m: int| 0 <= m < i ==> #[trigger] strs(dep_names@[m]@) == texts_of(tables@[m].depends_on@),
                forall|m: int| 0 <= m < i ==> (#[trigger] graph@[m]).0@ == tables@[m].name@
                    && texts_of(graph@[m].1@) == texts_of(tables@[m].depends_on@),
            decreases tables@.len() - i,
        {
            names.push(chars_of(tables[i].name.as_str()));
            let ds = &tables[i].depends_on;
            let mut dv: Vec<Vec<char>> = Vec::new();
            let mut k: usize = 0;
            while k < ds.len()
                invariant
                    k <= ds@.len(),
                    strs(dv@) == texts_of(ds@).subrange(0, k as int),
                decreases ds@.len() - k,
            {
                let ghost before = strs(dv@);
                let c = chars_of(ds[k].as_str());
                dv.push(c);
                assert(strs(dv@) =~= before.push(ds@[k as int]@));
                k = k + 1;
                assert(strs(dv@) =~= texts_of(ds@).subrange(0, k as int));
            }
            assert(texts_of(ds@).subrange(0, ds@.len() as int) =~= texts_of(ds@));
            dep_names.push(dv);
            graph.push((copy_string(&tables[i].name), copy_strings(ds)));
            i = i + 1;
        }
        assert(strs(names@) =~= info_names(tables@));
        assert(strss(dep_names@) =~= info_dep_names(tables@));
        let order = match order_by_names(&names, &dep_names) {
            Ok(order) => order,
            Err(_) => {
                return Err(string_of(&chars_of("Circular dependency detected - cannot determine creation order")));
            },
        };
        let mut creation_order: Vec<String> = Vec::new();
        let mut p: usize = 0;
        while p < order.len()
            invariant
                p <= order@.len(),
                names@.len() == tables@.len(),
                strs(names@) == info_names(tables@),
                forall|m: int| 0 <= m < order@.len() ==> #[trigger] order@[m] < tables@.len(),
                texts_of(creation_order@) == order@.subrange(0, p as int).map_values(|i: usize| info_names(tables@)[i as int]),
            decreases order@.len() - p,
        {
            let ghost before = texts_of(creation_order@);
            let idx = order[p];
            creation_order.push(copy_string(&tables[idx].name));
            assert(texts_of(creation_order@) =~= before.push(tables@[idx as int].name@));
            p = p + 1;
            assert(texts_of(creation_order@) =~= order@.subrange(0, p as int).map_values(|i: usize| info_names(tables@)[i as int]));
        }
        assert(order@.subrange(0, order@.len() as int) =~= order@);
        let reverse = reverse_dependencies(&graph);
        assert(is_dependency_order(info_graph(tables@), order@));
        assert(takes_smallest(info_names(tables@), info_graph(tables@), order@));
        let analysis = DependencyAnalysis {
            tables,
            creation_order,
            dependency_graph: graph,
            reverse_dependencies: reverse,
            circular_dependencies: Vec::new(),
        };
        Ok(analysis)
    }

    /// The readable report of an analysis: the creation order, each table's
    /// dependencies and dependents, and the foreign keys.
    pub fn format_analysis(analysis: &DependencyAnalysis) -> (r: String)
        ensures
            r@.len() >= analysis_head(*analysis).len(),
            r@.subrange(0, analysis_head(*analysis).len() as int) == analysis_head(*analysis),
    {
        let rule = "═══════════════════════════════════════════════════════════════\n";
        let thin = "───────────────────────────────────────────────────────────────\n";
        let mut head: Vec<char> = Vec::new();
        push_str(&mut head, rule);
        push_str(&mut head, "                    TABLE DEPENDENCY ANALYSIS\n");
        push_str(&mut head, rule);
        push_str(&mut head, "\n");
        push_str(&mut head, "Found ");
        push_decimal(&mut head, analysis.tables.len() as u64);
        push_str(&mut head, " tables\n\n");
        push_str(&mut head, "CREATION ORDER (tables must be created in this sequence):\n");
        push_str(&mut head, thin);
        let ghost start = head@;
        let mut i: usize = 0;
        while i < analysis.creation_order.len()
            invariant
                i <= analysis.creation_order@.len(),
                head@ == start + order_lines(texts_of(analysis.creation_order@), i as int),
            decreases analysis.creation_order@.len() - i,
        {
            push_str(&mut head, "  ");
            push_decimal(&mut head, i as u64 + 1);
            push_str(&mut head, ". ");
            push_str(&mut head, analysis.creation_order[i].as_str());
            push_str(&mut head, "\n");
            i = i + 1;
            assert(head@ =~= start + order_lines(texts_of(analysis.creation_order@), i as int));
        }
        push_str(&mut head, "\n");
        assert(head@ =~= analysis_head(*analysis));
        let mut out: Vec<char> = Vec::new();
        push_str(&mut out, "DEPENDENCY GRAPH (table → depends on):\n");
        push_str(&mut out, thin);
        push_graph(&mut out, &analysis.dependency_graph, " → ", "(no dependencies)");
        push_str(&mut out, "\n");
        push_str(&mut out, "REVERSE DEPENDENCIES (table ← depended on by):\n");
        push_str(&mut out, thin);
        push_graph(&mut out, &analysis.reverse_dependencies, " ← ", "(nothing depends on this)");
        push_str(&mut out, "\n");
        push_str(&mut out, "FOREIGN KEY DETAILS:\n");
        push_str(&mut out, thin);
        let mut t: usize = 0;
        while t < analysis.tables.len()
            invariant
                t <= analysis.tables@.len(),
            decreases analysis.tables@.len() - t,
        {
            let table = &analysis.tables[t];
            if table.foreign_keys.len() > 0 {
                push_str(&mut out, "  ");
                push_str(&mut out, table.name.as_str());
                push_str(&mut out, ":\n");
                let mut f: usize = 0;
                while f < table.foreign_keys.len()
                    invariant
                        f <= table.foreign_keys@.len(),
                    decreases table.foreign_keys@.len() - f,
                {
                    let fk = &table.foreign_keys[f];
                    push_str(&mut out, "    • ");
                    push_str(&mut out, fk.from_table.as_str());
                    push_str(&mut out, ".");
                    push_str(&mut out, fk.from_column.as_str());
                    push_str(&mut out, " → ");
                    push_str(&mut out, fk.to_table.as_str());
                    push_str(&mut out, ".");
                    push_str(&mut out, fk.to_column.as_str());
                    match (&fk.on_delete, &fk.on_update) {
                        (Some(d), Some(u)) => {
                            push_str(&mut out, " (ON DELETE ");
                            push_str(&mut out, d.as_str());
                            push_str(&mut out, ", ON UPDATE ");
                            push_str(&mut out, u.as_str());
                            push_str(&mut out, ")");
                        },
                        (Some(d), None) => {
                            push_str(&mut out, " (ON DELETE ");
                            push_str(&mut out, d.as_str());
                            push_str(&mut out, ")");
                        },
                        (None, Some(u)) => {
                            push_str(&mut out, " (ON UPDATE ");
                            push_str(&mut out, u.as_str());
                            push_str(&mut out, ")");
                        },
                        (None, None) => {},
                    }
                    push_str(&mut out, "\n");
                    f = f + 1;
                }
            }
            t = t + 1;
        }
        push_str(&mut out, "\n");
        push_str(&mut out, rule);
        push_all(&mut head, &out);
        assert(head@.subrange(0, analysis_head(*analysis).len() as int) =~= analysis_head(*analysis));
        string_of(&head)
    }
}

fn push_graph(out: &mut Vec<char>, graph: &Vec<(String, Vec<String>)>, arrow: &str, empty: &str) {
    let mut i: usize = 0;
    while i < graph.len()
        invariant
            i <= graph@.len(),
        decreases graph@.len() - i,
    {
        let (name, deps) = &graph[i];
        push_str(out, "  ");
        push_str(out, name.as_str());
        push_str(out, arrow);
        if deps.len() == 0 {
            push_str(out, empty);
        } else {
            let mut k: usize = 0;
            while k < deps.len()
                invariant
                    k <= deps@.len(),
                decreases deps@.len() - k,
            {
                if k > 0 {
                    push_str(out, ", ");
                }
                push_str(out, deps[k].as_str());
                k = k + 1;
            }
        }
        push_str(out, "\n");
        i = i + 1;
    }
}

/// For each table of the graph, the tables that depend on it, in graph order.
fn reverse_dependencies(graph: &Vec<(String, Vec<String>)>) -> (r: Vec<(String, Vec<String>)>)
    ensures
        r@.len() == graph@.len(),
        forall|k: int| 0 <= k < r@.len() ==> (#[trigger] r@[k]).0@ == graph@[k].0@,
{
    let mut r: Vec<(String, Vec<String>)> = Vec::new();
    let mut i: usize = 0;
    while i < graph.len()
        invariant
            i <= graph@.len(),
            r@.len() == i,
            forall|k: int| 0 <= k < i ==> (#[trigger] r@[k]).0@ == graph@[k].0@,
        decreases graph@.len() - i,
    {
        let target = chars_of(graph[i].0.as_str());
        let mut dependents: Vec<String> = Vec::new();
        let mut j: usize = 0;
        while j < graph.len()
            invariant
                j <= graph@.len(),
            decreases graph@.len() - j,
        {
            let deps = &graph[j].1;
            let mut k: usize = 0;
            let mut found = false;
            while k < deps.len()
                invariant
                    k <= deps@.len(),
                decreases deps@.len() - k,
            {
                if eq_chars(&chars_of(deps[k].as_str()), &target) {
                    found = true;
                }
                k = k + 1;
            }
            if found {
                dependents.push(copy_string(&graph[j].0));
            }
            j = j + 1;
        }
        r.push((copy_string(&graph[i].0), dependents));
        i = i + 1;
    }
    r
}

} // verus!
