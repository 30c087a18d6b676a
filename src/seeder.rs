//! Seeders: the rows a seeder file inserts, and what running it on a table does.
use vstd::prelude::*;
use crate::text::{chars_of, string_of, push_str, trim_seq, trim_vec, texts, join_seq, push_joined};

verus! {

/// A parsed seeder file.
#[derive(Debug, Clone)]
pub struct SeederFile {
    pub name: String,
    pub table_name: String,
    pub records: Vec<SeederRecord>,
    pub primary_key_columns: Vec<String>,
}

/// One row of a seeder: its columns and their literal values.
#[derive(Debug, Clone)]
pub struct SeederRecord {
    pub columns: Vec<String>,
    pub values: Vec<String>,
}

/// What running a seeder did.
#[derive(Debug, Clone)]
pub struct SeederResult {
    pub table: String,
    pub inserted: usize,
    pub skipped: usize,
    pub total_expected: usize,
}

/// What validating a seeder found.
#[derive(Debug, Clone)]
pub struct SeederValidation {
    pub table: String,
    pub expected: usize,
    pub found: usize,
    pub missing: Vec<String>,
}

/// The values of a tuple text from position `i` on, given the value read so
/// far (`cur`) and whether a quoted literal opened by `q` is still open: values
/// are split at commas outside quotes and trimmed; an empty last value is dropped.
pub open spec fn values_from(s: Seq<char>, i: int, cur: Seq<char>, in_quote: bool, q: char) -> Seq<Seq<char>>
    decreases s.len() - i,
{
    if i < 0 || i >= s.len() {
        if trim_seq(cur).len() > 0 {
            seq![trim_seq(cur)]
        } else {
            Seq::empty()
        }
    } else {
        let c = s[i];
        if (c == '\'' || c == '"') && !in_quote {
            values_from(s, i + 1, cur.push(c), true, c)
        } else if in_quote && c == q {
            values_from(s, i + 1, cur.push(c), false, q)
        } else if c == ',' && !in_quote {
            seq![trim_seq(cur)] + values_from(s, i + 1, Seq::empty(), false, q)
        } else {
            values_from(s, i + 1, cur.push(c), in_quote, q)
        }
    }
}

pub open spec fn tuple_values_spec(s: Seq<char>) -> Seq<Seq<char>> {
    values_from(s, 0, Seq::empty(), false, ' ')
}

/// `INSERT INTO table (c1, c2) VALUES (v1, v2)` for one record.
pub open spec fn insert_spec(table: Seq<char>, r: SeederRecord) -> Seq<char> {
    "INSERT INTO "@ + table + " ("@ + join_seq(r.columns@.map_values(|c: String| c@), ", "@) + ") VALUES ("@
        + join_seq(r.values@.map_values(|v: String| v@), ", "@) + ")"@
}

/// What to do with a seeder, given the rows the table already has.
#[derive(Debug, Clone)]
pub struct SeederPlan {
    /// The table has rows: the whole seeder is skipped.
    pub skip: bool,
    /// The inserts to run, in order.
    pub statements: Vec<String>,
}

fn string_chars(v: &Vec<String>) -> (r: Vec<Vec<char>>)
    ensures
        texts(r@) == v@.map_values(|s: String| s@),
{
    let mut r: Vec<Vec<char>> = Vec::new();
    let mut i: usize = 0;
    while i < v.len()
        invariant
            i <= v@.len(),
            texts(r@) == v@.subrange(0, i as int).map_values(|s: String| s@),
        decreases v@.len() - i,
    {
        let ghost before = texts(r@);
        r.push(chars_of(v[i].as_str()));
        assert(texts(r@) =~= before.push(v@[i as int]@));
        i = i + 1;
        assert(texts(r@) =~= v@.subrange(0, i as int).map_values(|s: String| s@));
    }
    assert(v@.subrange(0, v@.len() as int) =~= v@);
    r
}

/// Runs seeder files when a database is created.
pub struct SeederRunner;

impl SeederRunner {
    pub fn new() -> (r: Self) {
        SeederRunner
    }

    /// Splits the inside of a `VALUES (...)` tuple into its literal values.
    pub fn parse_value_tuple(&self, tuple_str: &str) -> (r: Vec<String>)
        ensures
            r@.map_values(|s: String| s@) == tuple_values_spec(tuple_str@),
    {
        let s = chars_of(tuple_str);
        let mut out: Vec<String> = Vec::new();
        let mut cur: Vec<char> = Vec::new();
        let mut in_quote = false;
        let mut q = ' ';
        let mut i: usize = 0;
        while i < s.len()
            invariant
                i <= s@.len(),
                s@ == tuple_str@,
                out@.map_values(|x: String| x@) + values_from(s@, i as int, cur@, in_quote, q) == tuple_values_spec(tuple_str@),
            decreases s@.len() - i,
        {
            let c = s[i];
            if (c == '\'' || c == '"') && !in_quote {
                cur.push(c);
                in_quote = true;
                q = c;
            } else if in_quote && c == q {
                cur.push(c);
                in_quote = false;
            } else if c == ',' && !in_quote {
                let ghost before = out@.map_values(|x: String| x@);
                let ghost old_cur = cur@;
                out.push(string_of(&trim_vec(&cur)));
                assert(out@.map_values(|x: String| x@) =~= before.push(trim_seq(old_cur)));
                cur = Vec::new();
                assert(before + (seq![trim_seq(old_cur)] + values_from(s@, i + 1, cur@, false, q)) =~= before.push(trim_seq(old_cur)) + values_from(s@, i + 1, cur@, false, q));
            } else {
                cur.push(c);
            }
            i = i + 1;
        }
        let t = trim_vec(&cur);
        if t.len() > 0 {
            let ghost before = out@.map_values(|x: String| x@);
            out.push(string_of(&t));
            assert(out@.map_values(|x: String| x@) =~= before + seq![trim_seq(cur@)]);
        } else {
            assert(out@.map_values(|x: String| x@) =~= out@.map_values(|x: String| x@) + values_from(s@, i as int, cur@, in_quote, q));
        }
        out
    }

    /// The text with `--` and `/* */` comments removed.
    pub fn remove_comments(&self, sql: &str) -> (r: String)
        ensures
            r@ == crate::checksum::strip_comments_spec(sql@),
    {
        string_of(&crate::checksum::strip_comments(&chars_of(sql)))
    }

    /// The insert statement for one record of a seeder.
    pub fn insert_statement(&self, table: &str, record: &SeederRecord) -> (r: String)
        ensures
            r@ == insert_spec(table@, *record),
    {
        let mut out: Vec<char> = Vec::new();
        push_str(&mut out, "INSERT INTO ");
        push_str(&mut out, table);
        push_str(&mut out, " (");
        push_joined(&mut out, &string_chars(&record.columns), ", ");
        push_str(&mut out, ") VALUES (");
        push_joined(&mut out, &string_chars(&record.values), ", ");
        push_str(&mut out, ")");
        assert(out@ =~= insert_spec(table@, *record));
        string_of(&out)
    }

    /// Seeders run only on empty tables: a table with rows skips the whole
    /// seeder; an empty one gets one insert per record, in order.
    pub fn plan_seeder(&self, seeder: &SeederFile, existing_rows: i64) -> (r: SeederPlan)
        ensures
            r.skip == (existing_rows > 0),
            r.skip ==> r.statements@.len() == 0,
            !r.skip ==> r.statements@.len() == seeder.records@.len() && forall|k: int| 0 <= k < seeder.records@.len()
                ==> (#[trigger] r.statements@[k])@ == insert_spec(seeder.table_name@, seeder.records@[k]),
    {
        if existing_rows > 0 {
            return SeederPlan { skip: true, statements: Vec::new() };
        }
        let mut statements: Vec<String> = Vec::new();
        let mut i: usize = 0;
        while i < seeder.records.len()
            invariant
                i <= seeder.records@.len(),
                statements@.len() == i,
                forall|k: int| 0 <= k < i ==> (#[trigger] statements@[k])@ == insert_spec(seeder.table_name@, seeder.records@[k]),
            decreases seeder.records@.len() - i,
        {
            statements.push(self.insert_statement(seeder.table_name.as_str(), &seeder.records[i]));
            i = i + 1;
        }
        SeederPlan { skip: false, statements }
    }

    /// The outcome recorded for a seeder: all skipped, or all inserted.
    pub fn seeder_result(&self, seeder: &SeederFile, plan: &SeederPlan) -> (r: SeederResult)
        ensures
            r.table@ == seeder.table_name@,
            r.total_expected == seeder.records@.len(),
            plan.skip ==> r.inserted == 0 && r.skipped == seeder.records@.len(),
            !plan.skip ==> r.inserted == seeder.records@.len() && r.skipped == 0,
    {
        let n = seeder.records.len();
        SeederResult {
            table: string_of(&chars_of(seeder.table_name.as_str())),
            inserted: if plan.skip { 0 } else { n },
            skipped: if plan.skip { n } else { 0 },
            total_expected: n,
        }
    }
}

/// Position of the first `ch` at or after `i`, or the length.
pub open spec fn char_from(s: Seq<char>, i: int, ch: char) -> int
    decreases s.len() - i,
{
    if i < 0 || i >= s.len() {
        s.len() as int
    } else if s[i] == ch {
        i
    } else {
        char_from(s, i + 1, ch)
    }
}

/// The table a seeder file inserts into: the lowercased name after the first
/// `INSERT INTO`, where a parenthesised column list and `VALUES` follow.
pub open spec fn seeder_table_spec(content: Seq<char>) -> Option<Seq<char>> {
    let text = crate::checksum::strip_comments_spec(content);
    let up = crate::text::upper_seq(text);
    match crate::functions::first_match(up, "INSERT INTO"@, 0) {
        None => None,
        Some(p) => {
            let a = crate::text::skip_space_from(text, p + "INSERT INTO"@.len());
            let b = crate::custom_types::word_end_spec(text, a);
            let o = crate::text::skip_space_from(text, b);
            let c = char_from(text, o + 1, ')');
            if b > a && o < text.len() && text[o] == '(' && c < text.len()
                && crate::functions::first_match(up, "VALUES"@, c) is Some {
                Some(crate::text::lower_seq(text.subrange(a, b)))
            } else {
                None
            }
        },
    }
}

/// Position of the first occurrence of `kw` in `up` at or after `from`.
fn find_text(up: &Vec<char>, from: usize, kw: &str) -> (r: Option<usize>)
    requires
        from <= up@.len(),
    ensures
        r matches Some(p) ==> from <= p && p + kw@.len() <= up@.len(),
{
    let k = chars_of(kw);
    let mut p = from;
    while p < up.len()
        invariant
            from <= p <= up@.len(),
            k@ == kw@,
        decreases up@.len() - p,
    {
        if crate::text::matches_at(up, p, &k) {
            return Some(p);
        }
        p = p + 1;
    }
    None
}

impl SeederRunner {
    /// Reads `INSERT INTO table (columns) VALUES (...), (...)` from a seeder
    /// file; `None` where it holds no such statement. Tuples whose value count
    /// differs from the column count are left out; the first column is taken
    /// as the key.
    pub fn parse_seeder(&self, name: &str, content: &str) -> (r: Option<SeederFile>)
        ensures
            r is Some <==> seeder_table_spec(content@) is Some,
            r matches Some(f) ==> Some(f.table_name@) == seeder_table_spec(content@),
            r matches Some(f) ==> f.name@ == name@ && forall|k: int| 0 <= k < f.records@.len()
                ==> (#[trigger] f.records@[k]).values@.len() == f.records@[k].columns@.len(),
    {
        let text = crate::checksum::strip_comments(&chars_of(content));
        let up = crate::text::upper_vec(&text);
        let kw = chars_of("INSERT INTO");
        let p = match crate::functions::find_from(&up, 0, &kw) {
            Some(p) => p,
            None => return None,
        };
        let total = up.len();
        assert(up@.len() == text@.len());
        assert(p + kw@.len() <= total);
        let a = crate::text::skip_space(&text, p + kw.len());
        let mut b = a;
        while b < text.len() && crate::text::is_word_char(text[b])
            invariant
                a <= b <= text@.len(),
                crate::custom_types::word_end_spec(text@, a as int) == crate::custom_types::word_end_spec(text@, b as int),
            decreases text@.len() - b,
        {
            b = b + 1;
        }
        if b == a {
            return None;
        }
        let table = crate::text::lower_vec(&crate::text::slice_chars(&text, a, b));
        let o = crate::text::skip_space(&text, b);
        if o >= text.len() || text[o] != '(' {
            return None;
        }
        let mut c = o + 1;
        while c < text.len() && text[c] != ')'
            invariant
                o < c <= text@.len(),
                char_from(text@, o + 1, ')') == char_from(text@, c as int, ')'),
            decreases text@.len() - c,
        {
            c = c + 1;
        }
        if c >= text.len() {
            return None;
        }
        let mut columns: Vec<String> = Vec::new();
        let mut cur: Vec<char> = Vec::new();
        let mut k = o + 1;
        while k < c
            invariant
                o < k <= c < text@.len(),
            decreases c - k,
        {
            if text[k] == ',' {
                columns.push(string_of(&crate::text::lower_vec(&trim_vec(&cur))));
                cur = Vec::new();
            } else {
                cur.push(text[k]);
            }
            k = k + 1;
        }
        columns.push(string_of(&crate::text::lower_vec(&trim_vec(&cur))));
        let vk = chars_of("VALUES");
        let v = match crate::functions::find_from(&up, c, &vk) {
            Some(v) => v,
            None => return None,
        };
        assert(v + vk@.len() <= total);
        let start = v + vk.len();
        let mut end = up.len();
        match find_text(&up, start, "ON CONFLICT") {
            Some(e) => if e < end { end = e; },
            None => {},
        }
        match find_text(&up, start, "ON DUPLICATE KEY") {
            Some(e) => if e < end { end = e; },
            None => {},
        }
        match find_text(&up, start, ";") {
            Some(e) => if e < end { end = e; },
            None => {},
        }
        let mut records: Vec<SeederRecord> = Vec::new();
        let mut q = start;
        while q < end
            invariant
                start <= q <= end <= text@.len(),
                forall|m: int| 0 <= m < records@.len() ==> (#[trigger] records@[m]).values@.len() == records@[m].columns@.len(),
            decreases end - q,
        {
            if text[q] == '(' {
                let mut e = q + 1;
                while e < end && text[e] != ')'
                    invariant
                        q < e <= end,
                        end <= text@.len(),
                    decreases end - e,
                {
                    e = e + 1;
                }
                if e < end && e > q + 1 {
                    let inner = string_of(&crate::text::slice_chars(&text, q + 1, e));
                    let values = self.parse_value_tuple(inner.as_str());
                    if values.len() == columns.len() {
                        let mut cols: Vec<String> = Vec::new();
                        let mut m: usize = 0;
                        while m < columns.len()
                            invariant
                                m <= columns@.len(),
                                cols@.len() == m,
                            decreases columns@.len() - m,
                        {
                            cols.push(string_of(&chars_of(columns[m].as_str())));
                            m = m + 1;
                        }
                        records.push(SeederRecord { columns: cols, values });
                    }
                }
                q = e;
            } else {
                q = q + 1;
            }
        }
        let mut primary_key_columns: Vec<String> = Vec::new();
        if columns.len() > 0 {
            primary_key_columns.push(string_of(&chars_of(columns[0].as_str())));
        }
        Some(SeederFile {
            name: string_of(&chars_of(name)),
            table_name: string_of(&table),
            records,
            primary_key_columns,
        })
    }
}

} // verus!
