//! Function deployment with signature tracking: a function's identity is its
//! name and the types of its visible parameters; a changed identity drops the
//! old overload before the new definition runs.
use vstd::prelude::*;
use crate::checksum::{checksum_spec, compute_checksum};
use crate::text::{
    chars_of, string_of, push_str, texts, join_seq, push_joined, lower_vec, is_space, is_word_char, eq_chars, eq_str, matches_at, starts_with_at,
};

verus! {

/// How a parameter is passed.
#[derive(Debug, Clone, Copy, PartialEq, Eq, Structural)]
pub enum ParamMode {
    In,
    Out,
    InOut,
    Variadic,
}

/// One parameter of a function definition.
#[derive(Debug, Clone)]
pub struct FunctionParam {
    pub name: Option<String>,
    pub mode: ParamMode,
    pub param_type: String,
    pub has_default: bool,
}

/// The parsed signature of a function file.
#[derive(Debug, Clone)]
pub struct FunctionSignature {
    pub name: String,
    pub params: Vec<FunctionParam>,
    pub return_type: String,
    pub body_checksum: String,
}

/// A tracking row of a deployed function.
#[derive(Debug, Clone)]
pub struct FunctionRecord {
    pub function_name: String,
    pub param_types: String,
    pub body_checksum: String,
    pub source_file: String,
}

/// The parameters that take part in a call: all but `OUT` ones.
pub open spec fn visible(p: FunctionParam) -> bool {
    p.mode != ParamMode::Out
}

/// The types of the visible parameters, in order.
pub open spec fn visible_types(ps: Seq<FunctionParam>) -> Seq<Seq<char>>
    decreases ps.len(),
{
    if ps.len() == 0 {
        Seq::empty()
    } else if visible(ps.last()) {
        visible_types(ps.drop_last()).push(ps.last().param_type@)
    } else {
        visible_types(ps.drop_last())
    }
}

/// The parameter-type list of a signature: visible types joined by `", "`.
pub open spec fn param_types_spec(ps: Seq<FunctionParam>) -> Seq<char> {
    join_seq(visible_types(ps), ", "@)
}

/// `name(type, type, …)`: how PostgreSQL tells overloads apart.
pub open spec fn drop_signature_spec(name: Seq<char>, ps: Seq<FunctionParam>) -> Seq<char> {
    name + "("@ + param_types_spec(ps) + ")"@
}

pub open spec fn drop_statement_spec(name: Seq<char>, types: Seq<char>) -> Seq<char> {
    "DROP FUNCTION IF EXISTS "@ + name + "("@ + types + ")"@
}

/// The drop signature depends only on the name and the visible parameter
/// types: parameter names, defaults and modes of visible parameters never change it.
pub proof fn lemma_drop_signature_depends_on_types(name: Seq<char>, a: Seq<FunctionParam>, b: Seq<FunctionParam>)
    requires
        visible_types(a) == visible_types(b),
    ensures
        drop_signature_spec(name, a) == drop_signature_spec(name, b),
{
}

fn visible_type_chars(ps: &Vec<FunctionParam>) -> (r: Vec<Vec<char>>)
    ensures
        texts(r@) == visible_types(ps@),
{
    let mut r: Vec<Vec<char>> = Vec::new();
    let mut i: usize = 0;
    while i < ps.len()
        invariant
            i <= ps@.len(),
            texts(r@) == visible_types(ps@.subrange(0, i as int)),
        decreases ps@.len() - i,
    {
        let ghost before = texts(r@);
        assert(ps@.subrange(0, i + 1).drop_last() =~= ps@.subrange(0, i as int));
        if !matches!(ps[i].mode, ParamMode::Out) {
            r.push(chars_of(ps[i].param_type.as_str()));
            assert(texts(r@) =~= before.push(ps@[i as int].param_type@));
        }
        i = i + 1;
    }
    assert(ps@.subrange(0, ps@.len() as int) =~= ps@);
    r
}

impl FunctionSignature {
    /// The visible parameter types joined by `", "`, as tracked.
    pub fn param_types(&self) -> (r: String)
        ensures
            r@ == param_types_spec(self.params@),
    {
        let mut out: Vec<char> = Vec::new();
        push_joined(&mut out, &visible_type_chars(&self.params), ", ");
        assert(out@ =~= param_types_spec(self.params@));
        string_of(&out)
    }

    /// `name(type, …)`, the identity used to drop an old overload.
    pub fn drop_signature(&self) -> (r: String)
        ensures
            r@ == drop_signature_spec(self.name@, self.params@),
    {
        let mut out: Vec<char> = Vec::new();
        push_str(&mut out, self.name.as_str());
        push_str(&mut out, "(");
        push_joined(&mut out, &visible_type_chars(&self.params), ", ");
        push_str(&mut out, ")");
        assert(out@ =~= drop_signature_spec(self.name@, self.params@));
        string_of(&out)
    }
}

/// What deploying one function file does.
#[derive(Debug, Clone)]
pub struct FunctionDeployPlan {
    /// The tracked row has the same identity and body: nothing runs.
    pub skip: bool,
    /// `DROP FUNCTION IF EXISTS` for each row of the same file with another identity.
    pub drops: Vec<String>,
    /// Positions of the tracking rows those drops retire.
    pub retired: Vec<usize>,
    /// The file runs (its `CREATE OR REPLACE FUNCTION`).
    pub execute: bool,
}

pub open spec fn same_identity(r: FunctionRecord, name: Seq<char>, types: Seq<char>) -> bool {
    r.function_name@ == name && r.param_types@ == types
}

/// Some tracking row has the identity and the body checksum of the new definition.
pub open spec fn unchanged(records: Seq<FunctionRecord>, sig: FunctionSignature) -> bool {
    exists|k: int| 0 <= k < records.len() && same_identity(#[trigger] records[k], sig.name@, param_types_spec(sig.params@))
        && records[k].body_checksum@ == sig.body_checksum@
}

/// The rows of `file` whose identity differs from the new one, by position.
pub open spec fn stale_rows(records: Seq<FunctionRecord>, file: Seq<char>, name: Seq<char>, types: Seq<char>, n: int) -> Seq<usize>
    decreases n,
{
    if n <= 0 || n > records.len() {
        Seq::empty()
    } else {
        let r = records[n - 1];
        if r.source_file@ == file && !same_identity(r, name, types) {
            stale_rows(records, file, name, types, n - 1).push((n - 1) as usize)
        } else {
            stale_rows(records, file, name, types, n - 1)
        }
    }
}

/// Deploys function files and keeps one tracking row per signature.
pub struct FunctionDeployer;

impl FunctionDeployer {
    pub fn new() -> (r: Self) {
        FunctionDeployer
    }

    /// The plan for one function file, given the tracking rows: skip where a
    /// row has the same identity and body; otherwise drop every overload that
    /// the same file left under another identity, then run the file.
    pub fn plan_deploy(&self, sig: &FunctionSignature, source_file: &str, records: &Vec<FunctionRecord>) -> (r: FunctionDeployPlan)
        ensures
            r.skip == unchanged(records@, *sig),
            r.execute == !r.skip,
            r.skip ==> r.drops@.len() == 0 && r.retired@.len() == 0,
            !r.skip ==> r.retired@ == stale_rows(records@, source_file@, sig.name@, param_types_spec(sig.params@), records@.len() as int),
            r.drops@.len() == r.retired@.len(),
            forall|k: int| 0 <= k < r.retired@.len() ==> #[trigger] r.retired@[k] < records@.len()
                && r.drops@[k]@ == drop_statement_spec(records@[r.retired@[k] as int].function_name@, records@[r.retired@[k] as int].param_types@),
    {
        let types = sig.param_types();
        let name = chars_of(sig.name.as_str());
        let tys = chars_of(types.as_str());
        let file = chars_of(source_file);
        let body = chars_of(sig.body_checksum.as_str());
        let mut i: usize = 0;
        while i < records.len()
            invariant
                i <= records@.len(),
                name@ == sig.name@,
                tys@ == param_types_spec(sig.params@),
                body@ == sig.body_checksum@,
                forall|k: int| 0 <= k < i ==> !(same_identity(#[trigger] records@[k], sig.name@, param_types_spec(sig.params@))
                    && records@[k].body_checksum@ == sig.body_checksum@),
            decreases records@.len() - i,
        {
            let r = &records[i];
            if eq_chars(&chars_of(r.function_name.as_str()), &name) && eq_chars(&chars_of(r.param_types.as_str()), &tys)
                && eq_chars(&chars_of(r.body_checksum.as_str()), &body) {
                assert(unchanged(records@, *sig));
                return FunctionDeployPlan { skip: true, drops: Vec::new(), retired: Vec::new(), execute: false };
            }
            i = i + 1;
        }
        let mut drops: Vec<String> = Vec::new();
        let mut retired: Vec<usize> = Vec::new();
        let mut k: usize = 0;
        while k < records.len()
            invariant
                k <= records@.len(),
                name@ == sig.name@,
                tys@ == param_types_spec(sig.params@),
                file@ == source_file@,
                retired@ == stale_rows(records@, source_file@, sig.name@, param_types_spec(sig.params@), k as int),
                drops@.len() == retired@.len(),
                forall|m: int| 0 <= m < retired@.len() ==> #[trigger] retired@[m] < k
                    && drops@[m]@ == drop_statement_spec(records@[retired@[m] as int].function_name@, records@[retired@[m] as int].param_types@),
            decreases records@.len() - k,
        {
            let r = &records[k];
            let same = eq_chars(&chars_of(r.function_name.as_str()), &name) && eq_chars(&chars_of(r.param_types.as_str()), &tys);
            if eq_chars(&chars_of(r.source_file.as_str()), &file) && !same {
                let mut d: Vec<char> = Vec::new();
                push_str(&mut d, "DROP FUNCTION IF EXISTS ");
                push_str(&mut d, r.function_name.as_str());
                push_str(&mut d, "(");
                push_str(&mut d, r.param_types.as_str());
                push_str(&mut d, ")");
                assert(d@ =~= drop_statement_spec(r.function_name@, r.param_types@));
                drops.push(string_of(&d));
                retired.push(k);
            }
            k = k + 1;
        }
        FunctionDeployPlan { skip: false, drops, retired, execute: true }
    }
}

/// A changed parameter list drops the old overload exactly once: where the
/// file's only tracking row carries the old identity, the plan for a new
/// identity drops that one signature and runs the file.
pub proof fn lemma_retyped_function_drops_once(sig: FunctionSignature, file: Seq<char>, old: FunctionRecord)
    requires
        old.source_file@ == file,
        !same_identity(old, sig.name@, param_types_spec(sig.params@)),
    ensures
        !unchanged(seq![old], sig),
        stale_rows(seq![old], file, sig.name@, param_types_spec(sig.params@), 1) == seq![0usize],
{
    let rows = seq![old];
    assert(stale_rows(rows, file, sig.name@, param_types_spec(sig.params@), 0) =~= Seq::<usize>::empty());
    assert(seq![0usize] =~= Seq::<usize>::empty().push(0usize));
}

/// A renamed parameter keeps the identity: with the file's row carrying that
/// identity and another body, nothing is dropped and the file runs.
pub proof fn lemma_renamed_parameter_drops_nothing(sig: FunctionSignature, file: Seq<char>, old: FunctionRecord)
    requires
        old.source_file@ == file,
        same_identity(old, sig.name@, param_types_spec(sig.params@)),
        old.body_checksum@ != sig.body_checksum@,
    ensures
        !unchanged(seq![old], sig),
        stale_rows(seq![old], file, sig.name@, param_types_spec(sig.params@), 1).len() == 0,
{
    let rows = seq![old];
    assert(stale_rows(rows, file, sig.name@, param_types_spec(sig.params@), 0) =~= Seq::<usize>::empty());
}

/// The `)` closing a parenthesis opened before `j`, `depth` parentheses
/// being open inside it.
pub open spec fn closing_from(s: Seq<char>, j: int, depth: nat) -> Option<int>
    decreases s.len() - j,
{
    if j < 0 || j >= s.len() {
        None
    } else if s[j] == '(' {
        closing_from(s, j + 1, depth + 1)
    } else if s[j] == ')' {
        if depth == 0 {
            Some(j)
        } else {
            closing_from(s, j + 1, (depth - 1) as nat)
        }
    } else {
        closing_from(s, j + 1, depth)
    }
}

pub open spec fn opt_param(o: Option<ParamView>) -> Seq<ParamView> {
    match o {
        Some(p) => seq![p],
        None => Seq::empty(),
    }
}

pub open spec fn params_view(ps: Seq<FunctionParam>) -> Seq<ParamView> {
    ps.map_values(|p: FunctionParam| param_view(p))
}

/// The parameters declared from `j` on in a parameter list (`low` is the
/// lowercased `text`), `depth` parentheses being open, the current parameter
/// text being `cur`: split at top-level commas up to the closing `)`, each part
/// read by `param_spec`, parts that declare nothing left out.
pub open spec fn params_from(low: Seq<char>, text: Seq<char>, j: int, depth: nat, cur: Seq<char>) -> Seq<ParamView>
    decreases low.len() - j,
{
    if j < 0 || j >= low.len() {
        Seq::empty()
    } else if low[j] == '(' {
        params_from(low, text, j + 1, depth + 1, cur.push(text[j]))
    } else if low[j] == ')' {
        if depth == 0 {
            opt_param(param_spec(cur))
        } else {
            params_from(low, text, j + 1, (depth - 1) as nat, cur.push(text[j]))
        }
    } else if low[j] == ',' && depth == 0 {
        opt_param(param_spec(cur)) + params_from(low, text, j + 1, 0, Seq::empty())
    } else {
        params_from(low, text, j + 1, depth, cur.push(text[j]))
    }
}

/// The parameters a function definition declares.
pub open spec fn signature_params(sql: Seq<char>) -> Seq<ParamView> {
    let text = crate::checksum::strip_comments_spec(sql);
    let low = crate::text::lower_seq(text);
    match first_match(low, "function"@, 0) {
        None => Seq::empty(),
        Some(f) => {
            let i = crate::text::skip_space_from(low, f + "function"@.len());
            let k = crate::text::skip_space_from(low, name_end(low, i));
            params_from(low, text, k + 1, 0, Seq::empty())
        },
    }
}

/// A word that ends the return type: `AS`, `LANGUAGE`, or a dollar quote.
pub open spec fn stop_word(w: Seq<char>) -> bool {
    let l = crate::text::lower_seq(w);
    l == "as"@ || l == "language"@ || (l.len() > 0 && l[0] == '$')
}

fn stop_word_exec(w: &Vec<char>) -> (r: bool)
    ensures
        r == stop_word(w@),
{
    let l = lower_vec(w);
    eq_str(&l, "as") || eq_str(&l, "language") || (l.len() > 0 && l[0] == '$')
}

/// The first stop word at or after `i`, or the word count.
pub open spec fn stop_at(ws: Seq<Seq<char>>, i: int) -> int
    decreases ws.len() - i,
{
    if i < 0 || i >= ws.len() {
        ws.len() as int
    } else if stop_word(ws[i]) {
        i
    } else {
        stop_at(ws, i + 1)
    }
}

/// The return type after the parameter list closing at `j`: the words after
/// the next `returns`, up to a stop word; empty where there is none.
pub open spec fn return_after(low: Seq<char>, text: Seq<char>, j: int) -> Seq<char> {
    if j < low.len() {
        match first_match(low, "returns"@, j + 1) {
            Some(rp) => {
                let ws = words_from(text.subrange(rp + "returns"@.len(), text.len() as int), 0, Seq::empty());
                join_seq(ws.subrange(0, stop_at(ws, 0)), " "@)
            },
            None => Seq::empty(),
        }
    } else {
        Seq::empty()
    }
}

/// The return type a function definition declares.
pub open spec fn signature_return(sql: Seq<char>) -> Seq<char> {
    let text = crate::checksum::strip_comments_spec(sql);
    let low = crate::text::lower_seq(text);
    match first_match(low, "function"@, 0) {
        None => Seq::empty(),
        Some(f) => {
            let i = crate::text::skip_space_from(low, f + "function"@.len());
            let k = crate::text::skip_space_from(low, name_end(low, i));
            match closing_from(low, k + 1, 0) {
                Some(j) => return_after(low, text, j),
                None => Seq::empty(),
            }
        },
    }
}

/// Whether a function file has the shape of a definition: `function`, a
/// name, and a parenthesised parameter list that closes.
pub open spec fn signature_shape(sql: Seq<char>) -> bool {
    let low = crate::text::lower_seq(crate::checksum::strip_comments_spec(sql));
    match first_match(low, "function"@, 0) {
        None => false,
        Some(f) => {
            let i = crate::text::skip_space_from(low, f + "function"@.len());
            let e = name_end(low, i);
            let k = crate::text::skip_space_from(low, e);
            e > i && k < low.len() && low[k] == '(' && closing_from(low, k + 1, 0) is Some
        },
    }
}

/// Position of the first occurrence of `p` in `s` at or after `i`.
pub open spec fn first_match(s: Seq<char>, p: Seq<char>, i: int) -> Option<int>
    decreases s.len() - i,
{
    if i < 0 || i >= s.len() {
        None
    } else if starts_with_at(s, i, p) {
        Some(i)
    } else {
        first_match(s, p, i + 1)
    }
}

/// End of the run of name characters (word characters and `.`) from `i`.
pub open spec fn name_end(s: Seq<char>, i: int) -> int
    decreases s.len() - i,
{
    if i < 0 || i >= s.len() {
        s.len() as int
    } else if crate::text::is_word_spec(s[i]) || s[i] == '.' {
        name_end(s, i + 1)
    } else {
        i
    }
}

/// The name a function definition declares: the run of name characters after
/// the first `function` of its lowercased, comment-free text.
pub open spec fn function_name_spec(sql: Seq<char>) -> Option<Seq<char>> {
    let low = crate::text::lower_seq(crate::checksum::strip_comments_spec(sql));
    match first_match(low, "function"@, 0) {
        None => None,
        Some(f) => {
            let i = crate::text::skip_space_from(low, f + "function"@.len());
            let e = name_end(low, i);
            if e > i {
                Some(low.subrange(i, e))
            } else {
                None
            }
        },
    }
}

/// Position of the first occurrence of `p` in `s` at or after `from`.
pub(crate) fn find_from(s: &Vec<char>, from: usize, p: &Vec<char>) -> (r: Option<usize>)
    requires
        from <= s@.len(),
    ensures
        r matches Some(k) ==> from <= k && starts_with_at(s@, k as int, p@),
        r matches Some(k) ==> first_match(s@, p@, from as int) == Some(k as int),
        r is None ==> first_match(s@, p@, from as int) is None,
{
    let mut k = from;
    while k < s.len()
        invariant
            from <= k <= s@.len(),
            first_match(s@, p@, from as int) == first_match(s@, p@, k as int),
        decreases s@.len() - k,
    {
        if matches_at(s, k, p) {
            return Some(k);
        }
        k = k + 1;
    }
    None
}

/// The whitespace-separated words of `s` from `i` on, the word read so far being `cur`.
pub open spec fn words_from(s: Seq<char>, i: int, cur: Seq<char>) -> Seq<Seq<char>>
    decreases s.len() - i,
{
    if i < 0 || i >= s.len() {
        if cur.len() > 0 { seq![cur] } else { Seq::empty() }
    } else if crate::text::is_space_spec(s[i]) {
        (if cur.len() > 0 { seq![cur] } else { Seq::empty() }) + words_from(s, i + 1, Seq::empty())
    } else {
        words_from(s, i + 1, cur.push(s[i]))
    }
}

/// The whitespace-separated words of a text.
fn split_words(v: &Vec<char>) -> (r: Vec<Vec<char>>)
    ensures
        texts(r@) == words_from(v@, 0, Seq::empty()),
{
    let mut words: Vec<Vec<char>> = Vec::new();
    let mut cur: Vec<char> = Vec::new();
    let mut i: usize = 0;
    while i < v.len()
        invariant
            i <= v@.len(),
            texts(words@) + words_from(v@, i as int, cur@) == words_from(v@, 0, Seq::empty()),
        decreases v@.len() - i,
    {
        let c = v[i];
        let ghost before = texts(words@);
        let ghost old_cur = cur@;
        if is_space(c) {
            if cur.len() > 0 {
                words.push(cur);
                cur = Vec::new();
                assert(texts(words@) =~= before.push(old_cur));
                assert(before + (seq![old_cur] + words_from(v@, i + 1, Seq::empty())) =~= texts(words@) + words_from(v@, i + 1, cur@));
            } else {
                assert(cur@ =~= Seq::<char>::empty());
                assert(before + (Seq::<Seq<char>>::empty() + words_from(v@, i + 1, Seq::empty())) =~= texts(words@) + words_from(v@, i + 1, cur@));
            }
        } else {
            cur.push(c);
        }
        i = i + 1;
    }
    if cur.len() > 0 {
        let ghost before = texts(words@);
        let ghost old_cur = cur@;
        words.push(cur);
        assert(texts(words@) =~= before + seq![old_cur]);
    } else {
        assert(texts(words@) + Seq::<Seq<char>>::empty() =~= texts(words@));
    }
    words
}

fn join_words(words: &Vec<Vec<char>>, from: usize, to: usize) -> (r: Vec<char>)
    requires
        from <= to <= words@.len(),
    ensures
        r@ == join_seq(texts(words@.subrange(from as int, to as int)), " "@),
{
    let mut out: Vec<char> = Vec::new();
    let mut part: Vec<Vec<char>> = Vec::new();
    let mut i = from;
    while i < to
        invariant
            from <= i <= to <= words@.len(),
            texts(part@) == texts(words@.subrange(from as int, i as int)),
        decreases to - i,
    {
        let ghost before = texts(part@);
        part.push(crate::text::copy_chars(&words[i]));
        assert(texts(part@) =~= before.push(words@[i as int]@));
        i = i + 1;
        assert(texts(part@) =~= texts(words@.subrange(from as int, i as int)));
    }
    push_joined(&mut out, &part, " ");
    out
}

pub open spec fn opens_multiword_spec(w: Seq<char>) -> bool {
    w == "double"@ || w == "character"@ || w == "timestamp"@ || w == "time"@ || w == "bit"@ || w == "interval"@
}

/// Whether a lowercase word opens a type name of several words.
fn opens_multiword_type(w: &Vec<char>) -> (r: bool)
    ensures
        r == opens_multiword_spec(w@),
{
    eq_str(w, "double") || eq_str(w, "character") || eq_str(w, "timestamp") || eq_str(w, "time")
        || eq_str(w, "bit") || eq_str(w, "interval")
}

/// The mode word a parameter opens with, if any.
pub open spec fn mode_spec(w: Seq<char>) -> Option<ParamMode> {
    if w == "in"@ {
        Some(ParamMode::In)
    } else if w == "out"@ {
        Some(ParamMode::Out)
    } else if w == "inout"@ {
        Some(ParamMode::InOut)
    } else if w == "variadic"@ {
        Some(ParamMode::Variadic)
    } else {
        None
    }
}

/// A word that starts a default: `DEFAULT`, or one starting with `=`.
pub open spec fn opens_default(w: Seq<char>) -> bool {
    let l = crate::text::lower_seq(w);
    l == "default"@ || (l.len() > 0 && l[0] == '=')
}

/// The first word at or after `i` that starts a default, or the word count.
pub open spec fn default_at(ws: Seq<Seq<char>>, i: int) -> int
    decreases ws.len() - i,
{
    if i < 0 || i >= ws.len() {
        ws.len() as int
    } else if opens_default(ws[i]) {
        i
    } else {
        default_at(ws, i + 1)
    }
}

/// A parameter, with its texts as sequences.
pub struct ParamView {
    pub name: Option<Seq<char>>,
    pub mode: ParamMode,
    pub param_type: Seq<char>,
    pub has_default: bool,
}

pub open spec fn param_view(p: FunctionParam) -> ParamView {
    ParamView {
        name: match p.name { Some(n) => Some(n@), None => None },
        mode: p.mode,
        param_type: p.param_type@,
        has_default: p.has_default,
    }
}

/// The parameter a text declares: an optional mode word, an optional name,
/// the type up to a default; a type only where one word is left, or where the
/// first word opens a type of several words.
pub open spec fn param_spec(text: Seq<char>) -> Option<ParamView> {
    let ws = words_from(text, 0, Seq::empty());
    if ws.len() == 0 {
        None
    } else {
        let m = mode_spec(crate::text::lower_seq(ws[0]));
        let start: int = if m is Some { 1 } else { 0 };
        let end = default_at(ws, start);
        if end <= start {
            None
        } else {
            let mode = match m { Some(x) => x, None => ParamMode::In };
            let has_default = end < ws.len();
            if end - start == 1 || opens_multiword_spec(crate::text::lower_seq(ws[start])) {
                Some(ParamView { name: None, mode, param_type: join_seq(ws.subrange(start, end), " "@), has_default })
            } else {
                Some(ParamView {
                    name: Some(crate::text::lower_seq(ws[start])),
                    mode,
                    param_type: join_seq(ws.subrange(start + 1, end), " "@),
                    has_default,
                })
            }
        }
    }
}

/// Parses one parameter: `[mode] [name] type [DEFAULT expr | = expr]`.
fn parse_param(text: &Vec<char>) -> (r: Option<FunctionParam>)
    ensures
        r is Some <==> param_spec(text@) is Some,
        r matches Some(p) ==> param_spec(text@) == Some(param_view(p)),
{
    let words = split_words(text);
    let ghost ws = words_from(text@, 0, Seq::empty());
    if words.len() == 0 {
        return None;
    }
    assert(texts(words@)[0] == words@[0]@);
    let first = lower_vec(&words[0]);
    let (mode, start): (ParamMode, usize) = if eq_str(&first, "in") {
        (ParamMode::In, 1)
    } else if eq_str(&first, "out") {
        (ParamMode::Out, 1)
    } else if eq_str(&first, "inout") {
        (ParamMode::InOut, 1)
    } else if eq_str(&first, "variadic") {
        (ParamMode::Variadic, 1)
    } else {
        (ParamMode::In, 0)
    };
    let mut end = start;
    while end < words.len() && !default_word(&words[end])
        invariant
            start <= end <= words@.len(),
            texts(words@) == ws,
            default_at(ws, start as int) == default_at(ws, end as int),
        decreases words@.len() - end,
    {
        assert(texts(words@)[end as int] == words@[end as int]@);
        end = end + 1;
    }
    proof {
        if end < words@.len() {
            assert(texts(words@)[end as int] == words@[end as int]@);
        }
    }
    let has_default = end < words.len();
    if end <= start {
        return None;
    }
    assert(texts(words@)[start as int] == words@[start as int]@);
    let head = lower_vec(&words[start]);
    assert(texts(words@.subrange(start as int, end as int)) =~= ws.subrange(start as int, end as int));
    assert(texts(words@.subrange(start + 1, end as int)) =~= ws.subrange(start + 1, end as int));
    if end - start == 1 || opens_multiword_type(&head) {
        let ty = join_words(&words, start, end);
        Some(FunctionParam { name: None, mode, param_type: string_of(&ty), has_default })
    } else {
        let ty = join_words(&words, start + 1, end);
        Some(FunctionParam { name: Some(string_of(&head)), mode, param_type: string_of(&ty), has_default })
    }
}

fn default_word(w: &Vec<char>) -> (r: bool)
    ensures
        r == opens_default(w@),
{
    let l = lower_vec(w);
    eq_str(&l, "default") || (l.len() > 0 && l[0] == '=')
}

impl FunctionDeployer {
    /// Parses `CREATE [OR REPLACE] FUNCTION name(params) RETURNS type ...`;
    /// `None` where the text does not have that shape (the file is then run
    /// as it is, untracked). The body checksum is that of the whole text.
    pub fn parse_function_signature(&self, sql: &str) -> (r: Option<FunctionSignature>)
        ensures
            r is Some <==> signature_shape(sql@),
            r matches Some(sig) ==> sig.body_checksum@ == checksum_spec(sql@) && Some(sig.name@) == function_name_spec(sql@)
                && params_view(sig.params@) == signature_params(sql@)
                && sig.return_type@ == signature_return(sql@),
    {
        let text = crate::checksum::strip_comments(&chars_of(sql));
        let low = lower_vec(&text);
        let keyword = chars_of("function");
        let f = match find_from(&low, 0, &keyword) {
            Some(f) => f,
            None => return None,
        };
        let total = low.len();
        assert(f + keyword@.len() <= total);
        let mut i = crate::text::skip_space(&low, f + keyword.len());
        let name_start = i;
        while i < low.len() && (is_word_char(low[i]) || low[i] == '.')
            invariant
                name_start <= i <= low@.len(),
                name_end(low@, name_start as int) == name_end(low@, i as int),
            decreases low@.len() - i,
        {
            i = i + 1;
        }
        if i == name_start {
            return None;
        }
        let name = crate::text::slice_chars(&low, name_start, i);
        let k = crate::text::skip_space(&low, i);
        if k >= low.len() || low[k] != '(' {
            return None;
        }
        let mut params: Vec<FunctionParam> = Vec::new();
        let mut cur: Vec<char> = Vec::new();
        let mut depth: usize = 0;
        let mut j = k + 1;
        let mut closed = false;
        let ghost total = params_from(low@, text@, k + 1, 0, Seq::empty());
        while j < text.len() && !closed
            invariant
                k < j <= text@.len(),
                text@.len() == low@.len(),
                depth < j - k,
                closing_from(low@, k + 1, 0) == (if closed { Some(j as int) } else { closing_from(low@, j as int, depth as nat) }),
                closed ==> j < text@.len() && low@[j as int] == ')' && depth == 0,
                closed ==> params_view(params@) + opt_param(param_spec(cur@)) == total,
                !closed ==> params_view(params@) + params_from(low@, text@, j as int, depth as nat, cur@) == total,
            decreases text@.len() - j + (if closed { 0int } else { 1int }),
        {
            let c = text[j];
            let lc = low[j];
            let ghost pv = params_view(params@);
            if lc == '(' {
                depth = depth + 1;
                cur.push(c);
                j = j + 1;
            } else if lc == ')' {
                if depth == 0 {
                    closed = true;
                } else {
                    depth = depth - 1;
                    cur.push(c);
                    j = j + 1;
                }
            } else if lc == ',' && depth == 0 {
                let ghost old_cur = cur@;
                match parse_param(&cur) {
                    Some(p) => {
                        params.push(p);
                        assert(params_view(params@) =~= pv.push(param_view(p)));
                    },
                    None => {},
                }
                assert(params_view(params@) =~= pv + opt_param(param_spec(old_cur)));
                cur = Vec::new();
                j = j + 1;
                assert(pv + (opt_param(param_spec(old_cur)) + params_from(low@, text@, j as int, 0, Seq::empty()))
                    =~= params_view(params@) + params_from(low@, text@, j as int, depth as nat, cur@));
            } else {
                cur.push(c);
                j = j + 1;
            }
        }
        if !closed {
            return None;
        }
        let ghost pv = params_view(params@);
        match parse_param(&cur) {
            Some(p) => {
                params.push(p);
                assert(params_view(params@) =~= pv.push(param_view(p)));
            },
            None => {},
        }
        assert(params_view(params@) =~= pv + opt_param(param_spec(cur@)));
        let mut return_type: Vec<char> = Vec::new();
        if j < low.len() {
            let result_kw = chars_of("returns");
            match find_from(&low, j + 1, &result_kw) {
                Some(rp) => {
                    let total = low.len();
                    assert(rp + result_kw@.len() <= total);
                    let rest = crate::text::slice_chars(&text, rp + result_kw.len(), text.len());
                    let words = split_words(&rest);
                    let mut e: usize = 0;
                    while e < words.len() && !stop_word_exec(&words[e])
                        invariant
                            e <= words@.len(),
                            stop_at(texts(words@), 0) == stop_at(texts(words@), e as int),
                        decreases words@.len() - e,
                    {
                        assert(texts(words@)[e as int] == words@[e as int]@);
                        e = e + 1;
                    }
                    proof {
                        if e < words@.len() {
                            assert(texts(words@)[e as int] == words@[e as int]@);
                        }
                        assert(texts(words@.subrange(0, e as int)) =~= texts(words@).subrange(0, e as int));
                    }
                    return_type = join_words(&words, 0, e);
                },
                None => {},
            }
        }
        assert(return_type@ == return_after(low@, text@, j as int));
        Some(FunctionSignature {
            name: string_of(&name),
            params,
            return_type: string_of(&return_type),
            body_checksum: compute_checksum(sql),
        })
    }
}

/// The types of the visible parameters among parsed ones, in order.
pub open spec fn visible_view_types(vs: Seq<ParamView>) -> Seq<Seq<char>>
    decreases vs.len(),
{
    if vs.len() == 0 {
        Seq::empty()
    } else if vs.last().mode != ParamMode::Out {
        visible_view_types(vs.drop_last()).push(vs.last().param_type)
    } else {
        visible_view_types(vs.drop_last())
    }
}

proof fn lemma_visible_types_view(ps: Seq<FunctionParam>)
    ensures
        visible_types(ps) == visible_view_types(params_view(ps)),
    decreases ps.len(),
{
    if ps.len() > 0 {
        lemma_visible_types_view(ps.drop_last());
        assert(params_view(ps).drop_last() =~= params_view(ps.drop_last()));
    }
}

/// Two definitions of the same function whose parameter lists have the same
/// visible types (they may differ in parameter names, defaults, and the IN,
/// INOUT or VARIADIC marks) are dropped by the same signature.
pub proof fn lemma_drop_signature_of_definitions(a: FunctionSignature, b: FunctionSignature, sql_a: Seq<char>, sql_b: Seq<char>)
    requires
        params_view(a.params@) == signature_params(sql_a),
        params_view(b.params@) == signature_params(sql_b),
        a.name@ == b.name@,
        visible_view_types(signature_params(sql_a)) == visible_view_types(signature_params(sql_b)),
    ensures
        drop_signature_spec(a.name@, a.params@) == drop_signature_spec(b.name@, b.params@),
{
    lemma_visible_types_view(a.params@);
    lemma_visible_types_view(b.params@);
}

} // verus!
