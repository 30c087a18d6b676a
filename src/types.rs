//! The type compatibility matrix: classifies a column type change as
//! identical, safe, data-losing or incompatible.
use vstd::prelude::*;
use crate::text::{
    chars_of, string_of, eq_str, eq_chars, upper_vec, trim_vec, slice_chars, push_all, push_str, push_decimal, parse_digits, upper_seq, trim_seq, is_digit, is_digit_spec, decimal_spec, digits_value, skip_space, skip_space_from,
};

verus! {

/// A column type name as the matrix knows it, after alias normalisation.
#[derive(Debug, Clone, Copy, PartialEq, Eq, Structural)]
pub enum BaseType {
    Smallint,
    Integer,
    Bigint,
    Numeric,
    Real,
    DoublePrecision,
    Char,
    Varchar,
    Text,
    Date,
    Timestamp,
    Timestamptz,
    Time,
    Timetz,
    Boolean,
    Uuid,
    Json,
    Jsonb,
}

/// The outcome of a check, as the contracts see it.
pub enum Compat {
    Identical,
    Safe,
    DataLoss(Seq<char>),
    Incompatible(Seq<char>),
}

/// Result of a type compatibility check.
#[derive(Debug, Clone, PartialEq)]
pub enum TypeCompatibility {
    /// Same type, no change needed.
    Identical,
    /// Safe to change, no data loss.
    Safe,
    /// May cause data loss (truncation, precision loss).
    DataLoss { reason: String },
    /// The types cannot be cast.
    Incompatible { reason: String },
}

impl View for TypeCompatibility {
    type V = Compat;

    open spec fn view(&self) -> Compat {
        match self {
            TypeCompatibility::Identical => Compat::Identical,
            TypeCompatibility::Safe => Compat::Safe,
            TypeCompatibility::DataLoss { reason } => Compat::DataLoss(reason@),
            TypeCompatibility::Incompatible { reason } => Compat::Incompatible(reason@),
        }
    }
}

impl TypeCompatibility {
    pub fn is_safe(&self) -> (r: bool)
        ensures
            r == (self@ is Identical || self@ is Safe),
    {
        match self {
            TypeCompatibility::Identical => true,
            TypeCompatibility::Safe => true,
            _ => false,
        }
    }
}

/// Alias folding on an uppercased base name: each alias, and each serial
/// type, stands for the type it names.
pub open spec fn canonical_base(b: Seq<char>) -> Seq<char> {
    if b == "INT4"@ {
        "INTEGER"@
    } else if b == "INT"@ {
        "INTEGER"@
    } else if b == "INT8"@ {
        "BIGINT"@
    } else if b == "INT2"@ {
        "SMALLINT"@
    } else if b == "SERIAL"@ {
        "INTEGER"@
    } else if b == "SERIAL4"@ {
        "INTEGER"@
    } else if b == "BIGSERIAL"@ {
        "BIGINT"@
    } else if b == "SERIAL8"@ {
        "BIGINT"@
    } else if b == "SMALLSERIAL"@ {
        "SMALLINT"@
    } else if b == "SERIAL2"@ {
        "SMALLINT"@
    } else if b == "DECIMAL"@ {
        "NUMERIC"@
    } else if b == "FLOAT4"@ {
        "REAL"@
    } else if b == "FLOAT8"@ {
        "DOUBLE PRECISION"@
    } else if b == "BOOL"@ {
        "BOOLEAN"@
    } else if b == "CHARACTER"@ {
        "CHAR"@
    } else if b == "CHARACTER VARYING"@ {
        "VARCHAR"@
    } else if b == "TIMESTAMP WITHOUT TIME ZONE"@ {
        "TIMESTAMP"@
    } else if b == "TIMESTAMP WITH TIME ZONE"@ {
        "TIMESTAMPTZ"@
    } else if b == "TIME WITHOUT TIME ZONE"@ {
        "TIME"@
    } else if b == "TIME WITH TIME ZONE"@ {
        "TIMETZ"@
    } else {
        b
    }
}

fn canonical_base_exec(b: &Vec<char>) -> (r: Vec<char>)
    ensures
        r@ == canonical_base(b@),
{
    if eq_str(b, "INT4") {
        chars_of("INTEGER")
    } else if eq_str(b, "INT") {
        chars_of("INTEGER")
    } else if eq_str(b, "INT8") {
        chars_of("BIGINT")
    } else if eq_str(b, "INT2") {
        chars_of("SMALLINT")
    } else if eq_str(b, "SERIAL") {
        chars_of("INTEGER")
    } else if eq_str(b, "SERIAL4") {
        chars_of("INTEGER")
    } else if eq_str(b, "BIGSERIAL") {
        chars_of("BIGINT")
    } else if eq_str(b, "SERIAL8") {
        chars_of("BIGINT")
    } else if eq_str(b, "SMALLSERIAL") {
        chars_of("SMALLINT")
    } else if eq_str(b, "SERIAL2") {
        chars_of("SMALLINT")
    } else if eq_str(b, "DECIMAL") {
        chars_of("NUMERIC")
    } else if eq_str(b, "FLOAT4") {
        chars_of("REAL")
    } else if eq_str(b, "FLOAT8") {
        chars_of("DOUBLE PRECISION")
    } else if eq_str(b, "BOOL") {
        chars_of("BOOLEAN")
    } else if eq_str(b, "CHARACTER") {
        chars_of("CHAR")
    } else if eq_str(b, "CHARACTER VARYING") {
        chars_of("VARCHAR")
    } else if eq_str(b, "TIMESTAMP WITHOUT TIME ZONE") {
        chars_of("TIMESTAMP")
    } else if eq_str(b, "TIMESTAMP WITH TIME ZONE") {
        chars_of("TIMESTAMPTZ")
    } else if eq_str(b, "TIME WITHOUT TIME ZONE") {
        chars_of("TIME")
    } else if eq_str(b, "TIME WITH TIME ZONE") {
        chars_of("TIMETZ")
    } else {
        crate::text::copy_chars(b)
    }
}

/// Index of the first `(` at or after `i`, or the length.
pub open spec fn paren_from(s: Seq<char>, i: int) -> int
    decreases s.len() - i,
{
    if i < 0 || i >= s.len() {
        s.len() as int
    } else if s[i] == '(' {
        i
    } else {
        paren_from(s, i + 1)
    }
}

/// A type name split at its first `(`: the uppercased, trimmed, alias-folded
/// base name, and the parameter text from the `(` on.
pub struct TypeParts {
    pub base: Seq<char>,
    pub params: Seq<char>,
}

pub open spec fn type_parts(t: Seq<char>) -> TypeParts {
    let u = upper_seq(trim_seq(t));
    let p = paren_from(u, 0);
    TypeParts {
        base: canonical_base(trim_seq(u.subrange(0, p))),
        params: u.subrange(p, u.len() as int),
    }
}

/// The normalised spelling of a type: folded base name followed by its parameters.
pub open spec fn normalize_type_spec(t: Seq<char>) -> Seq<char> {
    type_parts(t).base + type_parts(t).params
}

/// Splits a type name into its folded base name and its parameter text.
fn split_type(t: &Vec<char>) -> (r: (Vec<char>, Vec<char>))
    ensures
        r.0@ == type_parts(t@).base,
        r.1@ == type_parts(t@).params,
{
    let u = upper_vec(&trim_vec(t));
    let mut p: usize = 0;
    while p < u.len() && u[p] != '('
        invariant
            p <= u@.len(),
            paren_from(u@, 0) == paren_from(u@, p as int),
        decreases u@.len() - p,
    {
        p = p + 1;
    }
    let base = canonical_base_exec(&trim_vec(&slice_chars(&u, 0, p)));
    let params = slice_chars(&u, p, u.len());
    (base, params)
}

/// Normalises a type name: trims it, uppercases it, folds aliases of its base name.
pub fn normalize_type(t: &str) -> (r: String)
    ensures
        r@ == normalize_type_spec(t@),
{
    let (mut base, params) = split_type(&chars_of(t));
    push_all(&mut base, &params);
    string_of(&base)
}

/// The known type that a folded base name denotes.
pub open spec fn base_kind(b: Seq<char>) -> Option<BaseType> {
    if b == "SMALLINT"@ {
        Some(BaseType::Smallint)
    } else if b == "INTEGER"@ {
        Some(BaseType::Integer)
    } else if b == "BIGINT"@ {
        Some(BaseType::Bigint)
    } else if b == "NUMERIC"@ {
        Some(BaseType::Numeric)
    } else if b == "REAL"@ {
        Some(BaseType::Real)
    } else if b == "DOUBLE PRECISION"@ {
        Some(BaseType::DoublePrecision)
    } else if b == "CHAR"@ {
        Some(BaseType::Char)
    } else if b == "VARCHAR"@ {
        Some(BaseType::Varchar)
    } else if b == "TEXT"@ {
        Some(BaseType::Text)
    } else if b == "DATE"@ {
        Some(BaseType::Date)
    } else if b == "TIMESTAMP"@ {
        Some(BaseType::Timestamp)
    } else if b == "TIMESTAMPTZ"@ {
        Some(BaseType::Timestamptz)
    } else if b == "TIME"@ {
        Some(BaseType::Time)
    } else if b == "TIMETZ"@ {
        Some(BaseType::Timetz)
    } else if b == "BOOLEAN"@ {
        Some(BaseType::Boolean)
    } else if b == "UUID"@ {
        Some(BaseType::Uuid)
    } else if b == "JSON"@ {
        Some(BaseType::Json)
    } else if b == "JSONB"@ {
        Some(BaseType::Jsonb)
    } else {
        None
    }
}

fn base_kind_exec(b: &Vec<char>) -> (r: Option<BaseType>)
    ensures
        r == base_kind(b@),
{
    if eq_str(b, "SMALLINT") {
        Some(BaseType::Smallint)
    } else if eq_str(b, "INTEGER") {
        Some(BaseType::Integer)
    } else if eq_str(b, "BIGINT") {
        Some(BaseType::Bigint)
    } else if eq_str(b, "NUMERIC") {
        Some(BaseType::Numeric)
    } else if eq_str(b, "REAL") {
        Some(BaseType::Real)
    } else if eq_str(b, "DOUBLE PRECISION") {
        Some(BaseType::DoublePrecision)
    } else if eq_str(b, "CHAR") {
        Some(BaseType::Char)
    } else if eq_str(b, "VARCHAR") {
        Some(BaseType::Varchar)
    } else if eq_str(b, "TEXT") {
        Some(BaseType::Text)
    } else if eq_str(b, "DATE") {
        Some(BaseType::Date)
    } else if eq_str(b, "TIMESTAMP") {
        Some(BaseType::Timestamp)
    } else if eq_str(b, "TIMESTAMPTZ") {
        Some(BaseType::Timestamptz)
    } else if eq_str(b, "TIME") {
        Some(BaseType::Time)
    } else if eq_str(b, "TIMETZ") {
        Some(BaseType::Timetz)
    } else if eq_str(b, "BOOLEAN") {
        Some(BaseType::Boolean)
    } else if eq_str(b, "UUID") {
        Some(BaseType::Uuid)
    } else if eq_str(b, "JSON") {
        Some(BaseType::Json)
    } else if eq_str(b, "JSONB") {
        Some(BaseType::Jsonb)
    } else {
        None
    }
}

/// Whether changing a column from `a` to `b` is a widening that keeps every
/// value; the relation is transitive, and never holds both ways.
pub open spec fn widens(a: BaseType, b: BaseType) -> bool {
    match a {
        BaseType::Boolean => matches!(b, BaseType::Smallint | BaseType::Integer | BaseType::Bigint | BaseType::Numeric | BaseType::Real | BaseType::DoublePrecision),
        BaseType::Smallint => matches!(b, BaseType::Integer | BaseType::Bigint | BaseType::Numeric | BaseType::Real | BaseType::DoublePrecision),
        BaseType::Integer => matches!(b, BaseType::Bigint | BaseType::Numeric | BaseType::DoublePrecision),
        BaseType::Bigint => matches!(b, BaseType::Numeric),
        BaseType::Real => matches!(b, BaseType::DoublePrecision | BaseType::Numeric),
        BaseType::DoublePrecision => matches!(b, BaseType::Numeric),
        BaseType::Char => matches!(b, BaseType::Varchar | BaseType::Text),
        BaseType::Varchar => matches!(b, BaseType::Text),
        BaseType::Uuid => matches!(b, BaseType::Char | BaseType::Varchar | BaseType::Text),
        BaseType::Json => matches!(b, BaseType::Jsonb | BaseType::Text),
        BaseType::Jsonb => matches!(b, BaseType::Text),
        BaseType::Date => matches!(b, BaseType::Timestamp | BaseType::Timestamptz),
        BaseType::Timestamp => matches!(b, BaseType::Timestamptz),
        BaseType::Time => matches!(b, BaseType::Timetz),
        _ => false,
    }
}

fn widens_exec(a: BaseType, b: BaseType) -> (r: bool)
    ensures
        r == widens(a, b),
{
    match a {
        BaseType::Boolean => matches!(b, BaseType::Smallint | BaseType::Integer | BaseType::Bigint | BaseType::Numeric | BaseType::Real | BaseType::DoublePrecision),
        BaseType::Smallint => matches!(b, BaseType::Integer | BaseType::Bigint | BaseType::Numeric | BaseType::Real | BaseType::DoublePrecision),
        BaseType::Integer => matches!(b, BaseType::Bigint | BaseType::Numeric | BaseType::DoublePrecision),
        BaseType::Bigint => matches!(b, BaseType::Numeric),
        BaseType::Real => matches!(b, BaseType::DoublePrecision | BaseType::Numeric),
        BaseType::DoublePrecision => matches!(b, BaseType::Numeric),
        BaseType::Char => matches!(b, BaseType::Varchar | BaseType::Text),
        BaseType::Varchar => matches!(b, BaseType::Text),
        BaseType::Uuid => matches!(b, BaseType::Char | BaseType::Varchar | BaseType::Text),
        BaseType::Json => matches!(b, BaseType::Jsonb | BaseType::Text),
        BaseType::Jsonb => matches!(b, BaseType::Text),
        BaseType::Date => matches!(b, BaseType::Timestamp | BaseType::Timestamptz),
        BaseType::Timestamp => matches!(b, BaseType::Timestamptz),
        BaseType::Time => matches!(b, BaseType::Timetz),
        _ => false,
    }
}

/// The known narrowings that lose data, with the reason given for each; each
/// is the reverse of a widening.
pub open spec fn narrowing_reason(a: BaseType, b: BaseType) -> Option<Seq<char>> {
    match (a, b) {
        (BaseType::Bigint, BaseType::Integer) => Some("May overflow: BIGINT max 9.2e18, INTEGER max 2.1e9"@),
        (BaseType::Bigint, BaseType::Smallint) => Some("May overflow: BIGINT max 9.2e18, SMALLINT max 32767"@),
        (BaseType::Integer, BaseType::Smallint) => Some("May overflow: INTEGER max 2.1e9, SMALLINT max 32767"@),
        (BaseType::Text, BaseType::Varchar) => Some("May truncate: TEXT has no limit, VARCHAR has limit"@),
        (BaseType::Text, BaseType::Char) => Some("May truncate: TEXT has no limit, CHAR is fixed length"@),
        (BaseType::DoublePrecision, BaseType::Real) => Some("May lose precision: DOUBLE has 15 digits, REAL has 6"@),
        (BaseType::Numeric, BaseType::Real) => Some("May lose precision: NUMERIC is exact, REAL is approximate"@),
        (BaseType::Numeric, BaseType::DoublePrecision) => Some("May lose precision: NUMERIC is exact, DOUBLE is approximate"@),
        (BaseType::Timestamp, BaseType::Date) => Some("Loses time component"@),
        (BaseType::Timestamptz, BaseType::Date) => Some("Loses time and timezone"@),
        (BaseType::Integer, BaseType::Boolean) => Some("Only 0 and 1 map to FALSE/TRUE, other values become TRUE"@),
        (BaseType::Text, BaseType::Uuid) => Some("May fail: TEXT must contain valid UUID format"@),
        (BaseType::Varchar, BaseType::Uuid) => Some("May fail: VARCHAR must contain valid UUID format"@),
        (BaseType::Text, BaseType::Json) => Some("May fail: TEXT must contain valid JSON"@),
        (BaseType::Text, BaseType::Jsonb) => Some("May fail: TEXT must contain valid JSON"@),
        _ => None,
    }
}

fn narrowing_reason_exec(a: BaseType, b: BaseType) -> (r: Option<&'static str>)
    ensures
        r is Some <==> narrowing_reason(a, b) is Some,
        r matches Some(s) ==> narrowing_reason(a, b) == Some(s@),
{
    match (a, b) {
        (BaseType::Bigint, BaseType::Integer) => Some("May overflow: BIGINT max 9.2e18, INTEGER max 2.1e9"),
        (BaseType::Bigint, BaseType::Smallint) => Some("May overflow: BIGINT max 9.2e18, SMALLINT max 32767"),
        (BaseType::Integer, BaseType::Smallint) => Some("May overflow: INTEGER max 2.1e9, SMALLINT max 32767"),
        (BaseType::Text, BaseType::Varchar) => Some("May truncate: TEXT has no limit, VARCHAR has limit"),
        (BaseType::Text, BaseType::Char) => Some("May truncate: TEXT has no limit, CHAR is fixed length"),
        (BaseType::DoublePrecision, BaseType::Real) => Some("May lose precision: DOUBLE has 15 digits, REAL has 6"),
        (BaseType::Numeric, BaseType::Real) => Some("May lose precision: NUMERIC is exact, REAL is approximate"),
        (BaseType::Numeric, BaseType::DoublePrecision) => Some("May lose precision: NUMERIC is exact, DOUBLE is approximate"),
        (BaseType::Timestamp, BaseType::Date) => Some("Loses time component"),
        (BaseType::Timestamptz, BaseType::Date) => Some("Loses time and timezone"),
        (BaseType::Integer, BaseType::Boolean) => Some("Only 0 and 1 map to FALSE/TRUE, other values become TRUE"),
        (BaseType::Text, BaseType::Uuid) => Some("May fail: TEXT must contain valid UUID format"),
        (BaseType::Varchar, BaseType::Uuid) => Some("May fail: VARCHAR must contain valid UUID format"),
        (BaseType::Text, BaseType::Json) => Some("May fail: TEXT must contain valid JSON"),
        (BaseType::Text, BaseType::Jsonb) => Some("May fail: TEXT must contain valid JSON"),
        _ => None,
    }
}

/// End of the run of digits that starts at `i`.
pub open spec fn digits_end(s: Seq<char>, i: int) -> int
    decreases s.len() - i,
{
    if i < 0 || i >= s.len() {
        s.len() as int
    } else if is_digit_spec(s[i]) {
        digits_end(s, i + 1)
    } else {
        i
    }
}

proof fn lemma_digits_end(s: Seq<char>, i: int)
    requires
        0 <= i <= s.len(),
    ensures
        i <= digits_end(s, i) <= s.len(),
        digits_end(s, i) < s.len() ==> !is_digit_spec(s[digits_end(s, i)]),
        forall|k: int| i <= k < digits_end(s, i) ==> is_digit_spec(#[trigger] s[k]),
    decreases s.len() - i,
{
    if i < s.len() && is_digit_spec(s[i]) {
        lemma_digits_end(s, i + 1);
    }
}

fn digits_end_exec(s: &Vec<char>, i: usize) -> (r: usize)
    requires
        i <= s@.len(),
    ensures
        r == digits_end(s@, i as int),
        i <= r <= s@.len(),
        crate::text::all_digits(s@.subrange(i as int, r as int)),
{
    let mut k = i;
    while k < s.len() && is_digit(s[k])
        invariant
            i <= k <= s@.len(),
            digits_end(s@, i as int) == digits_end(s@, k as int),
        decreases s@.len() - k,
    {
        k = k + 1;
    }
    proof {
        lemma_digits_end(s@, i as int);
    }
    k
}

/// The value of the digits `s[i..j]` where it fits in a `u64`.
pub open spec fn fitting_value(s: Seq<char>, i: int, j: int) -> Option<nat> {
    if digits_value(s.subrange(i, j)) <= u64::MAX {
        Some(digits_value(s.subrange(i, j)))
    } else {
        None
    }
}

/// The length in a parameter text `(n)…`; `None` where there is none or it
/// does not fit in a `u64`.
pub open spec fn length_param(p: Seq<char>) -> Option<nat> {
    let e = digits_end(p, 1);
    if p.len() >= 3 && p[0] == '(' && e > 1 && e < p.len() && p[e] == ')' {
        fitting_value(p, 1, e)
    } else {
        None
    }
}

fn length_param_exec(p: &Vec<char>) -> (r: Option<u64>)
    ensures
        r matches Some(v) ==> length_param(p@) == Some(v as nat),
        r is None ==> length_param(p@) is None,
{
    if p.len() < 3 || p[0] != '(' {
        return None;
    }
    let e = digits_end_exec(p, 1);
    if e > 1 && e < p.len() && p[e] == ')' {
        parse_digits(p, 1, e)
    } else {
        None
    }
}

/// Precision and scale in a parameter text `(p)…` or `(p, s)…`; a part that
/// does not fit in a `u64` reads as 0, a missing scale as 0.
pub open spec fn precision_scale(p: Seq<char>) -> Option<(nat, nat)> {
    let e = digits_end(p, 1);
    if p.len() >= 3 && p[0] == '(' && e > 1 && e < p.len() {
        let prec = match fitting_value(p, 1, e) {
            Some(v) => v,
            None => 0,
        };
        if p[e] == ')' {
            Some((prec, 0))
        } else if p[e] == ',' {
            let j = skip_space_from(p, e + 1);
            let f = digits_end(p, j);
            if f > j && f < p.len() && p[f] == ')' {
                Some(
                    (
                        prec,
                        match fitting_value(p, j, f) {
                            Some(v) => v,
                            None => 0,
                        },
                    ),
                )
            } else {
                None
            }
        } else {
            None
        }
    } else {
        None
    }
}

fn precision_scale_exec(p: &Vec<char>) -> (r: Option<(u64, u64)>)
    ensures
        r matches Some((a, b)) ==> precision_scale(p@) == Some((a as nat, b as nat)),
        r is None ==> precision_scale(p@) is None,
{
    if p.len() < 3 || p[0] != '(' {
        return None;
    }
    let e = digits_end_exec(p, 1);
    if !(e > 1 && e < p.len()) {
        return None;
    }
    let prec = match parse_digits(p, 1, e) {
        Some(v) => v,
        None => 0,
    };
    if p[e] == ')' {
        Some((prec, 0))
    } else if p[e] == ',' {
        let j = skip_space(p, e + 1);
        let f = digits_end_exec(p, j);
        if f > j && f < p.len() && p[f] == ')' {
            let scale = match parse_digits(p, j, f) {
                Some(v) => v,
                None => 0,
            };
            Some((prec, scale))
        } else {
            None
        }
    } else {
        None
    }
}

pub open spec fn is_string_base(b: Option<BaseType>) -> bool {
    b == Some(BaseType::Varchar) || b == Some(BaseType::Char)
}

pub open spec fn is_numeric_base(b: Option<BaseType>) -> bool {
    b == Some(BaseType::Numeric)
}

/// The length a character type holds: its parameter, 1 for a bare CHAR, and
/// no limit (`None`) for a bare VARCHAR.
pub open spec fn effective_length(k: Option<BaseType>, p: Option<nat>) -> Option<nat> {
    match p {
        Some(n) => Some(n),
        None => if k == Some(BaseType::Char) { Some(1) } else { None },
    }
}

pub open spec fn truncate_reason(a: nat, b: nat) -> Seq<char> {
    "May truncate: reducing from "@ + decimal_spec(a) + " to "@ + decimal_spec(b) + " characters"@
}

pub open spec fn precision_reason(p: (nat, nat), q: (nat, nat)) -> Seq<char> {
    "May lose precision: NUMERIC("@ + decimal_spec(p.0) + ","@ + decimal_spec(p.1)
        + ") to NUMERIC("@ + decimal_spec(q.0) + ","@ + decimal_spec(q.1) + ")"@
}

/// The length rule for character types, where it decides: a longer (or
/// unlimited) target is safe, a shorter one loses data; equal lengths leave
/// the decision to the tables, unless the base types agree.
pub open spec fn length_rule(f: TypeParts, t: TypeParts) -> Option<Compat> {
    let fk = base_kind(f.base);
    let tk = base_kind(t.base);
    if !is_string_base(fk) || !is_string_base(tk) {
        None
    } else {
        match (effective_length(fk, length_param(f.params)), effective_length(tk, length_param(t.params))) {
            (Some(a), Some(b)) => if b > a {
                Some(Compat::Safe)
            } else if b < a {
                Some(Compat::DataLoss(truncate_reason(a, b)))
            } else if fk == tk {
                Some(Compat::Identical)
            } else {
                None
            },
            (Some(_), None) => Some(Compat::Safe),
            (None, Some(_)) => Some(Compat::DataLoss("May truncate: adding length limit"@)),
            (None, None) => Some(Compat::Identical),
        }
    }
}

/// The precision rule for NUMERIC, where it decides.
pub open spec fn precision_rule(f: TypeParts, t: TypeParts) -> Option<Compat> {
    if !is_numeric_base(base_kind(f.base)) || !is_numeric_base(base_kind(t.base)) {
        None
    } else {
        match (precision_scale(f.params), precision_scale(t.params)) {
            (Some(p), Some(q)) => if q == p {
                Some(Compat::Identical)
            } else if q.0 >= p.0 && q.1 >= p.1 {
                Some(Compat::Safe)
            } else {
                Some(Compat::DataLoss(precision_reason(p, q)))
            },
            (Some(_), None) => Some(Compat::Safe),
            (None, Some(_)) => Some(Compat::DataLoss("May lose precision: adding precision limit"@)),
            (None, None) => Some(Compat::Identical),
        }
    }
}

pub open spec fn narrowing_fallback_reason(from: Seq<char>, to: Seq<char>) -> Seq<char> {
    "Narrowing from "@ + from + " to "@ + to + " may lose data"@
}

pub open spec fn unknown_change_reason(from: Seq<char>, to: Seq<char>) -> Seq<char> {
    "Unknown type change: "@ + from + " -> "@ + to
        + ". Add to compatibility matrix if this should be allowed."@
}

/// The widening and narrowing tables, consulted by base name.
pub open spec fn table_rule(fk: Option<BaseType>, tk: Option<BaseType>, from: Seq<char>, to: Seq<char>) -> Compat {
    match (fk, tk) {
        (Some(a), Some(b)) => if widens(a, b) {
            Compat::Safe
        } else if narrowing_reason(a, b) is Some {
            Compat::DataLoss(narrowing_reason(a, b)->0)
        } else if widens(b, a) {
            Compat::DataLoss(narrowing_fallback_reason(from, to))
        } else {
            Compat::Incompatible(unknown_change_reason(from, to))
        },
        _ => Compat::Incompatible(unknown_change_reason(from, to)),
    }
}

/// How a change of a column's type from `from` to `to` is classified.
pub open spec fn check_spec(from: Seq<char>, to: Seq<char>) -> Compat {
    let f = type_parts(from);
    let t = type_parts(to);
    if normalize_type_spec(from) == normalize_type_spec(to) {
        Compat::Identical
    } else if length_rule(f, t) is Some {
        length_rule(f, t)->0
    } else if precision_rule(f, t) is Some {
        precision_rule(f, t)->0
    } else {
        table_rule(base_kind(f.base), base_kind(t.base), from, to)
    }
}

/// Classifies column type changes through the compatibility matrix.
pub struct TypeChecker;

impl TypeChecker {
    pub fn new() -> (r: Self) {
        TypeChecker
    }

    fn length_change(
        &self,
        fk: Option<BaseType>,
        tk: Option<BaseType>,
        fp: &Vec<char>,
        tp: &Vec<char>,
        Ghost(f): Ghost<TypeParts>,
        Ghost(t): Ghost<TypeParts>,
    ) -> (r: Option<TypeCompatibility>)
        requires
            fk == base_kind(f.base),
            tk == base_kind(t.base),
            fp@ == f.params,
            tp@ == t.params,
        ensures
            r is Some <==> length_rule(f, t) is Some,
            r matches Some(c) ==> length_rule(f, t) == Some(c@),
    {
        let is_string = |k: Option<BaseType>| -> (b: bool)
            ensures
                b == is_string_base(k),
            {
                matches!(k, Some(BaseType::Varchar) | Some(BaseType::Char))
            };
        if !is_string(fk) || !is_string(tk) {
            return None;
        }
        let same = match (fk, tk) {
            (Some(BaseType::Char), Some(BaseType::Char)) => true,
            (Some(BaseType::Varchar), Some(BaseType::Varchar)) => true,
            _ => false,
        };
        let from_len = match length_param_exec(fp) {
            Some(n) => Some(n),
            None => if matches!(fk, Some(BaseType::Char)) { Some(1u64) } else { None },
        };
        let to_len = match length_param_exec(tp) {
            Some(n) => Some(n),
            None => if matches!(tk, Some(BaseType::Char)) { Some(1u64) } else { None },
        };
        match (from_len, to_len) {
            (Some(a), Some(b)) => {
                if b > a {
                    Some(TypeCompatibility::Safe)
                } else if b == a {
                    if same {
                        Some(TypeCompatibility::Identical)
                    } else {
                        None
                    }
                } else {
                    let mut m: Vec<char> = Vec::new();
                    push_str(&mut m, "May truncate: reducing from ");
                    push_decimal(&mut m, a);
                    push_str(&mut m, " to ");
                    push_decimal(&mut m, b);
                    push_str(&mut m, " characters");
                    Some(TypeCompatibility::DataLoss { reason: string_of(&m) })
                }
            },
            (Some(_), None) => Some(TypeCompatibility::Safe),
            (None, Some(_)) => Some(
                TypeCompatibility::DataLoss {
                    reason: string_of(&chars_of("May truncate: adding length limit")),
                },
            ),
            (None, None) => Some(TypeCompatibility::Identical),
        }
    }

    fn precision_change(
        &self,
        fk: Option<BaseType>,
        tk: Option<BaseType>,
        fp: &Vec<char>,
        tp: &Vec<char>,
        Ghost(f): Ghost<TypeParts>,
        Ghost(t): Ghost<TypeParts>,
    ) -> (r: Option<TypeCompatibility>)
        requires
            fk == base_kind(f.base),
            tk == base_kind(t.base),
            fp@ == f.params,
            tp@ == t.params,
        ensures
            r is Some <==> precision_rule(f, t) is Some,
            r matches Some(c) ==> precision_rule(f, t) == Some(c@),
    {
        let is_numeric = |k: Option<BaseType>| -> (b: bool)
            ensures
                b == is_numeric_base(k),
            { matches!(k, Some(BaseType::Numeric)) };
        if !is_numeric(fk) || !is_numeric(tk) {
            return None;
        }
        match (precision_scale_exec(fp), precision_scale_exec(tp)) {
            (Some((p, s)), Some((q, u))) => {
                if q == p && u == s {
                    Some(TypeCompatibility::Identical)
                } else if q >= p && u >= s {
                    Some(TypeCompatibility::Safe)
                } else {
                    let mut m: Vec<char> = Vec::new();
                    push_str(&mut m, "May lose precision: NUMERIC(");
                    push_decimal(&mut m, p);
                    push_str(&mut m, ",");
                    push_decimal(&mut m, s);
                    push_str(&mut m, ") to NUMERIC(");
                    push_decimal(&mut m, q);
                    push_str(&mut m, ",");
                    push_decimal(&mut m, u);
                    push_str(&mut m, ")");
                    Some(TypeCompatibility::DataLoss { reason: string_of(&m) })
                }
            },
            (Some(_), None) => Some(TypeCompatibility::Safe),
            (None, Some(_)) => Some(
                TypeCompatibility::DataLoss {
                    reason: string_of(&chars_of("May lose precision: adding precision limit")),
                },
            ),
            (None, None) => Some(TypeCompatibility::Identical),
        }
    }

    /// Classifies a change of a column's type from `from_type` to `to_type`.
    pub fn check_compatibility(&self, from_type: &str, to_type: &str) -> (r: TypeCompatibility)
        ensures
            r@ == check_spec(from_type@, to_type@),
    {
        let ghost f = type_parts(from_type@);
        let ghost t = type_parts(to_type@);
        let (fb, fp) = split_type(&chars_of(from_type));
        let (tb, tp) = split_type(&chars_of(to_type));
        let mut fnorm = copy_of(&fb);
        push_all(&mut fnorm, &fp);
        let mut tnorm = copy_of(&tb);
        push_all(&mut tnorm, &tp);
        if eq_chars(&fnorm, &tnorm) {
            return TypeCompatibility::Identical;
        }
        let fk = base_kind_exec(&fb);
        let tk = base_kind_exec(&tb);
        if let Some(c) = self.length_change(fk, tk, &fp, &tp, Ghost(f), Ghost(t)) {
            return c;
        }
        if let Some(c) = self.precision_change(fk, tk, &fp, &tp, Ghost(f), Ghost(t)) {
            return c;
        }
        match (fk, tk) {
            (Some(a), Some(b)) => {
                if widens_exec(a, b) {
                    return TypeCompatibility::Safe;
                }
                if let Some(reason) = narrowing_reason_exec(a, b) {
                    return TypeCompatibility::DataLoss { reason: string_of(&chars_of(reason)) };
                }
                if widens_exec(b, a) {
                    let mut m: Vec<char> = Vec::new();
                    push_str(&mut m, "Narrowing from ");
                    push_str(&mut m, from_type);
                    push_str(&mut m, " to ");
                    push_str(&mut m, to_type);
                    push_str(&mut m, " may lose data");
                    return TypeCompatibility::DataLoss { reason: string_of(&m) };
                }
            },
            _ => {},
        }
        let mut m: Vec<char> = Vec::new();
        push_str(&mut m, "Unknown type change: ");
        push_str(&mut m, from_type);
        push_str(&mut m, " -> ");
        push_str(&mut m, to_type);
        push_str(&mut m, ". Add to compatibility matrix if this should be allowed.");
        TypeCompatibility::Incompatible { reason: string_of(&m) }
    }
}

/// The spelling of a base type.
pub open spec fn base_name(b: BaseType) -> Seq<char> {
    match b {
        BaseType::Smallint => "SMALLINT"@,
        BaseType::Integer => "INTEGER"@,
        BaseType::Bigint => "BIGINT"@,
        BaseType::Numeric => "NUMERIC"@,
        BaseType::Real => "REAL"@,
        BaseType::DoublePrecision => "DOUBLE PRECISION"@,
        BaseType::Char => "CHAR"@,
        BaseType::Varchar => "VARCHAR"@,
        BaseType::Text => "TEXT"@,
        BaseType::Date => "DATE"@,
        BaseType::Timestamp => "TIMESTAMP"@,
        BaseType::Timestamptz => "TIMESTAMPTZ"@,
        BaseType::Time => "TIME"@,
        BaseType::Timetz => "TIMETZ"@,
        BaseType::Boolean => "BOOLEAN"@,
        BaseType::Uuid => "UUID"@,
        BaseType::Json => "JSON"@,
        BaseType::Jsonb => "JSONB"@,
    }
}

fn base_name_exec(b: BaseType) -> (r: &'static str)
    ensures
        r@ == base_name(b),
{
    match b {
        BaseType::Smallint => "SMALLINT",
        BaseType::Integer => "INTEGER",
        BaseType::Bigint => "BIGINT",
        BaseType::Numeric => "NUMERIC",
        BaseType::Real => "REAL",
        BaseType::DoublePrecision => "DOUBLE PRECISION",
        BaseType::Char => "CHAR",
        BaseType::Varchar => "VARCHAR",
        BaseType::Text => "TEXT",
        BaseType::Date => "DATE",
        BaseType::Timestamp => "TIMESTAMP",
        BaseType::Timestamptz => "TIMESTAMPTZ",
        BaseType::Time => "TIME",
        BaseType::Timetz => "TIMETZ",
        BaseType::Boolean => "BOOLEAN",
        BaseType::Uuid => "UUID",
        BaseType::Json => "JSON",
        BaseType::Jsonb => "JSONB",
    }
}

/// Every base type, in the lexical order of its spelling.
pub open spec fn bases_by_name() -> Seq<BaseType> {
    seq![BaseType::Bigint, BaseType::Boolean, BaseType::Char, BaseType::Date, BaseType::DoublePrecision, BaseType::Integer, BaseType::Json, BaseType::Jsonb, BaseType::Numeric, BaseType::Real, BaseType::Smallint, BaseType::Text, BaseType::Time, BaseType::Timestamp, BaseType::Timestamptz, BaseType::Timetz, BaseType::Uuid, BaseType::Varchar]
}

fn base_at(i: usize) -> (r: BaseType)
    requires
        i < 18,
    ensures
        r == bases_by_name()[i as int],
{
    match i {
        0 => BaseType::Bigint,
        1 => BaseType::Boolean,
        2 => BaseType::Char,
        3 => BaseType::Date,
        4 => BaseType::DoublePrecision,
        5 => BaseType::Integer,
        6 => BaseType::Json,
        7 => BaseType::Jsonb,
        8 => BaseType::Numeric,
        9 => BaseType::Real,
        10 => BaseType::Smallint,
        11 => BaseType::Text,
        12 => BaseType::Time,
        13 => BaseType::Timestamp,
        14 => BaseType::Timestamptz,
        15 => BaseType::Timetz,
        16 => BaseType::Uuid,
        17 => BaseType::Varchar,
        _ => BaseType::Varchar,
    }
}

/// The names of the types among `bases_by_name()[0..k]` that `a` widens to.
pub open spec fn widening_targets(a: BaseType, k: int) -> Seq<Seq<char>>
    decreases k,
{
    if k <= 0 {
        Seq::empty()
    } else if widens(a, bases_by_name()[k - 1]) {
        widening_targets(a, k - 1).push(base_name(bases_by_name()[k - 1]))
    } else {
        widening_targets(a, k - 1)
    }
}

/// The widening lines of the matrix for `bases_by_name()[0..k]`.
pub open spec fn widening_lines(k: int) -> Seq<char>
    decreases k,
{
    if k <= 0 {
        Seq::empty()
    } else {
        let a = bases_by_name()[k - 1];
        let ts = widening_targets(a, 18);
        widening_lines(k - 1) + if ts.len() > 0 {
            "  "@ + base_name(a) + " → "@ + crate::text::join_seq(ts, ", "@) + "\n"@
        } else {
            Seq::empty()
        }
    }
}

/// The narrowing lines of `a` towards `bases_by_name()[0..k]`.
pub open spec fn narrowing_lines_of(a: BaseType, k: int) -> Seq<char>
    decreases k,
{
    if k <= 0 {
        Seq::empty()
    } else {
        let b = bases_by_name()[k - 1];
        narrowing_lines_of(a, k - 1) + match narrowing_reason(a, b) {
            Some(r) => "  "@ + base_name(a) + " → "@ + base_name(b) + "\n    Reason: "@ + r + "\n"@,
            None => Seq::empty(),
        }
    }
}

pub open spec fn narrowing_lines(k: int) -> Seq<char>
    decreases k,
{
    if k <= 0 {
        Seq::empty()
    } else {
        narrowing_lines(k - 1) + narrowing_lines_of(bases_by_name()[k - 1], 18)
    }
}

pub open spec fn matrix_rule() -> Seq<char> {
    "═══════════════════════════════════════════════════════════════\n"@
}

pub open spec fn matrix_thin() -> Seq<char> {
    "───────────────────────────────────────────────────────────────\n"@
}

/// The printed compatibility matrix: the widening table, then the narrowing
/// table with reasons, both in the order of the type names.
pub open spec fn matrix_spec() -> Seq<char> {
    matrix_rule() + "              POSTGRESQL TYPE COMPATIBILITY MATRIX\n"@ + matrix_rule() + "\n"@
        + "SAFE WIDENINGS (no data loss):\n"@ + matrix_thin() + widening_lines(18)
        + "\nDATALOSS NARROWINGS (may lose data):\n"@ + matrix_thin() + narrowing_lines(18)
        + "\n"@ + matrix_rule()
}

fn widening_line(a: BaseType) -> (r: Vec<char>)
    ensures
        r@ == (if widening_targets(a, 18).len() > 0 {
            "  "@ + base_name(a) + " → "@ + crate::text::join_seq(widening_targets(a, 18), ", "@) + "\n"@
        } else {
            Seq::empty()
        }),
{
    let mut targets: Vec<Vec<char>> = Vec::new();
    let mut k: usize = 0;
    while k < 18
        invariant
            k <= 18,
            crate::text::texts(targets@) == widening_targets(a, k as int),
        decreases 18 - k,
    {
        let b = base_at(k);
        if widens_exec(a, b) {
            let ghost before = crate::text::texts(targets@);
            targets.push(chars_of(base_name_exec(b)));
            assert(crate::text::texts(targets@) =~= before.push(base_name(b)));
        }
        k = k + 1;
    }
    let mut out: Vec<char> = Vec::new();
    if targets.len() > 0 {
        push_str(&mut out, "  ");
        push_str(&mut out, base_name_exec(a));
        push_str(&mut out, " → ");
        crate::text::push_joined(&mut out, &targets, ", ");
        push_str(&mut out, "\n");
    }
    assert(out@ =~= (if widening_targets(a, 18).len() > 0 {
        "  "@ + base_name(a) + " → "@ + crate::text::join_seq(widening_targets(a, 18), ", "@) + "\n"@
    } else {
        Seq::empty()
    }));
    out
}

fn push_narrowings_of(out: &mut Vec<char>, a: BaseType)
    ensures
        final(out)@ == old(out)@ + narrowing_lines_of(a, 18),
{
    let ghost start = out@;
    let mut k: usize = 0;
    while k < 18
        invariant
            k <= 18,
            out@ == start + narrowing_lines_of(a, k as int),
        decreases 18 - k,
    {
        let b = base_at(k);
        let ghost before = out@;
        match narrowing_reason_exec(a, b) {
            Some(reason) => {
                push_str(out, "  ");
                push_str(out, base_name_exec(a));
                push_str(out, " → ");
                push_str(out, base_name_exec(b));
                push_str(out, "\n    Reason: ");
                push_str(out, reason);
                push_str(out, "\n");
            },
            None => {},
        }
        k = k + 1;
        assert(out@ =~= start + narrowing_lines_of(a, k as int));
    }
}

impl TypeChecker {
    /// The compatibility matrix as readable text.
    pub fn format_matrix(&self) -> (r: String)
        ensures
            r@ == matrix_spec(),
    {
        let mut out: Vec<char> = Vec::new();
        push_str(&mut out, "═══════════════════════════════════════════════════════════════\n");
        push_str(&mut out, "              POSTGRESQL TYPE COMPATIBILITY MATRIX\n");
        push_str(&mut out, "═══════════════════════════════════════════════════════════════\n");
        push_str(&mut out, "\n");
        push_str(&mut out, "SAFE WIDENINGS (no data loss):\n");
        push_str(&mut out, "───────────────────────────────────────────────────────────────\n");
        let ghost head = out@;
        let mut i: usize = 0;
        while i < 18
            invariant
                i <= 18,
                out@ == head + widening_lines(i as int),
            decreases 18 - i,
        {
            let line = widening_line(base_at(i));
            push_all(&mut out, &line);
            i = i + 1;
            assert(out@ =~= head + widening_lines(i as int));
        }
        push_str(&mut out, "\nDATALOSS NARROWINGS (may lose data):\n");
        push_str(&mut out, "───────────────────────────────────────────────────────────────\n");
        let ghost mid = out@;
        let mut j: usize = 0;
        while j < 18
            invariant
                j <= 18,
                out@ == mid + narrowing_lines(j as int),
            decreases 18 - j,
        {
            push_narrowings_of(&mut out, base_at(j));
            j = j + 1;
            assert(out@ =~= mid + narrowing_lines(j as int));
        }
        push_str(&mut out, "\n");
        push_str(&mut out, "═══════════════════════════════════════════════════════════════\n");
        assert(out@ =~= matrix_spec());
        string_of(&out)
    }
}

/// A type compared with itself is identical.
pub proof fn lemma_check_reflexive(t: Seq<char>)
    ensures
        check_spec(t, t) == Compat::Identical,
{
}

/// Widening never holds both ways.
proof fn lemma_widens_antisymmetric(a: BaseType, b: BaseType)
    ensures
        !(widens(a, b) && widens(b, a)),
{
}

/// Widening composes.
proof fn lemma_widens_transitive(a: BaseType, b: BaseType, c: BaseType)
    requires
        widens(a, b),
        widens(b, c),
    ensures
        widens(a, c),
{
}

/// Each narrowing with a stated reason is the reverse of a widening.
proof fn lemma_narrowing_reverses_widening(a: BaseType, b: BaseType)
    requires
        narrowing_reason(a, b) is Some,
    ensures
        widens(b, a),
{
}

/// A safe change, undone, loses data.
pub proof fn lemma_safe_reverse_loses_data(a: Seq<char>, b: Seq<char>)
    requires
        check_spec(a, b) == Compat::Safe,
    ensures
        check_spec(b, a) is DataLoss,
{
    let f = type_parts(a);
    let t = type_parts(b);
    match (base_kind(f.base), base_kind(t.base)) {
        (Some(x), Some(y)) => {
            lemma_widens_antisymmetric(x, y);
            if narrowing_reason(x, y) is Some {
                lemma_narrowing_reverses_widening(x, y);
            }
            if narrowing_reason(y, x) is Some {
                lemma_narrowing_reverses_widening(y, x);
            }
        },
        _ => {},
    }
}

/// Data loss composes: two data-losing changes from `a` make a data-losing
/// change, unless `c` is equivalent to `a`, or `a` and `c` are NUMERIC types
/// whose precision and scale give a safe change (precision and scale may each
/// shrink in a different step).
pub proof fn lemma_dataloss_transitive(a: Seq<char>, b: Seq<char>, c: Seq<char>)
    requires
        !(check_spec(a, c) is Identical),
        check_spec(a, b) is DataLoss,
        check_spec(b, c) is DataLoss,
        precision_rule(type_parts(a), type_parts(c)) != Some(Compat::Safe),
    ensures
        check_spec(a, c) is DataLoss,
{
    let fa = base_kind(type_parts(a).base);
    let fb = base_kind(type_parts(b).base);
    let fc = base_kind(type_parts(c).base);
    match (fa, fb, fc) {
        (Some(x), Some(y), Some(z)) => {
            lemma_widens_antisymmetric(x, y);
            lemma_widens_antisymmetric(y, z);
            lemma_widens_antisymmetric(x, z);
            if narrowing_reason(x, y) is Some {
                lemma_narrowing_reverses_widening(x, y);
            }
            if narrowing_reason(y, z) is Some {
                lemma_narrowing_reverses_widening(y, z);
            }
            if widens(z, y) && widens(y, x) {
                lemma_widens_transitive(z, y, x);
            }
        },
        _ => {},
    }
}

fn copy_of(v: &Vec<char>) -> (r: Vec<char>)
    ensures
        r@ == v@,
{
    crate::text::copy_chars(v)
}

} // verus!
