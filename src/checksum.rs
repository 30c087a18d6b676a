//! Formatting-insensitive checksums of SQL artifacts: comments stripped,
//! whitespace runs collapsed, text trimmed and lowercased, then SHA-256 in hex.
use vstd::prelude::*;
use vstd::utf8::encode_utf8;
use sha2::{Digest, Sha256};
use crate::text::{
    chars_of, string_of, is_space, is_space_spec, lower_seq, lower_vec, trim_seq, trim_vec,
};

verus! {

/// The SHA-256 digest of a byte string.
pub uninterp spec fn sha256_of(data: Seq<u8>) -> Seq<u8>;

/// Relies on `sha2::Sha256::digest`: the 32-byte digest of the bytes, a
/// function of them alone.
#[verifier::external_body]
fn sha256(data: &[u8]) -> (r: Vec<u8>)
    ensures
        r@ == sha256_of(data@),
        r@.len() == 32,
{
    Sha256::digest(data).to_vec()
}

pub open spec fn hex_digit(d: u8) -> char {
    if d < 10 {
        ((d + 48) as u8) as char
    } else {
        ((d + 87) as u8) as char
    }
}

/// Two lowercase hexadecimal digits per byte, high nibble first.
pub open spec fn hex_spec(b: Seq<u8>) -> Seq<char>
    decreases b.len(),
{
    if b.len() == 0 {
        Seq::empty()
    } else {
        hex_spec(b.drop_last()) + seq![hex_digit(b.last() / 16), hex_digit(b.last() % 16)]
    }
}

/// Relies on `hex::encode`: two lowercase hexadecimal digits per byte, in order.
#[verifier::external_body]
fn hex_encode(b: &Vec<u8>) -> (r: String)
    ensures
        r@ == hex_spec(b@),
{
    hex::encode(b)
}

/// Where the comment scanner stands.
pub enum ScanState {
    Code,
    LineComment,
    BlockComment,
}

/// Whether `*/` occurs at or after `j`.
pub open spec fn closes_after(s: Seq<char>, j: int) -> bool {
    exists|k: int| j <= k && k + 1 < s.len() && #[trigger] s[k] == '*' && s[k + 1] == '/'
}

/// The text from `i` on with comments removed: `--` up to the end of the line,
/// and `/*` up to the next `*/` (an unclosed `/*` is kept as text).
pub open spec fn strip_from(s: Seq<char>, i: int, st: ScanState) -> Seq<char>
    decreases s.len() - i,
{
    if i < 0 || i >= s.len() {
        Seq::empty()
    } else {
        match st {
            ScanState::Code => if i + 1 < s.len() && s[i] == '-' && s[i + 1] == '-' {
                strip_from(s, i + 2, ScanState::LineComment)
            } else if i + 1 < s.len() && s[i] == '/' && s[i + 1] == '*' && closes_after(s, i + 2) {
                strip_from(s, i + 2, ScanState::BlockComment)
            } else {
                seq![s[i]] + strip_from(s, i + 1, ScanState::Code)
            },
            ScanState::LineComment => if s[i] == '\n' {
                seq![s[i]] + strip_from(s, i + 1, ScanState::Code)
            } else {
                strip_from(s, i + 1, ScanState::LineComment)
            },
            ScanState::BlockComment => if i + 1 < s.len() && s[i] == '*' && s[i + 1] == '/' {
                strip_from(s, i + 2, ScanState::Code)
            } else {
                strip_from(s, i + 1, ScanState::BlockComment)
            },
        }
    }
}

pub open spec fn strip_comments_spec(s: Seq<char>) -> Seq<char> {
    strip_from(s, 0, ScanState::Code)
}

/// The text from `i` on with each whitespace run replaced by one space;
/// `in_space` tells whether a run is already open.
pub open spec fn collapse_from(s: Seq<char>, i: int, in_space: bool) -> Seq<char>
    decreases s.len() - i,
{
    if i < 0 || i >= s.len() {
        Seq::empty()
    } else if is_space_spec(s[i]) {
        if in_space {
            collapse_from(s, i + 1, true)
        } else {
            seq![' '] + collapse_from(s, i + 1, true)
        }
    } else {
        seq![s[i]] + collapse_from(s, i + 1, false)
    }
}

pub open spec fn collapse_spec(s: Seq<char>) -> Seq<char> {
    collapse_from(s, 0, false)
}

/// The normal form that checksums are taken of.
pub open spec fn normalize_sql_spec(s: Seq<char>) -> Seq<char> {
    lower_of(comment_free_form(s))
}

/// The text with comments stripped, whitespace runs collapsed, and trimmed.
pub open spec fn comment_free_form(s: Seq<char>) -> Seq<char> {
    trim_seq(collapse_spec(strip_comments_spec(s)))
}

/// The lowercase form of a text, by Unicode case mapping.
pub uninterp spec fn lower_of(s: Seq<char>) -> Seq<char>;

/// Relies on `str::to_lowercase`: the lowercase mapping of the text, which
/// depends on its characters alone.
#[verifier::external_body]
fn to_lowercase(s: &str) -> (r: String)
    ensures
        r@ == lower_of(s@),
{
    s.to_lowercase()
}

/// The checksum of a SQL text: hex SHA-256 of the UTF-8 bytes of its normal form.
pub open spec fn checksum_spec(s: Seq<char>) -> Seq<char> {
    hex_spec(sha256_of(encode_utf8(normalize_sql_spec(s))))
}

/// Whether `*/` occurs at or after `j`.
fn closes_after_exec(s: &Vec<char>, j: usize) -> (r: bool)
    requires
        j <= s@.len(),
    ensures
        r == closes_after(s@, j as int),
{
    let mut k = j;
    while k < s.len() && k + 1 < s.len()
        invariant
            j <= k <= s@.len(),
            forall|m: int| j <= m < k && m + 1 < s@.len() ==> !(#[trigger] s@[m] == '*' && s@[m + 1] == '/'),
        decreases s@.len() - k,
    {
        if s[k] == '*' && s[k + 1] == '/' {
            return true;
        }
        k = k + 1;
    }
    false
}

/// Removes `--` and `/* */` comments.
pub fn strip_comments(s: &Vec<char>) -> (r: Vec<char>)
    ensures
        r@ == strip_comments_spec(s@),
{
    let mut out: Vec<char> = Vec::new();
    let mut st = ScanState::Code;
    let mut i: usize = 0;
    while i < s.len()
        invariant
            i <= s@.len(),
            out@ + strip_from(s@, i as int, st) == strip_comments_spec(s@),
        decreases s@.len() - i,
    {
        let c = s[i];
        match st {
            ScanState::Code => {
                if i + 1 < s.len() && c == '-' && s[i + 1] == '-' {
                    st = ScanState::LineComment;
                    i = i + 2;
                } else if i + 1 < s.len() && c == '/' && s[i + 1] == '*' && closes_after_exec(s, i + 2) {
                    st = ScanState::BlockComment;
                    i = i + 2;
                } else {
                    out.push(c);
                    i = i + 1;
                    assert(out@ + strip_from(s@, i as int, st) =~= out@.drop_last() + (seq![c] + strip_from(s@, i as int, st)));
                }
            },
            ScanState::LineComment => {
                if c == '\n' {
                    out.push(c);
                    st = ScanState::Code;
                    i = i + 1;
                    assert(out@ + strip_from(s@, i as int, st) =~= out@.drop_last() + (seq![c] + strip_from(s@, i as int, st)));
                } else {
                    i = i + 1;
                }
            },
            ScanState::BlockComment => {
                if i + 1 < s.len() && c == '*' && s[i + 1] == '/' {
                    st = ScanState::Code;
                    i = i + 2;
                } else {
                    i = i + 1;
                }
            },
        }
    }
    assert(out@ =~= out@ + strip_from(s@, i as int, st));
    out
}

/// Replaces each run of whitespace by one space.
pub fn collapse_whitespace(s: &Vec<char>) -> (r: Vec<char>)
    ensures
        r@ == collapse_spec(s@),
{
    let mut out: Vec<char> = Vec::new();
    let mut in_space = false;
    let mut i: usize = 0;
    while i < s.len()
        invariant
            i <= s@.len(),
            out@ + collapse_from(s@, i as int, in_space) == collapse_spec(s@),
        decreases s@.len() - i,
    {
        let c = s[i];
        if is_space(c) {
            if !in_space {
                out.push(' ');
                assert(out@ + collapse_from(s@, i + 1, true) =~= out@.drop_last() + (seq![' '] + collapse_from(s@, i + 1, true)));
            }
            in_space = true;
        } else {
            out.push(c);
            assert(out@ + collapse_from(s@, i + 1, false) =~= out@.drop_last() + (seq![c] + collapse_from(s@, i + 1, false)));
            in_space = false;
        }
        i = i + 1;
    }
    assert(out@ =~= out@ + collapse_from(s@, i as int, in_space));
    out
}

/// The normal form of a SQL text: comments stripped, whitespace runs
/// runs collapsed, trimmed.
pub fn normalize_sql(sql: &str) -> (r: String)
    ensures
        r@ == normalize_sql_spec(sql@),
{
    let v = chars_of(sql);
    let n = string_of(&trim_vec(&collapse_whitespace(&strip_comments(&v))));
    to_lowercase(n.as_str())
}

/// The formatting-insensitive checksum of a SQL text.
pub fn compute_checksum(content: &str) -> (r: String)
    ensures
        r@ == checksum_spec(content@),
{
    let n = normalize_sql(content);
    let digest = sha256(n.as_str().as_bytes());
    hex_encode(&digest)
}

/// The checksum of exact bytes, as stored for migration files and archives.
pub fn compute_raw_checksum(content: &str) -> (r: String)
    ensures
        r@ == hex_spec(sha256_of(encode_utf8(content@))),
{
    let digest = sha256(content.as_bytes());
    hex_encode(&digest)
}

/// The checksum of a byte string, as stored for an uploaded schema archive.
pub fn compute_bytes_checksum(data: &[u8]) -> (r: String)
    ensures
        r@ == hex_spec(sha256_of(data@)),
{
    let digest = sha256(data);
    hex_encode(&digest)
}

/// Texts whose comment-free forms differ only in letter case (they have the
/// same lowercase) have the same checksum.
pub proof fn lemma_checksum_ignores_case(a: Seq<char>, b: Seq<char>)
    requires
        lower_of(comment_free_form(a)) == lower_of(comment_free_form(b)),
    ensures
        checksum_spec(a) == checksum_spec(b),
{
}

/// Texts with the same normal form have the same checksum.
pub proof fn lemma_checksum_of_normal_form(a: Seq<char>, b: Seq<char>)
    requires
        normalize_sql_spec(a) == normalize_sql_spec(b),
    ensures
        checksum_spec(a) == checksum_spec(b),
{
}

/// The text has no `-` or `/`: nothing in it can open a comment.
pub open spec fn comment_free(s: Seq<char>) -> bool {
    forall|k: int| 0 <= k < s.len() ==> #[trigger] s[k] != '-' && s[k] != '/'
}

proof fn lemma_strip_comment_free(s: Seq<char>, i: int)
    requires
        comment_free(s),
        0 <= i <= s.len(),
    ensures
        strip_from(s, i, ScanState::Code) == s.subrange(i, s.len() as int),
    decreases s.len() - i,
{
    if i < s.len() {
        lemma_strip_comment_free(s, i + 1);
        assert(s.subrange(i, s.len() as int) =~= seq![s[i]] + s.subrange(i + 1, s.len() as int));
    } else {
        assert(s.subrange(i, s.len() as int) =~= Seq::<char>::empty());
    }
}

/// Texts that nothing in can open a comment, and that differ only in the
/// length of their whitespace runs, have the same checksum.
pub proof fn lemma_checksum_ignores_whitespace_runs(a: Seq<char>, b: Seq<char>)
    requires
        comment_free(a),
        comment_free(b),
        collapse_spec(a) == collapse_spec(b),
    ensures
        checksum_spec(a) == checksum_spec(b),
{
    lemma_strip_comment_free(a, 0);
    lemma_strip_comment_free(b, 0);
    assert(a.subrange(0, a.len() as int) =~= a);
    assert(b.subrange(0, b.len() as int) =~= b);
}

} // verus!
