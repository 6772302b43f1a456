//! The lexical grammar of EF Core migration sources that the parser relies
//! on: `protected override void <Name>(` method signatures, calls of the
//! form `migrationBuilder.<Op>(`, custom SQL calls
//! `migrationBuilder.Sql(@"...")`, and brace matching that skips braces
//! inside C# string literals.
//!
//! Positions are character indices. Whitespace is Unicode `White_Space`
//! (`text::is_ws`); a word character is a Unicode word character in the
//! sense of UTS#18 Annex C.
use vstd::prelude::*;
use crate::text::{chars_of, lead_end, lemma_lead_end, matches_at, matches_at_exec, skip_ws};

verus! {

// ─── Word characters ────────────────────────────────────────────────

/// Whether `c` is a Unicode word character (Alphabetic, Join_Control,
/// Decimal_Number, Mark or Connector_Punctuation), as decided by
/// `regex_syntax::is_word_character`.
pub uninterp spec fn regex_word_char(c: char) -> bool;

/// The ASCII word characters: `[0-9A-Za-z_]`.
pub open spec fn ascii_word(c: char) -> bool {
    ('0' <= c && c <= '9') || ('A' <= c && c <= 'Z') || ('a' <= c && c <= 'z') || c == '_'
}

/// Calls `regex_syntax::is_word_character` (Unicode word-character test,
/// backed by the crate's generated Unicode tables). Claimed: the answer is
/// `regex_word_char(c)`, and for ASCII characters it is exactly
/// `[0-9A-Za-z_]` (the crate answers those through `is_word_byte`).
#[verifier::external_body]
pub(crate) fn is_word_character(c: char) -> (b: bool)
    ensures
        b == regex_word_char(c),
        (c as u32) < 128 ==> (b == ascii_word(c)),
{
    regex_syntax::is_word_character(c)
}

/// The first index at or after `i` that does not hold a word character.
pub open spec fn word_end(s: Seq<char>, i: int) -> int
    decreases s.len() - i,
{
    if 0 <= i < s.len() && regex_word_char(s[i]) {
        word_end(s, i + 1)
    } else {
        i
    }
}

pub proof fn lemma_word_end(s: Seq<char>, i: int)
    requires
        0 <= i <= s.len(),
    ensures
        i <= word_end(s, i) <= s.len(),
        forall|k: int| i <= k < word_end(s, i) ==> regex_word_char(#[trigger] s[k]),
    decreases s.len() - i,
{
    if i < s.len() && regex_word_char(s[i]) {
        lemma_word_end(s, i + 1);
    }
}

pub fn word_end_exec(s: &[char], i: usize) -> (r: usize)
    requires
        i <= s@.len(),
    ensures
        r == word_end(s@, i as int),
        i <= r <= s@.len(),
{
    let mut k: usize = i;
    while k < s.len() && is_word_character(s[k])
        invariant
            i <= k <= s@.len(),
            word_end(s@, i as int) == word_end(s@, k as int),
        decreases s@.len() - k,
    {
        k = k + 1;
    }
    k
}

pub proof fn lemma_lead_end_range(s: Seq<char>, i: int)
    requires
        0 <= i <= s.len(),
    ensures
        i <= lead_end(s, i) <= s.len(),
{
    lemma_lead_end(s, i);
}

// ─── migrationBuilder.<Op>( ─────────────────────────────────────────

pub open spec fn builder_word() -> Seq<char> {
    "migrationBuilder"@
}

pub open spec fn sql_word() -> Seq<char> {
    "Sql"@
}

/// A match of `migrationBuilder\s*\.\s*(\w+)\s*\(` starting at `i`: the
/// span of the operation name and the index just past the `(`.
pub open spec fn op_match_at(s: Seq<char>, i: int) -> Option<(int, int, int)> {
    if !matches_at(s, i, builder_word()) {
        None
    } else {
        let a = lead_end(s, i + builder_word().len());
        if !(a < s.len() && s[a] == '.') {
            None
        } else {
            let b = lead_end(s, a + 1);
            let c = word_end(s, b);
            if c <= b {
                None
            } else {
                let d = lead_end(s, c);
                if !(d < s.len() && s[d] == '(') {
                    None
                } else {
                    Some((b, c, d + 1))
                }
            }
        }
    }
}

/// All non-overlapping operation-call matches in `s[i..]`, leftmost first:
/// (start, name start, name end, end).
pub open spec fn op_matches_from(s: Seq<char>, i: int) -> Seq<(int, int, int, int)>
    decreases s.len() - i,
{
    if i < 0 || i >= s.len() {
        Seq::empty()
    } else {
        match op_match_at(s, i) {
            Some((b, c, e)) => if i < e <= s.len() {
                seq![(i, b, c, e)] + op_matches_from(s, e)
            } else {
                Seq::empty()
            },
            None => op_matches_from(s, i + 1),
        }
    }
}

pub open spec fn op_matches(s: Seq<char>) -> Seq<(int, int, int, int)> {
    op_matches_from(s, 0)
}

pub proof fn lemma_op_match_at(s: Seq<char>, i: int)
    requires
        0 <= i <= s.len(),
    ensures
        op_match_at(s, i) matches Some((b, c, e)) ==> i < b < c < e <= s.len() && forall|k: int|
            b <= k < c ==> regex_word_char(#[trigger] s[k]),
{
    if matches_at(s, i, builder_word()) {
        let a = lead_end(s, i + builder_word().len());
        lemma_lead_end_range(s, i + builder_word().len());
        if a < s.len() && s[a] == '.' {
            let b = lead_end(s, a + 1);
            lemma_lead_end_range(s, a + 1);
            lemma_word_end(s, b);
            let c = word_end(s, b);
            if c > b {
                lemma_lead_end_range(s, c);
            }
        }
    }
}

/// Literal operands handed to the matchers, so that each scan converts the
/// keyword strings only once.
pub struct Keywords {
    pub builder: Vec<char>,
    pub sql: Vec<char>,
}

impl Keywords {
    pub open spec fn wf(&self) -> bool {
        &&& self.builder@ == builder_word()
        &&& self.sql@ == sql_word()
    }

    pub fn new() -> (k: Self)
        ensures
            k.wf(),
    {
        Keywords { builder: chars_of("migrationBuilder"), sql: chars_of("Sql") }
    }
}

pub fn op_match_at_exec(s: &[char], i: usize, kw: &Keywords) -> (r: Option<(usize, usize, usize)>)
    requires
        kw.wf(),
        i <= s@.len(),
    ensures
        r matches Some((b, c, e)) ==> op_match_at(s@, i as int) == Some((b as int, c as int, e as int)),
        r is None ==> op_match_at(s@, i as int) is None,
{
    if !matches_at_exec(s, i, kw.builder.as_slice()) {
        return None;
    }
    assert(s@.len() == s.len());
    assert(i + kw.builder@.len() <= s@.len());
    let a = skip_ws(s, i + kw.builder.len());
    if !(a < s.len() && s[a] == '.') {
        return None;
    }
    let b = skip_ws(s, a + 1);
    let c = word_end_exec(s, b);
    if c <= b {
        return None;
    }
    let d = skip_ws(s, c);
    if !(d < s.len() && s[d] == '(') {
        return None;
    }
    Some((b, c, d + 1))
}

/// Spec tuples from executable ones.
pub open spec fn quad_view(t: (usize, usize, usize, usize)) -> (int, int, int, int) {
    (t.0 as int, t.1 as int, t.2 as int, t.3 as int)
}

pub open spec fn quads_view(v: Seq<(usize, usize, usize, usize)>) -> Seq<(int, int, int, int)> {
    v.map_values(|t: (usize, usize, usize, usize)| quad_view(t))
}

pub fn op_matches_exec(s: &[char], kw: &Keywords) -> (r: Vec<(usize, usize, usize, usize)>)
    requires
        kw.wf(),
    ensures
        quads_view(r@) == op_matches(s@),
{
    let mut r: Vec<(usize, usize, usize, usize)> = Vec::new();
    let mut i: usize = 0;
    while i < s.len()
        invariant
            kw.wf(),
            i <= s@.len(),
            quads_view(r@) + op_matches_from(s@, i as int) == op_matches(s@),
        decreases s@.len() - i,
    {
        proof {
            lemma_op_match_at(s@, i as int);
        }
        match op_match_at_exec(s, i, kw) {
            Some((b, c, e)) => {
                let ghost old_r = r@;
                r.push((i, b, c, e));
                assert(quads_view(r@) =~= quads_view(old_r) + seq![(i as int, b as int, c as int, e as int)]);
                assert(quads_view(r@) + op_matches_from(s@, e as int) =~= quads_view(old_r)
                    + op_matches_from(s@, i as int));
                i = e;
            },
            None => {
                i = i + 1;
            },
        }
    }
    assert(op_matches_from(s@, i as int) =~= Seq::<(int, int, int, int)>::empty());
    assert(quads_view(r@) =~= quads_view(r@) + op_matches_from(s@, i as int));
    r
}

// ─── migrationBuilder.Sql("...") ────────────────────────────────────

/// After the opening quote: the lazy scan of the literal's contents
/// `(?:[^"\\]|\\.|"")*?` followed by `"\s*\)`. Yields the index of the
/// closing quote and the index just past the `)`.
pub open spec fn lazy_body(s: Seq<char>, p: int) -> Option<(int, int)>
    decreases s.len() - p,
{
    if p < 0 || p >= s.len() {
        None
    } else if s[p] == '"' && lead_end(s, p + 1) < s.len() && s[lead_end(s, p + 1)] == ')' {
        Some((p, lead_end(s, p + 1) + 1))
    } else if s[p] != '"' && s[p] != '\\' {
        lazy_body(s, p + 1)
    } else if s[p] == '\\' && p + 1 < s.len() && s[p + 1] != '\n' {
        lazy_body(s, p + 2)
    } else if s[p] == '"' && p + 1 < s.len() && s[p + 1] == '"' {
        lazy_body(s, p + 2)
    } else {
        None
    }
}

/// A match of
/// `migrationBuilder\s*\.\s*Sql\s*\(\s*@?"((?:[^"\\]|\\.|"")*?)"\s*\)`
/// starting at `i`: the span of the literal's raw contents and the index
/// just past the `)`.
pub open spec fn sql_match_at(s: Seq<char>, i: int) -> Option<(int, int, int)> {
    if !matches_at(s, i, builder_word()) {
        None
    } else {
        let a = lead_end(s, i + builder_word().len());
        if !(a < s.len() && s[a] == '.') {
            None
        } else {
            let b = lead_end(s, a + 1);
            if !matches_at(s, b, sql_word()) {
                None
            } else {
                let c = lead_end(s, b + sql_word().len());
                if !(c < s.len() && s[c] == '(') {
                    None
                } else {
                    let d = lead_end(s, c + 1);
                    let q = if d < s.len() && s[d] == '@' {
                        d + 1
                    } else {
                        d
                    };
                    if !(q < s.len() && s[q] == '"') {
                        None
                    } else {
                        match lazy_body(s, q + 1) {
                            Some((p, e)) => Some((q + 1, p, e)),
                            None => None,
                        }
                    }
                }
            }
        }
    }
}

/// All non-overlapping custom-SQL call matches in `s[i..]`, leftmost first:
/// (start, raw start, raw end, end).
pub open spec fn sql_matches_from(s: Seq<char>, i: int) -> Seq<(int, int, int, int)>
    decreases s.len() - i,
{
    if i < 0 || i >= s.len() {
        Seq::empty()
    } else {
        match sql_match_at(s, i) {
            Some((a, b, e)) => if i < e <= s.len() {
                seq![(i, a, b, e)] + sql_matches_from(s, e)
            } else {
                Seq::empty()
            },
            None => sql_matches_from(s, i + 1),
        }
    }
}

pub open spec fn sql_matches(s: Seq<char>) -> Seq<(int, int, int, int)> {
    sql_matches_from(s, 0)
}

pub proof fn lemma_lazy_body(s: Seq<char>, p: int)
    requires
        0 <= p,
    ensures
        lazy_body(s, p) matches Some((q, e)) ==> p <= q < e <= s.len(),
    decreases s.len() - p,
{
    if p >= s.len() {
    } else if s[p] == '"' && lead_end(s, p + 1) < s.len() && s[lead_end(s, p + 1)] == ')' {
        lemma_lead_end_range(s, p + 1);
    } else if s[p] != '"' && s[p] != '\\' {
        lemma_lazy_body(s, p + 1);
    } else if s[p] == '\\' && p + 1 < s.len() && s[p + 1] != '\n' {
        lemma_lazy_body(s, p + 2);
    } else if s[p] == '"' && p + 1 < s.len() && s[p + 1] == '"' {
        lemma_lazy_body(s, p + 2);
    }
}

pub proof fn lemma_sql_match_at(s: Seq<char>, i: int)
    requires
        0 <= i <= s.len(),
    ensures
        sql_match_at(s, i) matches Some((a, b, e)) ==> i < a <= b < e <= s.len(),
{
    if matches_at(s, i, builder_word()) {
        let a = lead_end(s, i + builder_word().len());
        lemma_lead_end_range(s, i + builder_word().len());
        if a < s.len() && s[a] == '.' {
            let b = lead_end(s, a + 1);
            lemma_lead_end_range(s, a + 1);
            if matches_at(s, b, sql_word()) {
                let c = lead_end(s, b + sql_word().len());
                lemma_lead_end_range(s, b + sql_word().len());
                if c < s.len() && s[c] == '(' {
                    let d = lead_end(s, c + 1);
                    lemma_lead_end_range(s, c + 1);
                    let q = if d < s.len() && s[d] == '@' {
                        d + 1
                    } else {
                        d
                    };
                    if q < s.len() && s[q] == '"' {
                        lemma_lazy_body(s, q + 1);
                    }
                }
            }
        }
    }
}

pub fn lazy_body_exec(s: &[char], p: usize) -> (r: Option<(usize, usize)>)
    requires
        p <= s@.len(),
    ensures
        r matches Some((q, e)) ==> lazy_body(s@, p as int) == Some((q as int, e as int)),
        r is None ==> lazy_body(s@, p as int) is None,
{
    let mut k: usize = p;
    while k < s.len()
        invariant
            p <= k <= s@.len(),
            lazy_body(s@, p as int) == lazy_body(s@, k as int),
        decreases s@.len() - k,
    {
        let c = s[k];
        if c == '"' {
            let e = skip_ws(s, k + 1);
            if e < s.len() && s[e] == ')' {
                return Some((k, e + 1));
            }
        }
        if c != '"' && c != '\\' {
            k = k + 1;
        } else if c == '\\' && k + 1 < s.len() && s[k + 1] != '\n' {
            k = k + 2;
        } else if c == '"' && k + 1 < s.len() && s[k + 1] == '"' {
            k = k + 2;
        } else {
            return None;
        }
    }
    None
}

pub fn sql_match_at_exec(s: &[char], i: usize, kw: &Keywords) -> (r: Option<(usize, usize, usize)>)
    requires
        kw.wf(),
        i <= s@.len(),
    ensures
        r matches Some((a, b, e)) ==> sql_match_at(s@, i as int) == Some((a as int, b as int, e as int)),
        r is None ==> sql_match_at(s@, i as int) is None,
{
    if !matches_at_exec(s, i, kw.builder.as_slice()) {
        return None;
    }
    assert(s@.len() == s.len());
    assert(i + kw.builder@.len() <= s@.len());
    let a = skip_ws(s, i + kw.builder.len());
    if !(a < s.len() && s[a] == '.') {
        return None;
    }
    let b = skip_ws(s, a + 1);
    if !matches_at_exec(s, b, kw.sql.as_slice()) {
        return None;
    }
    assert(b + kw.sql@.len() <= s@.len());
    let c = skip_ws(s, b + kw.sql.len());
    if !(c < s.len() && s[c] == '(') {
        return None;
    }
    let d = skip_ws(s, c + 1);
    let q = if d < s.len() && s[d] == '@' {
        d + 1
    } else {
        d
    };
    if !(q < s.len() && s[q] == '"') {
        return None;
    }
    match lazy_body_exec(s, q + 1) {
        Some((p, e)) => Some((q + 1, p, e)),
        None => None,
    }
}

pub fn sql_matches_exec(s: &[char], kw: &Keywords) -> (r: Vec<(usize, usize, usize, usize)>)
    requires
        kw.wf(),
    ensures
        quads_view(r@) == sql_matches(s@),
{
    let mut r: Vec<(usize, usize, usize, usize)> = Vec::new();
    let mut i: usize = 0;
    while i < s.len()
        invariant
            kw.wf(),
            i <= s@.len(),
            quads_view(r@) + sql_matches_from(s@, i as int) == sql_matches(s@),
        decreases s@.len() - i,
    {
        proof {
            lemma_sql_match_at(s@, i as int);
        }
        match sql_match_at_exec(s, i, kw) {
            Some((a, b, e)) => {
                let ghost old_r = r@;
                r.push((i, a, b, e));
                assert(quads_view(r@) =~= quads_view(old_r) + seq![(i as int, a as int, b as int, e as int)]);
                assert(quads_view(r@) + sql_matches_from(s@, e as int) =~= quads_view(old_r)
                    + sql_matches_from(s@, i as int));
                i = e;
            },
            None => {
                i = i + 1;
            },
        }
    }
    assert(sql_matches_from(s@, i as int) =~= Seq::<(int, int, int, int)>::empty());
    assert(quads_view(r@) =~= quads_view(r@) + sql_matches_from(s@, i as int));
    r
}

pub proof fn lemma_sql_matches_bounds(s: Seq<char>, i: int, k: int)
    requires
        0 <= i <= s.len(),
        0 <= k < sql_matches_from(s, i).len(),
    ensures
        i <= sql_matches_from(s, i)[k].0 < sql_matches_from(s, i)[k].1 <= sql_matches_from(s, i)[k].2
            < sql_matches_from(s, i)[k].3 <= s.len(),
    decreases s.len() - i,
{
    if i < s.len() {
        lemma_sql_match_at(s, i);
        match sql_match_at(s, i) {
            Some((a, b, e)) => {
                if i < e <= s.len() && k > 0 {
                    lemma_sql_matches_bounds(s, e, k - 1);
                }
            },
            None => {
                lemma_sql_matches_bounds(s, i + 1, k);
            },
        }
    }
}

pub proof fn lemma_op_matches_bounds(s: Seq<char>, i: int, k: int)
    requires
        0 <= i <= s.len(),
        0 <= k < op_matches_from(s, i).len(),
    ensures
        i <= op_matches_from(s, i)[k].0 < op_matches_from(s, i)[k].1 < op_matches_from(s, i)[k].2
            < op_matches_from(s, i)[k].3 <= s.len(),
    decreases s.len() - i,
{
    if i < s.len() {
        lemma_op_match_at(s, i);
        match op_match_at(s, i) {
            Some((b, c, e)) => {
                if i < e <= s.len() && k > 0 {
                    lemma_op_matches_bounds(s, e, k - 1);
                }
            },
            None => {
                lemma_op_matches_bounds(s, i + 1, k);
            },
        }
    }
}

// ─── protected override void <Name>( ────────────────────────────────

/// A match of `protected\s+override\s+void\s+<name>\s*\(` at `i`; yields
/// the index just past the `(`.
pub open spec fn sig_match_at(s: Seq<char>, i: int, name: Seq<char>) -> Option<int> {
    if !matches_at(s, i, "protected"@) {
        None
    } else {
        let a = i + "protected"@.len();
        let b = lead_end(s, a);
        if !(b > a && matches_at(s, b, "override"@)) {
            None
        } else {
            let c = b + "override"@.len();
            let d = lead_end(s, c);
            if !(d > c && matches_at(s, d, "void"@)) {
                None
            } else {
                let e = d + "void"@.len();
                let f = lead_end(s, e);
                if !(f > e && matches_at(s, f, name)) {
                    None
                } else {
                    let h = lead_end(s, f + name.len());
                    if h < s.len() && s[h] == '(' {
                        Some(h + 1)
                    } else {
                        None
                    }
                }
            }
        }
    }
}

/// The leftmost signature match at or after `i`: (start, end).
pub open spec fn sig_find_from(s: Seq<char>, name: Seq<char>, i: int) -> Option<(int, int)>
    decreases s.len() - i,
{
    if i < 0 || i >= s.len() {
        None
    } else {
        match sig_match_at(s, i, name) {
            Some(e) => Some((i, e)),
            None => sig_find_from(s, name, i + 1),
        }
    }
}

pub open spec fn sig_find(s: Seq<char>, name: Seq<char>) -> Option<(int, int)> {
    sig_find_from(s, name, 0)
}

pub proof fn lemma_sig_match_at(s: Seq<char>, i: int, name: Seq<char>)
    requires
        0 <= i <= s.len(),
    ensures
        sig_match_at(s, i, name) matches Some(e) ==> i < e <= s.len(),
{
    if matches_at(s, i, "protected"@) {
        let a = i + "protected"@.len();
        lemma_lead_end_range(s, a);
        let b = lead_end(s, a);
        if b > a && matches_at(s, b, "override"@) {
            let c = b + "override"@.len();
            lemma_lead_end_range(s, c);
            let d = lead_end(s, c);
            if d > c && matches_at(s, d, "void"@) {
                let e = d + "void"@.len();
                lemma_lead_end_range(s, e);
                let f = lead_end(s, e);
                if f > e && matches_at(s, f, name) {
                    lemma_lead_end_range(s, f + name.len());
                }
            }
        }
    }
}

pub proof fn lemma_sig_find_from(s: Seq<char>, name: Seq<char>, i: int)
    requires
        0 <= i <= s.len(),
    ensures
        sig_find_from(s, name, i) matches Some((st, e)) ==> i <= st < e <= s.len(),
    decreases s.len() - i,
{
    if i < s.len() {
        lemma_sig_match_at(s, i, name);
        if sig_match_at(s, i, name) is None {
            lemma_sig_find_from(s, name, i + 1);
        }
    }
}

pub fn sig_match_at_exec(
    s: &[char],
    i: usize,
    name: &[char],
    w_protected: &[char],
    w_override: &[char],
    w_void: &[char],
) -> (r: Option<usize>)
    requires
        i <= s@.len(),
        w_protected@ == "protected"@,
        w_override@ == "override"@,
        w_void@ == "void"@,
    ensures
        r matches Some(e) ==> sig_match_at(s@, i as int, name@) == Some(e as int),
        r is None ==> sig_match_at(s@, i as int, name@) is None,
{
    if !matches_at_exec(s, i, w_protected) {
        return None;
    }
    assert(s@.len() == s.len());
    assert(i + w_protected@.len() <= s@.len());
    let a = i + w_protected.len();
    let b = skip_ws(s, a);
    if !(b > a && matches_at_exec(s, b, w_override)) {
        return None;
    }
    assert(b + w_override@.len() <= s@.len());
    let c = b + w_override.len();
    let d = skip_ws(s, c);
    if !(d > c && matches_at_exec(s, d, w_void)) {
        return None;
    }
    assert(d + w_void@.len() <= s@.len());
    let e = d + w_void.len();
    let f = skip_ws(s, e);
    if !(f > e && matches_at_exec(s, f, name)) {
        return None;
    }
    assert(f + name@.len() <= s@.len());
    let h = skip_ws(s, f + name.len());
    if h < s.len() && s[h] == '(' {
        Some(h + 1)
    } else {
        None
    }
}

/// The leftmost `protected override void <name>(` in `s`: its start and
/// the index just past the `(`.
pub fn sig_find_exec(s: &[char], name: &[char]) -> (r: Option<(usize, usize)>)
    ensures
        r matches Some((st, e)) ==> sig_find(s@, name@) == Some((st as int, e as int)),
        r is None ==> sig_find(s@, name@) is None,
{
    let w_protected = chars_of("protected");
    let w_override = chars_of("override");
    let w_void = chars_of("void");
    let mut i: usize = 0;
    while i < s.len()
        invariant
            i <= s@.len(),
            w_protected@ == "protected"@,
            w_override@ == "override"@,
            w_void@ == "void"@,
            sig_find(s@, name@) == sig_find_from(s@, name@, i as int),
        decreases s@.len() - i,
    {
        match sig_match_at_exec(
            s,
            i,
            name,
            w_protected.as_slice(),
            w_override.as_slice(),
            w_void.as_slice(),
        ) {
            Some(e) => {
                return Some((i, e));
            },
            None => {
                i = i + 1;
            },
        }
    }
    None
}

// ─── Brace matching ─────────────────────────────────────────────────

/// Scanner state while looking for the brace that closes the one at the
/// scan's start: nesting depth, inside a string literal, inside a verbatim
/// (`@"..."`) literal, the previous character, and whether the next
/// character is the second half of a doubled `""` inside a verbatim
/// literal.
pub struct BraceState {
    pub depth: int,
    pub in_string: bool,
    pub in_verbatim: bool,
    pub prev: char,
    pub skip_next: bool,
}

pub open spec fn brace_start_state() -> BraceState {
    BraceState { depth: 0, in_string: false, in_verbatim: false, prev: '\0', skip_next: false }
}

/// The state after reading `s[i]` when it is not skipped.
pub open spec fn brace_step(s: Seq<char>, i: int, st: BraceState) -> BraceState {
    let ch = s[i];
    let (in_string, in_verbatim, skip_next) = if ch == '"' && !st.in_verbatim {
        if st.prev == '@' {
            (true, true, false)
        } else if st.prev != '\\' {
            (!st.in_string, st.in_verbatim, false)
        } else {
            (st.in_string, st.in_verbatim, false)
        }
    } else if st.in_verbatim && ch == '"' {
        if i + 1 < s.len() && s[i + 1] == '"' {
            (st.in_string, st.in_verbatim, true)
        } else {
            (false, false, false)
        }
    } else {
        (st.in_string, st.in_verbatim, false)
    };
    let depth = if !in_string && ch == '{' {
        st.depth + 1
    } else if !in_string && ch == '}' {
        st.depth - 1
    } else {
        st.depth
    };
    BraceState { depth, in_string, in_verbatim, prev: ch, skip_next }
}

/// The state after skipping `s[i]` (second half of a doubled quote).
pub open spec fn brace_skip(s: Seq<char>, i: int, st: BraceState) -> BraceState {
    BraceState { depth: st.depth, in_string: st.in_string, in_verbatim: st.in_verbatim, prev: s[i], skip_next: false }
}

/// The index of the brace that brings the depth back to zero, scanning
/// from `i` in state `st`; `None` when the text ends first.
pub open spec fn brace_scan(s: Seq<char>, i: int, st: BraceState) -> Option<int>
    decreases s.len() - i,
{
    if i < 0 || i >= s.len() {
        None
    } else if st.skip_next {
        brace_scan(s, i + 1, brace_skip(s, i, st))
    } else {
        let nst = brace_step(s, i, st);
        if !nst.in_string && s[i] == '}' && nst.depth == 0 {
            Some(i)
        } else {
            brace_scan(s, i + 1, nst)
        }
    }
}

pub open spec fn matching_brace(s: Seq<char>, start: int) -> Option<int> {
    brace_scan(s, start, brace_start_state())
}

pub proof fn lemma_brace_scan(s: Seq<char>, i: int, st: BraceState)
    requires
        0 <= i,
    ensures
        brace_scan(s, i, st) matches Some(k) ==> i <= k < s.len() && s[k] == '}',
    decreases s.len() - i,
{
    if i >= s.len() {
    } else if st.skip_next {
        lemma_brace_scan(s, i + 1, brace_skip(s, i, st));
    } else {
        let nst = brace_step(s, i, st);
        if !nst.in_string && s[i] == '}' && nst.depth == 0 {
        } else {
            lemma_brace_scan(s, i + 1, nst);
        }
    }
}

/// The index of the `}` matching the brace structure that starts at
/// `start`, ignoring braces inside C# string literals (regular and
/// verbatim, with `""` escapes).
pub fn find_matching_brace(s: &[char], start: usize) -> (r: Option<usize>)
    ensures
        r matches Some(k) ==> matching_brace(s@, start as int) == Some(k as int) && start <= k
            < s@.len() && s@[k as int] == '}',
        r is None ==> matching_brace(s@, start as int) is None,
{
    let mut depth: i128 = 0;
    let mut in_string = false;
    let mut in_verbatim = false;
    let mut prev_char: char = '\0';
    let mut skip_next = false;
    let mut i: usize = start;
    proof {
        lemma_brace_scan(s@, start as int, brace_start_state());
    }
    while i < s.len()
        invariant
            start <= i,
            i <= usize::MAX,
            -(i - start) <= depth <= i - start,
            brace_scan(s@, i as int, BraceState { depth: depth as int, in_string, in_verbatim, prev: prev_char, skip_next })
                == matching_brace(s@, start as int),
        decreases s@.len() - i,
    {
        let ghost st = BraceState { depth: depth as int, in_string, in_verbatim, prev: prev_char, skip_next };
        if skip_next {
            skip_next = false;
            prev_char = s[i];
            i = i + 1;
            continue ;
        }
        let ch = s[i];
        if ch == '"' && !in_verbatim {
            if prev_char == '@' {
                in_verbatim = true;
                in_string = true;
            } else if prev_char != '\\' {
                in_string = !in_string;
            }
        } else if in_verbatim && ch == '"' {
            if i + 1 < s.len() && s[i + 1] == '"' {
                skip_next = true;
            } else {
                in_verbatim = false;
                in_string = false;
            }
        }
        if !in_string {
            if ch == '{' {
                depth = depth + 1;
            } else if ch == '}' {
                depth = depth - 1;
                if depth == 0 {
                    assert(brace_step(s@, i as int, st).depth == 0);
                    return Some(i);
                }
            }
        }
        prev_char = ch;
        assert(BraceState { depth: depth as int, in_string, in_verbatim, prev: prev_char, skip_next } == brace_step(s@, i as int, st));
        i = i + 1;
    }
    None
}

} // verus!
