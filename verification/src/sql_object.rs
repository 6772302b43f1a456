//! Recognizing which database object a custom SQL statement creates or
//! alters (`CREATE [OR ALTER] | ALTER` + `PROCEDURE | VIEW | FUNCTION |
//! TRIGGER` + name), and deduplicating statements that target the same
//! object when migrations are squashed.
use vstd::prelude::*;
use crate::csharp::regex_word_char;
use crate::csharp::is_word_character;
use crate::parser::{stmts_view, KeepStrategy, SqlStatement};
use crate::text::{
    chars_of, is_ws, lead_end, lemma_lead_end, lemma_replace_absent, push_all, replace, replace_exec, skip_ws,
    string_of, to_ascii_upper, to_ascii_upper_exec,
};

verus! {

// ─── Upper-casing ───────────────────────────────────────────────────

/// What `str::to_uppercase` returns for a string with characters `s`
/// (full Unicode upper-casing).
pub uninterp spec fn unicode_upper(s: Seq<char>) -> Seq<char>;

/// Calls `str::to_uppercase`. Claimed: the result is `unicode_upper` of the
/// argument's characters, a function of those characters alone.
#[verifier::external_body]
fn to_uppercase(s: &str) -> (r: String)
    ensures
        r@ == unicode_upper(s@),
{
    s.to_uppercase()
}

// ─── Object grammar ─────────────────────────────────────────────────

/// `p` (upper-case ASCII) occurs at `i`, ignoring ASCII case.
pub open spec fn ci_at(s: Seq<char>, i: int, p: Seq<char>) -> bool {
    0 <= i && i + p.len() <= s.len() && to_ascii_upper(s.subrange(i, i + p.len())) == p
}

/// The end of the object-kind keyword at `k`, or -1.
pub open spec fn kind_end(s: Seq<char>, k: int) -> int {
    if ci_at(s, k, "PROCEDURE"@) {
        k + "PROCEDURE"@.len()
    } else if ci_at(s, k, "VIEW"@) {
        k + "VIEW"@.len()
    } else if ci_at(s, k, "FUNCTION"@) {
        k + "FUNCTION"@.len()
    } else if ci_at(s, k, "TRIGGER"@) {
        k + "TRIGGER"@.len()
    } else {
        -1
    }
}

/// Characters allowed in a name part: word characters and `.`.
pub open spec fn name_char(c: char) -> bool {
    regex_word_char(c) || c == '.'
}

pub open spec fn name_chars_end(s: Seq<char>, i: int) -> int
    decreases s.len() - i,
{
    if 0 <= i < s.len() && name_char(s[i]) {
        name_chars_end(s, i + 1)
    } else {
        i
    }
}

/// One name part `\[?[\w.]+\]?` at `p`: its end, or -1.
pub open spec fn name_part(s: Seq<char>, p: int) -> int {
    let q = if 0 <= p < s.len() && s[p] == '[' {
        p + 1
    } else {
        p
    };
    let r = name_chars_end(s, q);
    if r <= q {
        -1
    } else if r < s.len() && s[r] == ']' {
        r + 1
    } else {
        r
    }
}

/// After a name part ending at `e`: further `.`-separated parts.
pub open spec fn name_end_from(s: Seq<char>, e: int) -> int
    decreases s.len() - e,
{
    if 0 <= e < s.len() && s[e] == '.' {
        let t = name_part(s, e + 1);
        if e + 1 < t <= s.len() {
            name_end_from(s, t)
        } else {
            e
        }
    } else {
        e
    }
}

/// Keyword, whitespace and name from `k`: (kind start, kind end, name
/// start, name end).
pub open spec fn kind_and_name(s: Seq<char>, k: int) -> Option<(int, int, int, int)> {
    let ke = kind_end(s, k);
    if ke < 0 {
        None
    } else {
        let m = lead_end(s, ke);
        if m <= ke {
            None
        } else {
            let t = name_part(s, m);
            if t <= m {
                None
            } else {
                Some((k, ke, m, name_end_from(s, t)))
            }
        }
    }
}

/// A match of `(?i)(?:CREATE\s+(?:OR\s+ALTER\s+)?|ALTER\s+)` followed by
/// the kind and name, starting at `i`.
pub open spec fn obj_match_at(s: Seq<char>, i: int) -> Option<(int, int, int, int)> {
    if ci_at(s, i, "CREATE"@) {
        let b = lead_end(s, i + "CREATE"@.len());
        if b > i + "CREATE"@.len() {
            let with_or = if ci_at(s, b, "OR"@) {
                let d = lead_end(s, b + "OR"@.len());
                if d > b + "OR"@.len() && ci_at(s, d, "ALTER"@) {
                    let f = lead_end(s, d + "ALTER"@.len());
                    if f > d + "ALTER"@.len() {
                        kind_and_name(s, f)
                    } else {
                        None
                    }
                } else {
                    None
                }
            } else {
                None
            };
            if with_or is Some {
                with_or
            } else {
                kind_and_name(s, b)
            }
        } else {
            None
        }
    } else if ci_at(s, i, "ALTER"@) {
        let b = lead_end(s, i + "ALTER"@.len());
        if b > i + "ALTER"@.len() {
            kind_and_name(s, b)
        } else {
            None
        }
    } else {
        None
    }
}

/// The leftmost object match at or after `i`.
pub open spec fn obj_find_from(s: Seq<char>, i: int) -> Option<(int, int, int, int)>
    decreases s.len() - i,
{
    if i < 0 || i >= s.len() {
        None
    } else {
        match obj_match_at(s, i) {
            Some(m) => Some(m),
            None => obj_find_from(s, i + 1),
        }
    }
}

/// The object a statement targets, as `KIND.NAME`: the kind upper-cased,
/// the name with brackets removed and upper-cased; `None` when the
/// statement creates or alters no procedure, view, function or trigger.
pub open spec fn object_key(sql: Seq<char>) -> Option<Seq<char>> {
    match obj_find_from(sql, 0) {
        Some((k, ke, m, ne)) => Some(
            to_ascii_upper(sql.subrange(k, ke)) + seq!['.'] + unicode_upper(
                replace(replace(sql.subrange(m, ne), seq!['['], Seq::empty()), seq![']'], Seq::empty()),
            ),
        ),
        None => None,
    }
}

// ─── Executable matcher ─────────────────────────────────────────────

pub proof fn lemma_name_chars_end(s: Seq<char>, i: int)
    requires
        0 <= i <= s.len(),
    ensures
        i <= name_chars_end(s, i) <= s.len(),
    decreases s.len() - i,
{
    if i < s.len() && name_char(s[i]) {
        lemma_name_chars_end(s, i + 1);
    }
}

pub proof fn lemma_name_end_from(s: Seq<char>, e: int)
    requires
        0 <= e <= s.len(),
    ensures
        e <= name_end_from(s, e) <= s.len(),
    decreases s.len() - e,
{
    if e < s.len() && s[e] == '.' {
        let t = name_part(s, e + 1);
        if e + 1 < t <= s.len() {
            lemma_name_end_from(s, t);
        }
    }
}

/// Literal operands for the object matcher.
pub struct ObjWords {
    pub create: Vec<char>,
    pub or: Vec<char>,
    pub alter: Vec<char>,
    pub procedure: Vec<char>,
    pub view: Vec<char>,
    pub function: Vec<char>,
    pub trigger: Vec<char>,
}

impl ObjWords {
    pub open spec fn wf(&self) -> bool {
        &&& self.create@ == "CREATE"@
        &&& self.or@ == "OR"@
        &&& self.alter@ == "ALTER"@
        &&& self.procedure@ == "PROCEDURE"@
        &&& self.view@ == "VIEW"@
        &&& self.function@ == "FUNCTION"@
        &&& self.trigger@ == "TRIGGER"@
    }

    pub fn new() -> (w: Self)
        ensures
            w.wf(),
    {
        ObjWords {
            create: chars_of("CREATE"),
            or: chars_of("OR"),
            alter: chars_of("ALTER"),
            procedure: chars_of("PROCEDURE"),
            view: chars_of("VIEW"),
            function: chars_of("FUNCTION"),
            trigger: chars_of("TRIGGER"),
        }
    }
}

/// `p` occurs at `i` ignoring ASCII case (`p` is upper-case ASCII).
pub fn ci_at_exec(s: &[char], i: usize, p: &[char]) -> (b: bool)
    ensures
        b == ci_at(s@, i as int, p@),
{
    assert(s@.len() == s.len());
    if i > s.len() || p.len() > s.len() - i {
        return false;
    }
    let mut k: usize = 0;
    while k < p.len()
        invariant
            i + p@.len() <= s@.len(),
            i + p.len() <= s.len(),
            k <= p.len(),
            forall|j: int| 0 <= j < k ==> crate::text::ascii_upper(s@[i + j]) == p@[j],
        decreases p@.len() - k,
    {
        if crate::text::ascii_upper_exec(s[i + k]) != p[k] {
            assert(to_ascii_upper(s@.subrange(i as int, i + p@.len()))[k as int] != p@[k as int]);
            return false;
        }
        k = k + 1;
    }
    assert(to_ascii_upper(s@.subrange(i as int, i + p@.len())) =~= p@);
    true
}

fn kind_end_exec(s: &[char], k: usize, w: &ObjWords) -> (r: Option<usize>)
    requires
        w.wf(),
        k <= s@.len(),
    ensures
        r matches Some(e) ==> kind_end(s@, k as int) == e as int && k < e <= s@.len(),
        r is None ==> kind_end(s@, k as int) == -1,
{
    assert(s@.len() == s.len());
    proof {
        reveal_strlit("PROCEDURE");
        reveal_strlit("VIEW");
        reveal_strlit("FUNCTION");
        reveal_strlit("TRIGGER");
    }
    if ci_at_exec(s, k, w.procedure.as_slice()) {
        Some(k + w.procedure.len())
    } else if ci_at_exec(s, k, w.view.as_slice()) {
        Some(k + w.view.len())
    } else if ci_at_exec(s, k, w.function.as_slice()) {
        Some(k + w.function.len())
    } else if ci_at_exec(s, k, w.trigger.as_slice()) {
        Some(k + w.trigger.len())
    } else {
        None
    }
}

fn name_chars_end_exec(s: &[char], i: usize) -> (r: usize)
    requires
        i <= s@.len(),
    ensures
        r == name_chars_end(s@, i as int),
        i <= r <= s@.len(),
{
    let mut k: usize = i;
    while k < s.len() && (is_word_character(s[k]) || s[k] == '.')
        invariant
            i <= k <= s@.len(),
            name_chars_end(s@, i as int) == name_chars_end(s@, k as int),
        decreases s@.len() - k,
    {
        k = k + 1;
    }
    k
}

fn name_part_exec(s: &[char], p: usize) -> (r: Option<usize>)
    requires
        p <= s@.len(),
    ensures
        r matches Some(t) ==> name_part(s@, p as int) == t as int && p < t <= s@.len(),
        r is None ==> name_part(s@, p as int) <= p,
{
    let q = if p < s.len() && s[p] == '[' {
        p + 1
    } else {
        p
    };
    let r = name_chars_end_exec(s, q);
    if r <= q {
        None
    } else if r < s.len() && s[r] == ']' {
        Some(r + 1)
    } else {
        Some(r)
    }
}

fn name_end_from_exec(s: &[char], e: usize) -> (r: usize)
    requires
        e <= s@.len(),
    ensures
        r == name_end_from(s@, e as int),
        e <= r <= s@.len(),
{
    let mut k: usize = e;
    while k < s.len() && s[k] == '.'
        invariant
            e <= k <= s@.len(),
            name_end_from(s@, e as int) == name_end_from(s@, k as int),
        decreases s@.len() - k,
    {
        match name_part_exec(s, k + 1) {
            Some(t) => {
                k = t;
            },
            None => {
                return k;
            },
        }
    }
    k
}

fn kind_and_name_exec(s: &[char], k: usize, w: &ObjWords) -> (r: Option<(usize, usize, usize, usize)>)
    requires
        w.wf(),
        k <= s@.len(),
    ensures
        r matches Some((a, b, c, d)) ==> kind_and_name(s@, k as int) == Some(
            (a as int, b as int, c as int, d as int),
        ) && a < b < c < d <= s@.len(),
        r is None ==> kind_and_name(s@, k as int) is None,
{
    match kind_end_exec(s, k, w) {
        Some(ke) => {
            let m = skip_ws(s, ke);
            if m <= ke {
                return None;
            }
            match name_part_exec(s, m) {
                Some(t) => {
                    let ne = name_end_from_exec(s, t);
                    Some((k, ke, m, ne))
                },
                None => None,
            }
        },
        None => None,
    }
}

fn obj_match_at_exec(s: &[char], i: usize, w: &ObjWords) -> (r: Option<(usize, usize, usize, usize)>)
    requires
        w.wf(),
        i <= s@.len(),
    ensures
        r matches Some((a, b, c, d)) ==> obj_match_at(s@, i as int) == Some(
            (a as int, b as int, c as int, d as int),
        ) && a < b < c < d <= s@.len(),
        r is None ==> obj_match_at(s@, i as int) is None,
{
    assert(s@.len() == s.len());
    if ci_at_exec(s, i, w.create.as_slice()) {
        let b = skip_ws(s, i + w.create.len());
        if b > i + w.create.len() {
            if ci_at_exec(s, b, w.or.as_slice()) {
                let d = skip_ws(s, b + w.or.len());
                if d > b + w.or.len() && ci_at_exec(s, d, w.alter.as_slice()) {
                    let f = skip_ws(s, d + w.alter.len());
                    if f > d + w.alter.len() {
                        let m = kind_and_name_exec(s, f, w);
                        if m.is_some() {
                            return m;
                        }
                    }
                }
            }
            kind_and_name_exec(s, b, w)
        } else {
            None
        }
    } else if ci_at_exec(s, i, w.alter.as_slice()) {
        let b = skip_ws(s, i + w.alter.len());
        if b > i + w.alter.len() {
            kind_and_name_exec(s, b, w)
        } else {
            None
        }
    } else {
        None
    }
}

/// The object key of one statement (see `object_key`).
pub fn object_key_exec(sql: &[char]) -> (r: Option<Vec<char>>)
    ensures
        r matches Some(v) ==> object_key(sql@) == Some(v@),
        r is None ==> object_key(sql@) is None,
{
    let w = ObjWords::new();
    let mut i: usize = 0;
    while i < sql.len()
        invariant
            w.wf(),
            i <= sql@.len(),
            obj_find_from(sql@, 0) == obj_find_from(sql@, i as int),
        decreases sql@.len() - i,
    {
        match obj_match_at_exec(sql, i, &w) {
            Some((k, ke, m, ne)) => {
                let mut kind: Vec<char> = Vec::new();
                let mut p: usize = k;
                while p < ke
                    invariant
                        k <= p <= ke <= sql@.len(),
                        kind@ == sql@.subrange(k as int, p as int),
                    decreases ke - p,
                {
                    kind.push(sql[p]);
                    p = p + 1;
                }
                let mut name: Vec<char> = Vec::new();
                let mut p: usize = m;
                while p < ne
                    invariant
                        m <= p <= ne <= sql@.len(),
                        name@ == sql@.subrange(m as int, p as int),
                    decreases ne - p,
                {
                    name.push(sql[p]);
                    p = p + 1;
                }
                let empty: Vec<char> = Vec::new();
                let n1 = replace_exec(name.as_slice(), crate::parser::one_char('[').as_slice(), empty.as_slice());
                let n2 = replace_exec(n1.as_slice(), crate::parser::one_char(']').as_slice(), empty.as_slice());
                assert(empty@ =~= Seq::<char>::empty());
                let upper_name = to_uppercase(string_of(n2.as_slice()).as_str());
                let mut key = to_ascii_upper_exec(kind.as_slice());
                key.push('.');
                let un = chars_of(upper_name.as_str());
                push_all(&mut key, un.as_slice());
                return Some(key);
            },
            None => {
                i = i + 1;
            },
        }
    }
    None
}

/// The `KIND.NAME` of the object a statement creates or alters, if any.
pub fn extract_sql_object_name(sql: &str) -> (r: Option<String>)
    ensures
        r matches Some(v) ==> object_key(sql@) == Some(v@),
        r is None ==> object_key(sql@) is None,
{
    let s = chars_of(sql);
    match object_key_exec(s.as_slice()) {
        Some(v) => Some(string_of(v.as_slice())),
        None => None,
    }
}

// ─── Deduplication ──────────────────────────────────────────────────

/// Whether statement `i` survives deduplication: statements without a
/// recognized object always do; otherwise the last (`last`) or first
/// statement for each object does.
pub open spec fn kept(keys: Seq<Option<Seq<char>>>, last: bool, i: int) -> bool {
    match keys[i] {
        None => true,
        Some(k) => if last {
            forall|j: int| i < j < keys.len() ==> keys[j] != Some(k)
        } else {
            forall|j: int| 0 <= j < i ==> keys[j] != Some(k)
        },
    }
}

/// The elements of `s[..n]` whose index is kept, in order.
pub open spec fn kept_prefix<A>(s: Seq<A>, keys: Seq<Option<Seq<char>>>, last: bool, n: int) -> Seq<A>
    decreases n,
{
    if n <= 0 {
        Seq::empty()
    } else if kept(keys, last, n - 1) {
        kept_prefix(s, keys, last, n - 1).push(s[n - 1])
    } else {
        kept_prefix(s, keys, last, n - 1)
    }
}

pub open spec fn keys_of(v: Seq<SqlStatement>) -> Seq<Option<Seq<char>>> {
    v.map_values(|s: SqlStatement| object_key(s.sql@))
}

pub open spec fn is_last(strategy: KeepStrategy) -> bool {
    strategy is Last
}

pub open spec fn opt_view(o: Option<Vec<char>>) -> Option<Seq<char>> {
    match o {
        Some(v) => Some(v@),
        None => None,
    }
}

pub open spec fn names_view(v: Seq<Option<Vec<char>>>) -> Seq<Option<Seq<char>>> {
    v.map_values(|o: Option<Vec<char>>| opt_view(o))
}

fn opt_eq(a: &Option<Vec<char>>, b: &Option<Vec<char>>) -> (r: bool)
    ensures
        r == (opt_view(*a) == opt_view(*b)),
{
    match (a, b) {
        (Some(x), Some(y)) => crate::text::eq_chars(x.as_slice(), y.as_slice()),
        (None, None) => true,
        _ => false,
    }
}

impl crate::parser::MigrationParser {
    /// Deduplicate SQL statements targeting the same database object:
    /// `KeepStrategy::Last` keeps the newest version (for Up),
    /// `KeepStrategy::First` the oldest (for Down, reverting to the
    /// pre-squash state). Statements that target no recognized object are
    /// all kept, and the order is preserved.
    pub fn deduplicate_sql(statements: Vec<SqlStatement>, strategy: KeepStrategy) -> (r: Vec<
        SqlStatement,
    >)
        ensures
            stmts_view(r@) == kept_prefix(
                stmts_view(statements@),
                keys_of(statements@),
                is_last(strategy),
                statements@.len() as int,
            ),
    {
        let last = match strategy {
            KeepStrategy::Last => true,
            KeepStrategy::First => false,
        };
        let ghost keys = keys_of(statements@);
        let mut names: Vec<Option<Vec<char>>> = Vec::new();
        for i in 0..statements.len()
            invariant
                keys == keys_of(statements@),
                names@.len() == i,
                forall|j: int| 0 <= j < i ==> opt_view(#[trigger] names@[j]) == keys[j],
        {
            let sc = chars_of(statements[i].sql.as_str());
            names.push(object_key_exec(sc.as_slice()));
        }
        let mut out: Vec<SqlStatement> = Vec::new();
        let ghost sv = stmts_view(statements@);
        assert(names_view(names@) =~= keys);
        for i in 0..statements.len()
            invariant
                keys == keys_of(statements@),
                sv == stmts_view(statements@),
                last == is_last(strategy),
                names@.len() == statements@.len(),
                names_view(names@) == keys,
                stmts_view(out@) == kept_prefix(sv, keys, last, i as int),
        {
            let keep = Self::is_kept(&names, i, last);
            let ghost old_out = out@;
            if keep {
                out.push(statements[i].duplicate());
                assert(stmts_view(out@) =~= stmts_view(old_out).push(sv[i as int]));
            }
        }
        out
    }

    fn is_kept(names: &Vec<Option<Vec<char>>>, i: usize, last: bool) -> (r: bool)
        requires
            i < names@.len(),
        ensures
            r == kept(names_view(names@), last, i as int),
    {
        let ghost keys = names_view(names@);
        assert(names@.len() == names.len());
        if names[i].is_none() {
            return true;
        }
        if last {
            assert(names@.len() == names.len());
            let mut j: usize = i + 1;
            while j < names.len()
                invariant
                    i < j <= names@.len(),
                    last,
                    keys == names_view(names@),
                    keys[i as int] is Some,
                    forall|t: int| i < t < j ==> keys[t] != keys[i as int],
                decreases names@.len() - j,
            {
                if opt_eq(&names[j], &names[i]) {
                    assert(keys[j as int] == opt_view(names@[j as int]));
                    assert(keys[i as int] == opt_view(names@[i as int]));
                    assert(keys[j as int] == keys[i as int]);
                    return false;
                }
                j = j + 1;
            }
            true
        } else {
            let mut j: usize = 0;
            while j < i
                invariant
                    j <= i < names@.len(),
                    !last,
                    keys == names_view(names@),
                    keys[i as int] is Some,
                    forall|t: int| 0 <= t < j ==> keys[t] != keys[i as int],
                decreases i - j,
            {
                if opt_eq(&names[j], &names[i]) {
                    assert(keys[j as int] == opt_view(names@[j as int]));
                    assert(keys[i as int] == opt_view(names@[i as int]));
                    assert(keys[j as int] == keys[i as int]);
                    return false;
                }
                j = j + 1;
            }
            true
        }
    }
}

// ─── Laws of deduplication ──────────────────────────────────────────

/// No two statements that survive deduplication target the same object.
pub proof fn lemma_dedup_targets_distinct(keys: Seq<Option<Seq<char>>>, last: bool, i: int, j: int)
    requires
        0 <= i < j < keys.len(),
        kept(keys, last, i),
        kept(keys, last, j),
        keys[i] is Some,
    ensures
        keys[i] != keys[j],
{
}

/// Every object targeted by some statement is still targeted after
/// deduplication: by its last statement under `Last`, by its first under
/// `First`.
pub proof fn lemma_dedup_keeps_every_target(keys: Seq<Option<Seq<char>>>, last: bool, i: int)
    requires
        0 <= i < keys.len(),
    ensures
        exists|j: int| 0 <= j < keys.len() && keys[j] == keys[i] && #[trigger] kept(keys, last, j),
    decreases (if last {
        keys.len() - i
    } else {
        i + 1
    }),
{
    if kept(keys, last, i) {
        assert(kept(keys, last, i));
    } else {
        let k = keys[i]->Some_0;
        if last {
            let j = choose|j: int| i < j < keys.len() && keys[j] == Some(k);
            lemma_dedup_keeps_every_target(keys, last, j);
        } else {
            let j = choose|j: int| 0 <= j < i && keys[j] == Some(k);
            lemma_dedup_keeps_every_target(keys, last, j);
        }
    }
}

/// Deduplication keeps the statements in their original order: the result
/// is the kept statements of the input, each kept one appearing.
pub proof fn lemma_dedup_subsequence<A>(s: Seq<A>, keys: Seq<Option<Seq<char>>>, last: bool, n: int)
    requires
        0 <= n <= s.len(),
    ensures
        kept_prefix(s, keys, last, n).len() <= n,
        forall|i: int|
            0 <= i < n && kept(keys, last, i) ==> kept_prefix(s, keys, last, n).contains(
                #[trigger] s[i],
            ),
    decreases n,
{
    if n > 0 {
        lemma_dedup_subsequence(s, keys, last, n - 1);
        let p = kept_prefix(s, keys, last, n - 1);
        assert forall|i: int| 0 <= i < n && kept(keys, last, i) implies kept_prefix(
            s,
            keys,
            last,
            n,
        ).contains(#[trigger] s[i]) by {
            if i < n - 1 {
                let w = choose|w: int| 0 <= w < p.len() && p[w] == s[i];
                if kept(keys, last, n - 1) {
                    assert(p.push(s[n - 1])[w] == s[i]);
                }
            } else {
                assert(p.push(s[n - 1])[p.len() as int] == s[n - 1]);
            }
        }
    }
}

/// Deduplication keeps exactly the elements whose index is kept, in
/// order: the `m`-th kept element is `s[f(m)]`, `f` increases, and each
/// kept index below `n` is some `f(m)`.
pub proof fn lemma_dedup_index_map<A>(s: Seq<A>, keys: Seq<Option<Seq<char>>>, last: bool, n: int) -> (f: spec_fn(int) -> int)
    requires
        0 <= n <= s.len(),
    ensures
        forall|m: int|
            0 <= m < kept_prefix(s, keys, last, n).len() ==> 0 <= #[trigger] f(m) < n && kept(keys, last, f(m))
                && kept_prefix(s, keys, last, n)[m] == s[f(m)],
        forall|m1: int, m2: int|
            0 <= m1 < m2 < kept_prefix(s, keys, last, n).len() ==> #[trigger] f(m1) < #[trigger] f(m2),
        forall|i: int|
            0 <= i < n && kept(keys, last, i) ==> exists|m: int|
                0 <= m < kept_prefix(s, keys, last, n).len() && #[trigger] f(m) == i,
    decreases n,
{
    if n == 0 {
        |m: int| 0
    } else {
        let g = lemma_dedup_index_map(s, keys, last, n - 1);
        let p = kept_prefix(s, keys, last, n - 1);
        if kept(keys, last, n - 1) {
            let f = |m: int| if m < p.len() { g(m) } else { n - 1 };
            let r = kept_prefix(s, keys, last, n);
            assert(r == p.push(s[n - 1]));
            assert forall|m: int| 0 <= m < r.len() implies 0 <= #[trigger] f(m) < n && kept(keys, last, f(m))
                && r[m] == s[f(m)] by {
                if m < p.len() {
                    assert(g(m) == f(m));
                }
            }
            assert forall|m1: int, m2: int| 0 <= m1 < m2 < r.len() implies #[trigger] f(m1) < #[trigger] f(m2) by {
                if m2 < p.len() {
                    assert(g(m1) < g(m2));
                } else {
                    assert(g(m1) < n - 1);
                }
            }
            assert forall|i: int| 0 <= i < n && kept(keys, last, i) implies exists|m: int|
                0 <= m < r.len() && #[trigger] f(m) == i by {
                if i < n - 1 {
                    let m = choose|m: int| 0 <= m < p.len() && #[trigger] g(m) == i;
                    assert(f(m) == i);
                } else {
                    assert(f(p.len() as int) == i);
                }
            }
            f
        } else {
            g
        }
    }
}

/// Statements that target no recognized object all survive.
pub proof fn lemma_dedup_keeps_untargeted(keys: Seq<Option<Seq<char>>>, last: bool, i: int)
    requires
        0 <= i < keys.len(),
        keys[i] is None,
    ensures
        kept(keys, last, i),
{
}

// ─── Which statements name an object ────────────────────────────────

proof fn lemma_lead_end_to(s: Seq<char>, i: int, j: int)
    requires
        0 <= i <= j <= s.len(),
        forall|k: int| i <= k < j ==> is_ws(#[trigger] s[k]),
        j == s.len() || !is_ws(s[j]),
    ensures
        lead_end(s, i) == j,
    decreases j - i,
{
    if i < j {
        lemma_lead_end_to(s, i + 1, j);
    }
}

proof fn lemma_name_chars_end_to(s: Seq<char>, i: int, j: int)
    requires
        0 <= i <= j <= s.len(),
        forall|k: int| i <= k < j ==> name_char(#[trigger] s[k]),
        j == s.len() || !name_char(s[j]),
    ensures
        name_chars_end(s, i) == j,
    decreases j - i,
{
    if i < j {
        lemma_name_chars_end_to(s, i + 1, j);
    }
}

/// ASCII upper-casing maps whitespace to itself and nothing else to
/// whitespace, and lower-case letters to upper-case ones.
proof fn lemma_ascii_upper_char(c: char)
    ensures
        is_ws(crate::text::ascii_upper(c)) == is_ws(c),
        ('A' <= crate::text::ascii_upper(c) <= 'Z') ==> !is_ws(c),
        crate::text::ascii_upper(c) == ' ' ==> c == ' ',
{
    if 'a' <= c && c <= 'z' {
        assert('A' <= crate::text::ascii_upper(c) <= 'Z');
    }
}

/// `p` stands at `k` in the ASCII upper case of `s`.
proof fn lemma_ci_at_here(s: Seq<char>, k: int, p: Seq<char>)
    requires
        0 <= k,
        k + p.len() <= s.len(),
        to_ascii_upper(s).subrange(k, k + p.len()) == p,
    ensures
        ci_at(s, k, p),
{
    assert(to_ascii_upper(s.subrange(k, k + p.len())) =~= to_ascii_upper(s).subrange(k, k + p.len()));
}

/// A keyword whose first letter differs from the character at `k` (an
/// ASCII letter) does not stand at `k`.
proof fn lemma_ci_at_not_here(s: Seq<char>, k: int, p: Seq<char>)
    requires
        0 <= k < s.len(),
        p.len() > 0,
        'A' <= crate::text::ascii_upper(s[k]) <= 'Z',
        crate::text::ascii_upper(s[k]) != p[0],
    ensures
        !ci_at(s, k, p),
{
    if ci_at(s, k, p) {
        assert(to_ascii_upper(s.subrange(k, k + p.len()))[0] == p[0]);
    }
}

/// The keyword `kw` (a kind in any ASCII case), whitespace and name at
/// `k`.
proof fn lemma_kind_and_name_at(
    pre: Seq<char>,
    kw: Seq<char>,
    gap: Seq<char>,
    name: Seq<char>,
    rest: Seq<char>,
)
    requires
        to_ascii_upper(kw) == "PROCEDURE"@ || to_ascii_upper(kw) == "VIEW"@ || to_ascii_upper(kw)
            == "FUNCTION"@ || to_ascii_upper(kw) == "TRIGGER"@,
        gap.len() > 0,
        forall|i: int| 0 <= i < gap.len() ==> is_ws(#[trigger] gap[i]),
        name.len() > 0,
        !is_ws(name[0]),
        forall|i: int| 0 <= i < name.len() ==> name_char(#[trigger] name[i]) && name[i] != '[',
        rest.len() == 0 || (!name_char(rest[0]) && rest[0] != ']'),
    ensures
        ({
            let s = pre + kw + gap + name + rest;
            let k = pre.len() as int;
            let m = k + kw.len() + gap.len();
            &&& 'A' <= crate::text::ascii_upper(s[k]) <= 'Z'
            &&& crate::text::ascii_upper(s[k]) != 'O'
            &&& kind_and_name(s, k) == Some((k, k + kw.len(), m, m + name.len()))
        }),
{
    reveal_strlit("PROCEDURE");
    reveal_strlit("VIEW");
    reveal_strlit("FUNCTION");
    reveal_strlit("TRIGGER");
    let kind = to_ascii_upper(kw);
    let s = pre + kw + gap + name + rest;
    let u = to_ascii_upper(s);
    let k = pre.len() as int;
    let ke = k + kw.len();
    let m = ke + gap.len();
    let ne = m + name.len();
    assert(u.subrange(k, ke) =~= kind) by {
        assert forall|j: int| 0 <= j < kw.len() implies #[trigger] u.subrange(k, ke)[j] == kind[j] by {
            assert(s[k + j] == kw[j]);
        }
    }
    lemma_ci_at_here(s, k, kind);
    assert(s[k] == kw[0]);
    assert(crate::text::ascii_upper(s[k]) == kind[0]);
    if kind != "PROCEDURE"@ {
        lemma_ci_at_not_here(s, k, "PROCEDURE"@);
    }
    if kind != "PROCEDURE"@ && kind != "VIEW"@ {
        lemma_ci_at_not_here(s, k, "VIEW"@);
    }
    if kind == "TRIGGER"@ {
        lemma_ci_at_not_here(s, k, "FUNCTION"@);
    }
    assert(kind_end(s, k) == ke);
    assert forall|i: int| ke <= i < m implies is_ws(#[trigger] s[i]) by {
        assert(s[i] == gap[i - ke]);
    }
    assert(s[m] == name[0]);
    lemma_lead_end_to(s, ke, m);
    assert forall|i: int| m <= i < ne implies name_char(#[trigger] s[i]) by {
        assert(s[i] == name[i - m]);
    }
    if rest.len() > 0 {
        assert(s[ne] == rest[0]);
    }
    lemma_name_chars_end_to(s, m, ne);
    assert(s[m] != '[');
    assert(name_part(s, m) == ne);
    assert(name_end_from(s, ne) == ne);
}

proof fn lemma_obj_match_create(s: Seq<char>)
    requires
        s.len() > 7,
        to_ascii_upper(s).subrange(0, 7) == "CREATE "@,
        'A' <= crate::text::ascii_upper(s[7]) <= 'Z',
        crate::text::ascii_upper(s[7]) != 'O',
    ensures
        obj_match_at(s, 0) == kind_and_name(s, 7),
{
    reveal_strlit("CREATE ");
    reveal_strlit("CREATE");
    reveal_strlit("OR");
    let u = to_ascii_upper(s);
    let t = u.subrange(0, 7);
    assert(u.subrange(0, 6) =~= "CREATE"@) by {
        assert(forall|i: int| 0 <= i < 6 ==> u.subrange(0, 6)[i] == #[trigger] t[i]);
    }
    assert(t[6] == ' ');
    assert(u[6] == t[6]);
    lemma_ascii_upper_char(s[6]);
    lemma_ascii_upper_char(s[7]);
    lemma_ci_at_here(s, 0, "CREATE"@);
    lemma_lead_end_to(s, 6, 7);
    lemma_ci_at_not_here(s, 7, "OR"@);
}

proof fn lemma_obj_match_create_or_alter(s: Seq<char>)
    requires
        s.len() > 16,
        to_ascii_upper(s).subrange(0, 16) == "CREATE OR ALTER "@,
        !is_ws(s[16]),
        kind_and_name(s, 16) is Some,
    ensures
        obj_match_at(s, 0) == kind_and_name(s, 16),
{
    reveal_strlit("CREATE OR ALTER ");
    reveal_strlit("CREATE");
    reveal_strlit("OR");
    reveal_strlit("ALTER");
    let u = to_ascii_upper(s);
    let t = u.subrange(0, 16);
    assert(forall|i: int| 0 <= i < 16 ==> u[i] == #[trigger] t[i]);
    assert(t[6] == ' ' && t[7] == 'O' && t[8] == 'R' && t[9] == ' ' && t[10] == 'A' && t[15] == ' ');
    assert(t[11] == 'L' && t[12] == 'T' && t[13] == 'E' && t[14] == 'R');
    assert(u.subrange(0, 6) =~= "CREATE"@) by {
        assert(forall|i: int| 0 <= i < 6 ==> u.subrange(0, 6)[i] == #[trigger] t[i]);
    }
    lemma_ascii_upper_char(s[6]);
    lemma_ascii_upper_char(s[7]);
    lemma_ascii_upper_char(s[9]);
    lemma_ascii_upper_char(s[10]);
    lemma_ascii_upper_char(s[15]);
    lemma_ci_at_here(s, 0, "CREATE"@);
    lemma_lead_end_to(s, 6, 7);
    assert(u.subrange(7, 9) =~= "OR"@) by {
        assert(forall|i: int| 0 <= i < 2 ==> u.subrange(7, 9)[i] == #[trigger] t[i + 7]);
    }
    lemma_ci_at_here(s, 7, "OR"@);
    lemma_lead_end_to(s, 9, 10);
    assert(u.subrange(10, 15) =~= "ALTER"@) by {
        assert(forall|i: int| 0 <= i < 5 ==> u.subrange(10, 15)[i] == #[trigger] t[i + 10]);
    }
    lemma_ci_at_here(s, 10, "ALTER"@);
    lemma_lead_end_to(s, 15, 16);
}

proof fn lemma_obj_match_alter(s: Seq<char>)
    requires
        s.len() > 6,
        to_ascii_upper(s).subrange(0, 6) == "ALTER "@,
        !is_ws(s[6]),
    ensures
        obj_match_at(s, 0) == kind_and_name(s, 6),
{
    reveal_strlit("ALTER ");
    reveal_strlit("CREATE");
    reveal_strlit("ALTER");
    let u = to_ascii_upper(s);
    let t = u.subrange(0, 6);
    assert(u.subrange(0, 5) =~= "ALTER"@) by {
        assert(forall|i: int| 0 <= i < 5 ==> u.subrange(0, 5)[i] == #[trigger] t[i]);
    }
    assert(t[5] == ' ');
    assert(u[5] == t[5]);
    assert(t[0] == 'A');
    assert(u[0] == t[0]);
    lemma_ascii_upper_char(s[5]);
    lemma_ci_at_not_here(s, 0, "CREATE"@);
    lemma_ci_at_here(s, 0, "ALTER"@);
    lemma_lead_end_to(s, 5, 6);
}

/// The key of a statement whose first object match covers the keyword
/// `kw` at `k` and the name at `m`.
proof fn lemma_key_of_match(s: Seq<char>, kw: Seq<char>, name: Seq<char>, k: int, m: int)
    requires
        0 <= k,
        k + kw.len() <= m,
        m + name.len() <= s.len(),
        obj_find_from(s, 0) == Some((k, k + kw.len(), m, m + name.len())),
        s.subrange(k, k + kw.len()) == kw,
        s.subrange(m, m + name.len()) == name,
        forall|i: int| 0 <= i < name.len() ==> #[trigger] name[i] != '[' && name[i] != ']',
    ensures
        object_key(s) == Some(to_ascii_upper(kw) + seq!['.'] + unicode_upper(name)),
{
    assert forall|i: int| !#[trigger] crate::text::matches_at(name, i, seq!['[']) by {
        if crate::text::matches_at(name, i, seq!['[']) {
            assert(name.subrange(i, i + 1)[0] == name[i]);
        }
    }
    lemma_replace_absent(name, seq!['['], Seq::empty());
    assert forall|i: int| !#[trigger] crate::text::matches_at(name, i, seq![']']) by {
        if crate::text::matches_at(name, i, seq![']']) {
            assert(name.subrange(i, i + 1)[0] == name[i]);
        }
    }
    lemma_replace_absent(name, seq![']'], Seq::empty());
}

/// A statement that creates or alters a procedure, view, function or
/// trigger (`CREATE`, `ALTER` or `CREATE OR ALTER` in any ASCII case, the
/// kind in any ASCII case, whitespace, then the name, which ends where the
/// name characters end) targets the object `KIND.NAME`: the kind and the
/// name upper-cased.
pub proof fn lemma_object_key_of_statement(
    lead: Seq<char>,
    kind: Seq<char>,
    gap: Seq<char>,
    name: Seq<char>,
    rest: Seq<char>,
)
    requires
        to_ascii_upper(lead) == "CREATE "@ || to_ascii_upper(lead) == "ALTER "@ || to_ascii_upper(lead)
            == "CREATE OR ALTER "@,
        to_ascii_upper(kind) == "PROCEDURE"@ || to_ascii_upper(kind) == "VIEW"@ || to_ascii_upper(kind)
            == "FUNCTION"@ || to_ascii_upper(kind) == "TRIGGER"@,
        gap.len() > 0,
        forall|i: int| 0 <= i < gap.len() ==> is_ws(#[trigger] gap[i]),
        name.len() > 0,
        !is_ws(name[0]),
        forall|i: int|
            0 <= i < name.len() ==> name_char(#[trigger] name[i]) && name[i] != '[' && name[i] != ']',
        rest.len() == 0 || (!name_char(rest[0]) && rest[0] != ']'),
    ensures
        object_key(lead + kind + gap + name + rest) == Some(
            to_ascii_upper(kind) + seq!['.'] + unicode_upper(name),
        ),
{
    reveal_strlit("CREATE ");
    reveal_strlit("ALTER ");
    reveal_strlit("CREATE OR ALTER ");
    let s = lead + kind + gap + name + rest;
    let u = to_ascii_upper(s);
    let k = lead.len() as int;
    let ke = k + kind.len();
    let m = ke + gap.len();
    let ne = m + name.len();
    lemma_kind_and_name_at(lead, kind, gap, name, rest);
    assert(u.subrange(0, k) =~= to_ascii_upper(lead)) by {
        assert forall|j: int| 0 <= j < k implies #[trigger] u.subrange(0, k)[j] == to_ascii_upper(lead)[j] by {
            assert(s[j] == lead[j]);
        }
    }
    lemma_ascii_upper_char(s[k]);
    if to_ascii_upper(lead) == "ALTER "@ {
        lemma_obj_match_alter(s);
    } else if to_ascii_upper(lead) == "CREATE "@ {
        lemma_obj_match_create(s);
    } else {
        lemma_obj_match_create_or_alter(s);
    }
    assert(obj_find_from(s, 0) == Some((k, ke, m, ne)));
    assert(s.subrange(k, ke) =~= kind);
    assert(s.subrange(m, ne) =~= name);
    lemma_key_of_match(s, kind, name, k, m);
}

} // verus!
