//! What parsing gives back of an injection: SQL injected into a method by
//! a squash is read back by the parser, after the method's own custom SQL
//! and in the order it was injected.
use vstd::prelude::*;
use crate::csharp::{
    brace_scan, brace_skip, brace_start_state, brace_step, builder_word, matching_brace, sig_find, lazy_body, lemma_brace_scan, lemma_lazy_body,
    lemma_lead_end_range, lemma_sig_find_from, lemma_sig_match_at, lemma_sql_match_at, sig_find_from,
    sig_match_at, sql_match_at, sql_matches_from, sql_word, BraceState,
};
use crate::parser::{
    custom_sql, injected_block, injected_call, injected_source, lemma_injected_sql_reads_back, method_body,
    stmt_texts, unescape,
};
use crate::text::{
    char_from, is_ws, lead_end, lemma_char_from, lemma_char_from_at, lemma_lead_end, lemma_replace_cons,
    lemma_trail_start, matches_at, replace, trail_start, trim,
};

verus! {

// ─── The texts the parser reads ─────────────────────────────────────

/// The unescaped texts of the custom SQL calls matched in `s[i..]`.
pub open spec fn sql_texts_from(s: Seq<char>, i: int) -> Seq<Seq<char>>
    decreases s.len() - i,
{
    if i < 0 || i >= s.len() {
        Seq::empty()
    } else {
        match sql_match_at(s, i) {
            Some((a, b, e)) => if i < e <= s.len() {
                seq![unescape(s.subrange(a, b))] + sql_texts_from(s, e)
            } else {
                Seq::empty()
            },
            None => sql_texts_from(s, i + 1),
        }
    }
}

proof fn lemma_texts_of_matches(s: Seq<char>, i: int)
    requires
        0 <= i <= s.len(),
    ensures
        sql_texts_from(s, i) == sql_matches_from(s, i).map_values(
            |m: (int, int, int, int)| unescape(s.subrange(m.1, m.2)),
        ),
    decreases s.len() - i,
{
    if i < s.len() {
        lemma_sql_match_at(s, i);
        match sql_match_at(s, i) {
            Some((a, b, e)) => {
                lemma_texts_of_matches(s, e);
                assert(sql_matches_from(s, i).map_values(
                    |m: (int, int, int, int)| unescape(s.subrange(m.1, m.2)),
                ) =~= seq![unescape(s.subrange(a, b))] + sql_matches_from(s, e).map_values(
                    |m: (int, int, int, int)| unescape(s.subrange(m.1, m.2)),
                ));
            },
            None => {
                lemma_texts_of_matches(s, i + 1);
            },
        }
    } else {
        assert(sql_matches_from(s, i).map_values(|m: (int, int, int, int)| unescape(s.subrange(m.1, m.2)))
            =~= Seq::<Seq<char>>::empty());
    }
}

/// The texts of a body's custom SQL are the texts the scan reads.
pub proof fn lemma_custom_sql_texts(s: Seq<char>)
    ensures
        stmt_texts(custom_sql(s)) == sql_texts_from(s, 0),
{
    lemma_texts_of_matches(s, 0);
    assert(stmt_texts(custom_sql(s)) =~= sql_matches_from(s, 0).map_values(
        |m: (int, int, int, int)| unescape(s.subrange(m.1, m.2)),
    ));
}

// ─── Scanning `x + y` past `x` sees `y` alone ───────────────────────

proof fn lemma_lead_end_shift(x: Seq<char>, y: Seq<char>, j: int)
    requires
        0 <= j,
    ensures
        lead_end(x + y, x.len() + j) == x.len() + lead_end(y, j),
    decreases y.len() - j,
{
    if j < y.len() && is_ws(y[j]) {
        lemma_lead_end_shift(x, y, j + 1);
    }
}

proof fn lemma_matches_at_shift(x: Seq<char>, y: Seq<char>, j: int, p: Seq<char>)
    requires
        0 <= j,
    ensures
        matches_at(x + y, x.len() + j, p) == matches_at(y, j, p),
{
    if j + p.len() <= y.len() {
        assert((x + y).subrange(x.len() + j, x.len() + j + p.len()) =~= y.subrange(j, j + p.len()));
    }
}

proof fn lemma_lazy_body_shift(x: Seq<char>, y: Seq<char>, j: int)
    requires
        0 <= j,
    ensures
        lazy_body(x + y, x.len() + j) == (match lazy_body(y, j) {
            Some((q, e)) => Some((x.len() + q, x.len() + e)),
            None => None::<(int, int)>,
        }),
    decreases y.len() - j,
{
    let s = x + y;
    let p = x.len() + j;
    if j < y.len() {
        lemma_lead_end_shift(x, y, j + 1);
        lemma_lead_end_range(y, j + 1);
        if y[j] == '"' && lead_end(y, j + 1) < y.len() && y[lead_end(y, j + 1)] == ')' {
        } else if y[j] != '"' && y[j] != '\\' {
            lemma_lazy_body_shift(x, y, j + 1);
        } else if y[j] == '\\' && j + 1 < y.len() && y[j + 1] != '\n' {
            lemma_lazy_body_shift(x, y, j + 2);
        } else if y[j] == '"' && j + 1 < y.len() && y[j + 1] == '"' {
            lemma_lazy_body_shift(x, y, j + 2);
        }
    }
}

proof fn lemma_sql_match_at_shift(x: Seq<char>, y: Seq<char>, j: int)
    requires
        0 <= j,
    ensures
        sql_match_at(x + y, x.len() + j) == (match sql_match_at(y, j) {
            Some((a, b, e)) => Some((x.len() + a, x.len() + b, x.len() + e)),
            None => None::<(int, int, int)>,
        }),
{
    let s = x + y;
    let n = x.len() as int;
    lemma_matches_at_shift(x, y, j, builder_word());
    if matches_at(y, j, builder_word()) {
        let a = lead_end(y, j + builder_word().len());
        lemma_lead_end_shift(x, y, j + builder_word().len());
        lemma_lead_end_range(y, j + builder_word().len());
        if a < y.len() && y[a] == '.' {
            let b = lead_end(y, a + 1);
            lemma_lead_end_shift(x, y, a + 1);
            lemma_lead_end_range(y, a + 1);
            lemma_matches_at_shift(x, y, b, sql_word());
            if matches_at(y, b, sql_word()) {
                let c = lead_end(y, b + sql_word().len());
                lemma_lead_end_shift(x, y, b + sql_word().len());
                lemma_lead_end_range(y, b + sql_word().len());
                if c < y.len() && y[c] == '(' {
                    let d = lead_end(y, c + 1);
                    lemma_lead_end_shift(x, y, c + 1);
                    lemma_lead_end_range(y, c + 1);
                    let q = if d < y.len() && y[d] == '@' {
                        d + 1
                    } else {
                        d
                    };
                    lemma_lazy_body_shift(x, y, q + 1);
                }
            }
        }
    }
}

/// From index `|x| + j` on, the texts read in `x + y` are those read in
/// `y` from `j`.
pub proof fn lemma_texts_shift(x: Seq<char>, y: Seq<char>, j: int)
    requires
        0 <= j,
    ensures
        sql_texts_from(x + y, x.len() + j) == sql_texts_from(y, j),
    decreases y.len() - j,
{
    let s = x + y;
    let n = x.len() as int;
    if j < y.len() {
        lemma_sql_match_at_shift(x, y, j);
        lemma_sql_match_at(y, j);
        match sql_match_at(y, j) {
            Some((a, b, e)) => {
                assert(s.subrange(n + a, n + b) =~= y.subrange(a, b));
                lemma_texts_shift(x, y, e);
            },
            None => {
                lemma_texts_shift(x, y, j + 1);
            },
        }
    }
}

// ─── A body whose scan ends inside it ───────────────────────────────

/// Every custom-SQL match attempt that starts in `x` is decided by `x`
/// alone, whatever follows it.
pub open spec fn settled(x: Seq<char>) -> bool {
    forall|y: Seq<char>, i: int| 0 <= i < x.len() ==> #[trigger] sql_match_at(x + y, i) == sql_match_at(x, i)
}

proof fn lemma_texts_settled(x: Seq<char>, y: Seq<char>, i: int)
    requires
        settled(x),
        0 <= i <= x.len(),
    ensures
        sql_texts_from(x + y, i) == sql_texts_from(x, i) + sql_texts_from(x + y, x.len() as int),
    decreases x.len() - i,
{
    let s = x + y;
    if i < x.len() {
        assert(sql_match_at(s, i) == sql_match_at(x, i));
        lemma_sql_match_at(x, i);
        match sql_match_at(x, i) {
            Some((a, b, e)) => {
                assert(s.subrange(a, b) =~= x.subrange(a, b));
                lemma_texts_settled(x, y, e);
                assert(sql_texts_from(s, i) =~= sql_texts_from(x, i) + sql_texts_from(s, x.len() as int));
            },
            None => {
                lemma_texts_settled(x, y, i + 1);
            },
        }
    } else {
        assert(sql_texts_from(x, i) =~= Seq::<Seq<char>>::empty());
        assert(sql_texts_from(s, i) =~= sql_texts_from(x, i) + sql_texts_from(s, i));
    }
}

/// No custom-SQL call starts at a whitespace character.
proof fn lemma_no_match_at_ws(s: Seq<char>, i: int)
    requires
        0 <= i < s.len(),
        is_ws(s[i]),
    ensures
        sql_match_at(s, i) is None,
{
    reveal_strlit("migrationBuilder");
    if matches_at(s, i, builder_word()) {
        assert(s.subrange(i, i + 16)[0] == 'm');
    }
}

proof fn lemma_texts_ws_prefix_from(w: Seq<char>, y: Seq<char>, i: int)
    requires
        forall|k: int| 0 <= k < w.len() ==> is_ws(#[trigger] w[k]),
        0 <= i <= w.len(),
    ensures
        sql_texts_from(w + y, i) == sql_texts_from(w + y, w.len() as int),
    decreases w.len() - i,
{
    if i < w.len() {
        assert((w + y)[i] == w[i]);
        lemma_no_match_at_ws(w + y, i);
        lemma_texts_ws_prefix_from(w, y, i + 1);
    }
}

/// Leading whitespace hides no custom SQL.
pub proof fn lemma_texts_ws_prefix(w: Seq<char>, y: Seq<char>)
    requires
        forall|k: int| 0 <= k < w.len() ==> is_ws(#[trigger] w[k]),
    ensures
        sql_texts_from(w + y, 0) == sql_texts_from(y, 0),
{
    lemma_texts_ws_prefix_from(w, y, 0);
    lemma_texts_shift(w, y, 0);
}

// ─── The injected calls ─────────────────────────────────────────────

/// `s` with every `"` doubled, as a verbatim string holds it.
pub open spec fn doubled(s: Seq<char>) -> Seq<char> {
    replace(s, seq!['"'], seq!['"', '"'])
}

/// An injected call without its indentation:
/// `migrationBuilder.Sql(@"<sql, quotes doubled>");`.
pub open spec fn core_call(sql: Seq<char>) -> Seq<char> {
    builder_word() + seq!['.'] + sql_word() + seq!['(', '@', '"'] + doubled(sql) + seq!['"', ')', ';']
}

/// The indentation of an injected call: a line break and 12 spaces.
pub open spec fn call_indent() -> Seq<char> {
    Seq::new(13, |k: int| if k == 0 { '\n' } else { ' ' })
}

/// The injected calls of `stmts`, in order.
pub open spec fn calls(stmts: Seq<(Seq<char>, int, int)>) -> Seq<char>
    decreases stmts.len(),
{
    if stmts.len() == 0 {
        Seq::empty()
    } else {
        injected_call(stmts[0].0) + calls(stmts.drop_first())
    }
}

proof fn lemma_doubled_cons(c: char, t: Seq<char>)
    ensures
        c == '"' ==> doubled(seq![c] + t) == seq!['"', '"'] + doubled(t),
        c != '"' ==> doubled(seq![c] + t) == seq![c] + doubled(t),
{
    lemma_replace_cons(c, t, seq!['"'], seq!['"', '"']);
    assert((seq![c] + t).skip(1) =~= t);
    if c == '"' {
        assert(matches_at(seq![c] + t, 0, seq!['"']) ) by {
            assert((seq![c] + t).subrange(0, 1) =~= seq!['"']);
        }
    } else {
        assert(!matches_at(seq![c] + t, 0, seq!['"'])) by {
            if matches_at(seq![c] + t, 0, seq!['"']) {
                assert((seq![c] + t).subrange(0, 1)[0] == c);
            }
        }
    }
}

/// The literal's lazy scan stops at the quote that closes the doubled
/// text.
proof fn lemma_lazy_doubled(s: Seq<char>, p: int, sql: Seq<char>)
    requires
        0 <= p,
        !sql.contains('\\'),
        p + doubled(sql).len() + 2 <= s.len(),
        s.subrange(p, p + doubled(sql).len() + 2) == doubled(sql) + seq!['"', ')'],
    ensures
        lazy_body(s, p) == Some((p + doubled(sql).len(), p + doubled(sql).len() + 2)),
    decreases sql.len(),
{
    let d = doubled(sql);
    assert(s[p] == s.subrange(p, p + d.len() + 2)[0]);
    assert(s[p + 1] == s.subrange(p, p + d.len() + 2)[1]);
    if sql.len() == 0 {
        assert(d =~= Seq::<char>::empty());
        assert(s[p] == '"');
        assert(s[p + 1] == ')');
        assert(lead_end(s, p + 1) == p + 1);
    } else {
        let c = sql[0];
        let t = sql.skip(1);
        assert(sql =~= seq![c] + t);
        lemma_doubled_cons(c, t);
        assert(!t.contains('\\')) by {
            if t.contains('\\') {
                let k = choose|k: int| 0 <= k < t.len() && t[k] == '\\';
                assert(sql[k + 1] == '\\');
            }
        }
        assert(c != '\\') by {
            assert(sql[0] == c);
        }
        if c == '"' {
            assert(d == seq!['"', '"'] + doubled(t));
            assert(s[p] == '"');
            assert(s[p + 1] == '"');
            assert(lead_end(s, p + 1) == p + 1);
            assert(s.subrange(p + 2, p + 2 + doubled(t).len() + 2) =~= doubled(t) + seq!['"', ')']) by {
                assert forall|k: int| 0 <= k < doubled(t).len() + 2 implies s.subrange(p + 2, p + 2 + doubled(t).len() + 2)[k]
                    == (doubled(t) + seq!['"', ')'])[k] by {
                    assert(s.subrange(p, p + d.len() + 2)[k + 2] == (d + seq!['"', ')'])[k + 2]);
                }
            }
            lemma_lazy_doubled(s, p + 2, t);
        } else {
            assert(d == seq![c] + doubled(t));
            assert(s[p] == c);
            assert(s.subrange(p + 1, p + 1 + doubled(t).len() + 2) =~= doubled(t) + seq!['"', ')']) by {
                assert forall|k: int| 0 <= k < doubled(t).len() + 2 implies s.subrange(p + 1, p + 1 + doubled(t).len() + 2)[k]
                    == (doubled(t) + seq!['"', ')'])[k] by {
                    assert(s.subrange(p, p + d.len() + 2)[k + 1] == (d + seq!['"', ')'])[k + 1]);
                }
            }
            lemma_lazy_doubled(s, p + 1, t);
        }
    }
}

/// One injected call, followed by anything, reads back as its SQL.
proof fn lemma_call_texts(sql: Seq<char>, r: Seq<char>)
    requires
        !sql.contains('\\'),
        trim(sql) == sql,
    ensures
        sql_texts_from(core_call(sql) + r, 0) == seq![sql] + sql_texts_from(r, 0),
{
    reveal_strlit("migrationBuilder");
    reveal_strlit("Sql");
    let d = doubled(sql);
    let n = d.len() as int;
    let c = core_call(sql);
    let s = c + r;
    assert(c.len() == n + 26);
    assert(forall|k: int| 0 <= k < c.len() ==> s[k] == c[k]);
    assert(s.subrange(0, 16) =~= builder_word());
    assert(s[16] == '.');
    assert(lead_end(s, 16) == 16);
    assert(lead_end(s, 17) == 17);
    assert(s.subrange(17, 20) =~= sql_word());
    assert(s[20] == '(');
    assert(lead_end(s, 20) == 20);
    assert(s[21] == '@');
    assert(lead_end(s, 21) == 21);
    assert(s[22] == '"');
    assert(s.subrange(23, 23 + n + 2) =~= d + seq!['"', ')']);
    lemma_lazy_doubled(s, 23, sql);
    assert(sql_match_at(s, 0) == Some((23int, 23 + n, 25 + n)));
    assert(s.subrange(23, 23 + n) =~= d);
    lemma_injected_sql_reads_back(sql);
    assert(unescape(d) == sql);
    let e = 25 + n;
    assert(s[e] == ';');
    assert(sql_match_at(s, e) is None) by {
        if matches_at(s, e, builder_word()) {
            assert(s.subrange(e, e + 16)[0] == 'm');
        }
    }
    assert(sql_texts_from(s, e) == sql_texts_from(s, e + 1));
    lemma_texts_shift(c, r, 0);
    assert(sql_texts_from(s, 0) =~= seq![sql] + sql_texts_from(r, 0));
}

proof fn lemma_injected_call_parts(sql: Seq<char>)
    ensures
        injected_call(sql) == call_indent() + core_call(sql),
        forall|k: int| 0 <= k < call_indent().len() ==> is_ws(#[trigger] call_indent()[k]),
{
    reveal_strlit("\n            migrationBuilder.Sql(@\"");
    reveal_strlit("\");");
    reveal_strlit("migrationBuilder");
    reveal_strlit("Sql");
    assert("\n            migrationBuilder.Sql(@\""@ =~= call_indent() + builder_word() + seq!['.'] + sql_word()
        + seq!['(', '@', '"']);
    assert("\");"@ =~= seq!['"', ')', ';']);
    assert(injected_call(sql) =~= call_indent() + core_call(sql));
}

/// The injected calls read back as the statements' SQL, in order.
pub proof fn lemma_calls_texts(stmts: Seq<(Seq<char>, int, int)>)
    requires
        forall|k: int| 0 <= k < stmts.len() ==> !(#[trigger] stmts[k]).0.contains('\\') && trim(stmts[k].0) == stmts[k].0,
    ensures
        sql_texts_from(calls(stmts), 0) == stmt_texts(stmts),
    decreases stmts.len(),
{
    if stmts.len() == 0 {
        assert(stmt_texts(stmts) =~= Seq::<Seq<char>>::empty());
    } else {
        let rest = stmts.drop_first();
        let sql = stmts[0].0;
        lemma_calls_texts(rest);
        lemma_injected_call_parts(sql);
        let z = core_call(sql) + calls(rest);
        assert(calls(stmts) =~= call_indent() + z);
        lemma_texts_ws_prefix(call_indent(), z);
        lemma_call_texts(sql, calls(rest));
        assert(stmt_texts(stmts) =~= seq![sql] + stmt_texts(rest));
    }
}

proof fn lemma_calls_snoc(stmts: Seq<(Seq<char>, int, int)>)
    requires
        stmts.len() > 0,
    ensures
        calls(stmts) == calls(stmts.drop_last()) + injected_call(stmts.last().0),
    decreases stmts.len(),
{
    let rest = stmts.drop_first();
    if rest.len() == 0 {
        assert(stmts.drop_last() =~= Seq::<(Seq<char>, int, int)>::empty());
        assert(calls(rest) =~= Seq::<char>::empty());
        assert(calls(stmts) =~= injected_call(stmts[0].0));
    } else {
        lemma_calls_snoc(rest);
        assert(stmts.drop_last().drop_first() =~= rest.drop_last());
        assert(stmts.drop_last()[0] == stmts[0]);
        assert(rest.last() == stmts.last());
        assert(calls(stmts) =~= calls(stmts.drop_last()) + injected_call(stmts.last().0));
    }
}

/// The injected block is the calls and a final line break.
pub proof fn lemma_block_is_calls(stmts: Seq<(Seq<char>, int, int)>)
    ensures
        injected_block(stmts) == calls(stmts) + seq!['\n'],
    decreases stmts.len(),
{
    if stmts.len() == 0 {
        assert(calls(stmts) + seq!['\n'] =~= seq!['\n']);
    } else {
        lemma_block_is_calls(stmts.drop_last());
        lemma_calls_snoc(stmts);
        assert((calls(stmts.drop_last()) + seq!['\n']).drop_last() =~= calls(stmts.drop_last()));
        assert(injected_block(stmts) =~= calls(stmts) + seq!['\n']);
    }
}

// ─── Brace matching across the injected calls ───────────────────────

/// The scanner's flags are consistent: a verbatim literal is a string, and
/// only a verbatim literal skips a doubled quote.
pub open spec fn brace_inv(st: BraceState) -> bool {
    &&& st.in_verbatim ==> st.in_string
    &&& st.skip_next ==> st.in_verbatim
}

proof fn lemma_brace_step_inv(s: Seq<char>, i: int, st: BraceState)
    requires
        brace_inv(st),
    ensures
        brace_inv(brace_step(s, i, st)),
        brace_inv(brace_skip(s, i, st)),
{
}

/// Characters other than quotes and braces move the scan on unchanged.
proof fn lemma_brace_code(t: Seq<char>, i: int, j: int, st: BraceState) -> (st2: BraceState)
    requires
        0 <= i <= j <= t.len(),
        forall|k: int| i <= k < j ==> #[trigger] t[k] != '"' && t[k] != '{' && t[k] != '}',
        !st.skip_next,
    ensures
        brace_scan(t, i, st) == brace_scan(t, j, st2),
        st2.depth == st.depth,
        st2.in_string == st.in_string,
        st2.in_verbatim == st.in_verbatim,
        !st2.skip_next,
        j > i ==> st2.prev == t[j - 1],
        j == i ==> st2 == st,
    decreases j - i,
{
    if i == j {
        st
    } else {
        let nst = brace_step(t, i, st);
        assert(t[i] != '"' && t[i] != '{' && t[i] != '}');
        lemma_brace_code(t, i + 1, j, nst)
    }
}

/// Inside a verbatim literal, the doubled text and its closing quote
/// leave the depth alone and end the literal.
proof fn lemma_brace_verbatim(t: Seq<char>, p: int, sql: Seq<char>, st: BraceState) -> (st2: BraceState)
    requires
        0 <= p,
        p + doubled(sql).len() + 2 <= t.len(),
        t.subrange(p, p + doubled(sql).len() + 2) == doubled(sql) + seq!['"', ')'],
        st.in_string,
        st.in_verbatim,
        !st.skip_next,
    ensures
        brace_scan(t, p, st) == brace_scan(t, p + doubled(sql).len() + 1, st2),
        st2.depth == st.depth,
        !st2.in_string,
        !st2.in_verbatim,
        !st2.skip_next,
    decreases sql.len(),
{
    let d = doubled(sql);
    assert(t[p] == t.subrange(p, p + d.len() + 2)[0]);
    assert(t[p + 1] == t.subrange(p, p + d.len() + 2)[1]);
    if sql.len() == 0 {
        assert(d =~= Seq::<char>::empty());
        assert(t[p] == '"');
        assert(t[p + 1] == ')');
        let nst = brace_step(t, p, st);
        assert(brace_scan(t, p, st) == brace_scan(t, p + 1, nst));
        nst
    } else {
        let c = sql[0];
        let u = sql.skip(1);
        assert(sql =~= seq![c] + u);
        lemma_doubled_cons(c, u);
        if c == '"' {
            assert(d == seq!['"', '"'] + doubled(u));
            let nst = brace_step(t, p, st);
            assert(nst.skip_next);
            let sk = brace_skip(t, p + 1, nst);
            assert(brace_scan(t, p, st) == brace_scan(t, p + 1, nst));
            assert(brace_scan(t, p + 1, nst) == brace_scan(t, p + 2, sk));
            assert(t.subrange(p + 2, p + 2 + doubled(u).len() + 2) =~= doubled(u) + seq!['"', ')']) by {
                assert forall|k: int| 0 <= k < doubled(u).len() + 2 implies t.subrange(p + 2, p + 2 + doubled(u).len() + 2)[k]
                    == (doubled(u) + seq!['"', ')'])[k] by {
                    assert(t.subrange(p, p + d.len() + 2)[k + 2] == (d + seq!['"', ')'])[k + 2]);
                }
            }
            lemma_brace_verbatim(t, p + 2, u, sk)
        } else {
            assert(d == seq![c] + doubled(u));
            let nst = brace_step(t, p, st);
            assert(brace_scan(t, p, st) == brace_scan(t, p + 1, nst));
            assert(t.subrange(p + 1, p + 1 + doubled(u).len() + 2) =~= doubled(u) + seq!['"', ')']) by {
                assert forall|k: int| 0 <= k < doubled(u).len() + 2 implies t.subrange(p + 1, p + 1 + doubled(u).len() + 2)[k]
                    == (doubled(u) + seq!['"', ')'])[k] by {
                    assert(t.subrange(p, p + d.len() + 2)[k + 1] == (d + seq!['"', ')'])[k + 1]);
                }
            }
            lemma_brace_verbatim(t, p + 1, u, nst)
        }
    }
}

/// One injected call leaves the scan at the same depth, outside any
/// literal.
proof fn lemma_brace_call(t: Seq<char>, p: int, sql: Seq<char>, st: BraceState) -> (st2: BraceState)
    requires
        0 <= p,
        p + injected_call(sql).len() <= t.len(),
        t.subrange(p, p + injected_call(sql).len()) == injected_call(sql),
        !st.in_string,
        !st.in_verbatim,
        !st.skip_next,
    ensures
        brace_scan(t, p, st) == brace_scan(t, p + injected_call(sql).len(), st2),
        st2.depth == st.depth,
        !st2.in_string,
        !st2.in_verbatim,
        !st2.skip_next,
{
    reveal_strlit("migrationBuilder");
    reveal_strlit("Sql");
    lemma_injected_call_parts(sql);
    let d = doubled(sql);
    let n = d.len() as int;
    let call = injected_call(sql);
    assert(call.len() == n + 39);
    assert(forall|k: int| 0 <= k < call.len() ==> #[trigger] t[p + k] == call[k]) by {
        assert forall|k: int| 0 <= k < call.len() implies #[trigger] t[p + k] == call[k] by {
            assert(t.subrange(p, p + call.len())[k] == call[k]);
        }
    }
    assert forall|k: int| p <= k < p + 35 implies #[trigger] t[k] != '"' && t[k] != '{' && t[k] != '}' by {
        assert(t[p + (k - p)] == call[k - p]);
        let m = k - p;
        assert(m == 0 || m == 1 || m == 2 || m == 3 || m == 4 || m == 5 || m == 6 || m == 7 || m == 8 || m == 9
            || m == 10 || m == 11 || m == 12 || m == 13 || m == 14 || m == 15 || m == 16 || m == 17 || m == 18
            || m == 19 || m == 20 || m == 21 || m == 22 || m == 23 || m == 24 || m == 25 || m == 26 || m == 27
            || m == 28 || m == 29 || m == 30 || m == 31 || m == 32 || m == 33 || m == 34);
    }
    let s1 = lemma_brace_code(t, p, p + 35, st);
    assert(t[p + 34] == call[34]);
    assert(t[p + 35] == call[35]);
    assert(s1.prev == '@');
    let s2 = brace_step(t, p + 35, s1);
    assert(s2.in_string && s2.in_verbatim && !s2.skip_next);
    assert(s2.depth == st.depth);
    assert(t.subrange(p + 36, p + 36 + n + 2) =~= d + seq!['"', ')']) by {
        assert forall|k: int| 0 <= k < n + 2 implies t.subrange(p + 36, p + 36 + n + 2)[k] == (d + seq!['"', ')'])[k] by {
            assert(t[p + (36 + k)] == call[36 + k]);
        }
    }
    let s3 = lemma_brace_verbatim(t, p + 36, sql, s2);
    assert forall|k: int| p + 37 + n <= k < p + 39 + n implies #[trigger] t[k] != '"' && t[k] != '{' && t[k] != '}' by {
        assert(t[p + (k - p)] == call[k - p]);
    }
    let s4 = lemma_brace_code(t, p + 37 + n, p + 39 + n, s3);
    s4
}

/// The injected calls leave the scan at the same depth, outside any
/// literal.
proof fn lemma_brace_calls(t: Seq<char>, p: int, stmts: Seq<(Seq<char>, int, int)>, st: BraceState) -> (st2: BraceState)
    requires
        0 <= p,
        p + calls(stmts).len() <= t.len(),
        t.subrange(p, p + calls(stmts).len()) == calls(stmts),
        !st.in_string,
        !st.in_verbatim,
        !st.skip_next,
    ensures
        brace_scan(t, p, st) == brace_scan(t, p + calls(stmts).len(), st2),
        st2.depth == st.depth,
        !st2.in_string,
        !st2.in_verbatim,
        !st2.skip_next,
    decreases stmts.len(),
{
    if stmts.len() == 0 {
        st
    } else {
        let call = injected_call(stmts[0].0);
        let rest = stmts.drop_first();
        assert(calls(stmts) == call + calls(rest));
        assert(t.subrange(p, p + call.len()) =~= call) by {
            assert forall|k: int| 0 <= k < call.len() implies t.subrange(p, p + call.len())[k] == call[k] by {
                assert(t.subrange(p, p + calls(stmts).len())[k] == calls(stmts)[k]);
            }
        }
        let s1 = lemma_brace_call(t, p, stmts[0].0, st);
        assert(t.subrange(p + call.len(), p + call.len() + calls(rest).len()) =~= calls(rest)) by {
            assert forall|k: int| 0 <= k < calls(rest).len() implies t.subrange(
                p + call.len(),
                p + call.len() + calls(rest).len(),
            )[k] == calls(rest)[k] by {
                assert(t.subrange(p, p + calls(stmts).len())[call.len() + k] == calls(stmts)[call.len() + k]);
            }
        }
        lemma_brace_calls(t, p + call.len(), rest, s1)
    }
}

/// Scanning two texts that agree before `close` reaches `close` in the
/// same state, when the scan of the first stops at the brace there.
proof fn lemma_brace_prefix(s: Seq<char>, t: Seq<char>, i: int, st: BraceState, close: int) -> (st2: BraceState)
    requires
        0 <= i <= close,
        close < s.len(),
        close < t.len(),
        s.take(close) == t.take(close),
        s[close] == '}',
        t[close] != '"',
        brace_scan(s, i, st) == Some(close),
        brace_inv(st),
    ensures
        brace_scan(t, i, st) == brace_scan(t, close, st2),
        st2.depth == 1,
        !st2.in_string,
        !st2.in_verbatim,
        !st2.skip_next,
    decreases close - i,
{
    if i == close {
        if st.skip_next {
            lemma_brace_scan(s, i + 1, brace_skip(s, i, st));
        } else {
            lemma_brace_scan(s, i + 1, brace_step(s, i, st));
        }
        st
    } else {
        assert(s[i] == s.take(close)[i]);
        assert(t[i] == t.take(close)[i]);
        if i + 1 < close {
            assert(s[i + 1] == s.take(close)[i + 1]);
            assert(t[i + 1] == t.take(close)[i + 1]);
        }
        if st.skip_next {
            lemma_brace_step_inv(s, i, st);
            assert(brace_skip(s, i, st) == brace_skip(t, i, st));
            lemma_brace_prefix(s, t, i + 1, brace_skip(s, i, st), close)
        } else {
            lemma_brace_step_inv(s, i, st);
            assert(brace_step(s, i, st) == brace_step(t, i, st));
            let nst = brace_step(s, i, st);
            if !nst.in_string && s[i] == '}' && nst.depth == 0 {
                assert(false);
            }
            lemma_brace_prefix(s, t, i + 1, nst, close)
        }
    }
}

// ─── The method signature is found where it was ─────────────────────

proof fn lemma_lead_end_agree(s: Seq<char>, t: Seq<char>, l: int, a: int)
    requires
        l <= s.len(),
        l <= t.len(),
        s.take(l) == t.take(l),
        0 <= a,
        lead_end(s, a) < l,
    ensures
        lead_end(t, a) == lead_end(s, a),
    decreases s.len() - a,
{
    if a < s.len() {
        lemma_lead_end_range(s, a);
        assert(s[a] == s.take(l)[a]);
        assert(t[a] == t.take(l)[a]);
        if is_ws(s[a]) {
            lemma_lead_end_range(s, a + 1);
            lemma_lead_end_agree(s, t, l, a + 1);
        }
    }
}

proof fn lemma_matches_agree(s: Seq<char>, t: Seq<char>, l: int, i: int, p: Seq<char>)
    requires
        l <= s.len(),
        l <= t.len(),
        s.take(l) == t.take(l),
        0 <= i,
        i + p.len() <= l,
    ensures
        matches_at(s, i, p) == matches_at(t, i, p),
{
    assert(s.subrange(i, i + p.len()) =~= t.subrange(i, i + p.len())) by {
        assert forall|k: int| 0 <= k < p.len() implies #[trigger] s.subrange(i, i + p.len())[k] == t.subrange(i, i + p.len())[k] by {
            assert(s[i + k] == s.take(l)[i + k]);
            assert(t[i + k] == t.take(l)[i + k]);
        }
    }
}

/// A signature match that ends before `l` is found in any text that
/// agrees before `l`.
proof fn lemma_sig_agree(s: Seq<char>, t: Seq<char>, l: int, i: int, name: Seq<char>)
    requires
        l <= s.len(),
        l <= t.len(),
        s.take(l) == t.take(l),
        0 <= i,
        sig_match_at(s, i, name) matches Some(e) && e <= l,
    ensures
        sig_match_at(t, i, name) == sig_match_at(s, i, name),
{
    reveal_strlit("protected");
    reveal_strlit("override");
    reveal_strlit("void");
    let a = i + 9;
    lemma_lead_end_range(s, a);
    let b = lead_end(s, a);
    let c = b + 8;
    lemma_lead_end_range(s, c);
    let d = lead_end(s, c);
    let e = d + 4;
    lemma_lead_end_range(s, e);
    let f = lead_end(s, e);
    lemma_lead_end_range(s, f + name.len());
    let h = lead_end(s, f + name.len());
    lemma_matches_agree(s, t, l, i, "protected"@);
    lemma_lead_end_agree(s, t, l, a);
    lemma_matches_agree(s, t, l, b, "override"@);
    lemma_lead_end_agree(s, t, l, c);
    lemma_matches_agree(s, t, l, d, "void"@);
    lemma_lead_end_agree(s, t, l, e);
    lemma_matches_agree(s, t, l, f, name);
    lemma_lead_end_agree(s, t, l, f + name.len());
    assert(s[h] == s.take(l)[h]);
    assert(t[h] == t.take(l)[h]);
}

proof fn lemma_in_word(t: Seq<char>, at: int, w: Seq<char>, k: int)
    requires
        matches_at(t, at, w),
        at <= k < at + w.len(),
    ensures
        t[k] == w[k - at],
{
    assert(t.subrange(at, at + w.len())[k - at] == t[k]);
}

/// A signature match covers `{` only inside the method name.
proof fn lemma_sig_tiles(t: Seq<char>, i: int, name: Seq<char>, k: int)
    requires
        0 <= i <= k,
        sig_match_at(t, i, name) matches Some(e) && k < e,
        t[k] == '{',
    ensures
        name.contains('{'),
{
    reveal_strlit("protected");
    reveal_strlit("override");
    reveal_strlit("void");
    lemma_sig_match_at(t, i, name);
    let a = i + 9;
    lemma_lead_end(t, a);
    let b = lead_end(t, a);
    let c = b + 8;
    lemma_lead_end(t, c);
    let d = lead_end(t, c);
    let e = d + 4;
    lemma_lead_end(t, e);
    let f = lead_end(t, e);
    lemma_lead_end(t, f + name.len());
    let h = lead_end(t, f + name.len());
    if k < a {
        lemma_in_word(t, i, "protected"@, k);
        let m = k - i;
        assert(m == 0 || m == 1 || m == 2 || m == 3 || m == 4 || m == 5 || m == 6 || m == 7 || m == 8);
    } else if k < b {
        assert(is_ws(t[k]));
    } else if k < c {
        lemma_in_word(t, b, "override"@, k);
        let m = k - b;
        assert(m == 0 || m == 1 || m == 2 || m == 3 || m == 4 || m == 5 || m == 6 || m == 7);
    } else if k < d {
        assert(is_ws(t[k]));
    } else if k < e {
        lemma_in_word(t, d, "void"@, k);
        let m = k - d;
        assert(m == 0 || m == 1 || m == 2 || m == 3);
    } else if k < f {
        assert(is_ws(t[k]));
    } else if k < f + name.len() {
        lemma_in_word(t, f, name, k);
        assert(name[k - f] == '{');
    } else if k < h {
        assert(is_ws(t[k]));
    } else {
        assert(k == h);
        assert(t[h] == '(');
    }
}

/// In a text that agrees before `l` with one whose first signature match
/// is `(st, e)`, and that holds a `{` between `e` and `l`, the first
/// match is the same, when the name holds no `{`.
proof fn lemma_sig_find_agree(s: Seq<char>, t: Seq<char>, l: int, name: Seq<char>, q: int, i: int)
    requires
        l <= s.len(),
        l <= t.len(),
        s.take(l) == t.take(l),
        !name.contains('{'),
        0 <= i,
        sig_find_from(s, name, i) matches Some((st, e)) && e <= q < l,
        s[q] == '{',
    ensures
        sig_find_from(t, name, i) == sig_find_from(s, name, i),
    decreases s.len() - i,
{
    assert(i < s.len());
    lemma_sig_find_from(s, name, i);
    let st = sig_find_from(s, name, i)->Some_0.0;
    assert(s[q] == s.take(l)[q]);
    assert(t[q] == t.take(l)[q]);
    if sig_match_at(s, i, name) is Some {
        lemma_sig_agree(s, t, l, i, name);
    } else {
        lemma_sig_find_from(s, name, i + 1);
        assert(i < st);
        lemma_sig_match_at(t, i, name);
        if let Some(e2) = sig_match_at(t, i, name) {
            if e2 <= l {
                lemma_sig_agree(t, s, l, i, name);
                assert(false);
            } else {
                lemma_sig_tiles(t, i, name, q);
                assert(false);
            }
        }
        lemma_sig_find_agree(s, t, l, name, q, i + 1);
    }
}

// ─── Trimming the grown body ────────────────────────────────────────

proof fn lemma_trail_agree(x: Seq<char>, y: Seq<char>, j: int)
    requires
        0 <= j <= x.len(),
    ensures
        trail_start(x + y, j) == trail_start(x, j),
    decreases j,
{
    if 0 < j {
        assert((x + y)[j - 1] == x[j - 1]);
        lemma_trail_agree(x, y, j - 1);
    }
}

proof fn lemma_lead_end_ws_prefix(w: Seq<char>, y: Seq<char>, i: int)
    requires
        forall|k: int| 0 <= k < w.len() ==> is_ws(#[trigger] w[k]),
        0 <= i <= w.len(),
    ensures
        lead_end(w + y, i) == w.len() + lead_end(y, 0),
    decreases w.len() - i,
{
    if i < w.len() {
        assert((w + y)[i] == w[i]);
        lemma_lead_end_ws_prefix(w, y, i + 1);
    } else {
        lemma_lead_end_shift(w, y, 0);
    }
}

proof fn lemma_texts_empty()
    ensures
        sql_texts_from(Seq::<char>::empty(), 0) == Seq::<Seq<char>>::empty(),
{
}

/// The calls end with the `;` of the last one, and begin with the
/// indentation of the first.
proof fn lemma_calls_ends(stmts: Seq<(Seq<char>, int, int)>)
    requires
        stmts.len() > 0,
    ensures
        calls(stmts).len() > 13,
        calls(stmts)[calls(stmts).len() - 1] == ';',
        calls(stmts) == call_indent() + (core_call(stmts[0].0) + calls(stmts.drop_first())),
{
    lemma_calls_snoc(stmts);
    lemma_injected_call_parts(stmts.last().0);
    lemma_injected_call_parts(stmts[0].0);
    let last = injected_call(stmts.last().0);
    assert(last[last.len() - 1] == ';');
    assert(calls(stmts)[calls(stmts).len() - 1] == last[last.len() - 1]);
    assert(calls(stmts) =~= call_indent() + (core_call(stmts[0].0) + calls(stmts.drop_first())));
}

/// Injecting nothing leaves the trimmed body as it was.
proof fn lemma_grown_body_empty(x: Seq<char>)
    ensures
        trim(x + seq!['\n']) == trim(x),
{
    let blk = seq!['\n'];
    let g = x + blk;
    lemma_lead_end(x, 0);
    lemma_trail_start(x, x.len() as int);
    let a = lead_end(x, 0);
    let b = trail_start(x, x.len() as int);
    assert(is_ws(g[g.len() - 1]));
    lemma_trail_agree(x, blk, x.len() as int);
    assert(trail_start(g, g.len() as int) == trail_start(g, x.len() as int));
    if a < x.len() {
        assert(!is_ws(x[a]));
        assert(a < b);
        assert(x.take(x.len() as int) =~= g.take(x.len() as int));
        lemma_lead_end_agree(x, g, x.len() as int, 0);
        assert(trim(g) =~= trim(x)) by {
            assert forall|k: int| 0 <= k < b - a implies #[trigger] trim(g)[k] == trim(x)[k] by {
                assert(g[a + k] == x[a + k]);
            }
        }
    } else {
        lemma_lead_end_ws_prefix(x, blk, 0);
        assert(lead_end(blk, 1) == 1);
        assert(lead_end(blk, 0) == 1) by {
            assert(is_ws(blk[0]));
        }
        assert(trim(g) =~= Seq::<char>::empty());
        assert(trim(x) =~= Seq::<char>::empty());
    }
}

/// With calls injected, the trimmed body ends with the last call.
proof fn lemma_grown_trail(x: Seq<char>, stmts: Seq<(Seq<char>, int, int)>)
    requires
        stmts.len() > 0,
    ensures
        trail_start(x + (calls(stmts) + seq!['\n']), (x.len() + calls(stmts).len() + 1) as int) == x.len() + calls(stmts).len(),
{
    lemma_calls_ends(stmts);
    let cs = calls(stmts);
    let g = x + (cs + seq!['\n']);
    let n = g.len() as int;
    assert(g[n - 1] == '\n');
    assert(g[n - 2] == cs[cs.len() - 1]);
    assert(trail_start(g, n) == trail_start(g, n - 1));
    assert(!is_ws(g[n - 2]));
}

/// A body with code of its own: its custom SQL, then the injected calls.
proof fn lemma_grown_body_code(x: Seq<char>, stmts: Seq<(Seq<char>, int, int)>)
    requires
        settled(trim(x)),
        lead_end(x, 0) < x.len(),
        stmts.len() > 0,
        forall|k: int| 0 <= k < stmts.len() ==> !(#[trigger] stmts[k]).0.contains('\\') && trim(stmts[k].0) == stmts[k].0,
    ensures
        sql_texts_from(trim(x + (calls(stmts) + seq!['\n'])), 0) == sql_texts_from(trim(x), 0) + stmt_texts(stmts),
{
    let cs = calls(stmts);
    let g = x + (cs + seq!['\n']);
    lemma_lead_end(x, 0);
    lemma_trail_start(x, x.len() as int);
    let a = lead_end(x, 0);
    let b = trail_start(x, x.len() as int);
    assert(!is_ws(x[a]));
    assert(a < b);
    assert(x.take(x.len() as int) =~= g.take(x.len() as int));
    lemma_lead_end_agree(x, g, x.len() as int, 0);
    lemma_grown_trail(x, stmts);
    let w = x.subrange(b, x.len() as int);
    let tx = trim(x);
    assert(trim(g) =~= tx + (w + cs)) by {
        assert forall|k: int| 0 <= k < trim(g).len() implies #[trigger] trim(g)[k] == (tx + (w + cs))[k] by {
            if a + k < x.len() {
                assert(g[a + k] == x[a + k]);
            } else {
                assert(g[a + k] == cs[a + k - x.len()]);
            }
        }
    }
    assert forall|k: int| 0 <= k < w.len() implies is_ws(#[trigger] w[k]) by {
        assert(w[k] == x[b + k]);
    }
    lemma_texts_settled(tx, w + cs, 0);
    lemma_texts_shift(tx, w + cs, 0);
    lemma_texts_ws_prefix(w, cs);
    lemma_calls_texts(stmts);
}

/// A body of whitespace only: the injected calls alone.
proof fn lemma_grown_body_blank(x: Seq<char>, stmts: Seq<(Seq<char>, int, int)>)
    requires
        lead_end(x, 0) == x.len(),
        stmts.len() > 0,
        forall|k: int| 0 <= k < stmts.len() ==> !(#[trigger] stmts[k]).0.contains('\\') && trim(stmts[k].0) == stmts[k].0,
    ensures
        sql_texts_from(trim(x + (calls(stmts) + seq!['\n'])), 0) == stmt_texts(stmts),
{
    let cs = calls(stmts);
    let blk = cs + seq!['\n'];
    let g = x + blk;
    lemma_lead_end(x, 0);
    lemma_calls_ends(stmts);
    lemma_grown_trail(x, stmts);
    let z = core_call(stmts[0].0) + calls(stmts.drop_first());
    assert(blk =~= call_indent() + (z + seq!['\n']));
    lemma_injected_call_parts(stmts[0].0);
    lemma_lead_end_ws_prefix(call_indent(), z + seq!['\n'], 0);
    reveal_strlit("migrationBuilder");
    assert((z + seq!['\n'])[0] == 'm');
    assert(lead_end(z + seq!['\n'], 0) == 0);
    lemma_lead_end_ws_prefix(x, blk, 0);
    assert(lead_end(g, 0) == x.len() + 13);
    assert(trim(g) =~= z) by {
        assert forall|k: int| 0 <= k < trim(g).len() implies #[trigger] trim(g)[k] == z[k] by {
            assert(g[x.len() + 13 + k] == cs[13 + k]);
        }
    }
    lemma_call_texts(stmts[0].0, calls(stmts.drop_first()));
    lemma_calls_texts(stmts.drop_first());
    assert(stmt_texts(stmts) =~= seq![stmts[0].0] + stmt_texts(stmts.drop_first()));
}

/// Parsing the body of a method after injection: its own custom SQL,
/// then the injected statements.
proof fn lemma_grown_body_texts(x: Seq<char>, stmts: Seq<(Seq<char>, int, int)>)
    requires
        settled(trim(x)),
        forall|k: int| 0 <= k < stmts.len() ==> !(#[trigger] stmts[k]).0.contains('\\') && trim(stmts[k].0) == stmts[k].0,
    ensures
        stmt_texts(custom_sql(trim(x + injected_block(stmts)))) == stmt_texts(custom_sql(trim(x))) + stmt_texts(stmts),
{
    lemma_block_is_calls(stmts);
    assert(x + injected_block(stmts) == x + (calls(stmts) + seq!['\n']));
    lemma_custom_sql_texts(trim(x + injected_block(stmts)));
    lemma_custom_sql_texts(trim(x));
    lemma_lead_end(x, 0);
    if stmts.len() == 0 {
        assert(calls(stmts) =~= Seq::<char>::empty());
        assert(calls(stmts) + seq!['\n'] =~= seq!['\n']);
        lemma_grown_body_empty(x);
        assert(stmt_texts(stmts) =~= Seq::<Seq<char>>::empty());
        assert(stmt_texts(custom_sql(trim(x))) + stmt_texts(stmts) =~= stmt_texts(custom_sql(trim(x))));
    } else if lead_end(x, 0) < x.len() {
        lemma_grown_body_code(x, stmts);
    } else {
        lemma_grown_body_blank(x, stmts);
        lemma_trail_start(x, x.len() as int);
        assert(trim(x) =~= Seq::<char>::empty());
        lemma_texts_empty();
        assert(stmt_texts(custom_sql(trim(x))) + stmt_texts(stmts) =~= stmt_texts(stmts));
    }
}

// ─── The law ────────────────────────────────────────────────────────

/// Custom SQL injected into a method is read back by the parser: the
/// method's custom SQL after injection is its custom SQL before, then the
/// injected statements' SQL, in order. This holds for SQL that is trimmed
/// and holds no backslash (extraction trims and undoes `\n`, `\r`, `\t`
/// escapes), for a method name without `{`, and for a method whose
/// custom-SQL scan is decided within its own body (a body that ends
/// inside an unterminated `migrationBuilder.Sql(` call would read on into
/// the injected text).
pub proof fn lemma_injected_sql_reads_back_in_method(
    content: Seq<char>,
    name: Seq<char>,
    stmts: Seq<(Seq<char>, int, int)>,
)
    requires
        injected_source(content, name, stmts) is Ok,
        !name.contains('{'),
        settled(method_body(content, name)),
        forall|k: int| 0 <= k < stmts.len() ==> !(#[trigger] stmts[k]).0.contains('\\') && trim(stmts[k].0) == stmts[k].0,
    ensures
        stmt_texts(custom_sql(method_body(injected_source(content, name, stmts)->Ok_0, name))) == stmt_texts(
            custom_sql(method_body(content, name)),
        ) + stmt_texts(stmts),
{
    let (st, e) = sig_find(content, name)->Some_0;
    lemma_sig_find_from(content, name, 0);
    lemma_char_from(content, '{', e);
    let open = char_from(content, '{', e);
    lemma_brace_scan(content, open, brace_start_state());
    let close = matching_brace(content, open)->Some_0;
    assert(open < close);
    let blk = injected_block(stmts);
    let new = content.take(close) + blk + content.skip(close);
    assert(injected_source(content, name, stmts) == Ok::<Seq<char>, Seq<char>>(new));
    assert(new.take(close) =~= content.take(close));
    // The signature and the opening brace are where they were.
    lemma_sig_find_agree(content, new, close, name, open, 0);
    assert forall|j: int| e <= j < open implies #[trigger] new[j] != '{' by {
        assert(new[j] == content[j]);
    }
    assert(new[open] == content[open]);
    lemma_char_from_at(new, '{', e, open);
    // The matching brace moved past the injected block.
    lemma_block_is_calls(stmts);
    let cs = calls(stmts);
    assert(blk == cs + seq!['\n']);
    if stmts.len() > 0 {
        lemma_calls_ends(stmts);
        assert(call_indent()[0] == '\n');
        assert(new[close] == cs[0]);
    } else {
        assert(new[close] == blk[0]);
    }
    assert(new[close] == '\n');
    let st2 = lemma_brace_prefix(content, new, open, brace_start_state(), close);
    assert(new.subrange(close, close + cs.len()) =~= cs);
    let st3 = lemma_brace_calls(new, close, stmts, st2);
    assert(new[close + cs.len()] == '\n');
    let st4 = lemma_brace_code(new, close + cs.len(), close + cs.len() + 1, st3);
    let end = close + blk.len();
    assert(new[end] == content[close]);
    assert(brace_scan(new, end, st4) == Some(end));
    assert(matching_brace(new, open) == Some(end));
    // The grown body.
    let x = content.subrange(open + 1, close);
    assert(new.subrange(open + 1, end) =~= x + blk);
    assert(method_body(new, name) == trim(x + blk));
    assert(method_body(content, name) == trim(x));
    lemma_grown_body_texts(x, stmts);
}

} // verus!
