//! Parsing and rewriting EF Core migration sources: method bodies, the
//! custom SQL passed to `migrationBuilder.Sql(...)` with its position among
//! the method's builder calls, and injection of SQL into a method.
use vstd::prelude::*;
use crate::csharp::{
    find_matching_brace, matching_brace, op_matches, op_matches_exec, quads_view, sig_find,
    sig_find_exec, sql_matches, sql_matches_exec, sql_word, Keywords,
};
use crate::paths::{file_name, file_stem, file_stem_exec, stem_of};
use crate::text::{
    char_from, char_from_exec, chars_of, contains, contains_exec, lemma_char_from, push_all,
    push_str, replace, replace_exec, replace_str, string_of, trim, trim_chars, matches_at,
    lemma_quote_doubling_roundtrip, lemma_replace_absent,
};

verus! {

// ─── Types ──────────────────────────────────────────────────────────

/// A custom SQL statement with ordering metadata for correct injection
/// during squash.
#[derive(Debug, Clone)]
pub struct SqlStatement {
    pub sql: String,
    /// Position of this SQL call among all migrationBuilder calls in the method.
    pub operation_index: usize,
    /// Total number of migrationBuilder calls in the method.
    pub total_operations: usize,
}

impl View for SqlStatement {
    type V = (Seq<char>, int, int);

    open spec fn view(&self) -> (Seq<char>, int, int) {
        (self.sql@, self.operation_index as int, self.total_operations as int)
    }
}

impl SqlStatement {
    /// A copy with the same text and metadata.
    pub fn duplicate(&self) -> (r: SqlStatement)
        ensures
            r@ == self@,
    {
        SqlStatement {
            sql: self.sql.clone(),
            operation_index: self.operation_index,
            total_operations: self.total_operations,
        }
    }
}

pub open spec fn stmts_view(v: Seq<SqlStatement>) -> Seq<(Seq<char>, int, int)> {
    v.map_values(|s: SqlStatement| s@)
}

pub open spec fn stmt_texts(v: Seq<(Seq<char>, int, int)>) -> Seq<Seq<char>> {
    v.map_values(|t: (Seq<char>, int, int)| t.0)
}

/// Controls which version to keep when multiple SQL statements target the
/// same object.
pub enum KeepStrategy {
    /// Keep the last version (for Up — newest stored proc wins).
    Last,
    /// Keep the first version (for Down — reverts to pre-squash state).
    First,
}

/// Represents extracted data from a single migration file.
#[derive(Debug, Clone)]
pub struct ParsedMigration {
    pub file_name: String,
    pub up_body: String,
    pub down_body: String,
    pub custom_sql_up: Vec<SqlStatement>,
    pub custom_sql_down: Vec<SqlStatement>,
    pub has_custom_sql: bool,
}

/// The SQL texts of `v`.
pub fn sql_texts(v: &Vec<SqlStatement>) -> (r: Vec<String>)
    ensures
        r@.len() == v@.len(),
        forall|k: int| 0 <= k < v@.len() ==> (#[trigger] r@[k])@ == v@[k].sql@,
{
    let mut r: Vec<String> = Vec::new();
    for i in 0..v.len()
        invariant
            r@.len() == i,
            forall|k: int| 0 <= k < i ==> (#[trigger] r@[k])@ == v@[k].sql@,
    {
        r.push(v[i].sql.clone());
    }
    r
}

impl ParsedMigration {
    pub fn sql_strings_up(&self) -> (r: Vec<String>)
        ensures
            r@.len() == self.custom_sql_up@.len(),
            forall|k: int|
                0 <= k < r@.len() ==> (#[trigger] r@[k])@ == self.custom_sql_up@[k].sql@,
    {
        sql_texts(&self.custom_sql_up)
    }

    pub fn sql_strings_down(&self) -> (r: Vec<String>)
        ensures
            r@.len() == self.custom_sql_down@.len(),
            forall|k: int|
                0 <= k < r@.len() ==> (#[trigger] r@[k])@ == self.custom_sql_down@[k].sql@,
    {
        sql_texts(&self.custom_sql_down)
    }
}

// ─── Specification ──────────────────────────────────────────────────

/// The body of method `name` in `content`: the text strictly between the
/// braces that follow the first `protected override void <name>(`,
/// trimmed; empty when the method or its braces cannot be found.
pub open spec fn method_body(content: Seq<char>, name: Seq<char>) -> Seq<char> {
    match sig_find(content, name) {
        Some((_st, e)) => {
            let open = char_from(content, '{', e);
            if open < content.len() {
                match matching_brace(content, open) {
                    Some(close) => trim(content.subrange(open + 1, close)),
                    None => Seq::empty(),
                }
            } else {
                Seq::empty()
            }
        },
        None => Seq::empty(),
    }
}

/// C# string-literal escapes undone as the library normalizes them:
/// `""` → `"`, `\n` → newline, `\r` dropped, `\t` → tab, then trimmed.
pub open spec fn unescape(raw: Seq<char>) -> Seq<char> {
    trim(
        replace(
            replace(
                replace(replace(raw, seq!['"', '"'], seq!['"']), seq!['\\', 'n'], seq!['\n']),
                seq!['\\', 'r'],
                Seq::empty(),
            ),
            seq!['\\', 't'],
            seq!['\t'],
        ),
    )
}

/// The index among `ops[j..]` of the first `Sql` call starting at `start`,
/// or `ops.len()` when there is none.
pub open spec fn first_sql_op(
    body: Seq<char>,
    ops: Seq<(int, int, int, int)>,
    start: int,
    j: int,
) -> int
    decreases ops.len() - j,
{
    if j < 0 || j >= ops.len() {
        ops.len() as int
    } else if ops[j].0 == start && body.subrange(ops[j].1, ops[j].2) == sql_word() {
        j
    } else {
        first_sql_op(body, ops, start, j + 1)
    }
}

/// The custom SQL statements of a method body: one per
/// `migrationBuilder.Sql("...")` match, in order, with the unescaped text,
/// the position of that call among all `migrationBuilder.<Op>(` calls
/// (the count of calls when it is not one of them), and that count.
pub open spec fn custom_sql(body: Seq<char>) -> Seq<(Seq<char>, int, int)> {
    let ops = op_matches(body);
    let ms = sql_matches(body);
    Seq::new(
        ms.len(),
        |k: int|
            (
                unescape(body.subrange(ms[k].1, ms[k].2)),
                first_sql_op(body, ops, ms[k].0, 0),
                ops.len() as int,
            ),
    )
}

/// The text injected for one statement: a verbatim-string `Sql` call on a
/// new line, with `"` doubled.
pub open spec fn injected_call(sql: Seq<char>) -> Seq<char> {
    "\n            migrationBuilder.Sql(@\""@ + replace(sql, seq!['"'], seq!['"', '"']) + "\");"@
}

pub open spec fn injected_block(stmts: Seq<(Seq<char>, int, int)>) -> Seq<char>
    decreases stmts.len(),
{
    if stmts.len() == 0 {
        seq!['\n']
    } else {
        injected_block(stmts.drop_last()).drop_last() + injected_call(stmts.last().0) + seq!['\n']
    }
}

/// The outcome of injecting `stmts` into method `name` of `content`: the
/// calls are inserted right before the brace that closes the method.
pub open spec fn injected_source(
    content: Seq<char>,
    name: Seq<char>,
    stmts: Seq<(Seq<char>, int, int)>,
) -> Result<Seq<char>, Seq<char>> {
    match sig_find(content, name) {
        Some((_st, e)) => {
            let open = char_from(content, '{', e);
            if open >= content.len() {
                Err("Could not find opening brace of "@ + name + " method"@)
            } else {
                match matching_brace(content, open) {
                    Some(close) => Ok(
                        content.take(close) + injected_block(stmts) + content.skip(close),
                    ),
                    None => Err("Could not find closing brace of "@ + name + " method"@),
                }
            }
        },
        None => Err("Could not find "@ + name + " method in migration file"@),
    }
}

/// A one-character vector.
pub fn one_char(a: char) -> (v: Vec<char>)
    ensures
        v@ == seq![a],
{
    let mut v: Vec<char> = Vec::new();
    v.push(a);
    assert(v@ =~= seq![a]);
    v
}

/// A two-character vector.
pub fn two_chars(a: char, b: char) -> (v: Vec<char>)
    ensures
        v@ == seq![a, b],
{
    let mut v: Vec<char> = Vec::new();
    v.push(a);
    v.push(b);
    assert(v@ =~= seq![a, b]);
    v
}

// ─── Parser ─────────────────────────────────────────────────────────

pub struct MigrationParser;

impl MigrationParser {
    /// The trimmed body of method `method_name` (see `method_body`).
    pub fn extract_method_body(content: &str, method_name: &str) -> (r: String)
        ensures
            r@ == method_body(content@, method_name@),
    {
        let s = chars_of(content);
        let name = chars_of(method_name);
        let r = Self::method_body_chars(s.as_slice(), name.as_slice());
        string_of(r.as_slice())
    }

    fn method_body_chars(s: &[char], name: &[char]) -> (r: Vec<char>)
        ensures
            r@ == method_body(s@, name@),
    {
        match sig_find_exec(s, name) {
            Some((_st, e)) => {
                proof {
                    crate::csharp::lemma_sig_find_from(s@, name@, 0);
                }
                let open = char_from_exec(s, '{', e);
                proof {
                    lemma_char_from(s@, '{', e as int);
                }
                if open < s.len() {
                    match find_matching_brace(s, open) {
                        Some(close) => {
                            let mut inner: Vec<char> = Vec::new();
                            let mut k: usize = open + 1;
                            while k < close
                                invariant
                                    open < k <= close < s@.len() || (k == open + 1 && close
                                        == open),
                                    open < close,
                                    inner@ == s@.subrange(open + 1, k as int),
                                decreases close - k,
                            {
                                inner.push(s[k]);
                                k = k + 1;
                            }
                            trim_chars(inner.as_slice())
                        },
                        None => Vec::new(),
                    }
                } else {
                    Vec::new()
                }
            },
            None => Vec::new(),
        }
    }

    /// Normalize C# string escaping to plain text (see `unescape`).
    pub fn unescape_sql(raw: &[char]) -> (r: Vec<char>)
        ensures
            r@ == unescape(raw@),
    {
        let empty: Vec<char> = Vec::new();
        let a = replace_exec(raw, two_chars('"', '"').as_slice(), one_char('"').as_slice());
        let b = replace_exec(a.as_slice(), two_chars('\\', 'n').as_slice(), one_char('\n').as_slice());
        let c = replace_exec(b.as_slice(), two_chars('\\', 'r').as_slice(), empty.as_slice());
        let d = replace_exec(c.as_slice(), two_chars('\\', 't').as_slice(), one_char('\t').as_slice());
        assert(empty@ =~= Seq::<char>::empty());
        trim_chars(d.as_slice())
    }

    /// The custom SQL statements of a method body (see `custom_sql`).
    pub fn extract_custom_sql(method_body: &str) -> (r: Vec<SqlStatement>)
        ensures
            stmts_view(r@) == custom_sql(method_body@),
    {
        let s = chars_of(method_body);
        let kw = Keywords::new();
        let ops = op_matches_exec(s.as_slice(), &kw);
        let ms = sql_matches_exec(s.as_slice(), &kw);
        let total = ops.len();
        let ghost body = s@;
        let ghost spec_ops = op_matches(body);
        let ghost spec_ms = sql_matches(body);
        let mut out: Vec<SqlStatement> = Vec::new();
        for k in 0..ms.len()
            invariant
                body == method_body@,
                body == s@,
                kw.wf(),
                quads_view(ops@) == spec_ops,
                quads_view(ms@) == spec_ms,
                spec_ops == op_matches(body),
                spec_ms == sql_matches(body),
                total == ops@.len(),
                out@.len() == k,
                forall|j: int|
                    0 <= j < k ==> (#[trigger] out@[j])@ == custom_sql(body)[j],
        {
            let (start, raw_start, raw_end, _end) = ms[k];
            assert(spec_ms[k as int] == (start as int, raw_start as int, raw_end as int, _end as int));
            proof {
                crate::csharp::lemma_sql_matches_bounds(body, 0, k as int);
            }
            let mut raw: Vec<char> = Vec::new();
            let mut p: usize = raw_start;
            while p < raw_end
                invariant
                    raw_start <= p <= raw_end <= s@.len(),
                    raw@ == s@.subrange(raw_start as int, p as int),
                decreases raw_end - p,
            {
                raw.push(s[p]);
                p = p + 1;
            }
            let text = Self::unescape_sql(raw.as_slice());
            let idx = Self::sql_op_index(s.as_slice(), &ops, start, &kw);
            out.push(
                SqlStatement { sql: string_of(text.as_slice()), operation_index: idx, total_operations: total },
            );
        }
        assert(stmts_view(out@) =~= custom_sql(body));
        out
    }

    /// The index of the first `Sql` operation match starting at `start`.
    fn sql_op_index(
        s: &[char],
        ops: &Vec<(usize, usize, usize, usize)>,
        start: usize,
        kw: &Keywords,
    ) -> (r: usize)
        requires
            kw.wf(),
            quads_view(ops@) == op_matches(s@),
        ensures
            r as int == first_sql_op(s@, op_matches(s@), start as int, 0),
    {
        let ghost spec_ops = op_matches(s@);
        let mut j: usize = 0;
        while j < ops.len()
            invariant
                kw.wf(),
                j <= ops@.len(),
                quads_view(ops@) == spec_ops,
                spec_ops == op_matches(s@),
                first_sql_op(s@, spec_ops, start as int, 0) == first_sql_op(
                    s@,
                    spec_ops,
                    start as int,
                    j as int,
                ),
            decreases ops@.len() - j,
        {
            let (st, ns, ne, _e) = ops[j];
            assert(spec_ops[j as int] == (st as int, ns as int, ne as int, _e as int));
            proof {
                crate::csharp::lemma_op_matches_bounds(s@, 0, j as int);
            }
            if st == start && ne - ns == kw.sql.len() && crate::text::matches_at_exec(
                s,
                ns,
                kw.sql.as_slice(),
            ) {
                assert(s@.subrange(ns as int, ne as int) =~= kw.sql@);
                return j;
            }
            proof {
                if st == start && s@.subrange(ns as int, ne as int) == sql_word() {
                    assert(s@.subrange(ns as int, ne as int).len() == kw.sql@.len());
                    assert(s@.subrange(ns as int, ns + kw.sql@.len()) =~= s@.subrange(
                        ns as int,
                        ne as int,
                    ));
                }
            }
            j = j + 1;
        }
        ops.len()
    }

    /// The parsed form of one migration source: its name (the file stem of
    /// `file_path`, or `unknown`), the Up and Down bodies and their custom
    /// SQL.
    pub fn parse_source(file_path: &str, content: &str) -> (r: ParsedMigration)
        ensures
            r.file_name@ == (match file_stem(file_path@) {
                Some(n) => n,
                None => "unknown"@,
            }),
            r.up_body@ == method_body(content@, "Up"@),
            r.down_body@ == method_body(content@, "Down"@),
            stmts_view(r.custom_sql_up@) == custom_sql(method_body(content@, "Up"@)),
            stmts_view(r.custom_sql_down@) == custom_sql(method_body(content@, "Down"@)),
            r.has_custom_sql == (custom_sql(method_body(content@, "Up"@)).len() > 0 || custom_sql(
                method_body(content@, "Down"@),
            ).len() > 0),
    {
        let file_name = match file_stem_exec(file_path) {
            Some(n) => string_of(n.as_slice()),
            None => String::from_str("unknown"),
        };
        let up_body = Self::extract_method_body(content, "Up");
        let down_body = Self::extract_method_body(content, "Down");
        let custom_sql_up = Self::extract_custom_sql(up_body.as_str());
        let custom_sql_down = Self::extract_custom_sql(down_body.as_str());
        let has_custom_sql = custom_sql_up.len() > 0 || custom_sql_down.len() > 0;
        ParsedMigration { file_name, up_body, down_body, custom_sql_up, custom_sql_down, has_custom_sql }
    }

    /// `content` with the statements' SQL inserted as verbatim-string
    /// `migrationBuilder.Sql` calls before the brace that closes method
    /// `method_name`, after all existing operations (see
    /// `injected_source`).
    pub fn inject_custom_sql_into(
        content: &str,
        method_name: &str,
        sql_statements: &[SqlStatement],
    ) -> (r: Result<String, String>)
        ensures
            r matches Ok(t) ==> injected_source(content@, method_name@, stmts_view(sql_statements@))
                == Ok::<Seq<char>, Seq<char>>(t@),
            r matches Err(t) ==> injected_source(content@, method_name@, stmts_view(sql_statements@))
                == Err::<Seq<char>, Seq<char>>(t@),
    {
        let s = chars_of(content);
        let name = chars_of(method_name);
        match sig_find_exec(s.as_slice(), name.as_slice()) {
            Some((_st, e)) => {
                proof {
                    crate::csharp::lemma_sig_find_from(s@, name@, 0);
                }
                let open = char_from_exec(s.as_slice(), '{', e);
                if open >= s.len() {
                    let mut msg = String::from_str("Could not find opening brace of ");
                    msg.append(method_name);
                    msg.append(" method");
                    return Err(msg);
                }
                match find_matching_brace(s.as_slice(), open) {
                    Some(close) => {
                        let block = Self::injected_block_exec(sql_statements);
                        let mut out: Vec<char> = Vec::new();
                        let mut k: usize = 0;
                        while k < close
                            invariant
                                k <= close < s@.len(),
                                out@ == s@.take(k as int),
                            decreases close - k,
                        {
                            out.push(s[k]);
                            k = k + 1;
                        }
                        push_all(&mut out, block.as_slice());
                        let ghost mid = out@;
                        while k < s.len()
                            invariant
                                close <= k <= s@.len(),
                                out@ == mid + s@.subrange(close as int, k as int),
                            decreases s@.len() - k,
                        {
                            out.push(s[k]);
                            k = k + 1;
                        }
                        assert(s@.subrange(close as int, s@.len() as int) =~= s@.skip(close as int));
                        Ok(string_of(out.as_slice()))
                    },
                    None => {
                        let mut msg = String::from_str("Could not find closing brace of ");
                        msg.append(method_name);
                        msg.append(" method");
                        Err(msg)
                    },
                }
            },
            None => {
                let mut msg = String::from_str("Could not find ");
                msg.append(method_name);
                msg.append(" method in migration file");
                Err(msg)
            },
        }
    }

    fn injected_block_exec(stmts: &[SqlStatement]) -> (r: Vec<char>)
        ensures
            r@ == injected_block(stmts_view(stmts@)),
    {
        let mut out: Vec<char> = Vec::new();
        let ghost sv = stmts_view(stmts@);
        for i in 0..stmts.len()
            invariant
                sv == stmts_view(stmts@),
                out@ + seq!['\n'] == injected_block(sv.take(i as int)),
        {
            let ghost old_out = out@;
            push_str(&mut out, "\n            migrationBuilder.Sql(@\"");
            let sc = chars_of(stmts[i].sql.as_str());
            let esc = replace_exec(sc.as_slice(), one_char('"').as_slice(), two_chars('"', '"').as_slice());
            push_all(&mut out, esc.as_slice());
            push_str(&mut out, "\");");
            proof {
                let t = sv.take(i + 1);
                assert(t.drop_last() =~= sv.take(i as int));
                assert(t.last() == stmts@[i as int]@);
                assert((old_out + seq!['\n']).drop_last() =~= old_out);
                assert(injected_block(t) == injected_block(t.drop_last()).drop_last() + injected_call(t.last().0) + seq!['\n']);
                assert(out@ =~= old_out + injected_call(stmts@[i as int]@.0));
                assert(out@ + seq!['\n'] =~= injected_block(t));
            }
        }
        assert(sv.take(stmts@.len() as int) =~= sv);
        out.push('\n');
        out
    }

    /// The first of `files` whose file stem contains `migration_name` or is
    /// contained in it.
    pub fn get_migration_file(files: &Vec<String>, migration_name: &str) -> (r: Option<String>)
        ensures
            r matches Some(f) ==> exists|i: int|
                0 <= i < files@.len() && files@[i]@ == f@ && stem_relates(files@[i]@, migration_name@)
                    && forall|j: int| 0 <= j < i ==> !stem_relates(#[trigger] files@[j]@, migration_name@),
            r is None ==> forall|j: int|
                0 <= j < files@.len() ==> !stem_relates(#[trigger] files@[j]@, migration_name@),
    {
        let name = chars_of(migration_name);
        for i in 0..files.len()
            invariant
                name@ == migration_name@,
                forall|j: int| 0 <= j < i ==> !stem_relates(#[trigger] files@[j]@, migration_name@),
        {
            match file_stem_exec(files[i].as_str()) {
                Some(stem) => {
                    if contains_exec(stem.as_slice(), name.as_slice()) || contains_exec(
                        name.as_slice(),
                        stem.as_slice(),
                    ) {
                        return Some(files[i].clone());
                    }
                },
                None => {},
            }
        }
        None
    }
}

/// The file stem of `path` contains `name` or is contained in it.
pub open spec fn stem_relates(path: Seq<char>, name: Seq<char>) -> bool {
    match file_stem(path) {
        Some(stem) => contains(stem, name) || contains(name, stem),
        None => false,
    }
}

/// SQL a squash injects reads back unchanged: the verbatim-string
/// escaping (`"` doubled) is undone by extraction, for SQL that is trimmed
/// and holds no backslash (extraction also turns `\n`, `\r`, `\t` escapes
/// into characters and trims).
pub proof fn lemma_injected_sql_reads_back(sql: Seq<char>)
    requires
        !sql.contains('\\'),
        trim(sql) == sql,
    ensures
        unescape(replace(sql, seq!['"'], seq!['"', '"'])) == sql,
{
    lemma_quote_doubling_roundtrip(sql);
    let bn = seq!['\\', 'n'];
    let br = seq!['\\', 'r'];
    let bt = seq!['\\', 't'];
    assert forall|i: int| !#[trigger] matches_at(sql, i, bn) by {
        if matches_at(sql, i, bn) {
            assert(sql.subrange(i, i + 2)[0] == '\\');
            assert(sql[i] == '\\');
        }
    }
    assert forall|i: int| !#[trigger] matches_at(sql, i, br) by {
        if matches_at(sql, i, br) {
            assert(sql.subrange(i, i + 2)[0] == '\\');
            assert(sql[i] == '\\');
        }
    }
    assert forall|i: int| !#[trigger] matches_at(sql, i, bt) by {
        if matches_at(sql, i, bt) {
            assert(sql.subrange(i, i + 2)[0] == '\\');
            assert(sql[i] == '\\');
        }
    }
    lemma_replace_absent(sql, bn, seq!['\n']);
    lemma_replace_absent(sql, br, Seq::empty());
    lemma_replace_absent(sql, bt, seq!['\t']);
}

} // verus!
