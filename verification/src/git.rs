//! The `git` side of the library: how git's output is read (branch lists,
//! file lists, remotes, working-tree status), which checkout a branch
//! switch runs, and how a failed git run is reported. The processes are
//! run by the caller.
use vstd::prelude::*;
use crate::text::{
    char_from, char_from_exec, chars_of, eq_str, has_prefix, has_suffix, is_blank, join, join_exec,
    lemma_char_from, lemma_seq_lt_irreflexive, lemma_seq_lt_total, lemma_seq_lt_transitive,
    lines, lines_exec, lt_chars, nonblank_lines, nonblank_lines_exec, push_str, replace, replace_str,
    seq_lt, starts_with_str, ends_with_str, strictly_sorted, string_of, strings_view, trim,
    trim_chars, views,
};

verus! {

pub struct GitService;

/// What one `git` run produced.
#[derive(Debug)]
pub struct GitOutput {
    pub success: bool,
    pub stdout: String,
    pub stderr: String,
}

/// A git run's result: its trimmed stdout, or an error naming the command
/// with its trimmed stderr.
pub open spec fn git_result(args: Seq<Seq<char>>, out: GitOutput) -> Result<Seq<char>, Seq<char>> {
    if out.success {
        Ok(trim(out.stdout@))
    } else {
        Err("git "@ + join(args, " "@) + " failed: "@ + trim(out.stderr@))
    }
}

/// The name a remote branch checks out as locally: everything after the
/// first `/`, or the name itself when it has none.
pub open spec fn local_name(branch: Seq<char>) -> Seq<char> {
    let k = char_from(branch, '/', 0);
    if k < branch.len() {
        branch.subrange(k + 1, branch.len() as int)
    } else {
        branch
    }
}

impl GitService {
    /// The result of a git run with arguments `args` (see `git_result`).
    pub fn run_git(args: &Vec<String>, output: &GitOutput) -> (r: Result<String, String>)
        ensures
            r matches Ok(s) ==> git_result(strings_view(args@), *output) == Ok::<Seq<char>, Seq<char>>(
                s@,
            ),
            r matches Err(e) ==> git_result(strings_view(args@), *output) == Err::<
                Seq<char>,
                Seq<char>,
            >(e@),
    {
        if output.success {
            let t = trim_chars(chars_of(output.stdout.as_str()).as_slice());
            Ok(string_of(t.as_slice()))
        } else {
            let mut parts: Vec<Vec<char>> = Vec::new();
            for i in 0..args.len()
                invariant
                    views(parts@) == strings_view(args@).take(i as int),
            {
                let ghost before = parts@;
                parts.push(chars_of(args[i].as_str()));
                assert(views(parts@) =~= views(before).push(args@[i as int]@));
                assert(strings_view(args@).take(i + 1) =~= strings_view(args@).take(i as int).push(
                    args@[i as int]@,
                ));
            }
            assert(strings_view(args@).take(args@.len() as int) =~= strings_view(args@));
            let sep = chars_of(" ");
            let joined = join_exec(&parts, sep.as_slice());
            let mut out = chars_of("git ");
            crate::text::push_all(&mut out, joined.as_slice());
            push_str(&mut out, " failed: ");
            let t = trim_chars(chars_of(output.stderr.as_str()).as_slice());
            crate::text::push_all(&mut out, t.as_slice());
            Err(string_of(out.as_slice()))
        }
    }

    /// Whether `git remote` listed any remote.
    pub fn has_remotes(remote_output: &str) -> (b: bool)
        ensures
            b == (trim(remote_output@).len() != 0),
    {
        !is_blank(chars_of(remote_output).as_slice())
    }

    /// The fetch to run after `git remote` printed `remote_output`:
    /// `git fetch --all --prune` (latest refs from every remote, with
    /// remote-tracking branches deleted upstream pruned), or, when no remote
    /// is configured, the refusal and no fetch at all.
    pub fn fetch_args(remote_output: &str) -> (r: Result<Vec<String>, String>)
        ensures
            trim(remote_output@).len() != 0 ==> (r matches Ok(a) && strings_view(a@) == seq![
                "fetch"@,
                "--all"@,
                "--prune"@,
            ]),
            trim(remote_output@).len() == 0 ==> (r matches Err(e) && e@
                == "No git remotes are configured for this repository."@),
    {
        if !Self::has_remotes(remote_output) {
            return Err(String::from_str("No git remotes are configured for this repository."));
        }
        let mut a: Vec<String> = Vec::new();
        a.push(String::from_str("fetch"));
        a.push(String::from_str("--all"));
        a.push(String::from_str("--prune"));
        assert(strings_view(a@) =~= seq!["fetch"@, "--all"@, "--prune"@]);
        Ok(a)
    }

    /// Whether `git status --porcelain` reported nothing.
    pub fn is_working_tree_clean(status_output: &str) -> (b: bool)
        ensures
            b == (trim(status_output@).len() == 0),
    {
        is_blank(chars_of(status_output).as_slice())
    }

    /// `origin/feature/foo` → `feature/foo`; the input unchanged when it has
    /// no `/`.
    pub fn local_name_from_remote_branch(branch: &str) -> (r: String)
        ensures
            r@ == local_name(branch@),
    {
        let cs = chars_of(branch);
        let k = char_from_exec(cs.as_slice(), '/', 0);
        if k < cs.len() {
            let mut out: Vec<char> = Vec::new();
            let mut j: usize = k + 1;
            while j < cs.len()
                invariant
                    k < j <= cs@.len(),
                    out@ == cs@.subrange(k + 1, j as int),
                decreases cs@.len() - j,
            {
                out.push(cs[j]);
                j = j + 1;
            }
            string_of(out.as_slice())
        } else {
            String::from_str(branch)
        }
    }

    /// The files `git ls-tree -r --name-only` listed: its lines trimmed,
    /// blank ones dropped.
    pub fn list_files_at_ref(ls_tree_output: &str) -> (r: Vec<String>)
        ensures
            strings_view(r@) == nonblank_lines(
                lines(ls_tree_output@),
                lines(ls_tree_output@).len() as int,
            ),
    {
        nonblank_lines_exec(ls_tree_output)
    }

    /// A pathspec in git's form: `\` separators become `/`.
    pub fn normalize_pathspec(pathspec: &str) -> (r: String)
        ensures
            r@ == replace(pathspec@, seq!['\\'], seq!['/']),
    {
        let cs = chars_of(pathspec);
        let out = replace_str(cs.as_slice(), "\\", "/");
        proof {
            reveal_strlit("\\");
            reveal_strlit("/");
            assert("\\"@ =~= seq!['\\']);
            assert("/"@ =~= seq!['/']);
        }
        string_of(out.as_slice())
    }
}

// ─── Refs and checkouts ─────────────────────────────────────────────

impl GitService {
    /// `<ref>^{commit}`: the ref peeled to a commit, for `rev-parse --verify`.
    pub fn commit_ref(ref_name: &str) -> (r: String)
        ensures
            r@ == ref_name@ + "^{commit}"@,
    {
        let mut out = chars_of(ref_name);
        push_str(&mut out, "^{commit}");
        string_of(out.as_slice())
    }

    /// The full ref of local branch `branch`.
    pub fn local_branch_ref(branch: &str) -> (r: String)
        ensures
            r@ == "refs/heads/"@ + branch@,
    {
        let mut out = chars_of("refs/heads/");
        push_str(&mut out, branch);
        string_of(out.as_slice())
    }

    /// The full ref of remote-tracking branch `branch` (e.g. `origin/main`).
    pub fn remote_branch_ref(branch: &str) -> (r: String)
        ensures
            r@ == "refs/remotes/"@ + branch@,
    {
        let mut out = chars_of("refs/remotes/");
        push_str(&mut out, branch);
        string_of(out.as_slice())
    }
}

/// The `git checkout` arguments that switch to `branch`: the local branch
/// when there is one; for a remote branch, its local counterpart when that
/// exists, else a new tracking branch; otherwise `branch` as given.
pub open spec fn checkout_for(
    branch: Seq<char>,
    local_exists: bool,
    remote_exists: bool,
    local_of_remote_exists: bool,
) -> Seq<Seq<char>> {
    if local_exists {
        seq!["checkout"@, branch]
    } else if remote_exists {
        if local_of_remote_exists {
            seq!["checkout"@, local_name(branch)]
        } else {
            seq!["checkout"@, "--track"@, branch]
        }
    } else {
        seq!["checkout"@, branch]
    }
}

impl GitService {
    /// The checkout that switches to `branch` (see `checkout_for`), given
    /// whether `branch` exists locally, whether it exists as a remote
    /// branch, and whether that remote branch's local name exists.
    pub fn checkout_args(
        branch: &str,
        local_exists: bool,
        remote_exists: bool,
        local_of_remote_exists: bool,
    ) -> (r: Vec<String>)
        ensures
            strings_view(r@) == checkout_for(branch@, local_exists, remote_exists, local_of_remote_exists),
    {
        let mut v: Vec<String> = Vec::new();
        v.push(String::from_str("checkout"));
        if !local_exists && remote_exists {
            if local_of_remote_exists {
                v.push(Self::local_name_from_remote_branch(branch));
            } else {
                v.push(String::from_str("--track"));
                v.push(String::from_str(branch));
            }
        } else {
            v.push(String::from_str(branch));
        }
        assert(strings_view(v@) =~= checkout_for(
            branch@,
            local_exists,
            remote_exists,
            local_of_remote_exists,
        ));
        v
    }
}

// ─── Branch lists ───────────────────────────────────────────────────

/// The full ref name of a `for-each-ref` line (`%(refname)\t%(refname:short)`):
/// the part before the first tab, trimmed.
pub open spec fn ref_full(line: Seq<char>) -> Seq<char> {
    trim(line.take(char_from(line, '\t', 0)))
}

/// The short name: the part after the first tab, trimmed (empty without
/// a tab).
pub open spec fn ref_short(line: Seq<char>) -> Seq<char> {
    let k = char_from(line, '\t', 0);
    if k < line.len() {
        trim(line.subrange(k + 1, line.len() as int))
    } else {
        Seq::empty()
    }
}

/// A short name that is a branch (not a symbolic `HEAD`).
pub open spec fn branch_name_ok(short: Seq<char>) -> bool {
    short.len() > 0 && short != "HEAD"@ && !has_suffix(short, "/HEAD"@)
}

pub open spec fn local_line(line: Seq<char>) -> bool {
    branch_name_ok(ref_short(line)) && has_prefix(ref_full(line), "refs/heads/"@)
}

pub open spec fn remote_line(line: Seq<char>) -> bool {
    branch_name_ok(ref_short(line)) && !has_prefix(ref_full(line), "refs/heads/"@) && has_prefix(
        ref_full(line),
        "refs/remotes/"@,
    )
}

/// The short names of the lines in `ls[..n]` that satisfy `local_line`
/// (`remote` false) or `remote_line` (`remote` true).
pub open spec fn branch_names(ls: Seq<Seq<char>>, n: int, remote: bool) -> Set<Seq<char>>
    decreases n,
{
    if n <= 0 || n > ls.len() {
        Set::empty()
    } else if (if remote {
        remote_line(ls[n - 1])
    } else {
        local_line(ls[n - 1])
    }) {
        branch_names(ls, n - 1, remote).insert(ref_short(ls[n - 1]))
    } else {
        branch_names(ls, n - 1, remote)
    }
}

pub open spec fn tagged(names: Seq<Seq<char>>, remote: bool) -> Seq<(Seq<char>, bool)> {
    names.map_values(|n: Seq<char>| (n, remote))
}

pub open spec fn pairs_view(v: Seq<(String, bool)>) -> Seq<(Seq<char>, bool)> {
    v.map_values(|e: (String, bool)| (e.0@, e.1))
}

/// The branches of a `for-each-ref refs/heads refs/remotes` listing: the
/// local ones, then the remote ones (flagged `true`), each group sorted
/// with no name twice.
pub open spec fn branch_listing(output: Seq<char>, r: Seq<(Seq<char>, bool)>) -> bool {
    let ls = lines(output);
    exists|locals: Seq<Seq<char>>, remotes: Seq<Seq<char>>|
        {
            &&& r == tagged(locals, false) + tagged(remotes, true)
            &&& strictly_sorted(locals)
            &&& strictly_sorted(remotes)
            &&& #[trigger] locals.to_set() == branch_names(ls, ls.len() as int, false)
            &&& #[trigger] remotes.to_set() == branch_names(ls, ls.len() as int, true)
        }
}

fn ref_parts(line: &[char]) -> (r: (Vec<char>, Vec<char>))
    ensures
        r.0@ == ref_full(line@),
        r.1@ == ref_short(line@),
{
    let k = char_from_exec(line, '\t', 0);
    let mut head: Vec<char> = Vec::new();
    let mut j: usize = 0;
    while j < k
        invariant
            j <= k <= line@.len(),
            head@ == line@.take(j as int),
        decreases k - j,
    {
        head.push(line[j]);
        j = j + 1;
    }
    let full = trim_chars(head.as_slice());
    if k < line.len() {
        let mut tail: Vec<char> = Vec::new();
        let mut j: usize = k + 1;
        while j < line.len()
            invariant
                k < j <= line@.len(),
                tail@ == line@.subrange(k + 1, j as int),
            decreases line@.len() - j,
        {
            tail.push(line[j]);
            j = j + 1;
        }
        (full, trim_chars(tail.as_slice()))
    } else {
        (full, Vec::new())
    }
}

/// Inserts `x` into the strictly sorted `v`, unless it is already there.
fn insert_sorted(v: &mut Vec<Vec<char>>, x: Vec<char>)
    requires
        strictly_sorted(views(old(v)@)),
    ensures
        strictly_sorted(views(final(v)@)),
        views(final(v)@).to_set() == views(old(v)@).to_set().insert(x@),
{
    let ghost old_v = views(v@);
    let mut p: usize = 0;
    while p < v.len() && lt_chars(v[p].as_slice(), x.as_slice())
        invariant
            p <= v@.len(),
            old_v == views(v@),
            strictly_sorted(old_v),
            forall|i: int| 0 <= i < p ==> seq_lt(#[trigger] old_v[i], x@),
        decreases v@.len() - p,
    {
        p = p + 1;
    }
    if p < v.len() && crate::text::eq_chars(v[p].as_slice(), x.as_slice()) {
        assert(old_v[p as int] == x@);
        assert(old_v.to_set().insert(x@) =~= old_v.to_set());
        return;
    }
    proof {
        if p < old_v.len() {
            lemma_seq_lt_total(old_v[p as int], x@);
        }
    }
    let ghost xv = x@;
    v.insert(p, x);
    let ghost nv = views(v@);
    assert(nv =~= old_v.insert(p as int, xv));
    assert forall|i: int, j: int| 0 <= i < j < nv.len() implies seq_lt(#[trigger] nv[i], #[trigger] nv[j]) by {
        if j < p {
        } else if j == p {
        } else if i < p {
            if j > p + 1 {
                lemma_seq_lt_transitive(nv[i], xv, old_v[p as int]);
                lemma_seq_lt_transitive(nv[i], old_v[p as int], nv[j]);
            } else {
                lemma_seq_lt_transitive(nv[i], xv, nv[j]);
            }
        } else if i == p {
            if j > p + 1 {
                lemma_seq_lt_transitive(xv, old_v[p as int], nv[j]);
            }
        } else {
        }
    }
    assert(nv.to_set() =~= old_v.to_set().insert(xv)) by {
        assert forall|s: Seq<char>| nv.to_set().contains(s) implies old_v.to_set().insert(xv).contains(s) by {
            let k = choose|k: int| 0 <= k < nv.len() && nv[k] == s;
            if k < p {
                assert(old_v[k] == s);
            } else if k > p {
                assert(old_v[k - 1] == s);
            }
        }
        assert forall|s: Seq<char>| old_v.to_set().insert(xv).contains(s) implies nv.to_set().contains(s) by {
            if s == xv {
                assert(nv[p as int] == s);
            } else {
                let k = choose|k: int| 0 <= k < old_v.len() && old_v[k] == s;
                if k < p {
                    assert(nv[k] == s);
                } else {
                    assert(nv[k + 1] == s);
                }
            }
        }
    }
}

fn tag_all(out: &mut Vec<(String, bool)>, names: &Vec<Vec<char>>, remote: bool)
    ensures
        pairs_view(final(out)@) == pairs_view(old(out)@) + tagged(views(names@), remote),
{
    let ghost start = pairs_view(out@);
    for i in 0..names.len()
        invariant
            pairs_view(out@) == start + tagged(views(names@), remote).take(i as int),
    {
        let ghost before = out@;
        out.push((string_of(names[i].as_slice()), remote));
        assert(pairs_view(out@) =~= pairs_view(before).push((names@[i as int]@, remote)));
        assert(tagged(views(names@), remote).take(i + 1) =~= tagged(views(names@), remote).take(
            i as int,
        ).push((names@[i as int]@, remote)));
    }
    assert(tagged(views(names@), remote).take(names@.len() as int) =~= tagged(views(names@), remote));
}

impl GitService {
    /// The branches listed by `git for-each-ref refs/heads refs/remotes
    /// --format=%(refname)%09%(refname:short)` (see `branch_listing`);
    /// symbolic `HEAD` refs are left out.
    pub fn list_branches(ref_output: &str) -> (r: Vec<(String, bool)>)
        ensures
            branch_listing(ref_output@, pairs_view(r@)),
    {
        let ls = lines_exec(chars_of(ref_output).as_slice());
        let ghost lv = views(ls@);
        let mut locals: Vec<Vec<char>> = Vec::new();
        let mut remotes: Vec<Vec<char>> = Vec::new();
        for i in 0..ls.len()
            invariant
                lv == views(ls@),
                lv == lines(ref_output@),
                strictly_sorted(views(locals@)),
                strictly_sorted(views(remotes@)),
                views(locals@).to_set() == branch_names(lv, i as int, false),
                views(remotes@).to_set() == branch_names(lv, i as int, true),
        {
            let (full, short) = ref_parts(ls[i].as_slice());
            assert(lv[i as int] == ls@[i as int]@);
            let ok = short.len() > 0 && !eq_str(short.as_slice(), "HEAD") && !ends_with_str(
                short.as_slice(),
                "/HEAD",
            );
            if ok && starts_with_str(full.as_slice(), "refs/heads/") {
                insert_sorted(&mut locals, short);
            } else if ok && starts_with_str(full.as_slice(), "refs/remotes/") {
                insert_sorted(&mut remotes, short);
            }
        }
        let mut out: Vec<(String, bool)> = Vec::new();
        tag_all(&mut out, &locals, false);
        tag_all(&mut out, &remotes, true);
        proof {
            let lo = views(locals@);
            let re = views(remotes@);
            assert(pairs_view(out@) =~= tagged(lo, false) + tagged(re, true));
            assert(lo.to_set() == branch_names(lv, lv.len() as int, false));
        }
        out
    }
}

/// A listed branch occurs once: within each group no name repeats.
pub proof fn lemma_listing_has_no_duplicates(names: Seq<Seq<char>>, i: int, j: int)
    requires
        strictly_sorted(names),
        0 <= i < j < names.len(),
    ensures
        names[i] != names[j],
{
    lemma_seq_lt_irreflexive(names[i]);
}

} // verus!
