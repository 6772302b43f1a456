//! The file watchers' decisions: which file-system events matter, the
//! debounce between reactions, and when a branch change is reported. The
//! watching, sleeping and git reads are the caller's part; it hands each
//! event here and acts on the answer.
use vstd::prelude::*;
use crate::paths::{file_name, file_name_exec, is_migration_source, is_migration_source_exec};
use crate::text::{chars_of, eq_chars, push_str, string_of, strings_view};

verus! {

/// Whether some path of an event names the file `name`.
pub open spec fn touches_file(paths: Seq<Seq<char>>, name: Seq<char>) -> bool {
    exists|i: int| 0 <= i < paths.len() && file_name(#[trigger] paths[i]) == Some(name)
}

/// Whether some path of an event is a migration's main source file.
pub open spec fn touches_migration(paths: Seq<Seq<char>>) -> bool {
    exists|i: int|
        0 <= i < paths.len() && (file_name(#[trigger] paths[i]) matches Some(n) && is_migration_source(n))
}

fn any_named(paths: &Vec<String>, name: &[char]) -> (b: bool)
    ensures
        b == touches_file(strings_view(paths@), name@),
{
    let ghost pv = strings_view(paths@);
    for i in 0..paths.len()
        invariant
            pv == strings_view(paths@),
            forall|k: int| 0 <= k < i ==> file_name(#[trigger] pv[k]) != Some(name@),
    {
        assert(pv[i as int] == paths@[i as int]@);
        match file_name_exec(paths[i].as_str()) {
            Some(n) => {
                if eq_chars(n.as_slice(), name) {
                    return true;
                }
            },
            None => {},
        }
    }
    false
}

fn any_migration(paths: &Vec<String>) -> (b: bool)
    ensures
        b == touches_migration(strings_view(paths@)),
{
    let ghost pv = strings_view(paths@);
    for i in 0..paths.len()
        invariant
            pv == strings_view(paths@),
            forall|k: int|
                0 <= k < i ==> !(file_name(#[trigger] pv[k]) matches Some(n) && is_migration_source(n)),
    {
        assert(pv[i as int] == paths@[i as int]@);
        match file_name_exec(paths[i].as_str()) {
            Some(n) => {
                if is_migration_source_exec(n.as_slice()) {
                    return true;
                }
            },
            None => {},
        }
    }
    false
}

// ─── The branch watcher ─────────────────────────────────────────────

/// Reacting to `.git/HEAD` changes: at most one reaction per 2 s, and a
/// report only when the branch really changed.
#[derive(Debug)]
pub struct BranchWatch {
    /// The file name of the watched HEAD file.
    pub head_file: String,
    pub last_branch: String,
    /// When the last reaction happened (ms on the caller's clock).
    pub last_check_ms: u64,
}

/// A branch change to report.
#[derive(Debug, Clone)]
pub struct BranchChange {
    pub old_branch: String,
    pub new_branch: String,
    pub reverted_to_stable: bool,
}

impl BranchWatch {
    /// A watcher started at `now_ms` on `initial_branch`; it reacts to the
    /// first relevant event at once (its last reaction counts as 10 s ago).
    pub fn new(head_file: &str, initial_branch: &str, now_ms: u64) -> (r: BranchWatch)
        ensures
            r.head_file@ == head_file@,
            r.last_branch@ == initial_branch@,
            r.last_check_ms == (if now_ms >= 10_000 {
                now_ms - 10_000
            } else {
                now_ms as int
            }),
    {
        BranchWatch {
            head_file: String::from_str(head_file),
            last_branch: String::from_str(initial_branch),
            last_check_ms: if now_ms >= 10_000 {
                now_ms - 10_000
            } else {
                now_ms
            },
        }
    }

    /// Whether an event on `paths` at `now_ms` calls for re-reading the
    /// branch: it must touch the HEAD file and come 2 s or more after the
    /// last reaction, which it then becomes.
    pub fn on_event(&mut self, paths: &Vec<String>, now_ms: u64) -> (react: bool)
        ensures
            react == (touches_file(strings_view(paths@), old(self).head_file@) && now_ms
                >= old(self).last_check_ms + 2000),
            final(self).last_check_ms == (if react {
                now_ms
            } else {
                old(self).last_check_ms
            }),
            final(self).head_file@ == old(self).head_file@,
            final(self).last_branch@ == old(self).last_branch@,
    {
        let name = chars_of(self.head_file.as_str());
        if !any_named(paths, name.as_slice()) {
            return false;
        }
        if now_ms < self.last_check_ms || now_ms - self.last_check_ms < 2000 {
            return false;
        }
        self.last_check_ms = now_ms;
        true
    }

    /// The branch read after a reaction: a change from the last known
    /// branch is reported and remembered.
    pub fn on_branch(&mut self, new_branch: &str) -> (r: Option<BranchChange>)
        ensures
            r is Some <==> new_branch@ != old(self).last_branch@,
            r matches Some(c) ==> c.old_branch@ == old(self).last_branch@ && c.new_branch@ == new_branch@
                && !c.reverted_to_stable,
            final(self).last_branch@ == new_branch@,
            final(self).head_file@ == old(self).head_file@,
            final(self).last_check_ms == old(self).last_check_ms,
    {
        let n = chars_of(new_branch);
        let l = chars_of(self.last_branch.as_str());
        if eq_chars(n.as_slice(), l.as_slice()) {
            return None;
        }
        let old_branch = string_of(l.as_slice());
        self.last_branch = String::from_str(new_branch);
        Some(BranchChange { old_branch, new_branch: String::from_str(new_branch), reverted_to_stable: false })
    }
}

// ─── The migration watcher ──────────────────────────────────────────

/// Reacting to changes of migration source files: at most one report per
/// 3 s.
#[derive(Debug)]
pub struct MigrationWatch {
    pub last_emit_ms: u64,
}

impl MigrationWatch {
    pub fn new(now_ms: u64) -> (r: MigrationWatch)
        ensures
            r.last_emit_ms == now_ms,
    {
        MigrationWatch { last_emit_ms: now_ms }
    }

    /// Whether an event on `paths` at `now_ms` is reported: it must touch
    /// a migration's main source file (not a `.Designer.cs` or the
    /// snapshot) and come 3 s or more after the last report.
    pub fn on_event(&mut self, paths: &Vec<String>, now_ms: u64) -> (report: bool)
        ensures
            report == (touches_migration(strings_view(paths@)) && now_ms >= old(self).last_emit_ms + 3000),
            final(self).last_emit_ms == (if report {
                now_ms
            } else {
                old(self).last_emit_ms
            }),
    {
        if !any_migration(paths) {
            return false;
        }
        if now_ms < self.last_emit_ms || now_ms - self.last_emit_ms < 3000 {
            return false;
        }
        self.last_emit_ms = now_ms;
        true
    }
}

// ─── Start-up messages ──────────────────────────────────────────────

/// What starting a watcher reports: that one already runs, or what it
/// now watches.
pub fn watch_started_message(already: bool, what: &str, target: &str) -> (r: String)
    ensures
        r@ == (if already {
            "Already watching for "@ + what@
        } else {
            "Watching for "@ + what@ + ": "@ + target@
        }),
{
    if already {
        let mut out = chars_of("Already watching for ");
        push_str(&mut out, what);
        string_of(out.as_slice())
    } else {
        let mut out = chars_of("Watching for ");
        push_str(&mut out, what);
        push_str(&mut out, ": ");
        push_str(&mut out, target);
        string_of(out.as_slice())
    }
}

} // verus!
