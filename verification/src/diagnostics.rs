//! The diagnostics log: how a `migrations list` run is written down, and
//! how the log is cut back to its newest entries. Reading and writing the
//! file is the caller's part.
use vstd::prelude::*;
use vstd::string::StringSliceAdditionalSpecFns;
use crate::text::{chars_of, decimal, push_all, push_decimal, push_str, string_of, trim_end, trim_end_chars};

verus! {

/// The log is cut back once it grows past this many bytes.
pub const MAX_LOG_SIZE: u64 = 1_048_576;

/// How many of the newest bytes a cut keeps (before aligning to a line).
pub const TRIM_TARGET: usize = 524_288;

/// One `dotnet ef migrations list` run, as logged.
pub struct ListMigrationsEntry<'a> {
    pub project_path: &'a str,
    pub db_context: &'a str,
    pub startup_project: &'a str,
    pub command_display: &'a str,
    pub duration_ms: u128,
    pub exit_success: bool,
    pub parsed_count: usize,
    pub migration_files_found: usize,
    pub stdout: &'a str,
    pub stderr: &'a str,
}

/// `s`, or "(unset)" when it is empty.
pub open spec fn or_unset(s: Seq<char>) -> Seq<char> {
    if s.len() == 0 {
        "(unset)"@
    } else {
        s
    }
}

pub fn display_or_blank(s: &str) -> (r: String)
    ensures
        r@ == or_unset(s@),
{
    if s.is_empty() {
        String::from_str("(unset)")
    } else {
        String::from_str(s)
    }
}

pub open spec fn bool_text(b: bool) -> Seq<char> {
    if b {
        "true"@
    } else {
        "false"@
    }
}

/// The log entry of one `migrations list` run, stamped `timestamp`, for
/// app version `app_version` on `os` (`arch`).
pub open spec fn list_migrations_entry(
    e: ListMigrationsEntry,
    timestamp: Seq<char>,
    app_version: Seq<char>,
    os: Seq<char>,
    arch: Seq<char>,
) -> Seq<char> {
    "=== "@ + timestamp + " list_migrations ===\n"@ + "app_version: "@ + app_version + "\n"@ + "os: "@ + os
        + " ("@ + arch + ")\n"@ + "project_path: "@ + e.project_path@ + "\n"@ + "db_context: "@ + or_unset(
        e.db_context@,
    ) + "\n"@ + "startup_project: "@ + or_unset(e.startup_project@) + "\n"@ + "command: "@
        + e.command_display@ + "\n"@ + "duration_ms: "@ + decimal(e.duration_ms as nat) + "\n"@
        + "exit_success: "@ + bool_text(e.exit_success) + "\n"@ + "parsed_count: "@ + decimal(
        e.parsed_count as nat,
    ) + "\n"@ + "migration_files_found: "@ + decimal(e.migration_files_found as nat) + "\n"@
        + "--- stdout ---\n"@ + trim_end(e.stdout@) + "\n--- stderr ---\n"@ + trim_end(e.stderr@)
        + "\n\n"@
}

fn push_bool(v: &mut Vec<char>, b: bool)
    ensures
        final(v)@ == old(v)@ + bool_text(b),
{
    if b {
        push_str(v, "true");
    } else {
        push_str(v, "false");
    }
}

pub fn format_list_migrations_entry(
    entry: &ListMigrationsEntry,
    timestamp: &str,
    app_version: &str,
    os: &str,
    arch: &str,
) -> (r: String)
    ensures
        r@ == list_migrations_entry(*entry, timestamp@, app_version@, os@, arch@),
{
    let mut out = chars_of("=== ");
    push_str(&mut out, timestamp);
    push_str(&mut out, " list_migrations ===\n");
    push_str(&mut out, "app_version: ");
    push_str(&mut out, app_version);
    push_str(&mut out, "\n");
    push_str(&mut out, "os: ");
    push_str(&mut out, os);
    push_str(&mut out, " (");
    push_str(&mut out, arch);
    push_str(&mut out, ")\n");
    push_str(&mut out, "project_path: ");
    push_str(&mut out, entry.project_path);
    push_str(&mut out, "\n");
    push_str(&mut out, "db_context: ");
    let ctx = display_or_blank(entry.db_context);
    push_str(&mut out, ctx.as_str());
    push_str(&mut out, "\n");
    push_str(&mut out, "startup_project: ");
    let sp = display_or_blank(entry.startup_project);
    push_str(&mut out, sp.as_str());
    push_str(&mut out, "\n");
    push_str(&mut out, "command: ");
    push_str(&mut out, entry.command_display);
    push_str(&mut out, "\n");
    push_str(&mut out, "duration_ms: ");
    push_decimal(&mut out, entry.duration_ms);
    push_str(&mut out, "\n");
    push_str(&mut out, "exit_success: ");
    push_bool(&mut out, entry.exit_success);
    push_str(&mut out, "\n");
    push_str(&mut out, "parsed_count: ");
    push_decimal(&mut out, entry.parsed_count as u128);
    push_str(&mut out, "\n");
    push_str(&mut out, "migration_files_found: ");
    push_decimal(&mut out, entry.migration_files_found as u128);
    push_str(&mut out, "\n");
    push_str(&mut out, "--- stdout ---\n");
    let so = trim_end_chars(chars_of(entry.stdout).as_slice());
    push_all(&mut out, so.as_slice());
    push_str(&mut out, "\n--- stderr ---\n");
    let se = trim_end_chars(chars_of(entry.stderr).as_slice());
    push_all(&mut out, se.as_slice());
    push_str(&mut out, "\n\n");
    string_of(out.as_slice())
}

// ─── Cutting the log back ───────────────────────────────────────────

/// The first index `>= i` of a `\n` in `b`, or its length.
pub open spec fn newline_from(b: Seq<u8>, i: int) -> int
    decreases b.len() - i,
{
    if i < 0 || i >= b.len() {
        b.len() as int
    } else if b[i] == 10u8 {
        i
    } else {
        newline_from(b, i + 1)
    }
}

/// Where the kept tail of `b` starts when at most `keep` bytes are kept:
/// just after the first line break at or after `len - keep`, so no entry
/// is cut in half (or at `len - keep` when no line break follows).
pub open spec fn tail_start(b: Seq<u8>, keep: int) -> int {
    let start = if b.len() > keep {
        b.len() - keep
    } else {
        0
    };
    if newline_from(b, start) < b.len() {
        newline_from(b, start) + 1
    } else {
        start
    }
}

pub proof fn lemma_newline_from(b: Seq<u8>, i: int)
    requires
        0 <= i <= b.len(),
    ensures
        i <= newline_from(b, i) <= b.len(),
        newline_from(b, i) < b.len() ==> b[newline_from(b, i)] == 10u8,
        forall|k: int| i <= k < newline_from(b, i) ==> #[trigger] b[k] != 10u8,
    decreases b.len() - i,
{
    if i < b.len() && b[i] != 10u8 {
        lemma_newline_from(b, i + 1);
    }
}

/// The start of the part of the log kept when it is cut back to about
/// `keep` bytes (see `tail_start`).
pub fn aligned_tail_start(bytes: &[u8], keep: usize) -> (r: usize)
    ensures
        r == tail_start(bytes@, keep as int),
        r <= bytes@.len(),
{
    let start: usize = if bytes.len() > keep {
        bytes.len() - keep
    } else {
        0
    };
    let mut k: usize = start;
    while k < bytes.len() && bytes[k] != 10u8
        invariant
            start <= k <= bytes@.len(),
            newline_from(bytes@, start as int) == newline_from(bytes@, k as int),
        decreases bytes@.len() - k,
    {
        k = k + 1;
    }
    if k < bytes.len() {
        k + 1
    } else {
        start
    }
}

/// The contents a cut-back log is rewritten with: a marker line, then the
/// kept tail.
pub open spec fn trimmed_log(b: Seq<u8>, keep: int) -> Seq<u8> {
    "... (older entries trimmed) ...\n\n".spec_bytes() + b.subrange(
        tail_start(b, keep),
        b.len() as int,
    )
}

pub fn trim_log_contents(contents: &[u8]) -> (r: Vec<u8>)
    ensures
        r@ == trimmed_log(contents@, TRIM_TARGET as int),
{
    let start = aligned_tail_start(contents, TRIM_TARGET);
    let header: &[u8] = "... (older entries trimmed) ...\n\n".as_bytes();
    let mut out: Vec<u8> = Vec::new();
    for i in 0..header.len()
        invariant
            out@ == header@.take(i as int),
    {
        out.push(header[i]);
        assert(out@ =~= header@.take(i + 1));
    }
    assert(header@.take(header@.len() as int) =~= header@);
    let ghost head = out@;
    for j in start..contents.len()
        invariant
            start <= contents@.len(),
            out@ == head + contents@.subrange(start as int, j as int),
    {
        out.push(contents[j]);
        assert(out@ =~= head + contents@.subrange(start as int, j + 1));
    }
    out
}

/// The text `String::from_utf8_lossy` makes of `bytes`.
pub uninterp spec fn lossy_utf8(bytes: Seq<u8>) -> Seq<char>;

/// `String::from_utf8_lossy`: `bytes` decoded as UTF-8, each invalid
/// sequence replaced by U+FFFD. The decoding depends on the bytes alone.
#[verifier::external_body]
fn utf8_lossy(bytes: &[u8]) -> (s: String)
    ensures
        s@ == lossy_utf8(bytes@),
{
    String::from_utf8_lossy(bytes).into_owned()
}

/// What the diagnostics view shows of a log: all of it when it is at most
/// `max_bytes` long, otherwise a marker line and the newest part, cut at a
/// line break.
pub open spec fn log_tail_text(b: Seq<u8>, max_bytes: int) -> Seq<char> {
    if b.len() <= max_bytes {
        lossy_utf8(b)
    } else {
        "... (older entries trimmed) ...\n"@ + lossy_utf8(b.subrange(tail_start(b, max_bytes), b.len() as int))
    }
}

pub fn log_tail(bytes: &[u8], max_bytes: usize) -> (r: String)
    ensures
        r@ == log_tail_text(bytes@, max_bytes as int),
{
    if bytes.len() <= max_bytes {
        return utf8_lossy(bytes);
    }
    let start = aligned_tail_start(bytes, max_bytes);
    let mut tail: Vec<u8> = Vec::new();
    for j in start..bytes.len()
        invariant
            start <= bytes@.len(),
            tail@ == bytes@.subrange(start as int, j as int),
    {
        tail.push(bytes[j]);
        assert(tail@ =~= bytes@.subrange(start as int, j + 1));
    }
    let text = utf8_lossy(tail.as_slice());
    let mut out = chars_of("... (older entries trimmed) ...\n");
    push_str(&mut out, text.as_str());
    string_of(out.as_slice())
}

} // verus!
