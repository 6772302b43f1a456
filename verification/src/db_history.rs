//! Connection strings for checking `__EFMigrationsHistory` directly:
//! normalizing a pasted SQL Server connection string to the keys the
//! driver understands, and keeping it in the OS keyring.
use vstd::prelude::*;
use crate::text::{
    lemma_split_join, lemma_split_no_sep, lemma_trim_idempotent, lemma_char_from,
    char_from, char_from_exec, chars_of, eq_str, has_prefix, join, join_exec, push_all, push_str,
    split, split_exec, string_of, strings_view, to_ascii_lower, to_ascii_lower_exec, trim, trim_chars,
    views,
};

verus! {

/// A row of `__EFMigrationsHistory`.
#[derive(Debug, Clone)]
pub struct DbHistoryRow {
    pub migration_id: String,
    pub product_version: String,
}

/// A connection string reduced to the keys the driver accepts, and the
/// keys that were dropped.
#[derive(Debug, Clone, Default)]
pub struct NormalizedConnection {
    pub connection_string: String,
    pub ignored_keys: Vec<String>,
}

/// The keys the SQL Server driver's ADO parser recognizes (lower case).
pub open spec fn supported_key(k: Seq<char>) -> bool {
    ||| k == "server"@
    ||| k == "data source"@
    ||| k == "address"@
    ||| k == "addr"@
    ||| k == "database"@
    ||| k == "initial catalog"@
    ||| k == "user id"@
    ||| k == "uid"@
    ||| k == "user"@
    ||| k == "password"@
    ||| k == "pwd"@
    ||| k == "integrated security"@
    ||| k == "integratedsecurity"@
    ||| k == "trustservercertificate"@
    ||| k == "encrypt"@
    ||| k == "application name"@
    ||| k == "applicationname"@
    ||| k == "instance name"@
    ||| k == "instancename"@
}

fn supported_key_exec(k: &[char]) -> (b: bool)
    ensures
        b == supported_key(k@),
{
    eq_str(k, "server") || eq_str(k, "data source") || eq_str(k, "address") || eq_str(k, "addr")
        || eq_str(k, "database") || eq_str(k, "initial catalog") || eq_str(k, "user id") || eq_str(
        k,
        "uid",
    ) || eq_str(k, "user") || eq_str(k, "password") || eq_str(k, "pwd") || eq_str(
        k,
        "integrated security",
    ) || eq_str(k, "integratedsecurity") || eq_str(k, "trustservercertificate") || eq_str(
        k,
        "encrypt",
    ) || eq_str(k, "application name") || eq_str(k, "applicationname") || eq_str(
        k,
        "instance name",
    ) || eq_str(k, "instancename")
}

/// The key of a `key=value` segment: the text before the first `=`,
/// trimmed; `None` for a bare token.
pub open spec fn segment_key(t: Seq<char>) -> Option<Seq<char>> {
    let k = char_from(t, '=', 0);
    if k < t.len() {
        Some(trim(t.take(k)))
    } else {
        None
    }
}

/// The kept segments and the ignored keys of `parts`: empty segments are
/// dropped, segments with a supported key (in any case) and bare tokens are
/// kept trimmed, the keys of the other segments are reported.
pub open spec fn normalized_parts(parts: Seq<Seq<char>>) -> (Seq<Seq<char>>, Seq<Seq<char>>)
    decreases parts.len(),
{
    if parts.len() == 0 {
        (Seq::empty(), Seq::empty())
    } else {
        let (kept, ignored) = normalized_parts(parts.drop_last());
        let t = trim(parts.last());
        if t.len() == 0 {
            (kept, ignored)
        } else {
            match segment_key(t) {
                Some(key) => if supported_key(to_ascii_lower(key)) {
                    (kept.push(t), ignored)
                } else {
                    (kept, ignored.push(key))
                },
                None => (kept.push(t), ignored),
            }
        }
    }
}

/// The normalized connection string (kept segments joined with `;`) and
/// the ignored keys.
pub open spec fn normalized(raw: Seq<char>) -> (Seq<char>, Seq<Seq<char>>) {
    let (kept, ignored) = normalized_parts(split(raw, ';'));
    (join(kept, ";"@), ignored)
}

/// Strips the keys the driver would reject, so a connection string pasted
/// from `appsettings.json` still parses (see `normalized`).
pub fn normalize_connection_string(raw: &str) -> (r: NormalizedConnection)
    ensures
        r.connection_string@ == normalized(raw@).0,
        strings_view(r.ignored_keys@) == normalized(raw@).1,
{
    let parts = split_exec(chars_of(raw).as_slice(), ';');
    let ghost pv = views(parts@);
    let mut kept: Vec<Vec<char>> = Vec::new();
    let mut ignored: Vec<String> = Vec::new();
    for i in 0..parts.len()
        invariant
            pv == views(parts@),
            pv == split(raw@, ';'),
            (views(kept@), strings_view(ignored@)) == normalized_parts(pv.take(i as int)),
    {
        assert(pv.take(i + 1).drop_last() =~= pv.take(i as int));
        assert(pv.take(i + 1).last() == parts@[i as int]@);
        let t = trim_chars(parts[i].as_slice());
        if t.len() != 0 {
            let k = char_from_exec(t.as_slice(), '=', 0);
            if k < t.len() {
                let mut head: Vec<char> = Vec::new();
                let mut j: usize = 0;
                while j < k
                    invariant
                        j <= k <= t@.len(),
                        head@ == t@.take(j as int),
                    decreases k - j,
                {
                    head.push(t[j]);
                    j = j + 1;
                }
                let key = trim_chars(head.as_slice());
                let lower = to_ascii_lower_exec(key.as_slice());
                if supported_key_exec(lower.as_slice()) {
                    let ghost before = kept@;
                    kept.push(t);
                    assert(views(kept@) =~= views(before).push(t@));
                } else {
                    let ghost before = ignored@;
                    ignored.push(string_of(key.as_slice()));
                    assert(strings_view(ignored@) =~= strings_view(before).push(key@));
                }
            } else {
                let ghost before = kept@;
                kept.push(t);
                assert(views(kept@) =~= views(before).push(t@));
            }
        }
    }
    assert(pv.take(pv.len() as int) =~= pv);
    let sep = chars_of(";");
    let joined = join_exec(&kept, sep.as_slice());
    NormalizedConnection { connection_string: string_of(joined.as_slice()), ignored_keys: ignored }
}

// ─── Laws ───────────────────────────────────────────────────────────

/// A segment normalization keeps as it is: trimmed, non-empty, without
/// `;`, and either a bare token or with a supported key.
pub open spec fn clean_segment(t: Seq<char>) -> bool {
    &&& t.len() > 0
    &&& trim(t) == t
    &&& !t.contains(';')
    &&& (segment_key(t) matches Some(k) ==> supported_key(to_ascii_lower(k)))
}

proof fn lemma_kept_segments_clean(parts: Seq<Seq<char>>)
    requires
        forall|k: int| 0 <= k < parts.len() ==> !(#[trigger] parts[k]).contains(';'),
    ensures
        forall|k: int| 0 <= k < normalized_parts(parts).0.len() ==> clean_segment(#[trigger] normalized_parts(parts).0[k]),
    decreases parts.len(),
{
    if parts.len() > 0 {
        let init = parts.drop_last();
        assert forall|k: int| 0 <= k < init.len() implies !(#[trigger] init[k]).contains(';') by {
            assert(init[k] == parts[k]);
        }
        lemma_kept_segments_clean(init);
        lemma_trim_idempotent(parts.last());
        assert(!parts[parts.len() - 1].contains(';'));
        let t = trim(parts.last());
        let r = normalized_parts(parts).0;
        let r0 = normalized_parts(init).0;
        assert(r == r0 || r == r0.push(t));
        if r != r0 {
            assert(!t.contains(';'));
            assert(clean_segment(t));
        }
        assert forall|k: int| 0 <= k < r.len() implies clean_segment(#[trigger] r[k]) by {
            if k < r0.len() {
                assert(r[k] == r0[k]);
            }
        }
    }
}

proof fn lemma_clean_segments_fixed(ks: Seq<Seq<char>>)
    requires
        forall|k: int| 0 <= k < ks.len() ==> clean_segment(#[trigger] ks[k]),
    ensures
        normalized_parts(ks) == (ks, Seq::<Seq<char>>::empty()),
    decreases ks.len(),
{
    if ks.len() > 0 {
        let init = ks.drop_last();
        assert forall|k: int| 0 <= k < init.len() implies clean_segment(#[trigger] init[k]) by {
            assert(init[k] == ks[k]);
        }
        lemma_clean_segments_fixed(init);
        assert(clean_segment(ks[ks.len() - 1]));
        assert(init.push(ks.last()) =~= ks);
    } else {
        assert(ks =~= Seq::<Seq<char>>::empty());
    }
}

/// Normalizing a normalized connection string changes nothing and drops
/// no key: what is stored is already in the form the driver accepts.
pub proof fn lemma_normalize_idempotent(raw: Seq<char>)
    ensures
        normalized(normalized(raw).0).0 == normalized(raw).0,
        normalized(normalized(raw).0).1.len() == 0,
{
    reveal_strlit(";");
    assert(";"@ =~= seq![';']);
    let parts = split(raw, ';');
    lemma_split_no_sep(raw, ';');
    lemma_kept_segments_clean(parts);
    let kept = normalized_parts(parts).0;
    let conn = join(kept, seq![';']);
    if kept.len() > 0 {
        assert forall|k: int| 0 <= k < kept.len() implies !(#[trigger] kept[k]).contains(';') by {
            assert(clean_segment(kept[k]));
        }
        lemma_split_join(kept, ';');
        lemma_clean_segments_fixed(kept);
    } else {
        assert(conn =~= Seq::<char>::empty());
        lemma_char_from(conn, ';', 0);
        assert(conn.subrange(0, 0) =~= Seq::<char>::empty());
        assert(split(conn, ';') =~= seq![Seq::<char>::empty()]);
        let e = Seq::<char>::empty();
        assert(trim(e) =~= e);
        assert(seq![e].drop_last() =~= Seq::<Seq<char>>::empty());
        assert(seq![e].last() == e);
        assert(trim(e).len() == 0);
        let nothing = Seq::<Seq<char>>::empty();
        assert(normalized_parts(nothing) == (nothing, nothing));
        assert(normalized_parts(seq![e]) == normalized_parts(nothing));
        assert(normalized_parts(seq![e]).0 =~= Seq::<Seq<char>>::empty());
        assert(normalized_parts(seq![e]).1 =~= Seq::<Seq<char>>::empty());
    }
}

proof fn lemma_ignored_keys_unsupported(parts: Seq<Seq<char>>)
    ensures
        forall|m: int|
            0 <= m < normalized_parts(parts).1.len() ==> !supported_key(
                to_ascii_lower(#[trigger] normalized_parts(parts).1[m]),
            ),
        forall|p: int|
            0 <= p < parts.len() && (segment_key(trim(#[trigger] parts[p])) matches Some(k)
                && supported_key(to_ascii_lower(k))) ==> normalized_parts(parts).0.contains(trim(parts[p])),
        forall|p: int|
            0 <= p < parts.len() && (segment_key(trim(#[trigger] parts[p])) matches Some(k)
                && !supported_key(to_ascii_lower(k))) ==> normalized_parts(parts).1.contains(
                segment_key(trim(parts[p]))->Some_0,
            ),
    decreases parts.len(),
{
    if parts.len() > 0 {
        let init = parts.drop_last();
        lemma_ignored_keys_unsupported(init);
        let (kept0, ign0) = normalized_parts(init);
        let (kept, ign) = normalized_parts(parts);
        let t = trim(parts.last());
        assert(ign == ign0 || ign == ign0.push(segment_key(t)->Some_0));
        assert(kept == kept0 || kept == kept0.push(t));
        assert forall|m: int| 0 <= m < ign.len() implies !supported_key(to_ascii_lower(#[trigger] ign[m])) by {
            if m < ign0.len() {
                assert(ign[m] == ign0[m]);
            }
        }
        assert forall|p: int|
            0 <= p < parts.len() && (segment_key(trim(#[trigger] parts[p])) matches Some(k)
                && supported_key(to_ascii_lower(k))) implies kept.contains(trim(parts[p])) by {
            if p < parts.len() - 1 {
                assert(parts[p] == init[p]);
                let w = choose|w: int| 0 <= w < kept0.len() && kept0[w] == trim(init[p]);
                if kept != kept0 {
                    assert(kept[w] == kept0[w]);
                }
            } else {
                assert(trim(parts[p]).len() > 0);
                assert(kept == kept0.push(t));
                assert(kept[kept0.len() as int] == t);
            }
        }
        assert forall|p: int|
            0 <= p < parts.len() && (segment_key(trim(#[trigger] parts[p])) matches Some(k)
                && !supported_key(to_ascii_lower(k))) implies ign.contains(segment_key(trim(parts[p]))->Some_0) by {
            let key = segment_key(trim(parts[p]))->Some_0;
            if p < parts.len() - 1 {
                assert(parts[p] == init[p]);
                let w = choose|w: int| 0 <= w < ign0.len() && ign0[w] == key;
                if ign != ign0 {
                    assert(ign[w] == ign0[w]);
                }
            } else {
                assert(trim(parts[p]).len() > 0);
                assert(ign == ign0.push(key));
                assert(ign[ign0.len() as int] == key);
            }
        }
    }
}

/// The keys the driver understands are kept, and only they: a `key=value`
/// segment of the connection string stays (trimmed) among the segments of
/// the normalized string exactly when its key is, in any ASCII case, one
/// of `server`, `data source`, `address`, `addr`, `database`,
/// `initial catalog`, `user id`, `uid`, `user`, `password`, `pwd`,
/// `integrated security`, `integratedsecurity`, `trustservercertificate`,
/// `encrypt`, `application name`, `applicationname`, `instance name`,
/// `instancename`; otherwise its key is reported as ignored; and no such
/// key is ever reported as ignored.
pub proof fn lemma_driver_keys_kept(raw: Seq<char>)
    ensures
        ({
            let listed = |k: Seq<char>|
                k == "server"@ || k == "data source"@ || k == "address"@ || k == "addr"@ || k
                    == "database"@ || k == "initial catalog"@ || k == "user id"@ || k == "uid"@ || k
                    == "user"@ || k == "password"@ || k == "pwd"@ || k == "integrated security"@ || k
                    == "integratedsecurity"@ || k == "trustservercertificate"@ || k == "encrypt"@ || k
                    == "application name"@ || k == "applicationname"@ || k == "instance name"@ || k
                    == "instancename"@;
            let parts = split(raw, ';');
            &&& forall|m: int|
                0 <= m < normalized(raw).1.len() ==> !listed(to_ascii_lower(#[trigger] normalized(raw).1[m]))
            &&& forall|p: int|
                0 <= p < parts.len() && segment_key(trim(#[trigger] parts[p])) is Some ==> {
                    let key = segment_key(trim(parts[p]))->Some_0;
                    &&& normalized_parts(parts).0.contains(trim(parts[p])) <==> listed(to_ascii_lower(key))
                    &&& !listed(to_ascii_lower(key)) ==> normalized(raw).1.contains(key)
                }
        }),
{
    let parts = split(raw, ';');
    lemma_ignored_keys_unsupported(parts);
    lemma_split_no_sep(raw, ';');
    lemma_kept_segments_clean(parts);
    let kept = normalized_parts(parts).0;
    assert forall|p: int|
        0 <= p < parts.len() && segment_key(trim(#[trigger] parts[p])) is Some && kept.contains(
            trim(parts[p]),
        ) implies supported_key(to_ascii_lower(segment_key(trim(parts[p]))->Some_0)) by {
        let w = choose|w: int| 0 <= w < kept.len() && kept[w] == trim(parts[p]);
        assert(clean_segment(kept[w]));
    }
}

// ─── The OS keyring ─────────────────────────────────────────────────

#[verifier::external_type_specification]
#[verifier::external_body]
pub struct ExKeyringEntry(keyring::Entry);

#[verifier::external_type_specification]
#[verifier::external_body]
pub struct ExKeyringError(keyring::Error);

/// A keyring failure as the library tells them apart: whether it is the
/// "no stored entry" case, and the keyring's description of it.
#[derive(Debug)]
pub struct KeyringFailure {
    pub no_entry: bool,
    pub text: String,
}

/// A keyring entry, with the service and user it was opened for.
struct KeyringEntry {
    entry: keyring::Entry,
    service: String,
    user: String,
}

/// `keyring::Entry::new(service, user)`: the keyring entry for a service
/// and user, kept beside the service and user it was asked for. Only the
/// library's own service `ez-migrations` is opened. Whether the platform
/// store accepts them is up to the platform, so nothing is promised of
/// the outcome.
#[verifier::external_body]
fn keyring_entry(service: &str, user: &str) -> (r: Result<KeyringEntry, keyring::Error>)
    requires
        service@ == "ez-migrations"@,
    ensures
        r matches Ok(e) ==> e.service@ == service@ && e.user@ == user@,
{
    match keyring::Entry::new(service, user) {
        Ok(entry) => Ok(KeyringEntry { entry, service: service.to_string(), user: user.to_string() }),
        Err(e) => Err(e),
    }
}

/// `keyring::Entry::set_password`: stores `password` for the entry of the
/// library's service. Only a connection string already in normalized form
/// is stored. What the platform store does is not promised.
#[verifier::external_body]
fn keyring_set_password(entry: &KeyringEntry, password: &str) -> Result<(), keyring::Error>
    requires
        entry.service@ == "ez-migrations"@,
        normalized(password@).0 == password@,
{
    entry.entry.set_password(password)
}

/// `keyring::Entry::get_password`: the stored password of the entry of
/// the library's service, read from the platform store; nothing is
/// promised of it.
#[verifier::external_body]
fn keyring_get_password(entry: &KeyringEntry) -> Result<String, keyring::Error>
    requires
        entry.service@ == "ez-migrations"@,
{
    entry.entry.get_password()
}

/// `keyring::Entry::delete_credential`: removes the stored password of
/// the entry of the library's service from the platform store; nothing
/// is promised of the outcome.
#[verifier::external_body]
fn keyring_delete_credential(entry: &KeyringEntry) -> Result<(), keyring::Error>
    requires
        entry.service@ == "ez-migrations"@,
{
    entry.entry.delete_credential()
}

/// Tells a `keyring::Error` apart: whether it is `NoEntry`, with its
/// `Display` text. The text is the keyring's own, so nothing is promised
/// of it.
#[verifier::external_body]
fn keyring_failure(e: keyring::Error) -> KeyringFailure {
    let no_entry = match &e {
        keyring::Error::NoEntry => true,
        _ => false,
    };
    KeyringFailure { no_entry, text: e.to_string() }
}

fn failure_text(prefix: &str, f: &KeyringFailure) -> (r: String)
    ensures
        r@ == prefix@ + f.text@,
{
    let mut out = chars_of(prefix);
    push_str(&mut out, f.text.as_str());
    string_of(out.as_slice())
}

/// What opening the keyring entry gives: the entry, or the error naming
/// the keyring failure.
pub fn entry_outcome<T>(opened: Result<T, KeyringFailure>) -> (r: Result<T, String>)
    ensures
        match opened {
            Ok(x) => r == Ok::<T, String>(x),
            Err(f) => r matches Err(e) && e@ == "Failed to access OS keyring: "@ + f.text@,
        },
{
    match opened {
        Ok(x) => Ok(x),
        Err(f) => Err(failure_text("Failed to access OS keyring: ", &f)),
    }
}

/// What storing gives: the keys normalization dropped, or the error
/// naming the keyring failure.
pub fn store_outcome(stored: Result<(), KeyringFailure>, ignored_keys: Vec<String>) -> (r: Result<Vec<String>, String>)
    ensures
        match stored {
            Ok(()) => r == Ok::<Vec<String>, String>(ignored_keys),
            Err(f) => r matches Err(e) && e@ == "Failed to store connection string in keyring: "@ + f.text@,
        },
{
    match stored {
        Ok(()) => Ok(ignored_keys),
        Err(f) => Err(failure_text("Failed to store connection string in keyring: ", &f)),
    }
}

/// What reading gives: the stored string; `None` when nothing is stored
/// (the keyring reports no entry); otherwise the error naming the failure.
pub fn read_outcome(read: Result<String, KeyringFailure>) -> (r: Result<Option<String>, String>)
    ensures
        match read {
            Ok(s) => r matches Ok(Some(t)) && t@ == s@,
            Err(f) => if f.no_entry {
                r matches Ok(None)
            } else {
                r matches Err(e) && e@ == "Failed to read connection string from keyring: "@ + f.text@
            },
        },
{
    match read {
        Ok(s) => Ok(Some(s)),
        Err(f) => if f.no_entry {
            Ok(None)
        } else {
            Err(failure_text("Failed to read connection string from keyring: ", &f))
        },
    }
}

/// What removing gives: success, also when nothing was stored; otherwise
/// the error naming the failure.
pub fn clear_outcome(cleared: Result<(), KeyringFailure>) -> (r: Result<(), String>)
    ensures
        match cleared {
            Ok(()) => r is Ok,
            Err(f) => if f.no_entry {
                r is Ok
            } else {
                r matches Err(e) && e@ == "Failed to clear keyring entry: "@ + f.text@
            },
        },
{
    match cleared {
        Ok(()) => Ok(()),
        Err(f) => if f.no_entry {
            Ok(())
        } else {
            Err(failure_text("Failed to clear keyring entry: ", &f))
        },
    }
}

/// The keyring entry of `project_id` under the library's service.
fn open_entry(project_id: &str) -> (r: Result<KeyringEntry, String>)
    ensures
        r matches Ok(e) ==> e.service@ == "ez-migrations"@ && e.user@ == project_id@,
        r matches Err(e) ==> has_prefix(e@, "Failed to access OS keyring: "@),
{
    let opened = match keyring_entry("ez-migrations", project_id) {
        Ok(entry) => Ok(entry),
        Err(e) => Err(keyring_failure(e)),
    };
    let r = entry_outcome(opened);
    proof {
        if let Err(e) = &r {
            assert(e@.take("Failed to access OS keyring: "@.len() as int) =~= "Failed to access OS keyring: "@);
        }
    }
    r
}

/// Stores the *normalized* form of the connection string for
/// `project_id` in the keyring under `ez-migrations`, so later reads never
/// see unsupported keys. Returns the keys that were stripped.
pub fn store_connection_string(project_id: &str, conn: &str) -> (r: Result<Vec<String>, String>)
    ensures
        r matches Ok(keys) ==> strings_view(keys@) == normalized(conn@).1,
        r matches Err(e) ==> has_prefix(e@, "Failed to access OS keyring: "@) || has_prefix(
            e@,
            "Failed to store connection string in keyring: "@,
        ),
{
    let normalized = normalize_connection_string(conn);
    proof {
        lemma_normalize_idempotent(conn@);
    }
    let entry = match open_entry(project_id) {
        Ok(entry) => entry,
        Err(e) => return Err(e),
    };
    let stored = match keyring_set_password(&entry, normalized.connection_string.as_str()) {
        Ok(()) => Ok(()),
        Err(e) => Err(keyring_failure(e)),
    };
    let r = store_outcome(stored, normalized.ignored_keys);
    proof {
        if let Err(e) = &r {
            assert(e@.take("Failed to store connection string in keyring: "@.len() as int)
                =~= "Failed to store connection string in keyring: "@);
        }
    }
    r
}

/// The stored connection string of `project_id`; `None` when none is
/// stored.
pub fn load_connection_string(project_id: &str) -> (r: Result<Option<String>, String>)
    ensures
        r matches Err(e) ==> has_prefix(e@, "Failed to access OS keyring: "@) || has_prefix(
            e@,
            "Failed to read connection string from keyring: "@,
        ),
{
    let entry = match open_entry(project_id) {
        Ok(entry) => entry,
        Err(e) => return Err(e),
    };
    let read = match keyring_get_password(&entry) {
        Ok(s) => Ok(s),
        Err(e) => Err(keyring_failure(e)),
    };
    let r = read_outcome(read);
    proof {
        if let Err(e) = &r {
            assert(e@.take("Failed to read connection string from keyring: "@.len() as int)
                =~= "Failed to read connection string from keyring: "@);
        }
    }
    r
}

/// Removes the stored connection string of `project_id`; removing one
/// that is not there succeeds.
pub fn clear_connection_string(project_id: &str) -> (r: Result<(), String>)
    ensures
        r matches Err(e) ==> has_prefix(e@, "Failed to access OS keyring: "@) || has_prefix(
            e@,
            "Failed to clear keyring entry: "@,
        ),
{
    let entry = match open_entry(project_id) {
        Ok(entry) => entry,
        Err(e) => return Err(e),
    };
    let cleared = match keyring_delete_credential(&entry) {
        Ok(()) => Ok(()),
        Err(e) => Err(keyring_failure(e)),
    };
    let r = clear_outcome(cleared);
    proof {
        if let Err(e) = &r {
            assert(e@.take("Failed to clear keyring entry: "@.len() as int) =~= "Failed to clear keyring entry: "@);
        }
    }
    r
}

} // verus!
