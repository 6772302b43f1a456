//! The saved configuration: the active project's settings, the list of
//! saved projects with the active one, and user preferences; and how each
//! project operation changes them. Persisting the configuration is the
//! caller's part.
use vstd::prelude::*;
use crate::ops::{derive_project_name, generate_id, project_name, ensure_path_exists, missing_path_error};
use crate::text::{chars_of, decimal, eq_str, opt_string, push_str, string_of, strings_view};

verus! {

/// The project the workflows run against.
#[derive(Debug, Clone, Default)]
pub struct ProjectConfig {
    pub project_path: String,
    pub db_context: String,
    pub startup_project: String,
}

/// A project in the saved-project list.
#[derive(Debug, Clone, Default)]
pub struct SavedProject {
    pub id: String,
    pub name: String,
    pub project_path: String,
    pub db_context: String,
    pub startup_project: String,
    pub stable_migration: Option<String>,
}

/// A saved project as plain text values.
pub struct ProjectRecord {
    pub id: Seq<char>,
    pub name: Seq<char>,
    pub project_path: Seq<char>,
    pub db_context: Seq<char>,
    pub startup_project: Seq<char>,
    pub stable_migration: Option<Seq<char>>,
}

impl View for SavedProject {
    type V = ProjectRecord;

    open spec fn view(&self) -> ProjectRecord {
        ProjectRecord {
            id: self.id@,
            name: self.name@,
            project_path: self.project_path@,
            db_context: self.db_context@,
            startup_project: self.startup_project@,
            stable_migration: opt_string(self.stable_migration),
        }
    }
}

/// User preferences.
#[derive(Debug, Clone)]
pub struct Preferences {
    pub notify_on_branch_change: bool,
}

impl Default for Preferences {
    fn default() -> (r: Self)
        ensures
            r.notify_on_branch_change,
    {
        Preferences { notify_on_branch_change: true }
    }
}

/// Everything persisted: the saved projects, the active one, preferences.
#[derive(Debug, Clone, Default)]
pub struct AppConfig {
    pub projects: Vec<SavedProject>,
    pub active_project_id: Option<String>,
    pub preferences: Preferences,
}

/// A migration as the UI lists it.
#[derive(Debug, Clone, Default)]
pub struct Migration {
    pub id: String,
    pub name: String,
    pub applied: bool,
    pub has_custom_sql: bool,
    pub custom_sql_up: Vec<String>,
    pub custom_sql_down: Vec<String>,
    pub file_path: Option<String>,
}

/// What the UI shows of the active project.
#[derive(Debug, Clone)]
pub struct ProjectInfo {
    pub id: Option<String>,
    pub path: String,
    pub db_context: String,
    pub startup_project: String,
    pub branch: String,
    pub stable_migration: Option<String>,
}

pub open spec fn records(v: Seq<SavedProject>) -> Seq<ProjectRecord> {
    v.map_values(|p: SavedProject| p@)
}

/// The first position of a project with id `id`.
pub open spec fn index_of_id(ps: Seq<ProjectRecord>, id: Seq<char>) -> Option<int> {
    if exists|i: int| 0 <= i < ps.len() && #[trigger] ps[i].id == id {
        Some(choose|i: int| 0 <= i < ps.len() && ps[i].id == id && forall|j: int| 0 <= j < i ==> #[trigger] ps[j].id != id)
    } else {
        None
    }
}

/// The first position of a project at `path`.
pub open spec fn index_of_path(ps: Seq<ProjectRecord>, path: Seq<char>) -> Option<int> {
    if exists|i: int| 0 <= i < ps.len() && #[trigger] ps[i].project_path == path {
        Some(choose|i: int| 0 <= i < ps.len() && ps[i].project_path == path && forall|j: int| 0 <= j < i ==> #[trigger] ps[j].project_path != path)
    } else {
        None
    }
}

fn copy_str(s: &String) -> (r: String)
    ensures
        r@ == s@,
{
    string_of(chars_of(s.as_str()).as_slice())
}

fn copy_opt(s: &Option<String>) -> (r: Option<String>)
    ensures
        opt_string(r) == opt_string(*s),
{
    match s {
        Some(x) => Some(copy_str(x)),
        None => None,
    }
}

impl SavedProject {
    /// A copy with the same values.
    pub fn duplicate(&self) -> (r: SavedProject)
        ensures
            r@ == self@,
    {
        SavedProject {
            id: copy_str(&self.id),
            name: copy_str(&self.name),
            project_path: copy_str(&self.project_path),
            db_context: copy_str(&self.db_context),
            startup_project: copy_str(&self.startup_project),
            stable_migration: copy_opt(&self.stable_migration),
        }
    }

    /// The project's settings as the active configuration.
    pub fn config(&self) -> (r: ProjectConfig)
        ensures
            r.project_path@ == self.project_path@,
            r.db_context@ == self.db_context@,
            r.startup_project@ == self.startup_project@,
    {
        ProjectConfig {
            project_path: copy_str(&self.project_path),
            db_context: copy_str(&self.db_context),
            startup_project: copy_str(&self.startup_project),
        }
    }
}

fn find_id(ps: &Vec<SavedProject>, id: &str) -> (r: Option<usize>)
    ensures
        match r {
            Some(i) => index_of_id(records(ps@), id@) == Some(i as int) && i < ps@.len(),
            None => index_of_id(records(ps@), id@) is None,
        },
{
    let ghost rs = records(ps@);
    for i in 0..ps.len()
        invariant
            rs == records(ps@),
            forall|j: int| 0 <= j < i ==> #[trigger] rs[j].id != id@,
    {
        assert(rs[i as int] == ps@[i as int]@);
        if eq_str(chars_of(ps[i].id.as_str()).as_slice(), id) {
            proof {
                let w = choose|w: int| 0 <= w < rs.len() && rs[w].id == id@ && forall|j: int| 0 <= j < w ==> #[trigger] rs[j].id != id@;
                assert(w == i) by {
                    if w < i {
                        assert(rs[w].id != id@);
                    } else if w > i {
                        assert(rs[i as int].id != id@);
                    }
                }
            }
            return Some(i);
        }
    }
    None
}

fn find_path(ps: &Vec<SavedProject>, path: &str) -> (r: Option<usize>)
    ensures
        match r {
            Some(i) => index_of_path(records(ps@), path@) == Some(i as int) && i < ps@.len(),
            None => index_of_path(records(ps@), path@) is None,
        },
{
    let ghost rs = records(ps@);
    for i in 0..ps.len()
        invariant
            rs == records(ps@),
            forall|j: int| 0 <= j < i ==> #[trigger] rs[j].project_path != path@,
    {
        assert(rs[i as int] == ps@[i as int]@);
        if eq_str(chars_of(ps[i].project_path.as_str()).as_slice(), path) {
            proof {
                let w = choose|w: int| 0 <= w < rs.len() && rs[w].project_path == path@ && forall|j: int| 0 <= j < w ==> #[trigger] rs[j].project_path != path@;
                assert(w == i) by {
                    if w < i {
                        assert(rs[w].project_path != path@);
                    } else if w > i {
                        assert(rs[i as int].project_path != path@);
                    }
                }
            }
            return Some(i);
        }
    }
    None
}


// ─── Configuration changes ──────────────────────────────────────────

/// `p` with new EF settings.
pub open spec fn with_settings(p: ProjectRecord, db_context: Seq<char>, startup_project: Seq<char>) -> ProjectRecord {
    ProjectRecord { db_context, startup_project, ..p }
}

/// `p` with new metadata.
pub open spec fn with_details(
    p: ProjectRecord,
    name: Seq<char>,
    project_path: Seq<char>,
    db_context: Seq<char>,
    startup_project: Seq<char>,
) -> ProjectRecord {
    ProjectRecord { name, project_path, db_context, startup_project, ..p }
}

/// `p` with a new stable migration.
pub open spec fn with_stable(p: ProjectRecord, stable_migration: Option<Seq<char>>) -> ProjectRecord {
    ProjectRecord { stable_migration, ..p }
}

/// The projects of `ps` whose id is not `id`, in order.
pub open spec fn without_id(ps: Seq<ProjectRecord>, id: Seq<char>) -> Seq<ProjectRecord>
    decreases ps.len(),
{
    if ps.len() == 0 {
        Seq::empty()
    } else if ps.last().id == id {
        without_id(ps.drop_last(), id)
    } else {
        without_id(ps.drop_last(), id).push(ps.last())
    }
}

pub open spec fn not_found(id: Seq<char>) -> Seq<char> {
    "Project not found: "@ + id
}

/// The project list after `set_project`: the entry for `path` gets the
/// new EF settings, or a new entry (named after the path, with id
/// `new_id`) is appended.
pub open spec fn upserted(
    ps: Seq<ProjectRecord>,
    path: Seq<char>,
    db_context: Seq<char>,
    startup_project: Seq<char>,
    new_id: Seq<char>,
) -> Seq<ProjectRecord> {
    match index_of_path(ps, path) {
        Some(i) => ps.update(i, with_settings(ps[i], db_context, startup_project)),
        None => ps.push(
            ProjectRecord {
                id: new_id,
                name: project_name(path),
                project_path: path,
                db_context,
                startup_project,
                stable_migration: None,
            },
        ),
    }
}

/// No two saved projects share a path.
pub open spec fn distinct_paths(ps: Seq<ProjectRecord>) -> bool {
    forall|i: int, j: int| 0 <= i < j < ps.len() ==> #[trigger] ps[i].project_path != #[trigger] ps[j].project_path
}

impl AppConfig {
    /// Makes the project at `project_path` the active one: an existing
    /// entry for that path gets the new EF settings, otherwise a new entry
    /// is added (named after the path, with a fresh id). Returns the
    /// project's id and stable migration.
    pub fn set_project(&mut self, project_path: &str, db_context: &str, startup_project: &str) -> (r: (
        String,
        Option<String>,
    ))
        ensures
            records(final(self).projects@) == upserted(
                records(old(self).projects@),
                project_path@,
                db_context@,
                startup_project@,
                r.0@,
            ),
            match index_of_path(records(old(self).projects@), project_path@) {
                Some(i) => r.0@ == records(old(self).projects@)[i].id && opt_string(r.1)
                    == records(old(self).projects@)[i].stable_migration,
                None => r.1 is None && exists|ms: nat| r.0@ == decimal(ms),
            },
            opt_string(final(self).active_project_id) == Some(r.0@),
            final(self).preferences == old(self).preferences,
    {
        let ghost before = records(self.projects@);
        let (id, stable) = match find_path(&self.projects, project_path) {
            Some(i) => {
                let mut p = self.projects[i].duplicate();
                p.db_context = String::from_str(db_context);
                p.startup_project = String::from_str(startup_project);
                let id = copy_str(&p.id);
                let stable = copy_opt(&p.stable_migration);
                let ghost pv = p@;
                self.projects.set(i, p);
                assert(records(self.projects@) =~= before.update(i as int, pv));
                (id, stable)
            },
            None => {
                let id = generate_id();
                let p = SavedProject {
                    id: copy_str(&id),
                    name: derive_project_name(project_path),
                    project_path: String::from_str(project_path),
                    db_context: String::from_str(db_context),
                    startup_project: String::from_str(startup_project),
                    stable_migration: None,
                };
                let ghost pv = p@;
                self.projects.push(p);
                assert(records(self.projects@) =~= before.push(pv));
                (id, None)
            },
        };
        self.active_project_id = Some(copy_str(&id));
        (id, stable)
    }

    /// Adds a saved project (with a fresh id) without activating it.
    pub fn save_project(&mut self, name: &str, path: &str, db_context: &str, startup_project: &str) -> (r: SavedProject)
        ensures
            r@ == (ProjectRecord {
                id: r.id@,
                name: name@,
                project_path: path@,
                db_context: db_context@,
                startup_project: startup_project@,
                stable_migration: None,
            }),
            exists|ms: nat| r.id@ == decimal(ms),
            records(final(self).projects@) == records(old(self).projects@).push(r@),
            final(self).active_project_id == old(self).active_project_id,
            final(self).preferences == old(self).preferences,
    {
        let saved = SavedProject {
            id: generate_id(),
            name: String::from_str(name),
            project_path: String::from_str(path),
            db_context: String::from_str(db_context),
            startup_project: String::from_str(startup_project),
            stable_migration: None,
        };
        let ghost before = records(self.projects@);
        let copy = saved.duplicate();
        self.projects.push(saved);
        assert(records(self.projects@) =~= before.push(copy@));
        copy
    }

    /// Edits the metadata of the project with id `id`.
    pub fn update_saved_project(
        &mut self,
        id: &str,
        name: &str,
        path: &str,
        db_context: &str,
        startup_project: &str,
    ) -> (r: Result<SavedProject, String>)
        ensures
            ({
                let before = records(old(self).projects@);
                let after = records(final(self).projects@);
                match index_of_id(before, id@) {
                    Some(i) => {
                        let updated = with_details(before[i], name@, path@, db_context@, startup_project@);
                        &&& after == before.update(i, updated)
                        &&& r matches Ok(p) && p@ == updated
                    },
                    None => {
                        &&& after == before
                        &&& r matches Err(e) && e@ == not_found(id@)
                    },
                }
            }),
            final(self).active_project_id == old(self).active_project_id,
            final(self).preferences == old(self).preferences,
    {
        let ghost before = records(self.projects@);
        match find_id(&self.projects, id) {
            Some(i) => {
                let mut p = self.projects[i].duplicate();
                p.name = String::from_str(name);
                p.project_path = String::from_str(path);
                p.db_context = String::from_str(db_context);
                p.startup_project = String::from_str(startup_project);
                let copy = p.duplicate();
                let ghost pv = p@;
                self.projects.set(i, p);
                assert(records(self.projects@) =~= before.update(i as int, pv));
                Ok(copy)
            },
            None => {
                let mut out = chars_of("Project not found: ");
                push_str(&mut out, id);
                Err(string_of(out.as_slice()))
            },
        }
    }

    /// Whether the project with id `id` is the active one.
    pub fn is_active(&self, id: &str) -> (b: bool)
        ensures
            b == (opt_string(self.active_project_id) == Some(id@)),
    {
        match &self.active_project_id {
            Some(a) => eq_str(chars_of(a.as_str()).as_slice(), id),
            None => false,
        }
    }

    /// Removes every project with id `id`; the active project is cleared
    /// when it was that one. Returns whether it was.
    pub fn delete_saved_project(&mut self, id: &str) -> (was_active: bool)
        ensures
            records(final(self).projects@) == without_id(records(old(self).projects@), id@),
            was_active == (opt_string(old(self).active_project_id) == Some(id@)),
            was_active ==> final(self).active_project_id is None,
            !was_active ==> final(self).active_project_id == old(self).active_project_id,
            final(self).preferences == old(self).preferences,
    {
        let ghost before = records(self.projects@);
        let mut kept: Vec<SavedProject> = Vec::new();
        for i in 0..self.projects.len()
            invariant
                before == records(self.projects@),
                records(kept@) == without_id(before.take(i as int), id@),
        {
            assert(before.take(i + 1).drop_last() =~= before.take(i as int));
            assert(before[i as int] == self.projects@[i as int]@);
            if !eq_str(chars_of(self.projects[i].id.as_str()).as_slice(), id) {
                let ghost k0 = kept@;
                let c = self.projects[i].duplicate();
                kept.push(c);
                assert(records(kept@) =~= records(k0).push(before[i as int]));
            }
        }
        assert(before.take(before.len() as int) =~= before);
        self.projects = kept;
        let was_active = self.is_active(id);
        if was_active {
            self.active_project_id = None;
        }
        was_active
    }

    /// The saved project with id `id` (the first, should there be several).
    pub fn find_project(&self, id: &str) -> (r: Result<SavedProject, String>)
        ensures
            match index_of_id(records(self.projects@), id@) {
                Some(i) => r matches Ok(p) && p@ == records(self.projects@)[i],
                None => r matches Err(e) && e@ == not_found(id@),
            },
    {
        match find_id(&self.projects, id) {
            Some(i) => {
                assert(records(self.projects@)[i as int] == self.projects@[i as int]@);
                Ok(self.projects[i].duplicate())
            },
            None => {
                let mut out = chars_of("Project not found: ");
                push_str(&mut out, id);
                Err(string_of(out.as_slice()))
            },
        }
    }

    /// Activates the saved project with id `id`, provided its path exists.
    pub fn switch_project(&mut self, id: &str) -> (r: Result<SavedProject, String>)
        ensures
            records(final(self).projects@) == records(old(self).projects@),
            final(self).preferences == old(self).preferences,
            ({
                let before = records(old(self).projects@);
                match index_of_id(before, id@) {
                    None => {
                        &&& r matches Err(e) && e@ == not_found(id@)
                        &&& final(self).active_project_id == old(self).active_project_id
                    },
                    Some(i) => match r {
                        Ok(p) => p@ == before[i] && opt_string(final(self).active_project_id) == Some(id@),
                        Err(e) => e@ == missing_path_error(before[i].project_path)
                            && final(self).active_project_id == old(self).active_project_id,
                    },
                }
            }),
    {
        let project = match self.find_project(id) {
            Ok(p) => p,
            Err(e) => return Err(e),
        };
        match ensure_path_exists(project.project_path.as_str()) {
            Ok(()) => {},
            Err(e) => return Err(e),
        }
        self.active_project_id = Some(String::from_str(id));
        Ok(project)
    }

    /// Pins (or clears, with `None`) the stable rollback migration of the
    /// active project.
    pub fn set_stable_migration(&mut self, migration_name: Option<String>) -> (r: Result<(), String>)
        ensures
            ({
                let before = records(old(self).projects@);
                let after = records(final(self).projects@);
                match opt_string(old(self).active_project_id) {
                    None => r matches Err(e) && e@ == "No active project"@ && after == before,
                    Some(a) => match index_of_id(before, a) {
                        None => r matches Err(e) && e@ == "Active project not found"@ && after == before,
                        Some(i) => r is Ok && after == before.update(
                            i,
                            with_stable(before[i], opt_string(migration_name)),
                        ),
                    },
                }
            }),
            final(self).active_project_id == old(self).active_project_id,
            final(self).preferences == old(self).preferences,
    {
        let ghost before = records(self.projects@);
        let active = match &self.active_project_id {
            Some(a) => copy_str(a),
            None => return Err(String::from_str("No active project")),
        };
        match find_id(&self.projects, active.as_str()) {
            Some(i) => {
                let mut p = self.projects[i].duplicate();
                p.stable_migration = migration_name;
                let ghost pv = p@;
                self.projects.set(i, p);
                assert(records(self.projects@) =~= before.update(i as int, pv));
                Ok(())
            },
            None => Err(String::from_str("Active project not found")),
        }
    }

    /// Replaces the user preferences.
    pub fn set_preferences(&mut self, preferences: Preferences)
        ensures
            final(self).preferences == preferences,
            records(final(self).projects@) == records(old(self).projects@),
            final(self).active_project_id == old(self).active_project_id,
    {
        self.preferences = preferences;
    }

    /// The active project's stable migration, if any.
    pub fn active_stable_migration(&self) -> (r: Option<String>)
        ensures
            opt_string(r) == match opt_string(self.active_project_id) {
                Some(a) => match index_of_id(records(self.projects@), a) {
                    Some(i) => records(self.projects@)[i].stable_migration,
                    None => None,
                },
                None => None,
            },
    {
        match &self.active_project_id {
            Some(a) => match find_id(&self.projects, a.as_str()) {
                Some(i) => {
                    assert(records(self.projects@)[i as int] == self.projects@[i as int]@);
                    copy_opt(&self.projects[i].stable_migration)
                },
                None => None,
            },
            None => None,
        }
    }

    /// The configuration made from a legacy single-project file: that
    /// project, saved under a fresh id and active, with default
    /// preferences.
    pub fn from_legacy(legacy: &ProjectConfig) -> (r: AppConfig)
        ensures
            r.projects@.len() == 1,
            r.projects@[0]@ == (ProjectRecord {
                id: r.projects@[0].id@,
                name: project_name(legacy.project_path@),
                project_path: legacy.project_path@,
                db_context: legacy.db_context@,
                startup_project: legacy.startup_project@,
                stable_migration: None,
            }),
            exists|ms: nat| r.projects@[0].id@ == decimal(ms),
            opt_string(r.active_project_id) == Some(r.projects@[0].id@),
            r.preferences.notify_on_branch_change,
    {
        let id = generate_id();
        let saved = SavedProject {
            id: copy_str(&id),
            name: derive_project_name(legacy.project_path.as_str()),
            project_path: copy_str(&legacy.project_path),
            db_context: copy_str(&legacy.db_context),
            startup_project: copy_str(&legacy.startup_project),
            stable_migration: None,
        };
        let mut projects: Vec<SavedProject> = Vec::new();
        projects.push(saved);
        AppConfig { projects, active_project_id: Some(id), preferences: Preferences::default() }
    }
}


// ─── Laws ───────────────────────────────────────────────────────────

pub proof fn lemma_index_of_path(ps: Seq<ProjectRecord>, path: Seq<char>)
    ensures
        index_of_path(ps, path) matches Some(i) ==> 0 <= i < ps.len() && ps[i].project_path == path
            && forall|j: int| 0 <= j < i ==> #[trigger] ps[j].project_path != path,
        index_of_path(ps, path) is None ==> forall|j: int|
            0 <= j < ps.len() ==> #[trigger] ps[j].project_path != path,
{
    if exists|i: int| 0 <= i < ps.len() && #[trigger] ps[i].project_path == path {
        let w = choose|i: int| 0 <= i < ps.len() && #[trigger] ps[i].project_path == path;
        lemma_first_path(ps, path, w);
    }
}

proof fn lemma_first_path(ps: Seq<ProjectRecord>, path: Seq<char>, w: int)
    requires
        0 <= w < ps.len(),
        ps[w].project_path == path,
    ensures
        exists|i: int| 0 <= i < ps.len() && ps[i].project_path == path && forall|j: int| 0 <= j < i ==> #[trigger] ps[j].project_path != path,
    decreases w,
{
    if exists|j: int| 0 <= j < w && #[trigger] ps[j].project_path == path {
        let v = choose|j: int| 0 <= j < w && #[trigger] ps[j].project_path == path;
        lemma_first_path(ps, path, v);
    } else {
        assert(forall|j: int| 0 <= j < w ==> #[trigger] ps[j].project_path != path);
    }
}

/// Saving the active project never lists a path twice: with distinct
/// paths before, they stay distinct, and the project at `path` carries the
/// requested EF settings.
pub proof fn lemma_upsert_keeps_paths_distinct(
    ps: Seq<ProjectRecord>,
    path: Seq<char>,
    db_context: Seq<char>,
    startup_project: Seq<char>,
    new_id: Seq<char>,
)
    requires
        distinct_paths(ps),
    ensures
        ({
            let after = upserted(ps, path, db_context, startup_project, new_id);
            &&& distinct_paths(after)
            &&& index_of_path(after, path) matches Some(k) && after[k].db_context == db_context
                && after[k].startup_project == startup_project
        }),
{
    lemma_index_of_path(ps, path);
    let after = upserted(ps, path, db_context, startup_project, new_id);
    lemma_index_of_path(after, path);
    match index_of_path(ps, path) {
        Some(i) => {
            assert forall|a: int, b: int| 0 <= a < b < after.len() implies #[trigger] after[a].project_path
                != #[trigger] after[b].project_path by {
                assert(after[a].project_path == ps[a].project_path);
                assert(after[b].project_path == ps[b].project_path);
            }
            assert(after[i].project_path == path);
        },
        None => {
            assert forall|a: int, b: int| 0 <= a < b < after.len() implies #[trigger] after[a].project_path
                != #[trigger] after[b].project_path by {
                if b == ps.len() {
                    assert(ps[a].project_path != path);
                } else {
                    assert(after[a] == ps[a]);
                    assert(after[b] == ps[b]);
                }
            }
            assert(after[ps.len() as int].project_path == path);
        },
    }
}

/// Saving the same project twice changes the list once: the second save
/// finds the entry the first one made.
pub proof fn lemma_upsert_twice_adds_once(
    ps: Seq<ProjectRecord>,
    path: Seq<char>,
    db_context: Seq<char>,
    startup_project: Seq<char>,
    id1: Seq<char>,
    id2: Seq<char>,
)
    ensures
        ({
            let once = upserted(ps, path, db_context, startup_project, id1);
            let twice = upserted(once, path, db_context, startup_project, id2);
            twice == once
        }),
{
    lemma_index_of_path(ps, path);
    let once = upserted(ps, path, db_context, startup_project, id1);
    lemma_index_of_path(once, path);
    let twice = upserted(once, path, db_context, startup_project, id2);
    match index_of_path(ps, path) {
        Some(i) => {
            assert(once[i].project_path == path);
            let k = index_of_path(once, path)->Some_0;
            assert(k == i) by {
                if k < i {
                    assert(once[k] == ps[k]);
                }
                if k > i {
                    assert(once[i].project_path == path);
                }
            }
            assert(twice =~= once);
        },
        None => {
            let n = ps.len() as int;
            assert(once[n].project_path == path);
            let k = index_of_path(once, path)->Some_0;
            assert(k == n) by {
                if k < n {
                    assert(once[k] == ps[k]);
                }
            }
            assert(twice =~= once);
        },
    }
}

pub proof fn lemma_without_id(ps: Seq<ProjectRecord>, id: Seq<char>)
    ensures
        forall|k: int| 0 <= k < without_id(ps, id).len() ==> #[trigger] without_id(ps, id)[k].id != id,
        forall|k: int| 0 <= k < without_id(ps, id).len() ==> ps.contains(#[trigger] without_id(ps, id)[k]),
        forall|k: int| 0 <= k < ps.len() && #[trigger] ps[k].id != id ==> without_id(ps, id).contains(ps[k]),
    decreases ps.len(),
{
    if ps.len() > 0 {
        let rest = ps.drop_last();
        lemma_without_id(rest, id);
        let w = without_id(ps, id);
        let wr = without_id(rest, id);
        assert forall|k: int| 0 <= k < w.len() implies ps.contains(#[trigger] w[k]) by {
            if k < wr.len() {
                let m = choose|m: int| 0 <= m < rest.len() && rest[m] == wr[k];
                assert(ps[m] == w[k]);
            } else {
                assert(w[k] == ps.last());
                assert(ps[ps.len() - 1] == w[k]);
            }
        }
        assert forall|k: int| 0 <= k < ps.len() && #[trigger] ps[k].id != id implies w.contains(ps[k]) by {
            if k < rest.len() {
                assert(rest[k] == ps[k]);
                let m = choose|m: int| 0 <= m < wr.len() && wr[m] == rest[k];
                assert(w[m] == ps[k]);
            } else {
                assert(w[w.len() - 1] == ps[k]);
            }
        }
    }
}

/// Deleting a project removes every entry with its id and keeps every
/// other entry.
pub proof fn lemma_delete_removes_only_that_id(ps: Seq<ProjectRecord>, id: Seq<char>)
    ensures
        forall|k: int| 0 <= k < without_id(ps, id).len() ==> #[trigger] without_id(ps, id)[k].id != id,
        forall|q: ProjectRecord| #[trigger] ps.contains(q) && q.id != id ==> without_id(ps, id).contains(q),
        forall|q: ProjectRecord| #[trigger] without_id(ps, id).contains(q) ==> ps.contains(q),
{
    lemma_without_id(ps, id);
    assert forall|q: ProjectRecord| #[trigger] ps.contains(q) && q.id != id implies without_id(ps, id).contains(q) by {
        let k = choose|k: int| 0 <= k < ps.len() && ps[k] == q;
        assert(ps[k].id != id);
    }
    assert forall|q: ProjectRecord| #[trigger] without_id(ps, id).contains(q) implies ps.contains(q) by {
        let k = choose|k: int| 0 <= k < without_id(ps, id).len() && without_id(ps, id)[k] == q;
        assert(ps.contains(without_id(ps, id)[k]));
    }
}

// ─── Where the active project comes from at start-up ───────────────

/// The source the active project is loaded from.
#[derive(Debug, Clone, Copy, PartialEq, Eq, Structural)]
pub enum ProjectSource {
    /// The project already held in memory.
    InMemory,
    /// The legacy single-project file, migrated into a new saved-project
    /// configuration.
    MigratedLegacy,
    /// The active project of the saved configuration.
    Saved,
    /// The legacy single-project file, used as it is.
    Legacy,
    /// No project.
    Nothing,
}

/// The precedence among the sources: a project in memory; else, when no
/// saved configuration file exists yet, a usable legacy file (migrated);
/// else a usable active saved project; else a usable legacy file as it
/// is. A legacy file is usable when it parses and its project path
/// exists; the active saved project when the configuration parses, names
/// an active project that it holds, and that project's path exists.
pub fn project_source(
    in_memory: bool,
    saved_file_exists: bool,
    legacy_usable: bool,
    saved_active_usable: bool,
) -> (r: ProjectSource)
    ensures
        r == (if in_memory {
            ProjectSource::InMemory
        } else if !saved_file_exists && legacy_usable {
            ProjectSource::MigratedLegacy
        } else if saved_active_usable {
            ProjectSource::Saved
        } else if legacy_usable {
            ProjectSource::Legacy
        } else {
            ProjectSource::Nothing
        }),
{
    if in_memory {
        ProjectSource::InMemory
    } else if !saved_file_exists && legacy_usable {
        ProjectSource::MigratedLegacy
    } else if saved_active_usable {
        ProjectSource::Saved
    } else if legacy_usable {
        ProjectSource::Legacy
    } else {
        ProjectSource::Nothing
    }
}

} // verus!
