//! The offline SaaS service: projects bound to one catalog each, the flags
//! synced to a project, the flags it retired (their history kept), the compiled
//! artifacts it serves, and the telemetry it has observed.
//!
//! Syncing upserts the catalog's flags and retires none; retiring removes flags
//! from the active set and remembers them; a project answers only to the catalog
//! it was first bound to.

use vstd::prelude::*;
use crate::error::CliError;
use crate::json::{
    JsonValue, JsonView, view_entries, entries_get, entries_set, entries_remove, entry_keys, has_key, keys_sorted,
    json_equal, values_equal, entries_lookup, entries_insert, entries_delete, copy_value, lemma_view_entries,
    lemma_entries_set_get, lemma_entries_remove,
};
use crate::saas::client::{CatalogSyncResult, FlagTelemetry, RemoteAstArtifact};
use crate::text::{owned, push_text, texts_of, list_contains, text_eq, text_le, text_lt, text_order};

verus! {

/// What the service keeps for one project.
#[derive(Debug)]
pub struct ProjectState {
    pub project: String,
    /// The catalog the project is bound to.
    pub catalog_id: Option<String>,
    /// The active flags: key and declared definition, keys in ascending order.
    pub synced_flags: Vec<(String, JsonValue)>,
    /// Keys of the retired flags.
    pub retired_flags: Vec<String>,
}

pub struct ProjectView {
    pub project: Seq<char>,
    pub catalog_id: Option<Seq<char>>,
    pub synced: Seq<(Seq<char>, JsonView)>,
    pub retired: Seq<Seq<char>>,
}

impl View for ProjectState {
    type V = ProjectView;

    open spec fn view(&self) -> ProjectView {
        ProjectView {
            project: self.project@,
            catalog_id: match self.catalog_id { Some(c) => Some(c@), None => None },
            synced: view_entries(self.synced_flags@),
            retired: texts_of(self.retired_flags@),
        }
    }
}

/// The telemetry observed for one project, flag keys in ascending order.
#[derive(Debug)]
pub struct ProjectTelemetry {
    pub project: String,
    pub rows: Vec<FlagTelemetry>,
}

/// The state of the offline service.
#[derive(Debug)]
pub struct FakeSaasClient {
    pub projects: Vec<ProjectState>,
    pub remote_asts: Vec<RemoteAstArtifact>,
    pub flag_telemetry: Vec<ProjectTelemetry>,
}

pub open spec fn projects_view(ps: Seq<ProjectState>) -> Seq<ProjectView> {
    ps.map_values(|p: ProjectState| p@)
}

/// Position of the first project with this name (the length when there is none).
pub open spec fn project_pos(ps: Seq<ProjectView>, name: Seq<char>) -> int
    decreases ps.len(),
{
    if ps.len() == 0 {
        0
    } else if ps[0].project == name {
        0
    } else {
        1 + project_pos(ps.drop_first(), name)
    }
}

pub proof fn lemma_project_pos(ps: Seq<ProjectView>, name: Seq<char>)
    ensures
        0 <= project_pos(ps, name) <= ps.len(),
        forall|j: int| 0 <= j < project_pos(ps, name) ==> ps[j].project != name,
        project_pos(ps, name) < ps.len() ==> ps[project_pos(ps, name)].project == name,
    decreases ps.len(),
{
    if ps.len() > 0 && ps[0].project != name {
        lemma_project_pos(ps.drop_first(), name);
        assert forall|j: int| 0 <= j < project_pos(ps, name) implies ps[j].project != name by {
            if j > 0 {
                assert(ps[j] == ps.drop_first()[j - 1]);
            }
        }
        if project_pos(ps, name) < ps.len() {
            assert(ps.drop_first()[project_pos(ps, name) - 1] == ps[project_pos(ps, name)]);
        }
    }
}

/// The project with this name, if the service has one.
pub open spec fn project_of(ps: Seq<ProjectView>, name: Seq<char>) -> Option<ProjectView> {
    if project_pos(ps, name) < ps.len() { Some(ps[project_pos(ps, name)]) } else { None }
}

pub open spec fn binding_text(project: Seq<char>, bound: Seq<char>, requested: Seq<char>) -> Seq<char> {
    "SaaS project '"@ + project + "' is bound to catalog '"@ + bound + "', not '"@ + requested + "'"@
}

/// Binding a project to a catalog: a new project is created bound to it, an
/// unbound one gets bound, and one bound to another catalog is refused.
pub open spec fn bind(ps: Seq<ProjectView>, project: Seq<char>, id: Seq<char>) -> Result<Seq<ProjectView>, Seq<char>> {
    let i = project_pos(ps, project);
    if i < ps.len() {
        match ps[i].catalog_id {
            Some(b) => if b == id { Ok(ps) } else { Err(binding_text(project, b, id)) },
            None => Ok(ps.update(i, ProjectView { catalog_id: Some(id), ..ps[i] })),
        }
    } else {
        Ok(ps.push(ProjectView { project, catalog_id: Some(id), synced: seq![], retired: seq![] }))
    }
}

/// The keys without `k`.
pub open spec fn without(s: Seq<Seq<char>>, k: Seq<char>) -> Seq<Seq<char>>
    decreases s.len(),
{
    if s.len() == 0 {
        seq![]
    } else {
        let p = without(s.drop_last(), k);
        if s.last() == k { p } else { p.push(s.last()) }
    }
}

/// The keys with `k` added (once).
pub open spec fn with(s: Seq<Seq<char>>, k: Seq<char>) -> Seq<Seq<char>> {
    if s.contains(k) { s } else { s.push(k) }
}

pub proof fn lemma_without(s: Seq<Seq<char>>, k: Seq<char>)
    ensures
        !without(s, k).contains(k),
        forall|x: Seq<char>| x != k ==> (#[trigger] without(s, k).contains(x) <==> s.contains(x)),
    decreases s.len(),
{
    if s.len() > 0 {
        lemma_without(s.drop_last(), k);
        let p = without(s.drop_last(), k);
        assert forall|x: Seq<char>| x != k implies (#[trigger] without(s, k).contains(x) <==> s.contains(x)) by {
            if s.contains(x) {
                let w = choose|w: int| 0 <= w < s.len() && s[w] == x;
                if w < s.len() - 1 {
                    assert(s.drop_last()[w] == x);
                    assert(s.drop_last().contains(x));
                    assert(p.contains(x));
                    let v = choose|v: int| 0 <= v < p.len() && p[v] == x;
                    if s.last() != k {
                        assert(without(s, k)[v] == p[v]);
                    }
                } else {
                    assert(without(s, k).last() == x);
                }
            }
            if without(s, k).contains(x) {
                let w = choose|w: int| 0 <= w < without(s, k).len() && without(s, k)[w] == x;
                if s.last() != k && w == p.len() {
                    assert(s[s.len() - 1] == x);
                } else {
                    assert(p[w] == x);
                    assert(p.contains(x));
                    assert(s.drop_last().contains(x));
                    let v = choose|v: int| 0 <= v < s.drop_last().len() && s.drop_last()[v] == x;
                    assert(s[v] == s.drop_last()[v]);
                }
            }
        }
        if without(s, k).contains(k) {
            let w = choose|w: int| 0 <= w < without(s, k).len() && without(s, k)[w] == k;
            if s.last() != k && w == p.len() {
            } else {
                assert(p[w] == k);
            }
        }
    }
}

/// Syncing flags into a project's active set, in order: each flag is upserted
/// and leaves the retired set; the keys whose definition changed (or that were
/// new) are reported.
pub open spec fn sync_step(
    synced: Seq<(Seq<char>, JsonView)>,
    retired: Seq<Seq<char>>,
    flags: Seq<(Seq<char>, JsonView)>,
) -> (Seq<(Seq<char>, JsonView)>, Seq<Seq<char>>, Seq<Seq<char>>)
    decreases flags.len(),
{
    if flags.len() == 0 {
        (synced, retired, seq![])
    } else {
        let prev = sync_step(synced, retired, flags.drop_last());
        let (k, v) = flags.last();
        let changed = match entries_get(prev.0, k) {
            Some(e) => !json_equal(e, v),
            None => true,
        };
        (entries_set(prev.0, k, v), without(prev.1, k), if changed { prev.2.push(k) } else { prev.2 })
    }
}

/// Retiring keys, in order: each leaves the active set and joins the retired one.
pub open spec fn retire_step(
    synced: Seq<(Seq<char>, JsonView)>,
    retired: Seq<Seq<char>>,
    keys: Seq<Seq<char>>,
) -> (Seq<(Seq<char>, JsonView)>, Seq<Seq<char>>)
    decreases keys.len(),
{
    if keys.len() == 0 {
        (synced, retired)
    } else {
        let prev = retire_step(synced, retired, keys.drop_last());
        (entries_remove(prev.0, keys.last()), with(prev.1, keys.last()))
    }
}

/// What syncing a catalog makes of the projects, and the keys upserted.
pub open spec fn sync_outcome(ps: Seq<ProjectView>, project: Seq<char>, id: Seq<char>, flags: Seq<(Seq<char>, JsonView)>)
    -> Result<(Seq<ProjectView>, Seq<Seq<char>>), Seq<char>>
{
    match bind(ps, project, id) {
        Err(m) => Err(m),
        Ok(b) => {
            let i = project_pos(b, project);
            let s = sync_step(b[i].synced, b[i].retired, flags);
            Ok((b.update(i, ProjectView { synced: s.0, retired: s.1, ..b[i] }), s.2))
        },
    }
}

/// What retiring keys makes of the projects.
pub open spec fn retire_outcome(ps: Seq<ProjectView>, project: Seq<char>, id: Seq<char>, keys: Seq<Seq<char>>)
    -> Result<Seq<ProjectView>, Seq<char>>
{
    match bind(ps, project, id) {
        Err(m) => Err(m),
        Ok(b) => {
            let i = project_pos(b, project);
            let s = retire_step(b[i].synced, b[i].retired, keys);
            Ok(b.update(i, ProjectView { synced: s.0, retired: s.1, ..b[i] }))
        },
    }
}

/// Two project lists with the same names in the same places find a name at the same place.
pub proof fn lemma_project_pos_same_names(a: Seq<ProjectView>, b: Seq<ProjectView>, name: Seq<char>)
    requires
        a.len() == b.len(),
        forall|j: int| 0 <= j < a.len() ==> a[j].project == b[j].project,
    ensures
        project_pos(a, name) == project_pos(b, name),
{
    lemma_project_pos(a, name);
    lemma_project_pos(b, name);
    let pa = project_pos(a, name);
    let pb = project_pos(b, name);
    if pa < pb {
        assert(b[pa].project != name);
    } else if pb < pa {
        assert(a[pb].project != name);
    }
}

/// A project added under a new name is found at the end.
pub proof fn lemma_project_pos_push(ps: Seq<ProjectView>, x: ProjectView, name: Seq<char>)
    requires
        project_pos(ps, name) == ps.len(),
        x.project == name,
    ensures
        project_pos(ps.push(x), name) == ps.len(),
{
    lemma_project_pos(ps, name);
    lemma_project_pos(ps.push(x), name);
    let q = project_pos(ps.push(x), name);
    if q < ps.len() {
        assert(ps.push(x)[q] == ps[q]);
    } else if q > ps.len() {
        assert(ps.push(x)[ps.len() as int].project == name);
    }
}

/// Binding keeps every project's name in place, and finds (or adds) the project.
pub proof fn lemma_bind(ps: Seq<ProjectView>, project: Seq<char>, id: Seq<char>)
    requires
        bind(ps, project, id) is Ok,
    ensures
        ({
            let b = bind(ps, project, id)->Ok_0;
            &&& project_pos(b, project) < b.len()
            &&& b[project_pos(b, project)].project == project
            &&& b[project_pos(b, project)].catalog_id == Some(id)
            &&& project_pos(ps, project) < ps.len() ==> project_pos(b, project) == project_pos(ps, project)
                && b.len() == ps.len()
                && b[project_pos(b, project)].synced == ps[project_pos(ps, project)].synced
                && b[project_pos(b, project)].retired == ps[project_pos(ps, project)].retired
                && forall|j: int| 0 <= j < ps.len() && j != project_pos(ps, project) ==> b[j] == ps[j]
            &&& project_pos(ps, project) == ps.len() ==> project_pos(b, project) == ps.len()
                && b[project_pos(b, project)].synced.len() == 0
                && b[project_pos(b, project)].retired.len() == 0
                && b.len() == ps.len() + 1
                && forall|j: int| 0 <= j < ps.len() ==> b[j] == ps[j]
        }),
{
    lemma_project_pos(ps, project);
    let i = project_pos(ps, project);
    let b = bind(ps, project, id)->Ok_0;
    if i < ps.len() {
        lemma_project_pos_same_names(ps, b, project);
    } else {
        lemma_project_pos_push(ps, ProjectView { project, catalog_id: Some(id), synced: seq![], retired: seq![] }, project);
    }
}

#[verifier::loop_isolation(false)]
fn project_index(ps: &Vec<ProjectState>, name: &str) -> (r: usize)
    ensures
        r as int == project_pos(projects_view(ps@), name@),
        r <= ps@.len(),
{
    let ghost pv = projects_view(ps@);
    proof {
        lemma_project_pos(pv, name@);
    }
    let mut i: usize = 0;
    while i < ps.len()
        invariant
            pv == projects_view(ps@),
            i <= ps@.len(),
            forall|j: int| 0 <= j < i ==> ps@[j].project@ != name@,
        decreases ps@.len() - i,
    {
        assert(pv[i as int] == ps@[i as int]@);
        if text_eq(ps[i].project.as_str(), name) {
            proof {
                if project_pos(pv, name@) < i {
                    assert(pv[project_pos(pv, name@)] == ps@[project_pos(pv, name@)]@);
                }
            }
            return i;
        }
        i = i + 1;
    }
    proof {
        if project_pos(pv, name@) < pv.len() {
            assert(pv[project_pos(pv, name@)] == ps@[project_pos(pv, name@)]@);
        }
    }
    i
}

fn remove_key(v: &mut Vec<String>, k: &str)
    ensures
        texts_of(final(v)@) == without(texts_of(old(v)@), k@),
{
    let mut out: Vec<String> = Vec::new();
    let mut i: usize = 0;
    proof {
        assert(texts_of(v@).take(0) =~= Seq::<Seq<char>>::empty());
        assert(texts_of(out@) =~= seq![]);
    }
    while i < v.len()
        invariant
            i <= v@.len(),
            texts_of(out@) == without(texts_of(v@).take(i as int), k@),
        decreases v@.len() - i,
    {
        proof {
            assert(texts_of(v@).take(i + 1).drop_last() =~= texts_of(v@).take(i as int));
            assert(texts_of(v@).take(i + 1).last() == v@[i as int]@);
        }
        if !text_eq(v[i].as_str(), k) {
            let ghost before = out@;
            out.push(v[i].clone());
            proof {
                assert(texts_of(out@) =~= texts_of(before).push(v@[i as int]@));
            }
        }
        i = i + 1;
    }
    proof {
        assert(texts_of(v@).take(v@.len() as int) =~= texts_of(v@));
    }
    *v = out;
}

fn add_key(v: &mut Vec<String>, k: &str)
    ensures
        texts_of(final(v)@) == with(texts_of(old(v)@), k@),
{
    if !list_contains(v, k) {
        let ghost before = v@;
        v.push(owned(k));
        proof {
            assert(texts_of(v@) =~= texts_of(before).push(k@));
        }
    }
}

impl FakeSaasClient {
    /// A service with no project, artifact or telemetry.
    pub fn new() -> (r: Self)
        ensures
            r.projects@.len() == 0,
            r.remote_asts@.len() == 0,
            r.flag_telemetry@.len() == 0,
    {
        FakeSaasClient { projects: Vec::new(), remote_asts: Vec::new(), flag_telemetry: Vec::new() }
    }

    /// The active flags of a project (none for an unknown project), in key order.
    pub fn list_active_flags(&self, project: &str) -> (r: Vec<String>)
        ensures
            texts_of(r@) == match project_of(projects_view(self.projects@), project@) {
                Some(p) => entry_keys(p.synced),
                None => Seq::<Seq<char>>::empty(),
            },
    {
        let i = project_index(&self.projects, project);
        let mut out: Vec<String> = Vec::new();
        if i == self.projects.len() {
            proof {
                assert(texts_of(out@) =~= Seq::<Seq<char>>::empty());
            }
            return out;
        }
        let flags = &self.projects[i].synced_flags;
        let ghost ev = view_entries(flags@);
        proof {
            lemma_view_entries(flags@);
            assert(projects_view(self.projects@)[i as int] == self.projects@[i as int]@);
            assert(texts_of(out@) =~= entry_keys(ev).take(0));
        }
        let mut j: usize = 0;
        while j < flags.len()
            invariant
                ev == view_entries(flags@),
                ev.len() == flags@.len(),
                forall|m: int| 0 <= m < ev.len() ==> #[trigger] ev[m] == (flags@[m].0@, crate::json::json_view(flags@[m].1)),
                j <= flags@.len(),
                texts_of(out@) == entry_keys(ev).take(j as int),
            decreases flags@.len() - j,
        {
            let ghost before = out@;
            out.push(flags[j].0.clone());
            proof {
                assert(ev[j as int].0 == flags@[j as int].0@);
                assert(texts_of(out@) =~= texts_of(before).push(flags@[j as int].0@));
                assert(entry_keys(ev).take(j + 1) =~= entry_keys(ev).take(j as int).push(ev[j as int].0));
                assert(texts_of(out@) =~= entry_keys(ev).take(j + 1));
            }
            j = j + 1;
        }
        proof {
            assert(entry_keys(ev).take(ev.len() as int) =~= entry_keys(ev));
        }
        out
    }

    /// Binds the project to the catalog (see [`bind`]) and gives its position.
    fn bind_project(&mut self, project: &str, catalog_id: &str) -> (r: Result<usize, CliError>)
        ensures
            final(self).remote_asts@ == old(self).remote_asts@,
            final(self).flag_telemetry@ == old(self).flag_telemetry@,
            r is Ok <==> bind(projects_view(old(self).projects@), project@, catalog_id@) is Ok,
            r matches Ok(i) ==> i as int == project_pos(bind(projects_view(old(self).projects@), project@, catalog_id@)->Ok_0, project@)
                && projects_view(final(self).projects@) == bind(projects_view(old(self).projects@), project@, catalog_id@)->Ok_0,
            r matches Err(e) ==> bind(projects_view(old(self).projects@), project@, catalog_id@) == Err::<Seq<ProjectView>, Seq<char>>(e.text())
                && projects_view(final(self).projects@) == projects_view(old(self).projects@),
    {
        let ghost pv = projects_view(self.projects@);
        let i = project_index(&self.projects, project);
        proof {
            lemma_project_pos(pv, project@);
        }
        if i < self.projects.len() {
            assert(pv[i as int] == self.projects@[i as int]@);
            let bound = match &self.projects[i].catalog_id {
                Some(b) => Some(b.clone()),
                None => None,
            };
            match bound {
                Some(b) => {
                    if text_eq(b.as_str(), catalog_id) {
                        return Ok(i);
                    }
                    let mut m = owned("SaaS project '");
                    push_text(&mut m, project);
                    push_text(&mut m, "' is bound to catalog '");
                    push_text(&mut m, b.as_str());
                    push_text(&mut m, "', not '");
                    push_text(&mut m, catalog_id);
                    push_text(&mut m, "'");
                    return Err(CliError::Message(m));
                },
                None => {
                    let mut p = self.projects.remove(i);
                    p.catalog_id = Some(owned(catalog_id));
                    self.projects.insert(i, p);
                    proof {
                        let b = bind(pv, project@, catalog_id@)->Ok_0;
                        assert(projects_view(self.projects@) =~= b);
                        lemma_project_pos_same_names(pv, b, project@);
                    }
                    return Ok(i);
                },
            }
        }
        self.projects.push(ProjectState {
            project: owned(project),
            catalog_id: Some(owned(catalog_id)),
            synced_flags: Vec::new(),
            retired_flags: Vec::new(),
        });
        proof {
            let x = ProjectView { project: project@, catalog_id: Some(catalog_id@), synced: seq![], retired: seq![] };
            assert(view_entries(Seq::<(String, JsonValue)>::empty()) =~= seq![]);
            assert(texts_of(Seq::<String>::empty()) =~= seq![]);
            assert(projects_view(self.projects@) =~= pv.push(x));
            lemma_project_pos_push(pv, x, project@);
        }
        Ok(i)
    }

    /// Upserts the catalog's flags (key and definition) into the project's
    /// active set after binding it to the catalog; retires nothing. The keys
    /// whose definition changed, or that were new, are reported.
    pub fn sync_catalog(&mut self, project: &str, catalog_id: &str, flags: &Vec<(String, JsonValue)>) -> (r: Result<CatalogSyncResult, CliError>)
        ensures
            final(self).remote_asts@ == old(self).remote_asts@,
            final(self).flag_telemetry@ == old(self).flag_telemetry@,
            match sync_outcome(projects_view(old(self).projects@), project@, catalog_id@, view_entries(flags@)) {
                Err(m) => (r matches Err(e) && e.text() == m)
                    && projects_view(final(self).projects@) == projects_view(old(self).projects@),
                Ok((ps, up)) => (r matches Ok(res) && texts_of(res.upserted_flags@) == up)
                    && projects_view(final(self).projects@) == ps,
            },
    {
        let bound = self.bind_project(project, catalog_id);
        let i = match bound {
            Ok(i) => i,
            Err(e) => return Err(e),
        };
        proof {
            let b0 = bind(projects_view(old(self).projects@), project@, catalog_id@);
            assert(b0 is Ok);
            lemma_bind(projects_view(old(self).projects@), project@, catalog_id@);
            assert(i as int == project_pos(b0->Ok_0, project@));
            assert(projects_view(self.projects@) == b0->Ok_0);
        }
        let ghost b = projects_view(self.projects@);
        let ghost fv = view_entries(flags@);
        proof {
            assert(bind(projects_view(old(self).projects@), project@, catalog_id@) is Ok);
            lemma_bind(projects_view(old(self).projects@), project@, catalog_id@);
            lemma_view_entries(flags@);
            assert(b[i as int] == self.projects@[i as int]@);
        }
        let mut p = self.projects.remove(i);
        assert(p@ == b[i as int]);
        let ghost s0 = p@.synced;
        let ghost r0 = p@.retired;
        let mut upserted: Vec<String> = Vec::new();
        let mut j: usize = 0;
        proof {
            assert(fv.take(0) =~= Seq::<(Seq<char>, JsonView)>::empty());
            assert(texts_of(upserted@) =~= seq![]);
        }
        while j < flags.len()
            invariant
                fv == view_entries(flags@),
                fv.len() == flags@.len(),
                forall|m: int| 0 <= m < fv.len() ==> #[trigger] fv[m] == (flags@[m].0@, crate::json::json_view(flags@[m].1)),
                j <= flags@.len(),
                p@.project == b[i as int].project,
                p@.catalog_id == b[i as int].catalog_id,
                (view_entries(p.synced_flags@), texts_of(p.retired_flags@), texts_of(upserted@))
                    == sync_step(s0, r0, fv.take(j as int)),
            decreases flags@.len() - j,
        {
            proof {
                assert(fv.take(j + 1).drop_last() =~= fv.take(j as int));
                assert(fv.take(j + 1).last() == fv[j as int]);
            }
            let key = &flags[j].0;
            let changed = match entries_lookup(&p.synced_flags, key.as_str()) {
                Some(e) => !values_equal(e, &flags[j].1),
                None => true,
            };
            entries_insert(&mut p.synced_flags, key.clone(), copy_value(&flags[j].1));
            remove_key(&mut p.retired_flags, key.as_str());
            if changed {
                let ghost before = upserted@;
                upserted.push(key.clone());
                proof {
                    assert(texts_of(upserted@) =~= texts_of(before).push(key@));
                }
            }
            j = j + 1;
        }
        proof {
            assert(fv.take(fv.len() as int) =~= fv);
        }
        self.projects.insert(i, p);
        proof {
            let out = sync_outcome(projects_view(old(self).projects@), project@, catalog_id@, fv)->Ok_0;
            assert(projects_view(self.projects@) =~= out.0);
        }
        Ok(CatalogSyncResult { upserted_flags: upserted })
    }

    /// Retires flags of the project after binding it to the catalog: each
    /// leaves the active set and is remembered as retired.
    pub fn retire_flags(&mut self, project: &str, catalog_id: &str, keys: &Vec<String>) -> (r: Result<(), CliError>)
        ensures
            final(self).remote_asts@ == old(self).remote_asts@,
            final(self).flag_telemetry@ == old(self).flag_telemetry@,
            match retire_outcome(projects_view(old(self).projects@), project@, catalog_id@, texts_of(keys@)) {
                Err(m) => (r matches Err(e) && e.text() == m)
                    && projects_view(final(self).projects@) == projects_view(old(self).projects@),
                Ok(ps) => r is Ok && projects_view(final(self).projects@) == ps,
            },
    {
        let bound = self.bind_project(project, catalog_id);
        let i = match bound {
            Ok(i) => i,
            Err(e) => return Err(e),
        };
        proof {
            let b0 = bind(projects_view(old(self).projects@), project@, catalog_id@);
            assert(b0 is Ok);
            lemma_bind(projects_view(old(self).projects@), project@, catalog_id@);
            assert(i as int == project_pos(b0->Ok_0, project@));
            assert(projects_view(self.projects@) == b0->Ok_0);
        }
        let ghost b = projects_view(self.projects@);
        let ghost kv = texts_of(keys@);
        proof {
            assert(bind(projects_view(old(self).projects@), project@, catalog_id@) is Ok);
            lemma_bind(projects_view(old(self).projects@), project@, catalog_id@);
            assert(b[i as int] == self.projects@[i as int]@);
        }
        let mut p = self.projects.remove(i);
        assert(p@ == b[i as int]);
        let ghost s0 = p@.synced;
        let ghost r0 = p@.retired;
        let mut j: usize = 0;
        proof {
            assert(kv.take(0) =~= Seq::<Seq<char>>::empty());
        }
        while j < keys.len()
            invariant
                kv == texts_of(keys@),
                j <= keys@.len(),
                p@.project == b[i as int].project,
                p@.catalog_id == b[i as int].catalog_id,
                (view_entries(p.synced_flags@), texts_of(p.retired_flags@)) == retire_step(s0, r0, kv.take(j as int)),
            decreases keys@.len() - j,
        {
            proof {
                assert(kv.take(j + 1).drop_last() =~= kv.take(j as int));
                assert(kv.take(j + 1).last() == keys@[j as int]@);
            }
            entries_delete(&mut p.synced_flags, keys[j].as_str());
            add_key(&mut p.retired_flags, keys[j].as_str());
            j = j + 1;
        }
        proof {
            assert(kv.take(kv.len() as int) =~= kv);
        }
        self.projects.insert(i, p);
        proof {
            let out = retire_outcome(projects_view(old(self).projects@), project@, catalog_id@, kv)->Ok_0;
            assert(projects_view(self.projects@) =~= out);
        }
        Ok(())
    }

    /// Whether the project retired the flag.
    pub fn is_retired(&self, project: &str, flag: &str) -> (r: bool)
        ensures
            r == (project_of(projects_view(self.projects@), project@) matches Some(p) && p.retired.contains(flag@)),
    {
        let i = project_index(&self.projects, project);
        if i == self.projects.len() {
            return false;
        }
        assert(projects_view(self.projects@)[i as int] == self.projects@[i as int]@);
        list_contains(&self.projects[i].retired_flags, flag)
    }

    /// The definition of an active flag of the project.
    pub fn synced_flag(&self, project: &str, flag: &str) -> (r: Option<&JsonValue>)
        ensures
            match project_of(projects_view(self.projects@), project@) {
                Some(p) => match r {
                    Some(v) => entries_get(p.synced, flag@) == Some(v@),
                    None => entries_get(p.synced, flag@) is None,
                },
                None => r is None,
            },
    {
        let i = project_index(&self.projects, project);
        if i == self.projects.len() {
            return None;
        }
        assert(projects_view(self.projects@)[i as int] == self.projects@[i as int]@);
        entries_lookup(&self.projects[i].synced_flags, flag)
    }

    /// The compiled artifacts the service serves, environment and bytes.
    pub fn download_compiled_asts(&self) -> (r: Vec<RemoteAstArtifact>)
        ensures
            r@.len() == self.remote_asts@.len(),
            forall|j: int| 0 <= j < r@.len() ==> #[trigger] r@[j].environment@ == self.remote_asts@[j].environment@
                && r@[j].bytes@ == self.remote_asts@[j].bytes@,
    {
        let mut out: Vec<RemoteAstArtifact> = Vec::new();
        let mut j: usize = 0;
        while j < self.remote_asts.len()
            invariant
                j <= self.remote_asts@.len(),
                out@.len() == j,
                forall|m: int| 0 <= m < j ==> #[trigger] out@[m].environment@ == self.remote_asts@[m].environment@
                    && out@[m].bytes@ == self.remote_asts@[m].bytes@,
            decreases self.remote_asts@.len() - j,
        {
            let a = &self.remote_asts[j];
            out.push(RemoteAstArtifact { environment: a.environment.clone(), bytes: copy_bytes(&a.bytes) });
            j = j + 1;
        }
        out
    }

    /// The telemetry observed for the project, ordered by flag key; a project
    /// bound to another catalog refuses the request.
    pub fn fetch_flag_telemetry(&self, project: &str, catalog_id: &str) -> (r: Result<Vec<FlagTelemetry>, CliError>)
        ensures
            match telemetry_binding_error(projects_view(self.projects@), project@, catalog_id@) {
                Some(m) => r matches Err(e) && e.text() == m,
                None => r matches Ok(rows)
                    && telemetry_views(rows@).to_multiset() == telemetry_views(telemetry_rows(self.flag_telemetry@, project@)).to_multiset()
                    && telemetry_sorted(telemetry_views(rows@)),
            },
    {
        let i = project_index(&self.projects, project);
        if i < self.projects.len() {
            assert(projects_view(self.projects@)[i as int] == self.projects@[i as int]@);
            if let Some(b) = &self.projects[i].catalog_id {
                if !text_eq(b.as_str(), catalog_id) {
                    let mut m = owned("Telemetry request catalog '");
                    push_text(&mut m, catalog_id);
                    push_text(&mut m, "' does not match SaaS project binding '");
                    push_text(&mut m, b.as_str());
                    push_text(&mut m, "'");
                    return Err(CliError::Message(m));
                }
            }
        }
        let t = telemetry_index(&self.flag_telemetry, project);
        let mut rows: Vec<FlagTelemetry> = Vec::new();
        if t == self.flag_telemetry.len() {
            proof {
                assert(telemetry_views(rows@) =~= telemetry_views(telemetry_rows(self.flag_telemetry@, project@)));
            }
            return Ok(sort_telemetry(rows));
        }
        let src = &self.flag_telemetry[t].rows;
        let mut j: usize = 0;
        while j < src.len()
            invariant
                j <= src@.len(),
                rows@.len() == j,
                forall|m: int| 0 <= m < j ==> #[trigger] telemetry_view(rows@[m]) == telemetry_view(src@[m]),
            decreases src@.len() - j,
        {
            rows.push(copy_telemetry(&src[j]));
            j = j + 1;
        }
        proof {
            assert(telemetry_views(rows@) =~= telemetry_views(telemetry_rows(self.flag_telemetry@, project@)));
        }
        Ok(sort_telemetry(rows))
    }
}

/// Rows ordered by flag key.
pub open spec fn telemetry_sorted(s: Seq<(Seq<char>, Option<Seq<char>>, u64, Option<Seq<char>>)>) -> bool {
    forall|i: int, j: int| 0 <= i < j < s.len() ==> text_le(s[i].0, s[j].0)
}

/// Orders telemetry rows by flag key, keeping rows of equal keys in their order.
fn sort_telemetry(v: Vec<FlagTelemetry>) -> (r: Vec<FlagTelemetry>)
    ensures
        telemetry_views(r@).to_multiset() == telemetry_views(v@).to_multiset(),
        telemetry_sorted(telemetry_views(r@)),
{
    let mut rest = v;
    let mut out: Vec<FlagTelemetry> = Vec::new();
    proof {
        assert(telemetry_views(out@) =~= Seq::<(Seq<char>, Option<Seq<char>>, u64, Option<Seq<char>>)>::empty());
        vstd::seq_lib::to_multiset_len(telemetry_views(out@));
        vstd::multiset::lemma_multiset_empty_len(telemetry_views(out@).to_multiset());
        assert(telemetry_views(out@).to_multiset().add(telemetry_views(rest@).to_multiset()) =~= telemetry_views(v@).to_multiset());
    }
    while rest.len() > 0
        invariant
            telemetry_views(out@).to_multiset().add(telemetry_views(rest@).to_multiset()) == telemetry_views(v@).to_multiset(),
            telemetry_sorted(telemetry_views(out@)),
            forall|i: int, k: int| 0 <= i < out@.len() && 0 <= k < rest@.len() ==> text_le(out@[i].flag_key@, rest@[k].flag_key@),
        decreases rest@.len(),
    {
        let mut m: usize = 0;
        let mut j: usize = 1;
        proof {
            crate::text::lemma_text_lt_irreflexive(rest@[0].flag_key@);
        }
        while j < rest.len()
            invariant
                1 <= j <= rest@.len(),
                m < j,
                forall|k: int| 0 <= k < j ==> text_le(rest@[m as int].flag_key@, #[trigger] rest@[k].flag_key@),
            decreases rest@.len() - j,
        {
            if text_order(rest[j].flag_key.as_str(), rest[m].flag_key.as_str()) == -1 {
                proof {
                    assert forall|k: int| 0 <= k < j + 1 implies text_le(rest@[j as int].flag_key@, #[trigger] rest@[k].flag_key@) by {
                        if k == j {
                            crate::text::lemma_text_lt_irreflexive(rest@[k].flag_key@);
                        } else if text_lt(rest@[k].flag_key@, rest@[j as int].flag_key@) {
                            crate::text::lemma_text_lt_transitive(rest@[k].flag_key@, rest@[j as int].flag_key@, rest@[m as int].flag_key@);
                        }
                    }
                }
                m = j;
            }
            j = j + 1;
        }
        let ghost old_rest = rest@;
        let ghost old_out = out@;
        let x = rest.remove(m);
        proof {
            assert(telemetry_views(rest@) =~= telemetry_views(old_rest).remove(m as int));
            assert(telemetry_views(old_rest)[m as int] == telemetry_view(x));
        }
        out.push(x);
        proof {
            assert(telemetry_views(out@) =~= telemetry_views(old_out).push(telemetry_view(x)));
            vstd::seq_lib::to_multiset_build(telemetry_views(old_out), telemetry_view(x));
            vstd::seq_lib::to_multiset_remove(telemetry_views(old_rest), m as int);
            vstd::seq_lib::to_multiset_contains(telemetry_views(old_rest), telemetry_view(x));
            assert(telemetry_views(old_rest).contains(telemetry_view(x)));
            assert(telemetry_views(out@).to_multiset().add(telemetry_views(rest@).to_multiset())
                =~= telemetry_views(old_out).to_multiset().add(telemetry_views(old_rest).to_multiset()));
            assert forall|i: int, k: int| 0 <= i < out@.len() && 0 <= k < rest@.len() implies text_le(out@[i].flag_key@, rest@[k].flag_key@) by {
                let kk = if k < m { k } else { k + 1 };
                assert(rest@[k] == old_rest[kk]);
                if i < old_out.len() {
                    assert(out@[i] == old_out[i]);
                } else {
                    assert(out@[i] == x);
                }
            }
            assert forall|a: int, b: int| 0 <= a < b < telemetry_views(out@).len() implies text_le(telemetry_views(out@)[a].0, telemetry_views(out@)[b].0) by {
                if b < old_out.len() {
                    assert(out@[a] == old_out[a] && out@[b] == old_out[b]);
                } else {
                    assert(out@[a] == old_out[a]);
                    assert(old_rest[m as int] == x);
                }
            }
        }
    }
    proof {
        assert(telemetry_views(rest@) =~= Seq::<(Seq<char>, Option<Seq<char>>, u64, Option<Seq<char>>)>::empty());
        vstd::seq_lib::to_multiset_len(telemetry_views(rest@));
        vstd::multiset::lemma_multiset_empty_len(telemetry_views(rest@).to_multiset());
        assert(telemetry_views(out@).to_multiset() =~= telemetry_views(out@).to_multiset().add(telemetry_views(rest@).to_multiset()));
    }
    out
}

fn copy_bytes(b: &Vec<u8>) -> (r: Vec<u8>)
    ensures
        r@ == b@,
{
    let mut out: Vec<u8> = Vec::new();
    let mut j: usize = 0;
    while j < b.len()
        invariant
            j <= b@.len(),
            out@ == b@.take(j as int),
        decreases b@.len() - j,
    {
        out.push(b[j]);
        proof {
            assert(b@.take(j + 1) =~= b@.take(j as int).push(b@[j as int]));
        }
        j = j + 1;
    }
    proof {
        assert(b@.take(b@.len() as int) =~= b@);
    }
    out
}

pub open spec fn opt_text(s: Option<String>) -> Option<Seq<char>> {
    match s {
        Some(x) => Some(x@),
        None => None,
    }
}

/// The model of a telemetry row.
pub open spec fn telemetry_view(t: FlagTelemetry) -> (Seq<char>, Option<Seq<char>>, u64, Option<Seq<char>>) {
    (t.flag_key@, opt_text(t.last_evaluated), t.evaluation_count, opt_text(t.rot_suggestion))
}

pub open spec fn telemetry_views(ts: Seq<FlagTelemetry>) -> Seq<(Seq<char>, Option<Seq<char>>, u64, Option<Seq<char>>)> {
    ts.map_values(|t: FlagTelemetry| telemetry_view(t))
}

fn copy_opt(s: &Option<String>) -> (r: Option<String>)
    ensures
        opt_text(r) == opt_text(*s),
{
    match s {
        Some(x) => Some(x.clone()),
        None => None,
    }
}

fn copy_telemetry(t: &FlagTelemetry) -> (r: FlagTelemetry)
    ensures
        telemetry_view(r) == telemetry_view(*t),
{
    FlagTelemetry {
        flag_key: t.flag_key.clone(),
        last_evaluated: copy_opt(&t.last_evaluated),
        evaluation_count: t.evaluation_count,
        rot_suggestion: copy_opt(&t.rot_suggestion),
    }
}

/// Position of the first telemetry record of a project (the length when there is none).
pub open spec fn telemetry_pos(ts: Seq<ProjectTelemetry>, project: Seq<char>) -> int
    decreases ts.len(),
{
    if ts.len() == 0 {
        0
    } else if ts[0].project@ == project {
        0
    } else {
        1 + telemetry_pos(ts.drop_first(), project)
    }
}

pub proof fn lemma_telemetry_pos(ts: Seq<ProjectTelemetry>, project: Seq<char>)
    ensures
        0 <= telemetry_pos(ts, project) <= ts.len(),
        forall|j: int| 0 <= j < telemetry_pos(ts, project) ==> ts[j].project@ != project,
        telemetry_pos(ts, project) < ts.len() ==> ts[telemetry_pos(ts, project)].project@ == project,
    decreases ts.len(),
{
    if ts.len() > 0 && ts[0].project@ != project {
        lemma_telemetry_pos(ts.drop_first(), project);
        assert forall|j: int| 0 <= j < telemetry_pos(ts, project) implies ts[j].project@ != project by {
            if j > 0 {
                assert(ts[j] == ts.drop_first()[j - 1]);
            }
        }
        if telemetry_pos(ts, project) < ts.len() {
            assert(ts.drop_first()[telemetry_pos(ts, project) - 1] == ts[telemetry_pos(ts, project)]);
        }
    }
}

/// The telemetry rows of a project (none when it has no record).
pub open spec fn telemetry_rows(ts: Seq<ProjectTelemetry>, project: Seq<char>) -> Seq<FlagTelemetry> {
    if telemetry_pos(ts, project) < ts.len() { ts[telemetry_pos(ts, project)].rows@ } else { seq![] }
}

/// The refusal of a telemetry request by a project bound to another catalog.
pub open spec fn telemetry_binding_error(ps: Seq<ProjectView>, project: Seq<char>, id: Seq<char>) -> Option<Seq<char>> {
    match project_of(ps, project) {
        Some(p) => match p.catalog_id {
            Some(b) => if b != id {
                Some("Telemetry request catalog '"@ + id + "' does not match SaaS project binding '"@ + b + "'"@)
            } else {
                None
            },
            None => None,
        },
        None => None,
    }
}

#[verifier::loop_isolation(false)]
fn telemetry_index(ts: &Vec<ProjectTelemetry>, project: &str) -> (r: usize)
    ensures
        r as int == telemetry_pos(ts@, project@),
        r <= ts@.len(),
{
    proof {
        lemma_telemetry_pos(ts@, project@);
    }
    let mut i: usize = 0;
    while i < ts.len()
        invariant
            i <= ts@.len(),
            forall|j: int| 0 <= j < i ==> ts@[j].project@ != project@,
        decreases ts@.len() - i,
    {
        if text_eq(ts[i].project.as_str(), project) {
            return i;
        }
        i = i + 1;
    }
    i
}

// ---------------------------------------------------------------------------
// Laws of the service
// ---------------------------------------------------------------------------

pub proof fn lemma_sync_step(
    synced: Seq<(Seq<char>, JsonView)>,
    retired: Seq<Seq<char>>,
    flags: Seq<(Seq<char>, JsonView)>,
)
    ensures
        forall|k: Seq<char>| has_key(synced, k) ==> #[trigger] has_key(sync_step(synced, retired, flags).0, k),
        forall|k: Seq<char>| #[trigger] sync_step(synced, retired, flags).1.contains(k) ==> retired.contains(k),
        forall|k: Seq<char>| #[trigger] has_key(flags, k) ==> has_key(sync_step(synced, retired, flags).0, k)
            && !sync_step(synced, retired, flags).1.contains(k),
    decreases flags.len(),
{
    if flags.len() > 0 {
        lemma_sync_step(synced, retired, flags.drop_last());
        let prev = sync_step(synced, retired, flags.drop_last());
        let (k0, v0) = flags.last();
        let st = sync_step(synced, retired, flags);
        lemma_entries_set_get(prev.0, k0, v0);
        lemma_without(prev.1, k0);
        assert forall|k: Seq<char>| has_key(synced, k) implies #[trigger] has_key(st.0, k) by {
            assert(has_key(prev.0, k));
            if k != k0 {
                assert(entries_get(st.0, k) == entries_get(prev.0, k));
            } else {
                assert(entries_get(st.0, k) is Some);
            }
        }
        assert forall|k: Seq<char>| #[trigger] st.1.contains(k) implies retired.contains(k) by {
            if k != k0 {
                assert(prev.1.contains(k));
            }
        }
        assert forall|k: Seq<char>| #[trigger] has_key(flags, k) implies has_key(st.0, k) && !st.1.contains(k) by {
            if k == k0 {
                assert(entries_get(st.0, k) is Some);
            } else {
                let w = choose|w: int| 0 <= w < flags.len() && flags[w].0 == k;
                assert(w < flags.len() - 1);
                assert(flags.drop_last()[w].0 == k);
                assert(has_key(flags.drop_last(), k));
                assert(has_key(prev.0, k));
                assert(entries_get(st.0, k) == entries_get(prev.0, k));
                assert(!prev.1.contains(k));
            }
        }
    }
}

pub proof fn lemma_retire_step(
    synced: Seq<(Seq<char>, JsonView)>,
    retired: Seq<Seq<char>>,
    keys: Seq<Seq<char>>,
)
    requires
        keys_sorted(synced),
    ensures
        keys_sorted(retire_step(synced, retired, keys).0),
        forall|k: Seq<char>| #[trigger] keys.contains(k) ==> !has_key(retire_step(synced, retired, keys).0, k)
            && retire_step(synced, retired, keys).1.contains(k),
        forall|k: Seq<char>| !keys.contains(k) ==> #[trigger] entries_get(retire_step(synced, retired, keys).0, k) == entries_get(synced, k),
        forall|k: Seq<char>| retired.contains(k) ==> #[trigger] retire_step(synced, retired, keys).1.contains(k),
    decreases keys.len(),
{
    if keys.len() > 0 {
        lemma_retire_step(synced, retired, keys.drop_last());
        let prev = retire_step(synced, retired, keys.drop_last());
        let k0 = keys.last();
        let st = retire_step(synced, retired, keys);
        lemma_entries_remove(prev.0, k0);
        assert forall|k: Seq<char>| #[trigger] keys.contains(k) implies !has_key(st.0, k) && st.1.contains(k) by {
            if k != k0 {
                let w = choose|w: int| 0 <= w < keys.len() && keys[w] == k;
                assert(w < keys.len() - 1);
                assert(keys.drop_last()[w] == k);
                assert(keys.drop_last().contains(k));
                assert(!has_key(prev.0, k));
                assert(entries_get(st.0, k) == entries_get(prev.0, k));
                assert(prev.1.contains(k));
                if !prev.1.contains(k0) {
                    let v = choose|v: int| 0 <= v < prev.1.len() && prev.1[v] == k;
                    assert(st.1[v] == k);
                }
            } else {
                assert(st.1.contains(k0)) by {
                    if !prev.1.contains(k0) {
                        assert(st.1[prev.1.len() as int] == k0);
                    }
                }
            }
        }
        assert forall|k: Seq<char>| !keys.contains(k) implies #[trigger] entries_get(st.0, k) == entries_get(synced, k) by {
            assert(k != k0);
            if keys.drop_last().contains(k) {
                let w = choose|w: int| 0 <= w < keys.drop_last().len() && keys.drop_last()[w] == k;
                assert(keys[w] == k);
            }
            assert(entries_get(prev.0, k) == entries_get(synced, k));
            assert(entries_get(st.0, k) == entries_get(prev.0, k));
        }
        assert forall|k: Seq<char>| retired.contains(k) implies #[trigger] st.1.contains(k) by {
            assert(prev.1.contains(k));
            if !prev.1.contains(k0) {
                let w = choose|w: int| 0 <= w < prev.1.len() && prev.1[w] == k;
                assert(st.1[w] == k);
            }
        }
    }
}

/// The project a successful sync or retirement worked on keeps its place.
pub proof fn lemma_updated_project(b: Seq<ProjectView>, project: Seq<char>, x: ProjectView)
    requires
        project_pos(b, project) < b.len(),
        x.project == project,
    ensures
        project_of(b.update(project_pos(b, project), x), project) == Some(x),
{
    lemma_project_pos(b, project);
    let i = project_pos(b, project);
    lemma_project_pos_same_names(b, b.update(i, x), project);
}

/// Flags a sync sends are active afterwards and not retired.
pub proof fn law_synced_flags_are_active(ps: Seq<ProjectView>, project: Seq<char>, id: Seq<char>, flags: Seq<(Seq<char>, JsonView)>, k: Seq<char>)
    requires
        sync_outcome(ps, project, id, flags) is Ok,
        has_key(flags, k),
    ensures
        project_of(sync_outcome(ps, project, id, flags)->Ok_0.0, project) matches Some(p)
            && has_key(p.synced, k) && !p.retired.contains(k),
{
    lemma_bind(ps, project, id);
    let b = bind(ps, project, id)->Ok_0;
    let i = project_pos(b, project);
    lemma_sync_step(b[i].synced, b[i].retired, flags);
    let st = sync_step(b[i].synced, b[i].retired, flags);
    lemma_updated_project(b, project, ProjectView { synced: st.0, retired: st.1, ..b[i] });
}

/// A sync retires nothing: every flag active before stays active, and no flag
/// becomes retired.
pub proof fn law_sync_retires_nothing(ps: Seq<ProjectView>, project: Seq<char>, id: Seq<char>, flags: Seq<(Seq<char>, JsonView)>, k: Seq<char>)
    requires
        sync_outcome(ps, project, id, flags) is Ok,
    ensures
        project_of(sync_outcome(ps, project, id, flags)->Ok_0.0, project) matches Some(p2) && {
            &&& project_of(ps, project) matches Some(p) ==> (has_key(p.synced, k) ==> has_key(p2.synced, k))
                && (p2.retired.contains(k) ==> p.retired.contains(k))
            &&& project_of(ps, project) is None ==> !p2.retired.contains(k)
        },
{
    lemma_bind(ps, project, id);
    lemma_project_pos(ps, project);
    let b = bind(ps, project, id)->Ok_0;
    let i = project_pos(b, project);
    lemma_sync_step(b[i].synced, b[i].retired, flags);
    let st = sync_step(b[i].synced, b[i].retired, flags);
    lemma_updated_project(b, project, ProjectView { synced: st.0, retired: st.1, ..b[i] });
    if st.1.contains(k) {
        assert(b[i].retired.contains(k));
    }
}

/// Retired flags leave the active set and are remembered as retired; every
/// other flag keeps its definition (for a project whose active flags are in
/// key order, as the service keeps them).
pub proof fn law_retired_flags_leave(ps: Seq<ProjectView>, project: Seq<char>, id: Seq<char>, keys: Seq<Seq<char>>, k: Seq<char>)
    requires
        retire_outcome(ps, project, id, keys) is Ok,
        project_of(ps, project) matches Some(p) ==> keys_sorted(p.synced),
    ensures
        project_of(retire_outcome(ps, project, id, keys)->Ok_0, project) matches Some(p2) && {
            &&& keys.contains(k) ==> !has_key(p2.synced, k) && p2.retired.contains(k)
            &&& !keys.contains(k) ==> entries_get(p2.synced, k) == match project_of(ps, project) {
                Some(p) => entries_get(p.synced, k),
                None => None,
            }
        },
{
    lemma_bind(ps, project, id);
    lemma_project_pos(ps, project);
    let b = bind(ps, project, id)->Ok_0;
    let i = project_pos(b, project);
    lemma_retire_step(b[i].synced, b[i].retired, keys);
    let st = retire_step(b[i].synced, b[i].retired, keys);
    lemma_updated_project(b, project, ProjectView { synced: st.0, retired: st.1, ..b[i] });
    if project_of(ps, project) is None {
        assert(!has_key(b[i].synced, k));
    }
}

/// A project answers only to the catalog it was bound to: after a sync with one
/// catalog, a sync or a retirement with another is refused.
pub proof fn law_project_stays_bound(
    ps: Seq<ProjectView>,
    project: Seq<char>,
    id: Seq<char>,
    flags: Seq<(Seq<char>, JsonView)>,
    other: Seq<char>,
    flags2: Seq<(Seq<char>, JsonView)>,
    keys: Seq<Seq<char>>,
)
    requires
        sync_outcome(ps, project, id, flags) is Ok,
        other != id,
    ensures
        sync_outcome(sync_outcome(ps, project, id, flags)->Ok_0.0, project, other, flags2)
            == Err::<(Seq<ProjectView>, Seq<Seq<char>>), Seq<char>>(binding_text(project, id, other)),
        retire_outcome(sync_outcome(ps, project, id, flags)->Ok_0.0, project, other, keys)
            == Err::<Seq<ProjectView>, Seq<char>>(binding_text(project, id, other)),
{
    lemma_bind(ps, project, id);
    let b = bind(ps, project, id)->Ok_0;
    let i = project_pos(b, project);
    let st = sync_step(b[i].synced, b[i].retired, flags);
    let x = ProjectView { synced: st.0, retired: st.1, ..b[i] };
    lemma_updated_project(b, project, x);
}

/// After a retirement with a catalog, the project is bound to that catalog.
pub proof fn lemma_retire_keeps_binding(ps: Seq<ProjectView>, project: Seq<char>, id: Seq<char>, keys: Seq<Seq<char>>)
    requires
        retire_outcome(ps, project, id, keys) is Ok,
    ensures
        bind(retire_outcome(ps, project, id, keys)->Ok_0, project, id) == Ok::<Seq<ProjectView>, Seq<char>>(retire_outcome(ps, project, id, keys)->Ok_0),
{
    lemma_bind(ps, project, id);
    let b = bind(ps, project, id)->Ok_0;
    let i = project_pos(b, project);
    let st = retire_step(b[i].synced, b[i].retired, keys);
    lemma_updated_project(b, project, ProjectView { synced: st.0, retired: st.1, ..b[i] });
}

pub proof fn lemma_sync_step_others(
    synced: Seq<(Seq<char>, JsonView)>,
    retired: Seq<Seq<char>>,
    flags: Seq<(Seq<char>, JsonView)>,
    k: Seq<char>,
)
    requires
        !has_key(flags, k),
    ensures
        entries_get(sync_step(synced, retired, flags).0, k) == entries_get(synced, k),
        retired.contains(k) ==> sync_step(synced, retired, flags).1.contains(k),
    decreases flags.len(),
{
    if flags.len() > 0 {
        let prev = sync_step(synced, retired, flags.drop_last());
        let (k0, v0) = flags.last();
        assert(k0 != k) by {
            assert(flags[flags.len() - 1].0 == k0);
        }
        assert(!has_key(flags.drop_last(), k)) by {
            if has_key(flags.drop_last(), k) {
                let w = choose|w: int| 0 <= w < flags.drop_last().len() && flags.drop_last()[w].0 == k;
                assert(flags[w].0 == k);
            }
        }
        lemma_sync_step_others(synced, retired, flags.drop_last(), k);
        lemma_entries_set_get(prev.0, k0, v0);
        lemma_without(prev.1, k0);
    }
}

/// A sync leaves the flags it does not send as they were: their definition,
/// and their retirement.
pub proof fn law_sync_leaves_other_flags(ps: Seq<ProjectView>, project: Seq<char>, id: Seq<char>, flags: Seq<(Seq<char>, JsonView)>, k: Seq<char>)
    requires
        sync_outcome(ps, project, id, flags) is Ok,
        !has_key(flags, k),
    ensures
        project_of(sync_outcome(ps, project, id, flags)->Ok_0.0, project) matches Some(p2) && {
            match project_of(ps, project) {
                Some(p) => entries_get(p2.synced, k) == entries_get(p.synced, k)
                    && (p.retired.contains(k) ==> p2.retired.contains(k)),
                None => entries_get(p2.synced, k) is None,
            }
        },
{
    lemma_bind(ps, project, id);
    lemma_project_pos(ps, project);
    let b = bind(ps, project, id)->Ok_0;
    let i = project_pos(b, project);
    lemma_sync_step_others(b[i].synced, b[i].retired, flags, k);
    let st = sync_step(b[i].synced, b[i].retired, flags);
    lemma_updated_project(b, project, ProjectView { synced: st.0, retired: st.1, ..b[i] });
}

pub proof fn lemma_entry_keys_contains(e: Seq<(Seq<char>, JsonView)>, k: Seq<char>)
    ensures
        entry_keys(e).contains(k) <==> has_key(e, k),
{
    if has_key(e, k) {
        let w = choose|w: int| 0 <= w < e.len() && e[w].0 == k;
        assert(entry_keys(e)[w] == k);
    }
    if entry_keys(e).contains(k) {
        let w = choose|w: int| 0 <= w < entry_keys(e).len() && entry_keys(e)[w] == k;
        assert(e[w].0 == k);
    }
}

} // verus!
