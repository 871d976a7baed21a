//! Which flags a sync retires.

use vstd::prelude::*;
use crate::text::{texts_of, list_contains, sort_strings, texts_sorted};
use crate::error::CliError;
use crate::json::{JsonValue, JsonView, view_entries, entry_keys, lemma_view_entries, has_key, keys_sorted};
use crate::saas::client::CatalogSyncOutcome;
use crate::saas::fake::{
    FakeSaasClient, ProjectView, projects_view, project_of, sync_outcome, retire_outcome, binding_text, lemma_retire_keeps_binding,
};

verus! {

/// The flags active remotely that the catalog no longer declares, in their order.
pub open spec fn removed_flags(remote: Seq<Seq<char>>, git: Seq<Seq<char>>) -> Seq<Seq<char>>
    decreases remote.len(),
{
    if remote.len() == 0 {
        seq![]
    } else {
        let prev = removed_flags(remote.drop_last(), git);
        if git.contains(remote.last()) { prev } else { prev.push(remote.last()) }
    }
}

/// The flags to retire: those active remotely and gone from the catalog, sorted.
pub fn flags_to_retire(remote_active: &Vec<String>, git_keys: &Vec<String>) -> (r: Vec<String>)
    ensures
        texts_of(r@).to_multiset() == removed_flags(texts_of(remote_active@), texts_of(git_keys@)).to_multiset(),
        texts_sorted(texts_of(r@)),
{
    let mut out: Vec<String> = Vec::new();
    let mut i: usize = 0;
    proof {
        assert(texts_of(remote_active@).take(0) =~= Seq::<Seq<char>>::empty());
        assert(texts_of(out@) =~= seq![]);
    }
    while i < remote_active.len()
        invariant
            i <= remote_active@.len(),
            texts_of(out@) == removed_flags(texts_of(remote_active@).take(i as int), texts_of(git_keys@)),
        decreases remote_active@.len() - i,
    {
        proof {
            assert(texts_of(remote_active@).take(i + 1).drop_last() =~= texts_of(remote_active@).take(i as int));
            assert(texts_of(remote_active@).take(i + 1).last() == remote_active@[i as int]@);
        }
        if !list_contains(git_keys, remote_active[i].as_str()) {
            let ghost before = out@;
            out.push(remote_active[i].clone());
            proof {
                assert(texts_of(out@) =~= texts_of(before).push(remote_active@[i as int]@));
            }
        }
        i = i + 1;
    }
    proof {
        assert(texts_of(remote_active@).take(remote_active@.len() as int) =~= texts_of(remote_active@));
    }
    sort_strings(out)
}

/// The keys of a catalog's flags, in their order.
fn flag_keys_of(flags: &Vec<(String, JsonValue)>) -> (r: Vec<String>)
    ensures
        texts_of(r@) == entry_keys(view_entries(flags@)),
{
    let ghost ev = view_entries(flags@);
    proof {
        lemma_view_entries(flags@);
    }
    let mut out: Vec<String> = Vec::new();
    let mut j: usize = 0;
    proof {
        assert(texts_of(out@) =~= entry_keys(ev).take(0));
    }
    while j < flags.len()
        invariant
            ev == view_entries(flags@),
            ev.len() == flags@.len(),
            forall|m: int| 0 <= m < ev.len() ==> #[trigger] ev[m] == (flags@[m].0@, crate::json::json_view(flags@[m].1)),
            j <= flags@.len(),
            texts_of(out@) == entry_keys(ev).take(j as int),
        decreases flags@.len() - j,
    {
        let ghost before = out@;
        out.push(flags[j].0.clone());
        proof {
            assert(ev[j as int].0 == flags@[j as int].0@);
            assert(texts_of(out@) =~= texts_of(before).push(flags@[j as int].0@));
            assert(entry_keys(ev).take(j + 1) =~= entry_keys(ev).take(j as int).push(ev[j as int].0));
        }
        j = j + 1;
    }
    proof {
        assert(entry_keys(ev).take(ev.len() as int) =~= entry_keys(ev));
    }
    out
}

/// The flags a project has active in the service (none for a new project).
pub open spec fn active_keys(client: FakeSaasClient, project: Seq<char>) -> Seq<Seq<char>> {
    match project_of(projects_view(client.projects@), project) {
        Some(p) => entry_keys(p.synced),
        None => seq![],
    }
}

/// Retiring `retired` (when there are any), then syncing the catalog's flags.
pub open spec fn full_sync_outcome(
    ps: Seq<ProjectView>,
    project: Seq<char>,
    id: Seq<char>,
    flags: Seq<(Seq<char>, JsonView)>,
    retired: Seq<Seq<char>>,
) -> Result<(Seq<ProjectView>, Seq<Seq<char>>), Seq<char>> {
    if retired.len() == 0 {
        sync_outcome(ps, project, id, flags)
    } else {
        match retire_outcome(ps, project, id, retired) {
            Ok(ps2) => sync_outcome(ps2, project, id, flags),
            Err(m) => Err(m),
        }
    }
}

/// Brings the service in line with the catalog: the flags active in the
/// service that the catalog no longer declares are retired (in key order,
/// when there are any), then the catalog's flags are upserted.
pub fn sync_catalog_to_saas(
    client: &mut FakeSaasClient,
    project: &str,
    catalog_id: &str,
    flags: &Vec<(String, JsonValue)>,
) -> (r: Result<CatalogSyncOutcome, CliError>)
    ensures
        final(client).remote_asts@ == old(client).remote_asts@,
        final(client).flag_telemetry@ == old(client).flag_telemetry@,
        ({
            let removed = removed_flags(active_keys(*old(client), project@), entry_keys(view_entries(flags@)));
            let ps = projects_view(old(client).projects@);
            let fv = view_entries(flags@);
            match r {
                Ok(o) => {
                    let retired = texts_of(o.retired_flags@);
                    &&& retired.to_multiset() == removed.to_multiset()
                    &&& texts_sorted(retired)
                    &&& full_sync_outcome(ps, project@, catalog_id@, fv, retired) matches Ok(out)
                    &&& projects_view(final(client).projects@) == out.0
                    &&& texts_of(o.upserted_flags@) == out.1
                },
                Err(e) => project_of(ps, project@) matches Some(p) && p.catalog_id matches Some(b)
                    && b != catalog_id@ && e.text() == binding_text(project@, b, catalog_id@),
            }
        }),
{
    let active = client.list_active_flags(project);
    let git_keys = flag_keys_of(flags);
    let retired = flags_to_retire(&active, &git_keys);
    let ghost ps = projects_view(client.projects@);
    if retired.len() > 0 {
        match client.retire_flags(project, catalog_id, &retired) {
            Ok(()) => {},
            Err(e) => return Err(e),
        }
        proof {
            lemma_retire_keeps_binding(ps, project@, catalog_id@, texts_of(retired@));
        }
    }
    let result = match client.sync_catalog(project, catalog_id, flags) {
        Ok(res) => res,
        Err(e) => return Err(e),
    };
    Ok(CatalogSyncOutcome { retired_flags: retired, upserted_flags: result.upserted_flags })
}

pub proof fn lemma_removed_flags(remote: Seq<Seq<char>>, git: Seq<Seq<char>>, k: Seq<char>)
    ensures
        removed_flags(remote, git).contains(k) <==> (remote.contains(k) && !git.contains(k)),
    decreases remote.len(),
{
    if remote.len() > 0 {
        lemma_removed_flags(remote.drop_last(), git, k);
        let prev = removed_flags(remote.drop_last(), git);
        if remote.contains(k) && !git.contains(k) {
            let w = choose|w: int| 0 <= w < remote.len() && remote[w] == k;
            if w < remote.len() - 1 {
                assert(remote.drop_last()[w] == k);
                let v = choose|v: int| 0 <= v < prev.len() && prev[v] == k;
                if !git.contains(remote.last()) {
                    assert(prev.push(remote.last())[v] == k);
                }
            } else {
                assert(prev.push(remote.last()).last() == k);
            }
        }
        if removed_flags(remote, git).contains(k) {
            if !git.contains(remote.last()) && remote.last() == k {
                assert(remote[remote.len() - 1] == k);
            } else {
                let r = removed_flags(remote, git);
                let v = choose|v: int| 0 <= v < r.len() && r[v] == k;
                if !git.contains(remote.last()) {
                    if v < prev.len() {
                        assert(prev[v] == k);
                    }
                }
                assert(prev.contains(k));
                let w = choose|w: int| 0 <= w < remote.drop_last().len() && remote.drop_last()[w] == k;
                assert(remote[w] == k);
            }
        }
    }
}

/// The flags active before a sync: those of the project, if the service has it.
pub open spec fn active_of(ps: Seq<ProjectView>, project: Seq<char>) -> Seq<Seq<char>> {
    match project_of(ps, project) {
        Some(p) => entry_keys(p.synced),
        None => seq![],
    }
}

/// After a sync, the catalog's flags are active and not retired, and a flag
/// that was active but is gone from the catalog is retired and no longer
/// active (for a project whose active flags are in key order, as the service
/// keeps them). `retired` is the list of flags retired, as the sync reports it.
pub proof fn law_removed_flags_are_retired(
    ps: Seq<ProjectView>,
    project: Seq<char>,
    id: Seq<char>,
    flags: Seq<(Seq<char>, JsonView)>,
    retired: Seq<Seq<char>>,
    k: Seq<char>,
)
    requires
        full_sync_outcome(ps, project, id, flags, retired) is Ok,
        retired.to_multiset() == removed_flags(active_of(ps, project), entry_keys(flags)).to_multiset(),
        project_of(ps, project) matches Some(p) ==> keys_sorted(p.synced),
    ensures
        project_of(full_sync_outcome(ps, project, id, flags, retired)->Ok_0.0, project) matches Some(p2) && {
            &&& has_key(flags, k) ==> has_key(p2.synced, k) && !p2.retired.contains(k)
            &&& (project_of(ps, project) matches Some(p) && has_key(p.synced, k) && !has_key(flags, k))
                ==> !has_key(p2.synced, k) && p2.retired.contains(k)
        },
{
    let removed = removed_flags(active_of(ps, project), entry_keys(flags));
    let ps2 = if retired.len() == 0 { ps } else { retire_outcome(ps, project, id, retired)->Ok_0 };
    if retired.len() > 0 {
        crate::saas::fake::law_retired_flags_leave(ps, project, id, retired, k);
    }
    if has_key(flags, k) {
        crate::saas::fake::law_synced_flags_are_active(ps2, project, id, flags, k);
    } else {
        crate::saas::fake::law_sync_leaves_other_flags(ps2, project, id, flags, k);
    }
    if let Some(p) = project_of(ps, project) {
        if has_key(p.synced, k) && !has_key(flags, k) {
            crate::saas::fake::lemma_entry_keys_contains(p.synced, k);
            crate::saas::fake::lemma_entry_keys_contains(flags, k);
            lemma_removed_flags(active_of(ps, project), entry_keys(flags), k);
            vstd::seq_lib::to_multiset_contains(removed, k);
            vstd::seq_lib::to_multiset_contains(retired, k);
            assert(retired.contains(k));
            assert(retired.len() > 0);
        }
    }
}


/// Syncing a catalog twice retires nothing the second time: after a sync, the
/// flags active in the service are all declared by the catalog (for a project
/// whose active flags are in key order, as the service keeps them).
pub proof fn law_second_sync_retires_nothing(
    ps: Seq<ProjectView>,
    project: Seq<char>,
    id: Seq<char>,
    flags: Seq<(Seq<char>, JsonView)>,
    retired: Seq<Seq<char>>,
)
    requires
        full_sync_outcome(ps, project, id, flags, retired) is Ok,
        retired.to_multiset() == removed_flags(active_of(ps, project), entry_keys(flags)).to_multiset(),
        project_of(ps, project) matches Some(p) ==> keys_sorted(p.synced),
    ensures
        removed_flags(active_of(full_sync_outcome(ps, project, id, flags, retired)->Ok_0.0, project), entry_keys(flags))
            == Seq::<Seq<char>>::empty(),
{
    let ps3 = full_sync_outcome(ps, project, id, flags, retired)->Ok_0.0;
    let again = removed_flags(active_of(ps3, project), entry_keys(flags));
    if again.len() > 0 {
        let k = again[0];
        assert(again.contains(k));
        lemma_removed_flags(active_of(ps3, project), entry_keys(flags), k);
        law_removed_flags_are_retired(ps, project, id, flags, retired, k);
        let p2 = project_of(ps3, project)->Some_0;
        crate::saas::fake::lemma_entry_keys_contains(p2.synced, k);
        crate::saas::fake::lemma_entry_keys_contains(flags, k);
        assert(has_key(p2.synced, k));
        assert(!has_key(flags, k));
        // A flag neither active before nor sent does not become active.
        let ps2 = if retired.len() == 0 { ps } else { retire_outcome(ps, project, id, retired)->Ok_0 };
        if retired.len() > 0 {
            crate::saas::fake::law_retired_flags_leave(ps, project, id, retired, k);
        }
        crate::saas::fake::law_sync_leaves_other_flags(ps2, project, id, flags, k);
        assert(false);
    }
    assert(again =~= Seq::<Seq<char>>::empty());
}
} // verus!
