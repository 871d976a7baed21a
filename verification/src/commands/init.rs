//! `init`: the workspace and catalog files a project starts with.

use vstd::prelude::*;
use crate::error::CliError;
use crate::json::{
    JsonValue, JsonView, entries_set, has_key, view_get, view_entries_of, value_get, object_set, copy_value,
    entries_lookup,
};
use crate::paths::{spec_path_join, path_join, real_segments, path_segments, spec_file_name, file_name};
use crate::text::{owned, push_text, split_on, join, join_texts, texts_of};

verus! {

pub const WORKSPACE_FILE: &'static str = "control-path.workspace.yaml";
pub const CATALOG_FILE: &'static str = "control-path.yaml";

pub struct Options {
    pub monorepo: Option<bool>,
    pub namespace: Option<String>,
    pub service_id: Option<String>,
}

/// The directory `/` followed by the first `k` segments.
pub open spec fn root_prefix(segs: Seq<Seq<char>>, k: int) -> Seq<char> {
    seq!['/'] + join_texts(segs.take(k), seq!['/'])
}

/// Where the workspace file is looked for, from an absolute directory up to the
/// root: in the directory itself, then in each parent.
pub open spec fn workspace_candidates(start: Seq<char>) -> Seq<Seq<char>> {
    let segs = real_segments(split_on(start, '/'));
    seq![spec_path_join(start, WORKSPACE_FILE@)]
        + Seq::new(segs.len(), |i: int| spec_path_join(root_prefix(segs, segs.len() - 1 - i), WORKSPACE_FILE@))
}

/// The places where the workspace file is looked for (see [`workspace_candidates`]);
/// the first that is a file is the workspace file.
pub fn workspace_file_candidates(start: &str) -> (r: Vec<String>)
    ensures
        texts_of(r@) == workspace_candidates(start@),
{
    let segs = path_segments(start);
    let ghost sv = texts_of(segs@);
    let mut out: Vec<String> = Vec::new();
    out.push(path_join(start, WORKSPACE_FILE));
    let n = segs.len();
    let mut i: usize = 0;
    while i < n
        invariant
            i <= n,
            n == segs@.len(),
            sv == texts_of(segs@),
            sv == real_segments(split_on(start@, '/')),
            out@.len() == i + 1,
            out@[0]@ == spec_path_join(start@, WORKSPACE_FILE@),
            forall|j: int| 0 <= j < i ==> #[trigger] out@[j + 1]@ == spec_path_join(root_prefix(sv, n - 1 - j), WORKSPACE_FILE@),
        decreases n - i,
    {
        let k = n - 1 - i;
        let mut first: Vec<String> = Vec::new();
        let mut m: usize = 0;
        while m < k
            invariant
                m <= k,
                k < n,
                n == segs@.len(),
                sv == texts_of(segs@),
                texts_of(first@) == sv.take(m as int),
            decreases k - m,
        {
            let ghost before = first@;
            first.push(segs[m].clone());
            proof {
                assert(texts_of(first@) =~= texts_of(before).push(sv[m as int]));
                assert(sv.take(m + 1) =~= sv.take(m as int).push(sv[m as int]));
            }
            m = m + 1;
        }
        let mut dir = owned("/");
        let joined = join(&first, "/");
        push_text(&mut dir, joined.as_str());
        proof {
            reveal_strlit("/");
            assert("/"@ =~= seq!['/']);
            assert(dir@ =~= root_prefix(sv, k as int));
        }
        out.push(path_join(dir.as_str(), WORKSPACE_FILE));
        i = i + 1;
    }
    proof {
        let w = workspace_candidates(start@);
        assert(texts_of(out@) =~= w) by {
            assert forall|j: int| 0 <= j < w.len() implies texts_of(out@)[j] == w[j] by {
                if j > 0 {
                    assert(out@[(j - 1) + 1]@ == spec_path_join(root_prefix(sv, n - 1 - (j - 1)), WORKSPACE_FILE@));
                }
            }
        }
    }
    out
}

/// The workspace file written by `init --monorepo`.
pub fn workspace_file_content(namespace: Option<&str>) -> (r: String)
    ensures
        r@ == "namespace: "@ + match namespace { Some(n) => n@, None => "acme"@ }
            + "\n\nscaffold:\n  defaults:\n    owner: platform-team\n  mode: local\n"@,
{
    let mut s = owned("namespace: ");
    match namespace {
        Some(n) => push_text(&mut s, n),
        None => push_text(&mut s, "acme"),
    }
    push_text(&mut s, "\n\nscaffold:\n  defaults:\n    owner: platform-team\n  mode: local\n");
    s
}

/// The catalog written for a standalone service.
pub fn standalone_catalog_content(service_id: Option<&str>, namespace: &str) -> (r: String)
    ensures
        r@ == "catalog:\n  id: "@ + match service_id { Some(s) => s@, None => "example-service"@ }
            + "\n  namespace: "@ + namespace@ + "\nmode: local\nflags: {}\n"@,
{
    let mut s = owned("catalog:\n  id: ");
    match service_id {
        Some(id) => push_text(&mut s, id),
        None => push_text(&mut s, "example-service"),
    }
    push_text(&mut s, "\n  namespace: ");
    push_text(&mut s, namespace);
    push_text(&mut s, "\nmode: local\nflags: {}\n");
    s
}

/// Refusal to overwrite a file.
pub fn already_exists_error(file: &str, path: &str) -> (r: CliError)
    ensures
        r.text() == file@ + " already exists at "@ + path@,
{
    let mut m = owned(file);
    push_text(&mut m, " already exists at ");
    push_text(&mut m, path);
    CliError::Message(m)
}

/// The name of a directory: its last component, or `service`.
pub fn directory_name(path: &str) -> (r: String)
    ensures
        r@ == match spec_file_name(path@) { Some(n) => n, None => "service"@ },
{
    match file_name(path) {
        Some(n) => n,
        None => owned("service"),
    }
}

/// Entries of the scaffold copied over the catalog's, `defaults` excepted.
pub open spec fn copy_entries(ce: Seq<(Seq<char>, JsonView)>, se: Seq<(Seq<char>, JsonView)>) -> Seq<(Seq<char>, JsonView)>
    decreases se.len(),
{
    if se.len() == 0 {
        ce
    } else {
        let prev = copy_entries(ce, se.drop_last());
        if se.last().0 == "defaults"@ { prev } else { entries_set(prev, se.last().0, se.last().1) }
    }
}

/// Flag defaults added where the catalog has no such flag.
pub open spec fn add_missing(fe: Seq<(Seq<char>, JsonView)>, de: Seq<(Seq<char>, JsonView)>) -> Seq<(Seq<char>, JsonView)>
    decreases de.len(),
{
    if de.len() == 0 {
        fe
    } else {
        let prev = add_missing(fe, de.drop_last());
        if has_key(prev, de.last().0) { prev } else { entries_set(prev, de.last().0, de.last().1) }
    }
}

/// A workspace scaffold merged into a catalog: its entries other than `defaults`
/// replace the catalog's, and each flag of `defaults` is added to the catalog's
/// flags unless the catalog already has it. Without a scaffold map or a catalog
/// map nothing changes.
pub open spec fn spec_merge_scaffold(catalog: JsonView, scaffold: JsonView) -> JsonView {
    match (catalog, scaffold) {
        (JsonView::Object(ce), JsonView::Object(se)) => {
            let c1 = copy_entries(ce, se);
            match (view_get(scaffold, "defaults"@), view_get(JsonView::Object(c1), "flags"@)) {
                (Some(JsonView::Object(de)), Some(JsonView::Object(fe))) =>
                    JsonView::Object(entries_set(c1, "flags"@, JsonView::Object(add_missing(fe, de)))),
                _ => JsonView::Object(c1),
            }
        },
        _ => catalog,
    }
}

/// Merges a workspace scaffold into a catalog (see [`spec_merge_scaffold`]).
#[verifier::loop_isolation(false)]
pub fn merge_scaffold_into_catalog(catalog: &mut JsonValue, scaffold: &JsonValue)
    ensures
        final(catalog)@ == spec_merge_scaffold(old(catalog)@, scaffold@),
{
    let se = match scaffold {
        JsonValue::Object(e) => e,
        _ => return,
    };
    if !matches!(catalog, JsonValue::Object(_)) {
        return;
    }
    let ghost sev = view_entries_of(scaffold@);
    let ghost ce0 = view_entries_of(catalog@);
    proof {
        crate::json::lemma_view_entries(se@);
    }
    let mut i: usize = 0;
    proof {
        assert(sev.take(0) =~= Seq::<(Seq<char>, JsonView)>::empty());
    }
    while i < se.len()
        invariant
            i <= se@.len(),
            sev.len() == se@.len(),
            forall|j: int| 0 <= j < sev.len() ==> #[trigger] sev[j] == (se@[j].0@, crate::json::json_view(se@[j].1)),
            catalog@ == JsonView::Object(copy_entries(ce0, sev.take(i as int))),
        decreases se@.len() - i,
    {
        proof {
            assert(sev.take(i + 1).drop_last() =~= sev.take(i as int));
            assert(sev.take(i + 1).last() == sev[i as int]);
        }
        if !crate::text::text_eq(se[i].0.as_str(), "defaults") {
            object_set(catalog, se[i].0.clone(), copy_value(&se[i].1));
        }
        i = i + 1;
    }
    proof {
        assert(sev.take(sev.len() as int) =~= sev);
    }
    let defaults = match value_get(scaffold, "defaults") {
        Some(d) => d,
        None => return,
    };
    let de = match defaults {
        JsonValue::Object(e) => e,
        _ => return,
    };
    let mut flags = match value_get(catalog, "flags") {
        Some(f) => {
            if !matches!(f, JsonValue::Object(_)) {
                return;
            }
            copy_value(f)
        },
        None => return,
    };
    let ghost dev = view_entries_of(defaults@);
    let ghost fe0 = view_entries_of(flags@);
    proof {
        crate::json::lemma_view_entries(de@);
    }
    let mut k: usize = 0;
    proof {
        assert(dev.take(0) =~= Seq::<(Seq<char>, JsonView)>::empty());
    }
    while k < de.len()
        invariant
            k <= de@.len(),
            dev.len() == de@.len(),
            forall|j: int| 0 <= j < dev.len() ==> #[trigger] dev[j] == (de@[j].0@, crate::json::json_view(de@[j].1)),
            flags@ == JsonView::Object(add_missing(fe0, dev.take(k as int))),
        decreases de@.len() - k,
    {
        proof {
            assert(dev.take(k + 1).drop_last() =~= dev.take(k as int));
            assert(dev.take(k + 1).last() == dev[k as int]);
        }
        let present = match &flags {
            JsonValue::Object(fs) => {
                proof {
                    crate::json::lemma_view_entries(fs@);
                    crate::json::lemma_key_pos(view_entries_of(flags@), de@[k as int].0@);
                }
                entries_lookup(fs, de[k].0.as_str()).is_some()
            },
            _ => false,
        };
        if !present {
            object_set(&mut flags, de[k].0.clone(), copy_value(&de[k].1));
        }
        k = k + 1;
    }
    proof {
        assert(dev.take(dev.len() as int) =~= dev);
    }
    object_set(catalog, owned("flags"), flags);
}

} // verus!
