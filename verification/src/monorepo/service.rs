//! Services of a monorepo and the context a command runs in.

use vstd::prelude::*;
use crate::paths::{spec_path_join, path_join, spec_file_name, file_name, real_segments, path_segments, opt_text};
use crate::text::{owned, push_text, split_on, join, join_texts, texts_of, chars_of, text_eq};

verus! {

/// A service of a monorepo.
#[derive(Debug, Clone)]
pub struct Service {
    /// Service name (its directory's name).
    pub name: String,
    /// Path of the service directory.
    pub path: String,
    /// Path relative to the workspace root.
    pub relative_path: String,
    /// Workspace root.
    pub workspace_root: String,
}

/// The named components of a path: `/` for the root, `.` for a leading current
/// directory, then its named segments.
pub open spec fn components(p: Seq<char>) -> Seq<Seq<char>> {
    let parts = split_on(p, '/');
    let lead: Seq<Seq<char>> = if p.len() > 0 && p[0] == '/' {
        seq![seq!['/']]
    } else if parts.len() > 0 && parts[0] == seq!['.'] {
        seq![seq!['.']]
    } else {
        seq![]
    };
    lead + real_segments(parts)
}

/// `Path::strip_prefix`: when the components of `base` begin those of `path`,
/// the remaining components joined by `/`.
pub open spec fn spec_strip_prefix(path: Seq<char>, base: Seq<char>) -> Option<Seq<char>> {
    let pc = components(path);
    let bc = components(base);
    if bc.len() <= pc.len() && pc.take(bc.len() as int) == bc {
        Some(join_texts(pc.skip(bc.len() as int), seq!['/']))
    } else {
        None
    }
}

fn path_components(p: &str) -> (r: Vec<String>)
    ensures
        texts_of(r@) == components(p@),
{
    let cs = chars_of(p);
    let segs = path_segments(p);
    let parts = crate::text::split_chars(p, '/');
    let mut out: Vec<String> = Vec::new();
    proof {
        crate::text::lemma_split_on_len(p@, '/');
    }
    if cs.len() > 0 && cs[0] == '/' {
        out.push(owned("/"));
        proof {
            reveal_strlit("/");
            assert("/"@ =~= seq!['/']);
            assert(out@[0]@ == seq!['/']);
            assert(texts_of(out@) =~= seq![seq!['/']]);
        }
    } else if parts[0].len() == 1 && parts[0][0] == '.' {
        out.push(owned("."));
        proof {
            reveal_strlit(".");
            assert("."@ =~= seq!['.']);
            assert(parts@[0]@ =~= seq!['.']);
            assert(out@[0]@ == seq!['.']);
            assert(texts_of(out@) =~= seq![seq!['.']]);
        }
    } else {
        proof {
            if parts@[0]@ == seq!['.'] {
                assert(parts@[0]@[0] == '.');
            }
            assert(texts_of(out@) =~= Seq::<Seq<char>>::empty());
        }
    }
    let ghost lead = texts_of(out@);
    let mut i: usize = 0;
    while i < segs.len()
        invariant
            i <= segs@.len(),
            texts_of(out@) == lead + texts_of(segs@).take(i as int),
        decreases segs@.len() - i,
    {
        let ghost before = out@;
        out.push(segs[i].clone());
        proof {
            assert(texts_of(out@) =~= texts_of(before).push(segs@[i as int]@));
            assert(texts_of(segs@).take(i + 1) =~= texts_of(segs@).take(i as int).push(segs@[i as int]@));
        }
        i = i + 1;
    }
    proof {
        assert(texts_of(segs@).take(segs@.len() as int) =~= texts_of(segs@));
        assert(texts_of(out@) =~= components(p@));
    }
    out
}

/// The part of `path` below `base` (see [`spec_strip_prefix`]).
pub fn strip_prefix(path: &str, base: &str) -> (r: Option<String>)
    ensures
        opt_text(r) == spec_strip_prefix(path@, base@),
{
    let pc = path_components(path);
    let bc = path_components(base);
    let ghost pv = texts_of(pc@);
    let ghost bv = texts_of(bc@);
    if bc.len() > pc.len() {
        return None;
    }
    let mut i: usize = 0;
    while i < bc.len()
        invariant
            i <= bc@.len(),
            bc@.len() <= pc@.len(),
            pv == texts_of(pc@),
            bv == texts_of(bc@),
            pv == components(path@),
            bv == components(base@),
            forall|j: int| 0 <= j < i ==> pv[j] == bv[j],
        decreases bc@.len() - i,
    {
        if !text_eq(pc[i].as_str(), bc[i].as_str()) {
            proof {
                assert(pv.take(bv.len() as int)[i as int] != bv[i as int]);
            }
            return None;
        }
        i = i + 1;
    }
    proof {
        assert(pv.take(bv.len() as int) =~= bv);
    }
    let mut rest: Vec<String> = Vec::new();
    let mut k: usize = bc.len();
    proof {
        assert(texts_of(rest@) =~= pv.skip(bv.len() as int).take(0));
    }
    while k < pc.len()
        invariant
            bc@.len() <= k <= pc@.len(),
            pv == texts_of(pc@),
            bv.len() == bc@.len(),
            texts_of(rest@) == pv.skip(bv.len() as int).take(k - bv.len()),
        decreases pc@.len() - k,
    {
        let ghost before = rest@;
        rest.push(pc[k].clone());
        proof {
            let s = pv.skip(bv.len() as int);
            assert(texts_of(rest@) =~= texts_of(before).push(pc@[k as int]@));
            assert(s.take(k + 1 - bv.len()) =~= s.take(k - bv.len()).push(s[k - bv.len()]));
        }
        k = k + 1;
    }
    proof {
        let s = pv.skip(bv.len() as int);
        assert(s.take(pc@.len() - bv.len()) =~= s);
        reveal_strlit("/");
        assert("/"@ =~= seq!['/']);
    }
    Some(join(&rest, "/"))
}

pub open spec fn name_or(p: Seq<char>, fallback: Seq<char>) -> Seq<char> {
    match spec_file_name(p) {
        Some(n) => n,
        None => fallback,
    }
}

impl Service {
    /// The service called `name`: in the first service directory pattern that
    /// holds it as a service (`found_pattern`, found by the caller); else at
    /// `name` itself, taken under the workspace root unless it is absolute.
    pub fn from_name(name: &str, workspace_root: &str, found_pattern: Option<&str>) -> (r: Service)
        ensures
            r.workspace_root@ == workspace_root@,
            match found_pattern {
                Some(p) => r.name@ == name@
                    && r.path@ == spec_path_join(spec_path_join(workspace_root@, p@), name@)
                    && r.relative_path@ == spec_path_join(p@, name@),
                None => r.path@ == spec_path_join(workspace_root@, name@)
                    && r.name@ == name_or(spec_path_join(workspace_root@, name@), name@)
                    && r.relative_path@ == name@,
            },
    {
        match found_pattern {
            Some(p) => {
                let dir = path_join(workspace_root, p);
                Service {
                    name: owned(name),
                    path: path_join(dir.as_str(), name),
                    relative_path: path_join(p, name),
                    workspace_root: owned(workspace_root),
                }
            },
            None => {
                let path = path_join(workspace_root, name);
                let n = match file_name(path.as_str()) {
                    Some(n) => n,
                    None => owned(name),
                };
                Service { name: n, path, relative_path: owned(name), workspace_root: owned(workspace_root) }
            },
        }
    }

    /// The service at `path`: named after its directory (`unknown` when it has
    /// no name), with its path below the workspace root.
    pub fn from_path(path: &str, workspace_root: &str) -> (r: Service)
        ensures
            r.name@ == name_or(path@, "unknown"@),
            r.path@ == path@,
            r.relative_path@ == match spec_strip_prefix(path@, workspace_root@) {
                Some(rest) => rest,
                None => path@,
            },
            r.workspace_root@ == workspace_root@,
    {
        let name = match file_name(path) {
            Some(n) => n,
            None => owned("unknown"),
        };
        let relative_path = match strip_prefix(path, workspace_root) {
            Some(rest) => rest,
            None => owned(path),
        };
        Service { name, path: owned(path), relative_path, workspace_root: owned(workspace_root) }
    }
}

/// The context a command runs in.
#[derive(Debug, Clone)]
pub struct ServiceContext {
    /// The service (`None` outside a monorepo or at its root).
    pub service: Option<Service>,
    /// Workspace root (`None` outside a monorepo).
    pub workspace_root: Option<String>,
    /// Whether the project is a monorepo.
    pub is_monorepo: bool,
}

/// The directory files are resolved against: the service's, else `.`.
pub open spec fn spec_base_path(c: ServiceContext) -> Seq<char> {
    match c.service {
        Some(s) => s.path@,
        None => "."@,
    }
}

impl ServiceContext {
    /// The context of a single project.
    pub fn single_project() -> (r: Self)
        ensures
            r.service is None,
            r.workspace_root is None,
            !r.is_monorepo,
    {
        ServiceContext { service: None, workspace_root: None, is_monorepo: false }
    }

    pub fn base_path(&self) -> (r: String)
        ensures
            r@ == spec_base_path(*self),
    {
        match &self.service {
            Some(s) => s.path.clone(),
            None => owned("."),
        }
    }
}

/// The context of a command from what was detected: outside a monorepo, a
/// single project; with `--service`, that service; inside a service, that one;
/// at the workspace root, no service; otherwise a single project.
pub fn resolve_context(
    workspace_root: Option<String>,
    is_monorepo: bool,
    service_flag: Option<Service>,
    containing: Option<Service>,
    at_root: bool,
) -> (r: ServiceContext)
    ensures
        !(is_monorepo && workspace_root is Some) ==> r.service is None && r.workspace_root is None && !r.is_monorepo,
        is_monorepo && workspace_root is Some ==> {
            if service_flag is Some {
                r.service == service_flag && r.workspace_root == workspace_root && r.is_monorepo
            } else if containing is Some {
                r.service == containing && r.workspace_root == workspace_root && r.is_monorepo
            } else if at_root {
                r.service is None && r.workspace_root == workspace_root && r.is_monorepo
            } else {
                r.service is None && r.workspace_root is None && !r.is_monorepo
            }
        },
{
    if !(is_monorepo && workspace_root.is_some()) {
        return ServiceContext::single_project();
    }
    if service_flag.is_some() {
        return ServiceContext { service: service_flag, workspace_root, is_monorepo: true };
    }
    if containing.is_some() {
        return ServiceContext { service: containing, workspace_root, is_monorepo: true };
    }
    if at_root {
        return ServiceContext { service: None, workspace_root, is_monorepo: true };
    }
    ServiceContext::single_project()
}

} // verus!
