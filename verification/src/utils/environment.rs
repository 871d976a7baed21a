//! Choice of the environment a command works on when none is named.

use vstd::prelude::*;
use crate::text::text_eq;

verus! {

/// No branch appears twice in the mapping (it is a map).
pub open spec fn distinct_branches(v: Seq<(String, String)>) -> bool {
    forall|i: int, j: int| 0 <= i < j < v.len() ==> v[i].0@ != v[j].0@
}

/// The environment a branch maps to.
pub open spec fn branch_lookup(v: Seq<(String, String)>, branch: Seq<char>) -> Option<Seq<char>> {
    if exists|i: int| 0 <= i < v.len() && v[i].0@ == branch {
        let i = choose|i: int| 0 <= i < v.len() && v[i].0@ == branch;
        Some(v[i].1@)
    } else {
        None
    }
}

pub open spec fn spec_resolve_environment(
    branch: Option<Seq<char>>,
    branch_envs: Option<Seq<(String, String)>>,
    default_env: Option<Seq<char>>,
) -> Option<Seq<char>> {
    match (branch, branch_envs) {
        (Some(b), Some(m)) => match branch_lookup(m, b) {
            Some(e) => Some(e),
            None => default_env,
        },
        _ => default_env,
    }
}

/// The environment for a branch: its entry in the branch mapping, else the default environment.
#[verifier::loop_isolation(false)]
pub fn resolve_environment_from_branch(
    branch: Option<&str>,
    branch_envs: &Option<Vec<(String, String)>>,
    default_env: &Option<String>,
) -> (r: Option<String>)
    requires
        branch_envs matches Some(m) ==> distinct_branches(m@),
    ensures
        (match r { Some(s) => Some(s@), None => None }) == spec_resolve_environment(
            match branch { Some(b) => Some(b@), None => None },
            match branch_envs { Some(m) => Some(m@), None => None },
            match default_env { Some(d) => Some(d@), None => None },
        ),
{
    if let Some(b) = branch {
        if let Some(m) = branch_envs {
            let mut i: usize = 0;
            while i < m.len()
                invariant
                    i <= m@.len(),
                    distinct_branches(m@),
                    forall|j: int| 0 <= j < i ==> m@[j].0@ != b@,
                decreases m@.len() - i,
            {
                if text_eq(m[i].0.as_str(), b) {
                    proof {
                        assert(m@[i as int].0@ == b@);
                        let c = choose|c: int| 0 <= c < m@.len() && m@[c].0@ == b@;
                        assert(c == i as int);
                    }
                    return Some(m[i].1.clone());
                }
                i = i + 1;
            }
        }
    }
    match default_env {
        Some(d) => Some(d.clone()),
        None => None,
    }
}

} // verus!
