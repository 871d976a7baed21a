//! `ci`: options, the environment check and the SaaS sync report.

use vstd::prelude::*;
use crate::error::CliError;
use crate::text::{owned, push_text, join, join_texts, texts_of, list_contains};
use crate::json::decimal;

verus! {

pub struct Options {
    /// Environments to validate and compile (all when `None`).
    pub envs: Option<Vec<String>>,
    /// Skip SDK generation.
    pub no_sdk: bool,
    /// Skip validation.
    pub no_validate: bool,
}

/// The requested environments the catalog does not define, in request order.
pub open spec fn unknown_envs(requested: Seq<Seq<char>>, all: Seq<Seq<char>>) -> Seq<Seq<char>>
    decreases requested.len(),
{
    if requested.len() == 0 {
        seq![]
    } else {
        let prev = unknown_envs(requested.drop_last(), all);
        if all.contains(requested.last()) { prev } else { prev.push(requested.last()) }
    }
}

/// Checks the environments CI works on and counts them: every requested one
/// must be defined; without a request, all defined ones are used; there must be one.
pub fn validate_deployment_envs(requested: Option<&Vec<String>>, all_envs: &Vec<String>) -> (r: Result<usize, CliError>)
    ensures
        match requested {
            Some(req) => {
                let unknown = unknown_envs(texts_of(req@), texts_of(all_envs@));
                if unknown.len() > 0 {
                    r matches Err(e) && e.text() == "Unknown environment(s): "@ + join_texts(unknown, ", "@)
                } else if req@.len() == 0 {
                    r matches Err(e) && e.text() == "No environments found in control-path.yaml to validate"@
                } else {
                    r == Ok::<usize, CliError>(req@.len() as usize)
                }
            },
            None => if all_envs@.len() == 0 {
                r matches Err(e) && e.text() == "No environments found in control-path.yaml to validate"@
            } else {
                r == Ok::<usize, CliError>(all_envs@.len() as usize)
            },
        },
{
    let count = match requested {
        Some(req) => {
            let mut unknown: Vec<String> = Vec::new();
            let mut i: usize = 0;
            proof {
                assert(texts_of(req@.take(0)) =~= seq![]);
                assert(texts_of(unknown@) =~= seq![]);
            }
            while i < req.len()
                invariant
                    i <= req@.len(),
                    texts_of(unknown@) == unknown_envs(texts_of(req@.take(i as int)), texts_of(all_envs@)),
                decreases req@.len() - i,
            {
                proof {
                    assert(texts_of(req@.take(i + 1)).drop_last() =~= texts_of(req@.take(i as int)));
                    assert(texts_of(req@.take(i + 1)).last() == req@[i as int]@);
                }
                if !list_contains(all_envs, req[i].as_str()) {
                    let ghost before = unknown@;
                    unknown.push(req[i].clone());
                    proof {
                        assert(texts_of(unknown@) =~= texts_of(before).push(req@[i as int]@));
                    }
                }
                i = i + 1;
            }
            proof {
                assert(req@.take(req@.len() as int) =~= req@);
            }
            if unknown.len() > 0 {
                let mut m = owned("Unknown environment(s): ");
                let names = join(&unknown, ", ");
                push_text(&mut m, names.as_str());
                return Err(CliError::Message(m));
            }
            req.len()
        },
        None => all_envs.len(),
    };
    if count == 0 {
        return Err(CliError::Message(owned("No environments found in control-path.yaml to validate")));
    }
    Ok(count)
}

/// The lines CI prints after syncing a SaaS catalog: what changed and which
/// artifacts were downloaded.
pub fn saas_sync_lines(upserted: usize, retired: usize, downloaded: &Vec<String>) -> (r: Vec<String>)
    ensures
        r@.len() == (if upserted == 0 && retired == 0 { 1nat } else { (if upserted > 0 { 1nat } else { 0nat }) + (if retired > 0 { 1nat } else { 0nat }) })
            + (if downloaded@.len() > 0 { 1nat } else { 0nat }),
        upserted == 0 && retired == 0 ==> r@[0]@ == "  ✓ Catalog is in sync"@,
        upserted > 0 ==> r@[0]@ == "  ✓ Synced "@ + decimal(upserted as nat) + " flag(s)"@,
        retired > 0 ==> r@[if upserted > 0 { 1int } else { 0int }]@ == "  ✓ Retired "@ + decimal(retired as nat) + " flag(s)"@,
        downloaded@.len() > 0 ==> r@.last()@ == "  ✓ Downloaded "@ + decimal(downloaded@.len()) + " remote AST artifact(s): "@
            + join_texts(texts_of(downloaded@), ", "@),
{
    let mut lines: Vec<String> = Vec::new();
    if upserted == 0 && retired == 0 {
        lines.push(owned("  ✓ Catalog is in sync"));
    } else {
        if upserted > 0 {
            let mut s = owned("  ✓ Synced ");
            crate::json::write_decimal(&mut s, upserted as u64);
            push_text(&mut s, " flag(s)");
            lines.push(s);
        }
        if retired > 0 {
            let mut s = owned("  ✓ Retired ");
            crate::json::write_decimal(&mut s, retired as u64);
            push_text(&mut s, " flag(s)");
            lines.push(s);
        }
    }
    if downloaded.len() > 0 {
        let mut s = owned("  ✓ Downloaded ");
        crate::json::write_decimal(&mut s, downloaded.len() as u64);
        push_text(&mut s, " remote AST artifact(s): ");
        let names = join(downloaded, ", ");
        push_text(&mut s, names.as_str());
        lines.push(s);
    }
    lines
}

} // verus!
