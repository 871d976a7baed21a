//! `kill-switch`: options, when the command may run, and what it prints.

use vstd::prelude::*;
use crate::error::{CliError, err_text};
use crate::json::{JsonValue, JsonView, json_text, json_to_string, view_entries_of};
use crate::text::{owned, push_text};

verus! {

pub struct Options {
    pub subcommand: KillSwitchSubcommand,
}

pub enum KillSwitchSubcommand {
    SetSwitch {
        flag: String,
        value: String,
        env: String,
    },
    Clear {
        flag: String,
        env: String,
    },
    List {
        env: String,
    },
}

/// Kill switch commands need a catalog; in SaaS mode only listing is local.
pub fn check_kill_switch_command(catalog_exists: bool, saas_mode: bool, subcommand: &KillSwitchSubcommand) -> (r: Result<(), CliError>)
    ensures
        !catalog_exists ==> err_text(r) == Some("control-path.yaml not found. Kill switch commands require a v2 catalog."@),
        catalog_exists && saas_mode && !(*subcommand is List) ==> err_text(r)
            == Some("Kill switch set/clear are local-mode only. In SaaS mode, manage kill switches in the control plane."@),
        catalog_exists && (!saas_mode || *subcommand is List) ==> r is Ok,
{
    if !catalog_exists {
        return Err(CliError::Message(owned("control-path.yaml not found. Kill switch commands require a v2 catalog.")));
    }
    if saas_mode {
        match subcommand {
            KillSwitchSubcommand::List { .. } => {},
            _ => {
                return Err(CliError::Message(owned(
                    "Kill switch set/clear are local-mode only. In SaaS mode, manage kill switches in the control plane.",
                )));
            },
        }
    }
    Ok(())
}

pub open spec fn switch_line(name: Seq<char>, value: JsonView) -> Seq<char> {
    "  "@ + name + ": "@ + json_text(value)
}

/// What listing prints for an environment's switches (a map of flag to value).
pub fn kill_switch_list_lines(env: &str, flags: &JsonValue) -> (r: Vec<String>)
    ensures
        view_entries_of(flags@).len() == 0 ==> r@.len() == 1 && r@[0]@ == "No kill switches set for "@ + env@ + "."@,
        view_entries_of(flags@).len() > 0 ==> r@.len() == view_entries_of(flags@).len() + 1
            && r@[0]@ == "Kill switches ("@ + env@ + "):"@
            && forall|i: int| 0 <= i < view_entries_of(flags@).len() ==> #[trigger] r@[i + 1]@
                == switch_line(view_entries_of(flags@)[i].0, view_entries_of(flags@)[i].1),
{
    let mut lines: Vec<String> = Vec::new();
    let entries = match flags {
        JsonValue::Object(e) => e,
        _ => {
            let mut s = owned("No kill switches set for ");
            push_text(&mut s, env);
            push_text(&mut s, ".");
            lines.push(s);
            return lines;
        },
    };
    proof {
        crate::json::lemma_view_entries(entries@);
    }
    let ghost ev = view_entries_of(flags@);
    if entries.len() == 0 {
        let mut s = owned("No kill switches set for ");
        push_text(&mut s, env);
        push_text(&mut s, ".");
        lines.push(s);
        return lines;
    }
    let mut h = owned("Kill switches (");
    push_text(&mut h, env);
    push_text(&mut h, "):");
    lines.push(h);
    let mut i: usize = 0;
    while i < entries.len()
        invariant
            i <= entries@.len(),
            ev.len() == entries@.len(),
            forall|j: int| 0 <= j < ev.len() ==> #[trigger] ev[j] == (entries@[j].0@, crate::json::json_view(entries@[j].1)),
            lines@.len() == i + 1,
            lines@[0]@ == "Kill switches ("@ + env@ + "):"@,
            forall|j: int| 0 <= j < i ==> #[trigger] lines@[j + 1]@ == switch_line(ev[j].0, ev[j].1),
        decreases entries@.len() - i,
    {
        let mut s = owned("  ");
        push_text(&mut s, entries[i].0.as_str());
        push_text(&mut s, ": ");
        let v = json_to_string(&entries[i].1);
        push_text(&mut s, v.as_str());
        lines.push(s);
        i = i + 1;
    }
    lines
}

/// `✓ Set kill switch for '<flag>' in <path> (environment: <env>)`.
pub fn set_message(flag: &str, path: &str, env: &str) -> (r: String)
    ensures
        r@ == "✓ Set kill switch for '"@ + flag@ + "' in "@ + path@ + " (environment: "@ + env@ + ")"@,
{
    let mut s = owned("✓ Set kill switch for '");
    push_text(&mut s, flag);
    push_text(&mut s, "' in ");
    push_text(&mut s, path);
    push_text(&mut s, " (environment: ");
    push_text(&mut s, env);
    push_text(&mut s, ")");
    s
}

/// `✓ Cleared kill switch for '<flag>' in <path>`.
pub fn clear_message(flag: &str, path: &str) -> (r: String)
    ensures
        r@ == "✓ Cleared kill switch for '"@ + flag@ + "' in "@ + path@,
{
    let mut s = owned("✓ Cleared kill switch for '");
    push_text(&mut s, flag);
    push_text(&mut s, "' in ");
    push_text(&mut s, path);
    s
}

} // verus!
