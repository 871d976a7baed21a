//! Flag lifecycle and rot reporting: declared catalog metadata joined with the
//! telemetry observed by the SaaS service.

use vstd::prelude::*;
use crate::saas::client::FlagTelemetry;
use crate::text::{owned, push_text, text_eq, text_order, text_lt, text_le, chars_of, string_from_chars, texts_of, push_padded, pad_right};
use crate::json::{decimal, decimal_string};
use crate::commands::flag_listing::{dashes, dash_line};

verus! {

/// One row of a flag rot report.
#[derive(Debug, Clone)]
pub struct FlagRotReportEntry {
    pub flag_key: String,
    pub lifecycle: String,
    pub last_evaluated: Option<String>,
    pub evaluation_count: Option<u64>,
    pub rot_suggestion: Option<String>,
    pub imported: bool,
}

/// A flag of the SDK catalog, as the report reads it.
#[derive(Debug, Clone)]
pub struct RotFlag {
    /// Qualified name (`namespace.flag` for an imported flag).
    pub qualified_name: String,
    pub deprecated: bool,
    pub is_imported: bool,
}

pub open spec fn opt_text_view(s: Option<String>) -> Option<Seq<char>> {
    match s {
        Some(x) => Some(x@),
        None => None,
    }
}

/// The model of a row.
pub type EntryView = (Seq<char>, Seq<char>, Option<Seq<char>>, Option<u64>, Option<Seq<char>>, bool);

pub open spec fn entry_view(e: FlagRotReportEntry) -> EntryView {
    (e.flag_key@, e.lifecycle@, opt_text_view(e.last_evaluated), e.evaluation_count, opt_text_view(e.rot_suggestion), e.imported)
}

pub open spec fn entries_view(es: Seq<FlagRotReportEntry>) -> Seq<EntryView> {
    es.map_values(|e: FlagRotReportEntry| entry_view(e))
}

/// Position of the last telemetry record for a key, or -1 (later records of a
/// key replace earlier ones).
pub open spec fn last_telemetry(t: Seq<FlagTelemetry>, key: Seq<char>) -> int
    decreases t.len(),
{
    if t.len() == 0 {
        -1
    } else if t.last().flag_key@ == key {
        t.len() - 1
    } else {
        last_telemetry(t.drop_last(), key)
    }
}

/// The last `.`-separated segment of a name (the whole name without a `.`).
pub open spec fn short_name(n: Seq<char>) -> Seq<char>
    decreases n.len(),
{
    if n.len() == 0 {
        n
    } else if n.last() == '.' {
        seq![]
    } else {
        short_name(n.drop_last()).push(n.last())
    }
}

/// The telemetry of a flag: recorded under its qualified name, else under its short name.
pub open spec fn telemetry_index(t: Seq<FlagTelemetry>, name: Seq<char>) -> int {
    let full = last_telemetry(t, name);
    if full >= 0 { full } else { last_telemetry(t, short_name(name)) }
}

pub open spec fn lifecycle_text(deprecated: bool) -> Seq<char> {
    if deprecated { "deprecated"@ } else { "active"@ }
}

/// The row of a flag.
pub open spec fn spec_entry(f: RotFlag, t: Seq<FlagTelemetry>) -> EntryView {
    let i = telemetry_index(t, f.qualified_name@);
    if i >= 0 {
        let tel = t[i];
        (f.qualified_name@, lifecycle_text(f.deprecated), opt_text_view(tel.last_evaluated), Some(tel.evaluation_count),
            opt_text_view(tel.rot_suggestion), f.is_imported)
    } else {
        (f.qualified_name@, lifecycle_text(f.deprecated), None, None, None, f.is_imported)
    }
}

fn last_telemetry_index(t: &Vec<FlagTelemetry>, key: &str) -> (r: Option<usize>)
    ensures
        match r {
            Some(i) => i < t@.len() && last_telemetry(t@, key@) == i,
            None => last_telemetry(t@, key@) == -1,
        },
{
    let mut found: Option<usize> = None;
    let mut i: usize = 0;
    proof {
        assert(t@.take(0) =~= Seq::<FlagTelemetry>::empty());
    }
    while i < t.len()
        invariant
            i <= t@.len(),
            match found {
                Some(k) => k < i && last_telemetry(t@.take(i as int), key@) == k,
                None => last_telemetry(t@.take(i as int), key@) == -1,
            },
        decreases t@.len() - i,
    {
        proof {
            assert(t@.take(i + 1).drop_last() =~= t@.take(i as int));
            assert(t@.take(i + 1).last() == t@[i as int]);
        }
        if text_eq(t[i].flag_key.as_str(), key) {
            found = Some(i);
        }
        i = i + 1;
    }
    proof {
        assert(t@.take(t@.len() as int) =~= t@);
    }
    found
}

fn short_name_of(n: &str) -> (r: String)
    ensures
        r@ == short_name(n@),
{
    let cs = chars_of(n);
    let mut start: usize = 0;
    let mut i: usize = 0;
    proof {
        assert(cs@.take(0) =~= Seq::<char>::empty());
        assert(cs@.subrange(0, 0) =~= Seq::<char>::empty());
    }
    while i < cs.len()
        invariant
            i <= cs@.len(),
            start <= i,
            cs@ == n@,
            short_name(cs@.take(i as int)) == cs@.subrange(start as int, i as int),
        decreases cs@.len() - i,
    {
        proof {
            assert(cs@.take(i + 1).drop_last() =~= cs@.take(i as int));
        }
        if cs[i] == '.' {
            start = i + 1;
            proof {
                assert(cs@.subrange(start as int, i + 1) =~= Seq::<char>::empty());
            }
        } else {
            proof {
                assert(cs@.subrange(start as int, i + 1) =~= cs@.subrange(start as int, i as int).push(cs@[i as int]));
            }
        }
        i = i + 1;
    }
    proof {
        assert(cs@.take(cs@.len() as int) =~= cs@);
    }
    string_from_chars(&cs.as_slice()[start..cs.len()])
}

fn copy_opt(s: &Option<String>) -> (r: Option<String>)
    ensures
        opt_text_view(r) == opt_text_view(*s),
{
    match s {
        Some(x) => Some(x.clone()),
        None => None,
    }
}

fn entry_for_flag(flag: &RotFlag, telemetry: &Vec<FlagTelemetry>) -> (r: FlagRotReportEntry)
    ensures
        entry_view(r) == spec_entry(*flag, telemetry@),
{
    let idx = match last_telemetry_index(telemetry, flag.qualified_name.as_str()) {
        Some(i) => Some(i),
        None => {
            let short = short_name_of(flag.qualified_name.as_str());
            last_telemetry_index(telemetry, short.as_str())
        },
    };
    let lifecycle = if flag.deprecated { owned("deprecated") } else { owned("active") };
    match idx {
        Some(i) => FlagRotReportEntry {
            flag_key: flag.qualified_name.clone(),
            lifecycle,
            last_evaluated: copy_opt(&telemetry[i].last_evaluated),
            evaluation_count: Some(telemetry[i].evaluation_count),
            rot_suggestion: copy_opt(&telemetry[i].rot_suggestion),
            imported: flag.is_imported,
        },
        None => FlagRotReportEntry {
            flag_key: flag.qualified_name.clone(),
            lifecycle,
            last_evaluated: None,
            evaluation_count: None,
            rot_suggestion: None,
            imported: flag.is_imported,
        },
    }
}

/// Rows ordered by flag key.
pub open spec fn rows_sorted(s: Seq<EntryView>) -> bool {
    forall|i: int, j: int| 0 <= i < j < s.len() ==> text_le(s[i].0, s[j].0)
}

/// The rot report: one row per flag (see [`spec_entry`]), ordered by flag key.
pub fn build_flag_rot_report(flags: &Vec<RotFlag>, telemetry: &Vec<FlagTelemetry>) -> (r: Vec<FlagRotReportEntry>)
    ensures
        entries_view(r@).to_multiset() == flags@.map_values(|f: RotFlag| spec_entry(f, telemetry@)).to_multiset(),
        rows_sorted(entries_view(r@)),
{
    let mut rest: Vec<FlagRotReportEntry> = Vec::new();
    let mut i: usize = 0;
    while i < flags.len()
        invariant
            i <= flags@.len(),
            entries_view(rest@) == flags@.take(i as int).map_values(|f: RotFlag| spec_entry(f, telemetry@)),
        decreases flags@.len() - i,
    {
        let ghost before = rest@;
        rest.push(entry_for_flag(&flags[i], telemetry));
        proof {
            assert(entries_view(rest@) =~= entries_view(before).push(spec_entry(flags@[i as int], telemetry@)));
            assert(flags@.take(i + 1).map_values(|f: RotFlag| spec_entry(f, telemetry@))
                =~= flags@.take(i as int).map_values(|f: RotFlag| spec_entry(f, telemetry@)).push(spec_entry(flags@[i as int], telemetry@)));
        }
        i = i + 1;
    }
    proof {
        assert(flags@.take(flags@.len() as int) =~= flags@);
    }
    sort_entries(rest)
}

/// Orders rows by flag key, keeping rows of equal keys in their order.
fn sort_entries(v: Vec<FlagRotReportEntry>) -> (r: Vec<FlagRotReportEntry>)
    ensures
        entries_view(r@).to_multiset() == entries_view(v@).to_multiset(),
        rows_sorted(entries_view(r@)),
{
    let mut rest = v;
    let mut out: Vec<FlagRotReportEntry> = Vec::new();
    proof {
        assert(entries_view(out@) =~= Seq::<EntryView>::empty());
        vstd::seq_lib::to_multiset_len(entries_view(out@));
        vstd::multiset::lemma_multiset_empty_len(entries_view(out@).to_multiset());
        assert(entries_view(out@).to_multiset().add(entries_view(rest@).to_multiset()) =~= entries_view(v@).to_multiset());
    }
    while rest.len() > 0
        invariant
            entries_view(out@).to_multiset().add(entries_view(rest@).to_multiset()) == entries_view(v@).to_multiset(),
            rows_sorted(entries_view(out@)),
            forall|i: int, k: int| 0 <= i < out@.len() && 0 <= k < rest@.len() ==> text_le(out@[i].flag_key@, rest@[k].flag_key@),
        decreases rest@.len(),
    {
        let mut m: usize = 0;
        let mut j: usize = 1;
        proof {
            crate::text::lemma_text_lt_irreflexive(rest@[0].flag_key@);
        }
        while j < rest.len()
            invariant
                1 <= j <= rest@.len(),
                m < j,
                forall|k: int| 0 <= k < j ==> text_le(rest@[m as int].flag_key@, #[trigger] rest@[k].flag_key@),
            decreases rest@.len() - j,
        {
            if text_order(rest[j].flag_key.as_str(), rest[m].flag_key.as_str()) == -1 {
                proof {
                    assert forall|k: int| 0 <= k < j + 1 implies text_le(rest@[j as int].flag_key@, #[trigger] rest@[k].flag_key@) by {
                        if k == j {
                            crate::text::lemma_text_lt_irreflexive(rest@[k].flag_key@);
                        } else if text_lt(rest@[k].flag_key@, rest@[j as int].flag_key@) {
                            crate::text::lemma_text_lt_transitive(rest@[k].flag_key@, rest@[j as int].flag_key@, rest@[m as int].flag_key@);
                        }
                    }
                }
                m = j;
            }
            j = j + 1;
        }
        let ghost old_rest = rest@;
        let ghost old_out = out@;
        let x = rest.remove(m);
        proof {
            assert(entries_view(rest@) =~= entries_view(old_rest).remove(m as int));
            assert(entries_view(old_rest)[m as int] == entry_view(x));
        }
        out.push(x);
        proof {
            assert(entries_view(out@) =~= entries_view(old_out).push(entry_view(x)));
            vstd::seq_lib::to_multiset_build(entries_view(old_out), entry_view(x));
            vstd::seq_lib::to_multiset_remove(entries_view(old_rest), m as int);
            vstd::seq_lib::to_multiset_contains(entries_view(old_rest), entry_view(x));
            assert(entries_view(old_rest).contains(entry_view(x)));
            assert(entries_view(out@).to_multiset().add(entries_view(rest@).to_multiset())
                =~= entries_view(old_out).to_multiset().add(entries_view(old_rest).to_multiset()));
            assert forall|i: int, k: int| 0 <= i < out@.len() && 0 <= k < rest@.len() implies text_le(out@[i].flag_key@, rest@[k].flag_key@) by {
                let kk = if k < m { k } else { k + 1 };
                assert(rest@[k] == old_rest[kk]);
                if i < old_out.len() {
                    assert(out@[i] == old_out[i]);
                } else {
                    assert(out@[i] == x);
                }
            }
            assert forall|a: int, b: int| 0 <= a < b < entries_view(out@).len() implies text_le(entries_view(out@)[a].0, entries_view(out@)[b].0) by {
                if b < old_out.len() {
                    assert(out@[a] == old_out[a] && out@[b] == old_out[b]);
                } else {
                    assert(out@[a] == old_out[a]);
                    assert(old_rest[m as int] == x);
                }
            }
        }
    }
    proof {
        assert(entries_view(rest@) =~= Seq::<EntryView>::empty());
        vstd::seq_lib::to_multiset_len(entries_view(rest@));
        vstd::multiset::lemma_multiset_empty_len(entries_view(rest@).to_multiset());
        assert(entries_view(out@).to_multiset() =~= entries_view(out@).to_multiset().add(entries_view(rest@).to_multiset()));
    }
    out
}

/// Warnings of a report: a deprecated flag, then its SaaS rot suggestion, row by row.
pub open spec fn spec_rot_warnings(es: Seq<EntryView>) -> Seq<Seq<char>>
    decreases es.len(),
{
    if es.len() == 0 {
        seq![]
    } else {
        let prev = spec_rot_warnings(es.drop_last());
        let e = es.last();
        let with_dep = if e.1 == "deprecated"@ { prev.push("Flag '"@ + e.0 + "' is deprecated in the catalog."@) } else { prev };
        match e.4 {
            Some(s) => with_dep.push("Flag '"@ + e.0 + "' — SaaS rot suggestion: "@ + s),
            None => with_dep,
        }
    }
}

pub fn rot_warning_messages(entries: &Vec<FlagRotReportEntry>) -> (r: Vec<String>)
    ensures
        texts_of(r@) == spec_rot_warnings(entries_view(entries@)),
{
    let mut out: Vec<String> = Vec::new();
    let mut i: usize = 0;
    proof {
        assert(entries_view(entries@).take(0) =~= Seq::<EntryView>::empty());
        assert(texts_of(out@) =~= seq![]);
    }
    while i < entries.len()
        invariant
            i <= entries@.len(),
            texts_of(out@) == spec_rot_warnings(entries_view(entries@).take(i as int)),
        decreases entries@.len() - i,
    {
        let ghost t = entries_view(entries@).take(i + 1);
        proof {
            assert(t.drop_last() =~= entries_view(entries@).take(i as int));
            assert(t.last() == entry_view(entries@[i as int]));
        }
        let e = &entries[i];
        let ghost before = out@;
        if text_eq(e.lifecycle.as_str(), "deprecated") {
            let mut m = owned("Flag '");
            push_text(&mut m, e.flag_key.as_str());
            push_text(&mut m, "' is deprecated in the catalog.");
            out.push(m);
        }
        let ghost mid = out@;
        proof {
            assert(texts_of(mid) =~= (if e.lifecycle@ == "deprecated"@ {
                texts_of(before).push("Flag '"@ + e.flag_key@ + "' is deprecated in the catalog."@)
            } else {
                texts_of(before)
            }));
        }
        if let Some(s) = &e.rot_suggestion {
            let mut m = owned("Flag '");
            push_text(&mut m, e.flag_key.as_str());
            push_text(&mut m, "' — SaaS rot suggestion: ");
            push_text(&mut m, s.as_str());
            out.push(m);
            proof {
                assert(texts_of(out@) =~= texts_of(mid).push("Flag '"@ + e.flag_key@ + "' — SaaS rot suggestion: "@ + s@));
            }
        }
        i = i + 1;
    }
    proof {
        assert(entries_view(entries@).take(entries@.len() as int) =~= entries_view(entries@));
    }
    out
}


/// A text cell that may be missing: the text, or `-`.
pub open spec fn or_dash(s: Option<Seq<char>>) -> Seq<char> {
    match s {
        Some(t) => t,
        None => "-"@,
    }
}

/// One row of the rot report table.
pub open spec fn rot_row(e: EntryView) -> Seq<char> {
    pad_right(e.0, 32) + " "@ + pad_right(e.1, 12) + " "@ + pad_right(or_dash(e.2), 16) + " "@
        + pad_right(or_dash(match e.3 { Some(c) => Some(decimal(c as nat)), None => None }), 12) + " "@
        + or_dash(e.4)
}

pub open spec fn rot_table_header() -> Seq<Seq<char>> {
    seq![
        "Flag rot report:"@,
        dashes(96),
        pad_right("Flag"@, 32) + " "@ + pad_right("Lifecycle"@, 12) + " "@ + pad_right("Last evaluated"@, 16) + " "@
            + pad_right("Evaluations"@, 12) + " Rot suggestion"@,
        dashes(96),
    ]
}

/// The rot report as a table: a header and a row per entry, or a single line
/// when the catalog has no flags.
pub open spec fn spec_rot_table(es: Seq<EntryView>) -> Seq<Seq<char>> {
    if es.len() == 0 {
        seq!["No flags in catalog."@]
    } else {
        rot_table_header() + es.map_values(|e: EntryView| rot_row(e))
    }
}

fn push_cell(s: &mut String, cell: &Option<String>, width: usize)
    ensures
        final(s)@ == old(s)@ + pad_right(or_dash(opt_text_view(*cell)), width as nat),
{
    match cell {
        Some(t) => push_padded(s, t.as_str(), width),
        None => push_padded(s, "-", width),
    }
}

fn rot_row_string(e: &FlagRotReportEntry) -> (r: String)
    ensures
        r@ == rot_row(entry_view(*e)),
{
    let mut s = String::new();
    push_padded(&mut s, e.flag_key.as_str(), 32);
    push_text(&mut s, " ");
    push_padded(&mut s, e.lifecycle.as_str(), 12);
    push_text(&mut s, " ");
    push_cell(&mut s, &e.last_evaluated, 16);
    push_text(&mut s, " ");
    let count = match e.evaluation_count {
        Some(c) => Some(decimal_string(c)),
        None => None,
    };
    push_cell(&mut s, &count, 12);
    push_text(&mut s, " ");
    match &e.rot_suggestion {
        Some(t) => push_text(&mut s, t.as_str()),
        None => push_text(&mut s, "-"),
    }
    proof {
        assert(s@ =~= rot_row(entry_view(*e)));
    }
    s
}

/// The lines the rot report prints as a table.
pub fn rot_report_table(entries: &Vec<FlagRotReportEntry>) -> (r: Vec<String>)
    ensures
        texts_of(r@) == spec_rot_table(entries_view(entries@)),
{
    let mut out: Vec<String> = Vec::new();
    if entries.len() == 0 {
        out.push(owned("No flags in catalog."));
        proof {
            assert(texts_of(out@) =~= spec_rot_table(entries_view(entries@)));
        }
        return out;
    }
    out.push(owned("Flag rot report:"));
    out.push(dash_line(96));
    let mut h = String::new();
    push_padded(&mut h, "Flag", 32);
    push_text(&mut h, " ");
    push_padded(&mut h, "Lifecycle", 12);
    push_text(&mut h, " ");
    push_padded(&mut h, "Last evaluated", 16);
    push_text(&mut h, " ");
    push_padded(&mut h, "Evaluations", 12);
    push_text(&mut h, " Rot suggestion");
    out.push(h);
    out.push(dash_line(96));
    let ghost ev = entries_view(entries@);
    proof {
        assert(texts_of(out@) =~= rot_table_header() + ev.take(0).map_values(|e: EntryView| rot_row(e)));
    }
    let mut i: usize = 0;
    while i < entries.len()
        invariant
            i <= entries@.len(),
            ev == entries_view(entries@),
            texts_of(out@) == rot_table_header() + ev.take(i as int).map_values(|e: EntryView| rot_row(e)),
        decreases entries@.len() - i,
    {
        let row = rot_row_string(&entries[i]);
        let ghost before = out@;
        out.push(row);
        proof {
            assert(ev.take(i + 1) =~= ev.take(i as int).push(ev[i as int]));
            assert(texts_of(out@) =~= texts_of(before).push(row@));
            assert(texts_of(out@) =~= rot_table_header() + ev.take(i + 1).map_values(|e: EntryView| rot_row(e)));
        }
        i = i + 1;
    }
    proof {
        assert(ev.take(entries@.len() as int) =~= ev);
    }
    out
}


/// The record of the last telemetry row for a key is found at its position.
proof fn lemma_last_telemetry_at(t: Seq<FlagTelemetry>, key: Seq<char>, i: int)
    requires
        0 <= i < t.len(),
        t[i].flag_key@ == key,
        forall|j: int| i < j < t.len() ==> t[j].flag_key@ != key,
    ensures
        last_telemetry(t, key) == i,
    decreases t.len(),
{
    if i < t.len() - 1 {
        assert(t.last() == t[t.len() - 1]);
        lemma_last_telemetry_at(t.drop_last(), key, i);
    }
}

/// A row of the rot report for a flag that has telemetry carries that
/// telemetry unchanged: the last record for the flag's qualified name gives the
/// row its last evaluation, its evaluation count and its rot suggestion; the
/// row keeps the flag's name and import, and reads `deprecated` or `active`.
pub proof fn law_report_row_carries_telemetry(f: RotFlag, t: Seq<FlagTelemetry>, i: int)
    requires
        0 <= i < t.len(),
        t[i].flag_key@ == f.qualified_name@,
        forall|j: int| i < j < t.len() ==> t[j].flag_key@ != f.qualified_name@,
    ensures
        spec_entry(f, t).0 == f.qualified_name@,
        spec_entry(f, t).1 == if f.deprecated { "deprecated"@ } else { "active"@ },
        spec_entry(f, t).2 == opt_text_view(t[i].last_evaluated),
        spec_entry(f, t).3 == Some(t[i].evaluation_count),
        spec_entry(f, t).4 == opt_text_view(t[i].rot_suggestion),
        spec_entry(f, t).5 == f.is_imported,
{
    lemma_last_telemetry_at(t, f.qualified_name@, i);
}

/// A flag without any telemetry, under its qualified name or its short name,
/// gets a row with no telemetry in it.
pub proof fn law_report_row_without_telemetry(f: RotFlag, t: Seq<FlagTelemetry>)
    requires
        forall|j: int| 0 <= j < t.len() ==> t[j].flag_key@ != f.qualified_name@ && t[j].flag_key@ != short_name(f.qualified_name@),
    ensures
        spec_entry(f, t).0 == f.qualified_name@,
        spec_entry(f, t).2 is None && spec_entry(f, t).3 is None && spec_entry(f, t).4 is None,
        spec_entry(f, t).5 == f.is_imported,
{
    lemma_no_telemetry(t, f.qualified_name@);
    lemma_no_telemetry(t, short_name(f.qualified_name@));
}

proof fn lemma_no_telemetry(t: Seq<FlagTelemetry>, key: Seq<char>)
    requires
        forall|j: int| 0 <= j < t.len() ==> t[j].flag_key@ != key,
    ensures
        last_telemetry(t, key) == -1,
    decreases t.len(),
{
    if t.len() > 0 {
        assert(t.last() == t[t.len() - 1]);
        lemma_no_telemetry(t.drop_last(), key);
    }
}
} // verus!
