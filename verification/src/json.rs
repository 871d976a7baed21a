//! JSON documents as the library holds them.
//!
//! A [`JsonValue`] mirrors a `serde_json::Value`: objects keep their entries in
//! ascending key order with no key twice (the order of serde_json's default map),
//! and a floating-point number carries its IEEE-754 bit pattern together with the
//! text that serde_json prints for it.

use vstd::prelude::*;
use crate::text::{text_lt, text_eq, text_order, lemma_text_lt_total, lemma_text_lt_transitive, lemma_text_lt_irreflexive, push_char, push_text, chars_of};

verus! {

/// A JSON number, in the three forms serde_json keeps apart.
#[derive(Clone, Debug, PartialEq)]
pub enum JsonNumber {
    PosInt(u64),
    NegInt(i64),
    Float { bits: u64, text: String },
}

/// A JSON value.
#[derive(Debug, PartialEq)]
pub enum JsonValue {
    Null,
    Bool(bool),
    Number(JsonNumber),
    String(String),
    Array(Vec<JsonValue>),
    Object(Vec<(String, JsonValue)>),
}

pub enum NumberView {
    PosInt(u64),
    NegInt(i64),
    Float(u64, Seq<char>),
}

/// The mathematical model of a JSON value.
pub enum JsonView {
    Null,
    Bool(bool),
    Number(NumberView),
    Str(Seq<char>),
    Array(Seq<JsonView>),
    Object(Seq<(Seq<char>, JsonView)>),
}

impl View for JsonNumber {
    type V = NumberView;

    open spec fn view(&self) -> NumberView {
        match self {
            JsonNumber::PosInt(n) => NumberView::PosInt(*n),
            JsonNumber::NegInt(n) => NumberView::NegInt(*n),
            JsonNumber::Float { bits, text } => NumberView::Float(*bits, text@),
        }
    }
}

pub open spec fn view_items(s: Seq<JsonValue>) -> Seq<JsonView>
    decreases s,
{
    if s.len() == 0 {
        seq![]
    } else {
        view_items(s.drop_last()).push(json_view(s.last()))
    }
}

pub open spec fn view_entries(s: Seq<(String, JsonValue)>) -> Seq<(Seq<char>, JsonView)>
    decreases s,
{
    if s.len() == 0 {
        seq![]
    } else {
        view_entries(s.drop_last()).push((s.last().0@, json_view(s.last().1)))
    }
}

pub open spec fn json_view(v: JsonValue) -> JsonView
    decreases v,
{
    match v {
        JsonValue::Null => JsonView::Null,
        JsonValue::Bool(b) => JsonView::Bool(b),
        JsonValue::Number(n) => JsonView::Number(n@),
        JsonValue::String(s) => JsonView::Str(s@),
        JsonValue::Array(items) => JsonView::Array(view_items(items@)),
        JsonValue::Object(entries) => JsonView::Object(view_entries(entries@)),
    }
}

impl View for JsonValue {
    type V = JsonView;

    open spec fn view(&self) -> JsonView {
        json_view(*self)
    }
}

pub proof fn lemma_view_items(s: Seq<JsonValue>)
    ensures
        view_items(s).len() == s.len(),
        forall|i: int| 0 <= i < s.len() ==> #[trigger] view_items(s)[i] == json_view(s[i]),
    decreases s.len(),
{
    if s.len() > 0 {
        lemma_view_items(s.drop_last());
        assert forall|i: int| 0 <= i < s.len() implies #[trigger] view_items(s)[i] == json_view(s[i]) by {
            if i < s.len() - 1 {
                assert(s.drop_last()[i] == s[i]);
            }
        }
    }
}

pub proof fn lemma_view_entries(s: Seq<(String, JsonValue)>)
    ensures
        view_entries(s).len() == s.len(),
        forall|i: int| 0 <= i < s.len() ==> #[trigger] view_entries(s)[i] == (s[i].0@, json_view(s[i].1)),
    decreases s.len(),
{
    if s.len() > 0 {
        lemma_view_entries(s.drop_last());
        assert forall|i: int| 0 <= i < s.len() implies #[trigger] view_entries(s)[i] == (s[i].0@, json_view(s[i].1)) by {
            if i < s.len() - 1 {
                assert(s.drop_last()[i] == s[i]);
            }
        }
    }
}

/// Entries built element by element have the expected view.
pub proof fn lemma_view_entries_ext(s: Seq<(String, JsonValue)>, t: Seq<(Seq<char>, JsonView)>)
    requires
        s.len() == t.len(),
        forall|i: int| 0 <= i < s.len() ==> (s[i].0@, json_view(s[i].1)) == t[i],
    ensures
        view_entries(s) == t,
{
    lemma_view_entries(s);
    assert(view_entries(s) =~= t);
}

pub proof fn lemma_view_items_ext(s: Seq<JsonValue>, t: Seq<JsonView>)
    requires
        s.len() == t.len(),
        forall|i: int| 0 <= i < s.len() ==> json_view(s[i]) == t[i],
    ensures
        view_items(s) == t,
{
    lemma_view_items(s);
    assert(view_items(s) =~= t);
}

// ---------------------------------------------------------------------------
// Object entries: lookup, ordered insertion, removal
// ---------------------------------------------------------------------------

/// Position of the first entry with key `k` (the length when there is none).
pub open spec fn key_pos<V>(e: Seq<(Seq<char>, V)>, k: Seq<char>) -> int
    decreases e.len(),
{
    if e.len() == 0 {
        0
    } else if e[0].0 == k {
        0
    } else {
        1 + key_pos(e.drop_first(), k)
    }
}

pub open spec fn has_key<V>(e: Seq<(Seq<char>, V)>, k: Seq<char>) -> bool {
    exists|i: int| 0 <= i < e.len() && e[i].0 == k
}

/// The value stored under `k`, if any (the first such entry).
pub open spec fn entries_get<V>(e: Seq<(Seq<char>, V)>, k: Seq<char>) -> Option<V> {
    if has_key(e, k) {
        Some(e[key_pos(e, k)].1)
    } else {
        None
    }
}

/// Where a new key goes: before the first entry whose key is not below it.
pub open spec fn insert_pos<V>(e: Seq<(Seq<char>, V)>, k: Seq<char>) -> int
    decreases e.len(),
{
    if e.len() == 0 {
        0
    } else if !text_lt(e[0].0, k) {
        0
    } else {
        1 + insert_pos(e.drop_first(), k)
    }
}

/// Map insertion: replaces the value under an existing key, or adds the entry in key order.
pub open spec fn entries_set<V>(e: Seq<(Seq<char>, V)>, k: Seq<char>, v: V) -> Seq<(Seq<char>, V)> {
    if has_key(e, k) {
        e.update(key_pos(e, k), (k, v))
    } else {
        e.insert(insert_pos(e, k), (k, v))
    }
}

/// Map removal of the entry under `k`.
pub open spec fn entries_remove<V>(e: Seq<(Seq<char>, V)>, k: Seq<char>) -> Seq<(Seq<char>, V)> {
    if has_key(e, k) {
        e.remove(key_pos(e, k))
    } else {
        e
    }
}

/// Keys in strictly ascending order.
pub open spec fn keys_sorted<V>(e: Seq<(Seq<char>, V)>) -> bool {
    forall|i: int, j: int| 0 <= i < j < e.len() ==> text_lt(#[trigger] e[i].0, #[trigger] e[j].0)
}

pub open spec fn entry_keys<V>(e: Seq<(Seq<char>, V)>) -> Seq<Seq<char>> {
    e.map_values(|p: (Seq<char>, V)| p.0)
}

pub proof fn lemma_key_pos<V>(e: Seq<(Seq<char>, V)>, k: Seq<char>)
    ensures
        0 <= key_pos(e, k) <= e.len(),
        forall|j: int| 0 <= j < key_pos(e, k) ==> e[j].0 != k,
        key_pos(e, k) < e.len() ==> e[key_pos(e, k)].0 == k,
        has_key(e, k) <==> key_pos(e, k) < e.len(),
    decreases e.len(),
{
    if e.len() > 0 {
        lemma_key_pos(e.drop_first(), k);
        if e[0].0 != k {
            assert forall|j: int| 0 <= j < key_pos(e, k) implies e[j].0 != k by {
                if j > 0 {
                    assert(e[j] == e.drop_first()[j - 1]);
                }
            }
            if has_key(e, k) {
                let w = choose|i: int| 0 <= i < e.len() && e[i].0 == k;
                assert(e.drop_first()[w - 1].0 == k);
            }
            if key_pos(e, k) < e.len() {
                assert(e.drop_first()[key_pos(e, k) - 1] == e[key_pos(e, k)]);
            }
        }
    }
}

pub proof fn lemma_insert_pos<V>(e: Seq<(Seq<char>, V)>, k: Seq<char>)
    ensures
        0 <= insert_pos(e, k) <= e.len(),
        forall|j: int| 0 <= j < insert_pos(e, k) ==> text_lt(#[trigger] e[j].0, k),
        insert_pos(e, k) < e.len() ==> !text_lt(e[insert_pos(e, k)].0, k),
    decreases e.len(),
{
    if e.len() > 0 {
        lemma_insert_pos(e.drop_first(), k);
        if text_lt(e[0].0, k) {
            assert forall|j: int| 0 <= j < insert_pos(e, k) implies text_lt(#[trigger] e[j].0, k) by {
                if j > 0 {
                    assert(e[j] == e.drop_first()[j - 1]);
                }
            }
            if insert_pos(e, k) < e.len() {
                assert(e.drop_first()[insert_pos(e, k) - 1] == e[insert_pos(e, k)]);
            }
        }
    }
}

/// In ordered entries, every key at or after the insertion point is above the new key.
pub proof fn lemma_insert_pos_sorted<V>(e: Seq<(Seq<char>, V)>, k: Seq<char>)
    requires
        keys_sorted(e),
        !has_key(e, k),
    ensures
        forall|j: int| insert_pos(e, k) <= j < e.len() ==> text_lt(k, #[trigger] e[j].0),
{
    lemma_insert_pos(e, k);
    let p = insert_pos(e, k);
    assert forall|j: int| p <= j < e.len() implies text_lt(k, #[trigger] e[j].0) by {
        lemma_text_lt_total(e[p].0, k);
        assert(e[p].0 != k);
        if j > p {
            lemma_text_lt_transitive(k, e[p].0, e[j].0);
        }
    }
}

pub proof fn lemma_entries_set_sorted<V>(e: Seq<(Seq<char>, V)>, k: Seq<char>, v: V)
    requires
        keys_sorted(e),
    ensures
        keys_sorted(entries_set(e, k, v)),
        has_key(entries_set(e, k, v), k),
        entries_get(entries_set(e, k, v), k) == Some(v),
        forall|k2: Seq<char>| k2 != k ==> entries_get(#[trigger] entries_set(e, k, v), k2) == entries_get(e, k2),
{
    let r = entries_set(e, k, v);
    lemma_key_pos(e, k);
    if has_key(e, k) {
        let p = key_pos(e, k);
        assert(r[p].0 == k);
        lemma_key_pos(r, k);
        assert forall|k2: Seq<char>| k2 != k implies entries_get(#[trigger] entries_set(e, k, v), k2) == entries_get(e, k2) by {
            lemma_key_pos(e, k2);
            lemma_key_pos(r, k2);
            if has_key(e, k2) {
                let w = key_pos(e, k2);
                assert(r[w].0 == k2);
                assert(has_key(r, k2));
            }
            if has_key(r, k2) {
                let w = key_pos(r, k2);
                assert(e[w].0 == k2);
                assert(has_key(e, k2));
            }
        }
    } else {
        let p = insert_pos(e, k);
        lemma_insert_pos(e, k);
        lemma_insert_pos_sorted(e, k);
        assert(r[p] == (k, v));
        assert forall|i: int, j: int| 0 <= i < j < r.len() implies text_lt(#[trigger] r[i].0, #[trigger] r[j].0) by {
            if j < p {
            } else if j == p {
            } else if i < p {
                assert(r[j] == e[j - 1]);
                lemma_text_lt_transitive(r[i].0, k, r[j].0);
            } else if i == p {
                assert(r[j] == e[j - 1]);
            } else {
                assert(r[i] == e[i - 1]);
                assert(r[j] == e[j - 1]);
            }
        }
        lemma_key_pos(r, k);
        assert(has_key(r, k));
        // the new key sits at p and nowhere before it
        assert forall|j: int| 0 <= j < p implies r[j].0 != k by {
            lemma_text_lt_irreflexive(k);
        }
        assert(key_pos(r, k) == p) by {
            if key_pos(r, k) < p {
                lemma_text_lt_irreflexive(k);
            }
        }
        assert forall|k2: Seq<char>| k2 != k implies entries_get(#[trigger] entries_set(e, k, v), k2) == entries_get(e, k2) by {
            lemma_key_pos(e, k2);
            lemma_key_pos(r, k2);
            if has_key(e, k2) {
                let w = key_pos(e, k2);
                if w < p {
                    assert(r[w].0 == k2);
                } else {
                    assert(r[w + 1].0 == k2);
                }
                assert(has_key(r, k2));
                let q = key_pos(r, k2);
                if q < p {
                    assert(e[q].0 == k2);
                    assert(q == w);
                } else {
                    assert(q != p);
                    assert(e[q - 1].0 == k2);
                    assert(q - 1 == w);
                }
            }
            if has_key(r, k2) {
                let w = key_pos(r, k2);
                if w < p {
                    assert(e[w].0 == k2);
                } else {
                    assert(e[w - 1].0 == k2);
                }
                assert(has_key(e, k2));
            }
        }
    }
}

/// Map insertion changes only the looked-up key, whatever the order of the entries.
pub proof fn lemma_entries_set_get<V>(e: Seq<(Seq<char>, V)>, k: Seq<char>, v: V)
    ensures
        entries_get(entries_set(e, k, v), k) == Some(v),
        forall|k2: Seq<char>| k2 != k ==> entries_get(#[trigger] entries_set(e, k, v), k2) == entries_get(e, k2),
{
    let r = entries_set(e, k, v);
    lemma_key_pos(e, k);
    lemma_key_pos(r, k);
    if has_key(e, k) {
        let p = key_pos(e, k);
        assert(r[p].0 == k);
        assert(has_key(r, k));
        assert(key_pos(r, k) == p) by {
            if key_pos(r, k) < p {
                assert(r[key_pos(r, k)] == e[key_pos(r, k)]);
            }
        }
        assert forall|k2: Seq<char>| k2 != k implies entries_get(#[trigger] entries_set(e, k, v), k2) == entries_get(e, k2) by {
            lemma_key_pos(e, k2);
            lemma_key_pos(r, k2);
            if has_key(e, k2) {
                let w = key_pos(e, k2);
                assert(r[w].0 == k2);
                assert(has_key(r, k2));
            }
            if has_key(r, k2) {
                let w = key_pos(r, k2);
                assert(e[w].0 == k2);
                assert(has_key(e, k2));
            }
        }
    } else {
        let p = insert_pos(e, k);
        lemma_insert_pos(e, k);
        assert(r[p] == (k, v));
        assert(has_key(r, k));
        assert(key_pos(r, k) == p) by {
            if key_pos(r, k) < p {
                assert(r[key_pos(r, k)] == e[key_pos(r, k)]);
            }
        }
        assert forall|k2: Seq<char>| k2 != k implies entries_get(#[trigger] entries_set(e, k, v), k2) == entries_get(e, k2) by {
            lemma_key_pos(e, k2);
            lemma_key_pos(r, k2);
            if has_key(e, k2) {
                let w = key_pos(e, k2);
                if w < p {
                    assert(r[w].0 == k2);
                } else {
                    assert(r[w + 1].0 == k2);
                }
                assert(has_key(r, k2));
                let q = key_pos(r, k2);
                if q < p {
                    assert(e[q].0 == k2);
                } else {
                    assert(q != p);
                    assert(e[q - 1].0 == k2);
                }
            }
            if has_key(r, k2) {
                let w = key_pos(r, k2);
                if w < p {
                    assert(e[w].0 == k2);
                } else {
                    assert(w != p);
                    assert(e[w - 1].0 == k2);
                }
                assert(has_key(e, k2));
            }
        }
    }
}

pub proof fn lemma_entries_remove<V>(e: Seq<(Seq<char>, V)>, k: Seq<char>)
    requires
        keys_sorted(e),
    ensures
        keys_sorted(entries_remove(e, k)),
        !has_key(entries_remove(e, k), k),
        forall|k2: Seq<char>| k2 != k ==> entries_get(#[trigger] entries_remove(e, k), k2) == entries_get(e, k2),
{
    let r = entries_remove(e, k);
    lemma_key_pos(e, k);
    if has_key(e, k) {
        let p = key_pos(e, k);
        assert forall|i: int, j: int| 0 <= i < j < r.len() implies text_lt(#[trigger] r[i].0, #[trigger] r[j].0) by {
            if j < p {
            } else if i < p {
                assert(r[j] == e[j + 1]);
            } else {
                assert(r[i] == e[i + 1]);
                assert(r[j] == e[j + 1]);
            }
        }
        if has_key(r, k) {
            let w = choose|i: int| 0 <= i < r.len() && r[i].0 == k;
            if w < p {
            } else {
                assert(r[w] == e[w + 1]);
                lemma_text_lt_irreflexive(k);
            }
        }
        assert forall|k2: Seq<char>| k2 != k implies entries_get(#[trigger] entries_remove(e, k), k2) == entries_get(e, k2) by {
            lemma_key_pos(e, k2);
            lemma_key_pos(r, k2);
            if has_key(e, k2) {
                let w = key_pos(e, k2);
                assert(w != p);
                if w < p {
                    assert(r[w].0 == k2);
                } else {
                    assert(r[w - 1] == e[w]);
                }
                assert(has_key(r, k2));
                let q = key_pos(r, k2);
                if q < p {
                    assert(e[q].0 == k2);
                } else {
                    assert(r[q] == e[q + 1]);
                    assert(q + 1 == w);
                }
            }
            if has_key(r, k2) {
                let w = key_pos(r, k2);
                if w < p {
                    assert(e[w].0 == k2);
                } else {
                    assert(r[w] == e[w + 1]);
                }
                assert(has_key(e, k2));
            }
        }
    }
}

/// Finds the first entry under `key`.
pub fn entries_find(entries: &Vec<(String, JsonValue)>, key: &str) -> (r: Option<usize>)
    ensures
        r matches Some(i) ==> i < entries@.len() && entries@[i as int].0@ == key@,
        r == (if has_key(view_entries(entries@), key@) {
            Some(key_pos(view_entries(entries@), key@) as usize)
        } else {
            None::<usize>
        }),
{
    let ghost ev = view_entries(entries@);
    proof {
        lemma_view_entries(entries@);
        lemma_key_pos(ev, key@);
    }
    let mut i: usize = 0;
    while i < entries.len()
        invariant
            ev == view_entries(entries@),
            ev.len() == entries@.len(),
            forall|j: int| 0 <= j < ev.len() ==> #[trigger] ev[j] == (entries@[j].0@, json_view(entries@[j].1)),
            i <= entries@.len(),
            forall|j: int| 0 <= j < i ==> ev[j].0 != key@,
            0 <= key_pos(ev, key@) <= ev.len(),
            forall|j: int| 0 <= j < key_pos(ev, key@) ==> ev[j].0 != key@,
            key_pos(ev, key@) < ev.len() ==> ev[key_pos(ev, key@)].0 == key@,
            has_key(ev, key@) <==> key_pos(ev, key@) < ev.len(),
        decreases entries@.len() - i,
    {
        assert(ev[i as int].0 == entries@[i as int].0@);
        if text_eq(entries[i].0.as_str(), key) {
            assert(key_pos(ev, key@) == i as int);
            return Some(i);
        }
        i = i + 1;
    }
    assert(!has_key(ev, key@));
    None
}

/// The value of an object entry, if present.
pub fn entries_lookup<'a>(entries: &'a Vec<(String, JsonValue)>, key: &str) -> (r: Option<&'a JsonValue>)
    ensures
        r matches Some(x) ==> entries_get(view_entries(entries@), key@) == Some(x@),
        r is None ==> entries_get(view_entries(entries@), key@) is None,
{
    proof {
        lemma_view_entries(entries@);
        lemma_key_pos(view_entries(entries@), key@);
    }
    match entries_find(entries, key) {
        Some(i) => {
            assert(view_entries(entries@)[i as int] == (entries@[i as int].0@, json_view(entries@[i as int].1)));
            Some(&entries[i].1)
        },
        None => None,
    }
}

/// Map insertion into object entries (replaces, or inserts in key order).
pub fn entries_insert(entries: &mut Vec<(String, JsonValue)>, key: String, value: JsonValue)
    ensures
        view_entries(final(entries)@) == entries_set(view_entries(old(entries)@), key@, value@),
{
    let ghost ev = view_entries(entries@);
    proof {
        lemma_view_entries(entries@);
        lemma_key_pos(ev, key@);
    }
    match entries_find(entries, key.as_str()) {
        Some(i) => {
            let ghost kv = (key@, value@);
            assert(has_key(ev, key@));
            let len: usize = entries.len();
            assert(key_pos(ev, key@) < ev.len());
            assert(ev.len() == len);
            assert(i as int == key_pos(ev, key@));
            let ghost old_e = entries@;
            entries.set(i, (key, value));
            proof {
                assert forall|j: int| 0 <= j < entries@.len() implies (entries@[j].0@, json_view(entries@[j].1)) == ev.update(i as int, kv)[j] by {
                    if j != i {
                        assert(entries@[j] == old_e[j]);
                        assert(ev[j] == (old_e[j].0@, json_view(old_e[j].1)));
                    }
                }
                lemma_view_entries_ext(entries@, ev.update(i as int, kv));
                assert(i as int == key_pos(ev, key@));
                assert(view_entries(entries@) == entries_set(ev, kv.0, kv.1));
            }
        },
        None => {
            proof {
                lemma_insert_pos(ev, key@);
            }
            let mut p: usize = 0;
            while p < entries.len() && text_order(entries[p].0.as_str(), key.as_str()) == -1
                invariant
                    ev == view_entries(entries@),
                    ev.len() == entries@.len(),
                    forall|j: int| 0 <= j < ev.len() ==> #[trigger] ev[j] == (entries@[j].0@, json_view(entries@[j].1)),
                    p <= entries@.len(),
                    p <= insert_pos(ev, key@),
                    0 <= insert_pos(ev, key@) <= ev.len(),
                    forall|j: int| 0 <= j < insert_pos(ev, key@) ==> text_lt(#[trigger] ev[j].0, key@),
                    insert_pos(ev, key@) < ev.len() ==> !text_lt(ev[insert_pos(ev, key@)].0, key@),
                decreases entries@.len() - p,
            {
                assert(ev[p as int].0 == entries@[p as int].0@);
                p = p + 1;
            }
            proof {
                if p < entries@.len() {
                    assert(ev[p as int].0 == entries@[p as int].0@);
                    assert(!text_lt(ev[p as int].0, key@));
                    if (p as int) > insert_pos(ev, key@) {
                        assert(text_lt(ev[insert_pos(ev, key@)].0, key@));
                    }
                }
            }
            assert(p as int == insert_pos(ev, key@));
            let ghost kv = (key@, value@);
            let ghost old_e = entries@;
            entries.insert(p, (key, value));
            proof {
                assert forall|j: int| 0 <= j < entries@.len() implies (entries@[j].0@, json_view(entries@[j].1)) == ev.insert(p as int, kv)[j] by {
                    if j < p {
                        assert(entries@[j] == old_e[j]);
                        assert(ev[j] == (old_e[j].0@, json_view(old_e[j].1)));
                    } else if j > p {
                        assert(entries@[j] == old_e[j - 1]);
                        assert(ev[j - 1] == (old_e[j - 1].0@, json_view(old_e[j - 1].1)));
                    }
                }
                lemma_view_entries_ext(entries@, ev.insert(p as int, kv));
                assert(view_entries(entries@) == entries_set(ev, kv.0, kv.1));
            }
        },
    }
}

/// Map removal from object entries; returns the removed value.
pub fn entries_delete(entries: &mut Vec<(String, JsonValue)>, key: &str) -> (r: Option<JsonValue>)
    ensures
        view_entries(final(entries)@) == entries_remove(view_entries(old(entries)@), key@),
        r matches Some(x) ==> entries_get(view_entries(old(entries)@), key@) == Some(x@),
        r is None ==> !has_key(view_entries(old(entries)@), key@),
{
    let ghost ev = view_entries(entries@);
    proof {
        lemma_view_entries(entries@);
        lemma_key_pos(view_entries(entries@), key@);
    }
    match entries_find(entries, key) {
        Some(i) => {
            assert(has_key(ev, key@));
            let ghost old_e = entries@;
            assert(ev[i as int] == (old_e[i as int].0@, json_view(old_e[i as int].1)));
            let (_, v) = entries.remove(i);
            proof {
                assert forall|j: int| 0 <= j < entries@.len() implies (entries@[j].0@, json_view(entries@[j].1)) == ev.remove(i as int)[j] by {
                    if j < i {
                        assert(entries@[j] == old_e[j]);
                        assert(ev[j] == (old_e[j].0@, json_view(old_e[j].1)));
                    } else {
                        assert(entries@[j] == old_e[j + 1]);
                        assert(ev[j + 1] == (old_e[j + 1].0@, json_view(old_e[j + 1].1)));
                    }
                }
                lemma_view_entries_ext(entries@, ev.remove(i as int));
            }
            Some(v)
        },
        None => None,
    }
}

/// Entries of an object view (empty for anything else).
pub open spec fn view_entries_of(v: JsonView) -> Seq<(Seq<char>, JsonView)> {
    match v {
        JsonView::Object(e) => e,
        _ => seq![],
    }
}

/// `object[key] = value` on an object value (`serde_json::Map::insert`).
pub fn object_set(v: &mut JsonValue, key: String, value: JsonValue)
    requires
        old(v)@ is Object,
    ensures
        final(v)@ == JsonView::Object(entries_set(view_entries_of(old(v)@), key@, value@)),
{
    match v {
        JsonValue::Object(entries) => {
            entries_insert(entries, key, value);
        },
        _ => {},
    }
}

/// `value[key] = x` (serde_json's `IndexMut`): a null becomes an object first.
pub open spec fn set_index(v: JsonView, k: Seq<char>, x: JsonView) -> JsonView {
    match v {
        JsonView::Null => JsonView::Object(entries_set(seq![], k, x)),
        JsonView::Object(e) => JsonView::Object(entries_set(e, k, x)),
        _ => v,
    }
}

pub open spec fn indexable(v: JsonView) -> bool {
    v is Null || v is Object
}

/// `value[key] = x` on a null or an object.
pub fn set_index_value(v: &mut JsonValue, key: String, x: JsonValue)
    requires
        indexable(old(v)@),
    ensures
        final(v)@ == set_index(old(v)@, key@, x@),
{
    match v {
        JsonValue::Null => {
            let mut entries: Vec<(String, JsonValue)> = Vec::new();
            entries_insert(&mut entries, key, x);
            proof {
                lemma_view_entries_ext(Seq::<(String, JsonValue)>::empty(), seq![]);
            }
            *v = JsonValue::Object(entries);
        },
        JsonValue::Object(entries) => {
            entries_insert(entries, key, x);
        },
        _ => {},
    }
}

/// Removes `key` from an object value (no effect on anything else).
pub fn object_remove(v: &mut JsonValue, key: &str) -> (r: Option<JsonValue>)
    ensures
        final(v)@ == (match old(v)@ {
            JsonView::Object(e) => JsonView::Object(entries_remove(e, key@)),
            other => other,
        }),
        r matches Some(x) ==> view_get(old(v)@, key@) == Some(x@),
        r is None ==> view_get(old(v)@, key@) is None,
{
    match v {
        JsonValue::Object(entries) => entries_delete(entries, key),
        _ => None,
    }
}

// ---------------------------------------------------------------------------
// Views of a value
// ---------------------------------------------------------------------------

/// `serde_json::Value::get` with a string key: the entry of an object, else nothing.
pub open spec fn view_get(v: JsonView, k: Seq<char>) -> Option<JsonView> {
    match v {
        JsonView::Object(e) => entries_get(e, k),
        _ => None,
    }
}

pub open spec fn view_str(v: JsonView) -> Option<Seq<char>> {
    match v {
        JsonView::Str(s) => Some(s),
        _ => None,
    }
}

/// `Value::get(key)` on a value.
pub fn value_get<'a>(v: &'a JsonValue, key: &str) -> (r: Option<&'a JsonValue>)
    ensures
        r matches Some(x) ==> view_get(v@, key@) == Some(x@),
        r is None ==> view_get(v@, key@) is None,
{
    match v {
        JsonValue::Object(entries) => entries_lookup(entries, key),
        _ => None,
    }
}

/// `Value::as_str`.
pub fn value_as_str(v: &JsonValue) -> (r: Option<&String>)
    ensures
        r matches Some(s) ==> view_str(v@) == Some(s@),
        r is None ==> view_str(v@) is None,
{
    match v {
        JsonValue::String(s) => Some(s),
        _ => None,
    }
}

pub proof fn lemma_array_decreases(v: JsonValue, i: int)
    requires
        v is Array,
        0 <= i < v->Array_0@.len(),
    ensures
        decreases_to!(v => v->Array_0@[i]),
{
    assert(decreases_to!(v => v->Array_0));
    assert(decreases_to!(v->Array_0 => v->Array_0@));
    assert(decreases_to!(v->Array_0@ => v->Array_0@[i]));
}

pub proof fn lemma_object_decreases(v: JsonValue, i: int)
    requires
        v is Object,
        0 <= i < v->Object_0@.len(),
    ensures
        decreases_to!(v => v->Object_0@[i].1),
{
    assert(decreases_to!(v => v->Object_0));
    assert(decreases_to!(v->Object_0 => v->Object_0@));
    assert(decreases_to!(v->Object_0@ => v->Object_0@[i]));
    assert(decreases_to!(v->Object_0@[i] => v->Object_0@[i].1));
}

/// A deep copy.
#[verifier::loop_isolation(false)]
pub fn copy_value(v: &JsonValue) -> (r: JsonValue)
    ensures
        r@ == v@,
    decreases v,
{
    match v {
        JsonValue::Null => JsonValue::Null,
        JsonValue::Bool(b) => JsonValue::Bool(*b),
        JsonValue::Number(n) => JsonValue::Number(copy_number(n)),
        JsonValue::String(s) => JsonValue::String(s.clone()),
        JsonValue::Array(items) => {
            let mut out: Vec<JsonValue> = Vec::new();
            let mut i: usize = 0;
            proof {
                lemma_view_items(items@);
            }
            while i < items.len()
                invariant
                    i <= items@.len(),
                    out@.len() == i,
                    view_items(items@).len() == items@.len(),
                    forall|j: int| 0 <= j < i ==> json_view(#[trigger] out@[j]) == json_view(items@[j]),
                decreases items@.len() - i,
            {
                proof {
                    lemma_array_decreases(*v, i as int);
                }
                let c = copy_value(&items[i]);
                out.push(c);
                i = i + 1;
            }
            proof {
                lemma_view_items(items@);
                lemma_view_items_ext(out@, view_items(items@));
            }
            JsonValue::Array(out)
        },
        JsonValue::Object(entries) => {
            let mut out: Vec<(String, JsonValue)> = Vec::new();
            let mut i: usize = 0;
            proof {
                lemma_view_entries(entries@);
            }
            while i < entries.len()
                invariant
                    i <= entries@.len(),
                    out@.len() == i,
                    view_entries(entries@).len() == entries@.len(),
                    forall|j: int| 0 <= j < i ==> (#[trigger] out@[j].0@, json_view(out@[j].1)) == (entries@[j].0@, json_view(entries@[j].1)),
                decreases entries@.len() - i,
            {
                proof {
                    lemma_object_decreases(*v, i as int);
                }
                let c = copy_value(&entries[i].1);
                let k = entries[i].0.clone();
                out.push((k, c));
                i = i + 1;
            }
            proof {
                lemma_view_entries(entries@);
                lemma_view_entries_ext(out@, view_entries(entries@));
            }
            JsonValue::Object(out)
        },
    }
}

pub fn copy_number(n: &JsonNumber) -> (r: JsonNumber)
    ensures
        r@ == n@,
{
    match n {
        JsonNumber::PosInt(x) => JsonNumber::PosInt(*x),
        JsonNumber::NegInt(x) => JsonNumber::NegInt(*x),
        JsonNumber::Float { bits, text } => JsonNumber::Float { bits: *bits, text: text.clone() },
    }
}

// ---------------------------------------------------------------------------
// Equality (serde_json's `PartialEq` for `Value`)
// ---------------------------------------------------------------------------

pub open spec fn float_bits_nan(x: u64) -> bool {
    (x / 0x10_0000_0000_0000) % 2048 == 2047 && x % 0x10_0000_0000_0000 != 0
}

/// IEEE-754 equality of two doubles given by their bit patterns.
pub open spec fn float_bits_equal(x: u64, y: u64) -> bool {
    (x % 0x8000_0000_0000_0000 == 0 && y % 0x8000_0000_0000_0000 == 0) || (x == y && !float_bits_nan(x))
}

pub open spec fn number_equal(a: NumberView, b: NumberView) -> bool {
    match (a, b) {
        (NumberView::PosInt(x), NumberView::PosInt(y)) => x == y,
        (NumberView::NegInt(x), NumberView::NegInt(y)) => x == y,
        (NumberView::Float(x, _), NumberView::Float(y, _)) => float_bits_equal(x, y),
        _ => false,
    }
}

/// Structural equality: numbers compare by value within their form, objects entry by entry.
pub open spec fn json_equal(a: JsonView, b: JsonView) -> bool
    decreases a,
{
    match a {
        JsonView::Null => b is Null,
        JsonView::Bool(x) => b matches JsonView::Bool(y) && x == y,
        JsonView::Number(x) => b matches JsonView::Number(y) && number_equal(x, y),
        JsonView::Str(x) => b matches JsonView::Str(y) && x == y,
        JsonView::Array(xs) => b matches JsonView::Array(ys) && xs.len() == ys.len() && items_equal(xs, ys),
        JsonView::Object(xs) => b matches JsonView::Object(ys) && xs.len() == ys.len() && entries_equal(xs, ys),
    }
}

pub open spec fn items_equal(xs: Seq<JsonView>, ys: Seq<JsonView>) -> bool
    decreases xs,
{
    if xs.len() == 0 || ys.len() == 0 {
        true
    } else {
        items_equal(xs.drop_last(), ys.drop_last()) && json_equal(xs.last(), ys.last())
    }
}

pub open spec fn entries_equal(xs: Seq<(Seq<char>, JsonView)>, ys: Seq<(Seq<char>, JsonView)>) -> bool
    decreases xs,
{
    if xs.len() == 0 || ys.len() == 0 {
        true
    } else {
        entries_equal(xs.drop_last(), ys.drop_last()) && xs.last().0 == ys.last().0 && json_equal(xs.last().1, ys.last().1)
    }
}

pub fn numbers_equal(a: &JsonNumber, b: &JsonNumber) -> (r: bool)
    ensures
        r == number_equal(a@, b@),
{
    match (a, b) {
        (JsonNumber::PosInt(x), JsonNumber::PosInt(y)) => *x == *y,
        (JsonNumber::NegInt(x), JsonNumber::NegInt(y)) => *x == *y,
        (JsonNumber::Float { bits: x, .. }, JsonNumber::Float { bits: y, .. }) => {
            let nan = (*x / 0x10_0000_0000_0000) % 2048 == 2047 && *x % 0x10_0000_0000_0000 != 0;
            (*x % 0x8000_0000_0000_0000 == 0 && *y % 0x8000_0000_0000_0000 == 0) || (*x == *y && !nan)
        },
        _ => false,
    }
}

/// `a == b` for two values, as serde_json decides it.
#[verifier::loop_isolation(false)]
pub fn values_equal(a: &JsonValue, b: &JsonValue) -> (r: bool)
    ensures
        r == json_equal(a@, b@),
    decreases a,
{
    match (a, b) {
        (JsonValue::Null, JsonValue::Null) => true,
        (JsonValue::Bool(x), JsonValue::Bool(y)) => *x == *y,
        (JsonValue::Number(x), JsonValue::Number(y)) => numbers_equal(x, y),
        (JsonValue::String(x), JsonValue::String(y)) => text_eq(x.as_str(), y.as_str()),
        (JsonValue::Array(xs), JsonValue::Array(ys)) => {
            proof {
                lemma_view_items(xs@);
                lemma_view_items(ys@);
            }
            if xs.len() != ys.len() {
                return false;
            }
            let ghost xv = view_items(xs@);
            let ghost yv = view_items(ys@);
            let mut i: usize = 0;
            while i < xs.len()
                invariant
                    i <= xs@.len(),
                    items_equal(xv.take(i as int), yv.take(i as int)),
                decreases xs@.len() - i,
            {
                proof {
                    lemma_array_decreases(*a, i as int);
                }
                if !values_equal(&xs[i], &ys[i]) {
                    proof {
                        if items_equal(xv, yv) {
                            lemma_items_equal_prefix(xv, yv, i as int + 1);
                            assert(yv.take(i + 1).last() == yv[i as int]);
                        }
                        assert(xv.take(i + 1).last() == xv[i as int]);
                        assert(xv.take(i + 1).drop_last() =~= xv.take(i as int));
                        assert(xv.take(xv.len() as int) =~= xv);
                        assert(yv.take(yv.len() as int) =~= yv);
                    }
                    return false;
                }
                proof {
                    assert(xv.take(i + 1).drop_last() =~= xv.take(i as int));
                    assert(yv.take(i + 1).drop_last() =~= yv.take(i as int));
                }
                i = i + 1;
            }
            proof {
                assert(xv.take(xv.len() as int) =~= xv);
                assert(yv.take(yv.len() as int) =~= yv);
            }
            true
        },
        (JsonValue::Object(xs), JsonValue::Object(ys)) => {
            proof {
                lemma_view_entries(xs@);
                lemma_view_entries(ys@);
            }
            if xs.len() != ys.len() {
                return false;
            }
            let ghost xv = view_entries(xs@);
            let ghost yv = view_entries(ys@);
            let mut i: usize = 0;
            while i < xs.len()
                invariant
                    i <= xs@.len(),
                    entries_equal(xv.take(i as int), yv.take(i as int)),
                decreases xs@.len() - i,
            {
                proof {
                    lemma_object_decreases(*a, i as int);
                }
                if !text_eq(xs[i].0.as_str(), ys[i].0.as_str()) || !values_equal(&xs[i].1, &ys[i].1) {
                    proof {
                        if entries_equal(xv, yv) {
                            lemma_entries_equal_prefix(xv, yv, i as int + 1);
                            assert(xv.take(i + 1).last() == xv[i as int]);
                            assert(yv.take(i + 1).last() == yv[i as int]);
                        }
                        assert(xv.take(i + 1).drop_last() =~= xv.take(i as int));
                        assert(xv.take(xv.len() as int) =~= xv);
                        assert(yv.take(yv.len() as int) =~= yv);
                    }
                    return false;
                }
                proof {
                    assert(xv.take(i + 1).drop_last() =~= xv.take(i as int));
                    assert(yv.take(i + 1).drop_last() =~= yv.take(i as int));
                }
                i = i + 1;
            }
            proof {
                assert(xv.take(xv.len() as int) =~= xv);
                assert(yv.take(yv.len() as int) =~= yv);
            }
            true
        },
        _ => false,
    }
}

/// Equality of whole sequences implies equality of every prefix.
pub proof fn lemma_items_equal_prefix(xs: Seq<JsonView>, ys: Seq<JsonView>, n: int)
    requires
        xs.len() == ys.len(),
        0 <= n <= xs.len(),
        items_equal(xs, ys),
    ensures
        items_equal(xs.take(n), ys.take(n)),
    decreases xs.len(),
{
    if n < xs.len() {
        assert(xs.drop_last().take(n) =~= xs.take(n));
        assert(ys.drop_last().take(n) =~= ys.take(n));
        lemma_items_equal_prefix(xs.drop_last(), ys.drop_last(), n);
    } else {
        assert(xs.take(n) =~= xs);
        assert(ys.take(n) =~= ys);
    }
}

pub proof fn lemma_entries_equal_prefix(xs: Seq<(Seq<char>, JsonView)>, ys: Seq<(Seq<char>, JsonView)>, n: int)
    requires
        xs.len() == ys.len(),
        0 <= n <= xs.len(),
        entries_equal(xs, ys),
    ensures
        entries_equal(xs.take(n), ys.take(n)),
    decreases xs.len(),
{
    if n < xs.len() {
        assert(xs.drop_last().take(n) =~= xs.take(n));
        assert(ys.drop_last().take(n) =~= ys.take(n));
        lemma_entries_equal_prefix(xs.drop_last(), ys.drop_last(), n);
    } else {
        assert(xs.take(n) =~= xs);
        assert(ys.take(n) =~= ys);
    }
}

// ---------------------------------------------------------------------------
// Compact JSON text (serde_json's `Display` for `Value`)
// ---------------------------------------------------------------------------

pub open spec fn digit_char(d: nat) -> char {
    if d == 0 { '0' } else if d == 1 { '1' } else if d == 2 { '2' } else if d == 3 { '3' }
    else if d == 4 { '4' } else if d == 5 { '5' } else if d == 6 { '6' } else if d == 7 { '7' }
    else if d == 8 { '8' } else { '9' }
}

pub open spec fn hex_char(d: nat) -> char {
    if d < 10 { digit_char(d) } else if d == 10 { 'a' } else if d == 11 { 'b' } else if d == 12 { 'c' }
    else if d == 13 { 'd' } else if d == 14 { 'e' } else { 'f' }
}

/// Decimal digits of a natural number.
pub open spec fn decimal(n: nat) -> Seq<char>
    decreases n,
{
    if n < 10 {
        seq![digit_char(n)]
    } else {
        decimal(n / 10).push(digit_char(n % 10))
    }
}

/// How one character is written inside a JSON string literal.
pub open spec fn escape_char(c: char) -> Seq<char> {
    if c == '"' {
        seq!['\\', '"']
    } else if c == '\\' {
        seq!['\\', '\\']
    } else if c == '\u{8}' {
        seq!['\\', 'b']
    } else if c == '\t' {
        seq!['\\', 't']
    } else if c == '\n' {
        seq!['\\', 'n']
    } else if c == '\u{c}' {
        seq!['\\', 'f']
    } else if c == '\r' {
        seq!['\\', 'r']
    } else if (c as int) < 0x20 {
        seq!['\\', 'u', '0', '0', hex_char((c as int / 16) as nat), hex_char((c as int % 16) as nat)]
    } else {
        seq![c]
    }
}

pub open spec fn escaped(s: Seq<char>) -> Seq<char>
    decreases s.len(),
{
    if s.len() == 0 {
        seq![]
    } else {
        escaped(s.drop_last()) + escape_char(s.last())
    }
}

/// A JSON string literal.
pub open spec fn quoted(s: Seq<char>) -> Seq<char> {
    seq!['"'] + escaped(s) + seq!['"']
}

pub open spec fn number_text(n: NumberView) -> Seq<char> {
    match n {
        NumberView::PosInt(x) => decimal(x as nat),
        NumberView::NegInt(x) => if x < 0 { seq!['-'] + decimal((-x) as nat) } else { decimal(x as nat) },
        NumberView::Float(_, t) => t,
    }
}

/// Compact JSON text of a value.
pub open spec fn json_text(v: JsonView) -> Seq<char>
    decreases v,
{
    match v {
        JsonView::Null => seq!['n', 'u', 'l', 'l'],
        JsonView::Bool(b) => if b { seq!['t', 'r', 'u', 'e'] } else { seq!['f', 'a', 'l', 's', 'e'] },
        JsonView::Number(n) => number_text(n),
        JsonView::Str(s) => quoted(s),
        JsonView::Array(xs) => seq!['['] + items_text(xs) + seq![']'],
        JsonView::Object(es) => seq!['{'] + entries_text(es) + seq!['}'],
    }
}

pub open spec fn items_text(xs: Seq<JsonView>) -> Seq<char>
    decreases xs,
{
    if xs.len() == 0 {
        seq![]
    } else if xs.len() == 1 {
        json_text(xs[0])
    } else {
        items_text(xs.drop_last()) + seq![','] + json_text(xs.last())
    }
}

pub open spec fn entries_text(es: Seq<(Seq<char>, JsonView)>) -> Seq<char>
    decreases es,
{
    if es.len() == 0 {
        seq![]
    } else if es.len() == 1 {
        quoted(es[0].0) + seq![':'] + json_text(es[0].1)
    } else {
        entries_text(es.drop_last()) + seq![','] + quoted(es.last().0) + seq![':'] + json_text(es.last().1)
    }
}

pub fn digit_to_char(d: u64) -> (c: char)
    requires
        d < 16,
    ensures
        c == hex_char(d as nat),
{
    if d == 0 { '0' } else if d == 1 { '1' } else if d == 2 { '2' } else if d == 3 { '3' }
    else if d == 4 { '4' } else if d == 5 { '5' } else if d == 6 { '6' } else if d == 7 { '7' }
    else if d == 8 { '8' } else if d == 9 { '9' } else if d == 10 { 'a' } else if d == 11 { 'b' }
    else if d == 12 { 'c' } else if d == 13 { 'd' } else if d == 14 { 'e' } else { 'f' }
}

/// Appends the decimal digits of `n`.
pub fn write_decimal(out: &mut String, n: u64)
    ensures
        final(out)@ == old(out)@ + decimal(n as nat),
    decreases n,
{
    if n >= 10 {
        write_decimal(out, n / 10);
    }
    push_char(out, digit_to_char(n % 10));
    proof {
        if n >= 10 {
            assert(final(out)@ =~= old(out)@ + decimal(n as nat)) by {
                assert(decimal(n as nat) == decimal((n / 10) as nat).push(digit_char((n % 10) as nat)));
            }
        } else {
            assert(decimal(n as nat) == seq![digit_char(n as nat)]);
        }
    }
}

/// The decimal text of an unsigned integer.
pub fn decimal_string(n: u64) -> (r: String)
    ensures
        r@ == decimal(n as nat),
{
    let mut out = String::new();
    write_decimal(&mut out, n);
    assert(out@ =~= decimal(n as nat));
    out
}

pub fn write_escaped_char(out: &mut String, c: char)
    ensures
        final(out)@ == old(out)@ + escape_char(c),
{
    let ghost start = out@;
    if c == '"' {
        push_char(out, '\\');
        push_char(out, '"');
    } else if c == '\\' {
        push_char(out, '\\');
        push_char(out, '\\');
    } else if c == '\u{8}' {
        push_char(out, '\\');
        push_char(out, 'b');
    } else if c == '\t' {
        push_char(out, '\\');
        push_char(out, 't');
    } else if c == '\n' {
        push_char(out, '\\');
        push_char(out, 'n');
    } else if c == '\u{c}' {
        push_char(out, '\\');
        push_char(out, 'f');
    } else if c == '\r' {
        push_char(out, '\\');
        push_char(out, 'r');
    } else if (c as u32) < 0x20 {
        let v: u32 = c as u32;
        push_char(out, '\\');
        push_char(out, 'u');
        push_char(out, '0');
        push_char(out, '0');
        push_char(out, digit_to_char((v / 16) as u64));
        push_char(out, digit_to_char((v % 16) as u64));
    } else {
        push_char(out, c);
    }
    assert(out@ =~= start + escape_char(c));
}

/// Appends a JSON string literal.
pub fn write_quoted(out: &mut String, s: &str)
    ensures
        final(out)@ == old(out)@ + quoted(s@),
{
    let ghost start = out@;
    let cs = chars_of(s);
    push_char(out, '"');
    let mut i: usize = 0;
    while i < cs.len()
        invariant
            cs@ == s@,
            i <= cs@.len(),
            out@ == start + seq!['"'] + escaped(cs@.take(i as int)),
        decreases cs@.len() - i,
    {
        write_escaped_char(out, cs[i]);
        proof {
            assert(cs@.take(i + 1).drop_last() =~= cs@.take(i as int));
        }
        i = i + 1;
    }
    push_char(out, '"');
    assert(cs@.take(cs@.len() as int) =~= cs@);
    assert(out@ =~= start + quoted(s@));
}

pub fn write_number(out: &mut String, n: &JsonNumber)
    ensures
        final(out)@ == old(out)@ + number_text(n@),
{
    match n {
        JsonNumber::PosInt(x) => write_decimal(out, *x),
        JsonNumber::NegInt(x) => {
            if *x < 0 {
                let ghost start = out@;
                push_char(out, '-');
                let mag: u64 = if *x == i64::MIN { 0x8000_0000_0000_0000u64 } else { (-*x) as u64 };
                write_decimal(out, mag);
                assert(out@ =~= start + (seq!['-'] + decimal((-*x) as nat)));
            } else {
                write_decimal(out, *x as u64);
            }
        },
        JsonNumber::Float { text, .. } => {
            push_text(out, text.as_str());
        },
    }
}

/// Appends the compact JSON text of `v`.
#[verifier::loop_isolation(false)]
#[verifier::rlimit(40)]
pub fn write_json(out: &mut String, v: &JsonValue)
    ensures
        final(out)@ == old(out)@ + json_text(v@),
    decreases v,
{
    let ghost start = out@;
    match v {
        JsonValue::Null => {
            push_text(out, "null");
            proof { reveal_strlit("null"); }
        },
        JsonValue::Bool(b) => {
            if *b {
                push_text(out, "true");
                proof { reveal_strlit("true"); }
            } else {
                push_text(out, "false");
                proof { reveal_strlit("false"); }
            }
        },
        JsonValue::Number(n) => write_number(out, n),
        JsonValue::String(s) => write_quoted(out, s.as_str()),
        JsonValue::Array(items) => {
            let ghost xv = view_items(items@);
            proof {
                lemma_view_items(items@);
            }
            push_char(out, '[');
            let mut i: usize = 0;
            while i < items.len()
                invariant
                    i <= items@.len(),
                    xv.len() == items@.len(),
                    out@ == start + seq!['['] + items_text(xv.take(i as int)),
                decreases items@.len() - i,
            {
                proof {
                    lemma_array_decreases(*v, i as int);
                }
                let ghost before = out@;
                if i > 0 {
                    push_char(out, ',');
                }
                write_json(out, &items[i]);
                proof {
                    let t = xv.take(i + 1);
                    assert(t.drop_last() =~= xv.take(i as int));
                    assert(t.last() == xv[i as int]);
                    if i == 0 {
                        assert(t.len() == 1);
                        assert(out@ =~= start + seq!['['] + items_text(t));
                    } else {
                        assert(out@ =~= start + seq!['['] + items_text(t));
                    }
                }
                i = i + 1;
            }
            push_char(out, ']');
            assert(xv.take(xv.len() as int) =~= xv);
            assert(out@ =~= start + json_text(v@));
        },
        JsonValue::Object(entries) => {
            let ghost ev = view_entries(entries@);
            proof {
                lemma_view_entries(entries@);
            }
            push_char(out, '{');
            let mut i: usize = 0;
            while i < entries.len()
                invariant
                    i <= entries@.len(),
                    ev.len() == entries@.len(),
                    out@ == start + seq!['{'] + entries_text(ev.take(i as int)),
                decreases entries@.len() - i,
            {
                proof {
                    lemma_object_decreases(*v, i as int);
                }
                if i > 0 {
                    push_char(out, ',');
                }
                write_quoted(out, entries[i].0.as_str());
                push_char(out, ':');
                write_json(out, &entries[i].1);
                proof {
                    let t = ev.take(i + 1);
                    assert(t.drop_last() =~= ev.take(i as int));
                    assert(t.last() == ev[i as int]);
                    if i == 0 {
                        assert(t.len() == 1);
                        assert(t[0] == ev[0]);
                        assert(out@ =~= start + seq!['{'] + entries_text(t));
                    } else {
                        assert(out@ =~= start + seq!['{'] + entries_text(t));
                    }
                }
                i = i + 1;
            }
            push_char(out, '}');
            assert(ev.take(ev.len() as int) =~= ev);
            assert(out@ =~= start + json_text(v@));
        },
    }
}

/// The compact JSON text of `v` (what `format!("{v}")` prints for a serde_json value).
pub fn json_to_string(v: &JsonValue) -> (r: String)
    ensures
        r@ == json_text(v@),
{
    let mut out = String::new();
    write_json(&mut out, v);
    assert(out@ =~= json_text(v@));
    out
}

} // verus!
