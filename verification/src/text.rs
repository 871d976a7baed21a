//! Character-level text helpers shared by the rest of the library.
//!
//! Strings are specified by their view, the sequence of `char`s they hold.
//! Byte-level operations of `str` (UTF-8 `starts_with`, `contains`, lexical
//! order of `String`) coincide with the character-level ones stated here, because
//! UTF-8 preserves code-point order and a valid encoded needle can only match at
//! character boundaries.

use vstd::prelude::*;

verus! {

/// Lexicographic order on character sequences, by code point.
pub open spec fn text_lt(a: Seq<char>, b: Seq<char>) -> bool
    decreases a.len(),
{
    if a.len() == 0 {
        b.len() > 0
    } else if b.len() == 0 {
        false
    } else if a[0] != b[0] {
        (a[0] as int) < (b[0] as int)
    } else {
        text_lt(a.drop_first(), b.drop_first())
    }
}

pub proof fn lemma_text_lt_irreflexive(a: Seq<char>)
    ensures
        !text_lt(a, a),
    decreases a.len(),
{
    if a.len() > 0 {
        lemma_text_lt_irreflexive(a.drop_first());
    }
}

pub proof fn lemma_text_lt_transitive(a: Seq<char>, b: Seq<char>, c: Seq<char>)
    requires
        text_lt(a, b),
        text_lt(b, c),
    ensures
        text_lt(a, c),
    decreases a.len(),
{
    if a.len() > 0 && b.len() > 0 && c.len() > 0 {
        if a[0] == b[0] && b[0] == c[0] {
            lemma_text_lt_transitive(a.drop_first(), b.drop_first(), c.drop_first());
        }
    }
}

pub proof fn lemma_text_lt_total(a: Seq<char>, b: Seq<char>)
    ensures
        text_lt(a, b) || text_lt(b, a) || a == b,
    decreases a.len(),
{
    if a.len() > 0 && b.len() > 0 {
        if a[0] == b[0] {
            lemma_text_lt_total(a.drop_first(), b.drop_first());
            if a.drop_first() == b.drop_first() {
                assert(a =~= seq![a[0]] + a.drop_first());
                assert(b =~= seq![b[0]] + b.drop_first());
            }
        } else {
            assert(a[0] as int != b[0] as int);
        }
    } else if a.len() == 0 && b.len() == 0 {
        assert(a =~= b);
    }
}

pub proof fn lemma_text_lt_asymmetric(a: Seq<char>, b: Seq<char>)
    requires
        text_lt(a, b),
    ensures
        !text_lt(b, a),
{
    if text_lt(b, a) {
        lemma_text_lt_transitive(a, b, a);
        lemma_text_lt_irreflexive(a);
    }
}

/// Appends one character (std `String::push`).
#[verifier::external_body]
pub fn push_char(s: &mut String, c: char)
    ensures
        final(s)@ == old(s)@.push(c),
{
    s.push(c)
}

/// The characters of a string slice, in order.
pub fn chars_of(s: &str) -> (r: Vec<char>)
    ensures
        r@ == s@,
{
    let mut out: Vec<char> = Vec::new();
    for c in it: s.chars()
        invariant
            out@ == it.seq().take(it.index() as int),
    {
        out.push(c);
    }
    out
}

/// Builds a string from a slice of characters.
pub fn string_from_chars(v: &[char]) -> (r: String)
    ensures
        r@ == v@,
{
    let mut out = String::new();
    let mut i: usize = 0;
    while i < v.len()
        invariant
            i <= v@.len(),
            out@ == v@.take(i as int),
        decreases v@.len() - i,
    {
        push_char(&mut out, v[i]);
        i = i + 1;
        assert(out@ =~= v@.take(i as int));
    }
    assert(v@.take(v@.len() as int) =~= v@);
    out
}

/// Appends a string slice.
pub fn push_text(s: &mut String, t: &str)
    ensures
        final(s)@ == old(s)@ + t@,
{
    s.append(t);
}

/// Two pieces joined.
pub fn cat2(a: &str, b: &str) -> (r: String)
    ensures
        r@ == a@ + b@,
{
    let mut out = a.to_string();
    out.append(b);
    out
}

/// Three pieces joined.
pub fn cat3(a: &str, b: &str, c: &str) -> (r: String)
    ensures
        r@ == a@ + b@ + c@,
{
    let mut out = a.to_string();
    out.append(b);
    out.append(c);
    out
}

/// A fresh copy of a string slice.
pub fn owned(t: &str) -> (r: String)
    ensures
        r@ == t@,
{
    t.to_string()
}

/// Whether two strings hold the same characters.
pub fn text_eq(a: &str, b: &str) -> (r: bool)
    ensures
        r == (a@ == b@),
{
    let x = chars_of(a);
    let y = chars_of(b);
    chars_eq(&x, &y)
}

pub fn chars_eq(x: &[char], y: &[char]) -> (r: bool)
    ensures
        r == (x@ == y@),
{
    if x.len() != y.len() {
        return false;
    }
    let mut i: usize = 0;
    while i < x.len()
        invariant
            x@.len() == y@.len(),
            i <= x@.len(),
            forall|k: int| 0 <= k < i ==> x@[k] == y@[k],
        decreases x@.len() - i,
    {
        if x[i] != y[i] {
            return false;
        }
        i = i + 1;
    }
    assert(x@ =~= y@);
    true
}

/// Three-way lexicographic comparison: -1, 0 or 1.
pub fn chars_order(x: &[char], y: &[char]) -> (r: i8)
    ensures
        r == -1 <==> text_lt(x@, y@),
        r == 1 <==> text_lt(y@, x@),
        r == 0 <==> x@ == y@,
{
    let mut i: usize = 0;
    assert(x@.skip(0) =~= x@);
    assert(y@.skip(0) =~= y@);
    while i < x.len() && i < y.len()
        invariant
            i <= x@.len(),
            i <= y@.len(),
            forall|k: int| 0 <= k < i ==> x@[k] == y@[k],
            text_lt(x@, y@) == text_lt(x@.skip(i as int), y@.skip(i as int)),
            text_lt(y@, x@) == text_lt(y@.skip(i as int), x@.skip(i as int)),
        decreases x@.len() - i,
    {
        let a = x[i];
        let b = y[i];
        assert(x@.skip(i as int)[0] == a);
        assert(y@.skip(i as int)[0] == b);
        if a != b {
            proof {
                lemma_text_lt_irreflexive(x@);
                assert(x@ != y@);
            }
            if a < b {
                return -1;
            } else {
                return 1;
            }
        }
        assert(x@.skip(i as int).drop_first() =~= x@.skip(i + 1));
        assert(y@.skip(i as int).drop_first() =~= y@.skip(i + 1));
        i = i + 1;
    }
    proof {
        lemma_text_lt_irreflexive(x@);
    }
    if x.len() == y.len() {
        assert(x@ =~= y@);
        0
    } else if x.len() < y.len() {
        assert(x@.skip(i as int).len() == 0);
        -1
    } else {
        assert(y@.skip(i as int).len() == 0);
        1
    }
}

/// Three-way lexicographic comparison of two strings: -1, 0 or 1.
pub fn text_order(a: &str, b: &str) -> (r: i8)
    ensures
        r == -1 <==> text_lt(a@, b@),
        r == 1 <==> text_lt(b@, a@),
        r == 0 <==> a@ == b@,
{
    let x = chars_of(a);
    let y = chars_of(b);
    chars_order(&x, &y)
}

pub open spec fn is_prefix_of(p: Seq<char>, s: Seq<char>) -> bool {
    p.len() <= s.len() && s.take(p.len() as int) == p
}

pub open spec fn is_suffix_of(p: Seq<char>, s: Seq<char>) -> bool {
    p.len() <= s.len() && s.skip(s.len() - p.len()) == p
}

/// `s` holds `p` as a contiguous piece (the empty piece is in every string).
pub open spec fn contains_text(s: Seq<char>, p: Seq<char>) -> bool {
    exists|i: int| 0 <= i && i + p.len() <= s.len() && #[trigger] s.subrange(i, i + p.len()) == p
}

/// Whether `x` matches `p` at position `at`.
pub fn matches_at(x: &[char], p: &[char], at: usize) -> (r: bool)
    requires
        at + p@.len() <= x@.len(),
    ensures
        r == (x@.subrange(at as int, at + p@.len()) == p@),
{
    let n = x.len();
    let mut i: usize = 0;
    while i < p.len()
        invariant
            at + p@.len() <= x@.len(),
            n == x@.len(),
            i <= p@.len(),
            forall|k: int| 0 <= k < i ==> x@[at + k] == p@[k],
        decreases p@.len() - i,
    {
        if x[at + i] != p[i] {
            assert(x@.subrange(at as int, at + p@.len())[i as int] != p@[i as int]);
            return false;
        }
        i = i + 1;
    }
    assert(x@.subrange(at as int, at + p@.len()) =~= p@);
    true
}

/// `str::starts_with`.
pub fn text_starts_with(s: &str, p: &str) -> (r: bool)
    ensures
        r == is_prefix_of(p@, s@),
{
    let x = chars_of(s);
    let y = chars_of(p);
    if y.len() > x.len() {
        return false;
    }
    let r = matches_at(&x, &y, 0);
    assert(x@.subrange(0, y@.len() as int) =~= x@.take(y@.len() as int));
    r
}

/// `str::ends_with`.
pub fn text_ends_with(s: &str, p: &str) -> (r: bool)
    ensures
        r == is_suffix_of(p@, s@),
{
    let x = chars_of(s);
    let y = chars_of(p);
    if y.len() > x.len() {
        return false;
    }
    let at = x.len() - y.len();
    let r = matches_at(&x, &y, at);
    assert(x@.subrange(at as int, at + y@.len()) =~= x@.skip(x@.len() - y@.len()));
    r
}

/// `str::contains` with a string pattern.
pub fn text_contains(s: &str, p: &str) -> (r: bool)
    ensures
        r == contains_text(s@, p@),
{
    let x = chars_of(s);
    let y = chars_of(p);
    if y.len() > x.len() {
        return false;
    }
    let last = x.len() - y.len();
    let mut at: usize = 0;
    while at < last
        invariant
            x@ == s@,
            y@ == p@,
            y@.len() <= x@.len(),
            last == x@.len() - y@.len(),
            at <= last,
            forall|i: int| 0 <= i < at ==> #[trigger] x@.subrange(i, i + y@.len()) != y@,
        decreases last - at,
    {
        if matches_at(&x, &y, at) {
            return true;
        }
        at = at + 1;
    }
    matches_at(&x, &y, last)
}

/// Whether `a` is `b` with ASCII letters compared without regard to case.
pub open spec fn ascii_lower(c: char) -> char {
    if 'A' <= c <= 'Z' {
        ((c as u32) + 32) as char
    } else {
        c
    }
}

pub open spec fn eq_ignore_ascii_case(a: Seq<char>, b: Seq<char>) -> bool {
    a.len() == b.len() && forall|i: int| 0 <= i < a.len() ==> ascii_lower(#[trigger] a[i]) == ascii_lower(b[i])
}

pub fn lower_ascii_char(c: char) -> (r: char)
    ensures
        r == ascii_lower(c),
{
    if 'A' <= c && c <= 'Z' {
        let v: u8 = ((c as u32) + 32) as u8;
        v as char
    } else {
        c
    }
}

/// ASCII case-insensitive comparison with a literal.
pub fn text_eq_ignore_ascii_case(a: &str, b: &str) -> (r: bool)
    ensures
        r == eq_ignore_ascii_case(a@, b@),
{
    let x = chars_of(a);
    let y = chars_of(b);
    if x.len() != y.len() {
        return false;
    }
    let mut i: usize = 0;
    while i < x.len()
        invariant
            x@ == a@,
            y@ == b@,
            x@.len() == y@.len(),
            i <= x@.len(),
            forall|k: int| 0 <= k < i ==> ascii_lower(#[trigger] x@[k]) == ascii_lower(y@[k]),
        decreases x@.len() - i,
    {
        if lower_ascii_char(x[i]) != lower_ascii_char(y[i]) {
            return false;
        }
        i = i + 1;
    }
    true
}

/// The views of a list of strings.
pub open spec fn texts_of(v: Seq<String>) -> Seq<Seq<char>> {
    v.map_values(|s: String| s@)
}

/// Pieces joined with a separator between each two.
pub open spec fn join_texts(items: Seq<Seq<char>>, sep: Seq<char>) -> Seq<char>
    decreases items.len(),
{
    if items.len() == 0 {
        seq![]
    } else if items.len() == 1 {
        items[0]
    } else {
        join_texts(items.drop_last(), sep) + sep + items.last()
    }
}

/// `items.join(sep)`.
pub fn join(items: &Vec<String>, sep: &str) -> (r: String)
    ensures
        r@ == join_texts(texts_of(items@), sep@),
{
    let mut out = String::new();
    let mut i: usize = 0;
    while i < items.len()
        invariant
            i <= items@.len(),
            out@ == join_texts(texts_of(items@.take(i as int)), sep@),
        decreases items@.len() - i,
    {
        proof {
            let t = texts_of(items@.take(i + 1));
            assert(t.drop_last() =~= texts_of(items@.take(i as int)));
            assert(t.last() == items@[i as int]@);
        }
        if i > 0 {
            push_text(&mut out, sep);
        }
        push_text(&mut out, items[i].as_str());
        proof {
            let t = texts_of(items@.take(i + 1));
            if i == 0 {
                assert(out@ =~= join_texts(t, sep@));
            } else {
                assert(out@ =~= join_texts(t, sep@));
            }
        }
        i = i + 1;
    }
    proof {
        assert(items@.take(items@.len() as int) =~= items@);
    }
    out
}

/// Whether a list of strings holds `s`.
pub fn list_contains(items: &Vec<String>, s: &str) -> (r: bool)
    ensures
        r == texts_of(items@).contains(s@),
{
    let mut i: usize = 0;
    while i < items.len()
        invariant
            i <= items@.len(),
            forall|j: int| 0 <= j < i ==> items@[j]@ != s@,
        decreases items@.len() - i,
    {
        if text_eq(items[i].as_str(), s) {
            proof {
                assert(texts_of(items@)[i as int] == s@);
            }
            return true;
        }
        i = i + 1;
    }
    proof {
        if texts_of(items@).contains(s@) {
            let j = choose|j: int| 0 <= j < texts_of(items@).len() && texts_of(items@)[j] == s@;
            assert(items@[j]@ == s@);
        }
    }
    false
}

/// `a` comes no later than `b`.
pub open spec fn text_le(a: Seq<char>, b: Seq<char>) -> bool {
    !text_lt(b, a)
}

/// The strings are in ascending order.
pub open spec fn texts_sorted(s: Seq<Seq<char>>) -> bool {
    forall|i: int, j: int| 0 <= i < j < s.len() ==> text_le(s[i], s[j])
}

/// Sorts strings in ascending order (as `sort` on `String`s does).
pub fn sort_strings(v: Vec<String>) -> (r: Vec<String>)
    ensures
        texts_of(r@).to_multiset() == texts_of(v@).to_multiset(),
        texts_sorted(texts_of(r@)),
{
    let mut rest = v;
    let mut out: Vec<String> = Vec::new();
    proof {
        assert(texts_of(out@) =~= Seq::<Seq<char>>::empty());
        vstd::seq_lib::to_multiset_len(texts_of(out@));
        vstd::multiset::lemma_multiset_empty_len(texts_of(out@).to_multiset());
        assert(texts_of(out@).to_multiset() =~= vstd::multiset::Multiset::empty());
        assert(texts_of(out@).to_multiset().add(texts_of(rest@).to_multiset()) =~= texts_of(v@).to_multiset());
    }
    while rest.len() > 0
        invariant
            texts_of(out@).to_multiset().add(texts_of(rest@).to_multiset()) == texts_of(v@).to_multiset(),
            texts_sorted(texts_of(out@)),
            forall|i: int, k: int| 0 <= i < out@.len() && 0 <= k < rest@.len() ==> text_le(out@[i]@, rest@[k]@),
        decreases rest@.len(),
    {
        let mut m: usize = 0;
        let mut j: usize = 1;
        proof {
            lemma_text_lt_irreflexive(rest@[0]@);
        }
        while j < rest.len()
            invariant
                1 <= j <= rest@.len(),
                m < j,
                forall|k: int| 0 <= k < j ==> text_le(rest@[m as int]@, #[trigger] rest@[k]@),
            decreases rest@.len() - j,
        {
            if text_order(rest[j].as_str(), rest[m].as_str()) == -1 {
                proof {
                    assert forall|k: int| 0 <= k < j + 1 implies text_le(rest@[j as int]@, #[trigger] rest@[k]@) by {
                        if k == j {
                            lemma_text_lt_irreflexive(rest@[k]@);
                        } else if text_lt(rest@[k]@, rest@[j as int]@) {
                            lemma_text_lt_transitive(rest@[k]@, rest@[j as int]@, rest@[m as int]@);
                        }
                    }
                }
                m = j;
            }
            j = j + 1;
        }
        let ghost old_rest = rest@;
        let ghost old_out = out@;
        let x = rest.remove(m);
        proof {
            assert(texts_of(rest@) =~= texts_of(old_rest).remove(m as int));
            assert(texts_of(old_rest)[m as int] == x@);
        }
        out.push(x);
        proof {
            assert(texts_of(out@) =~= texts_of(old_out).push(x@));
            vstd::seq_lib::to_multiset_build(texts_of(old_out), x@);
            assert(texts_of(out@).to_multiset() =~= texts_of(old_out).to_multiset().insert(x@));
            vstd::seq_lib::to_multiset_remove(texts_of(old_rest), m as int);
            vstd::seq_lib::to_multiset_contains(texts_of(old_rest), x@);
            assert(texts_of(rest@).to_multiset() =~= texts_of(old_rest).to_multiset().remove(x@));
            assert(texts_of(old_rest).to_multiset().count(x@) > 0) by {
                assert(texts_of(old_rest).contains(x@));
            }
            assert(texts_of(out@).to_multiset().add(texts_of(rest@).to_multiset())
                =~= texts_of(old_out).to_multiset().add(texts_of(old_rest).to_multiset()));
            assert forall|i: int, k: int| 0 <= i < out@.len() && 0 <= k < rest@.len() implies text_le(out@[i]@, rest@[k]@) by {
                let kk = if k < m { k } else { k + 1 };
                assert(rest@[k] == old_rest[kk]);
                if i < old_out.len() {
                    assert(out@[i] == old_out[i]);
                } else {
                    assert(out@[i] == x);
                }
            }
            assert forall|a: int, b: int| 0 <= a < b < texts_of(out@).len() implies text_le(texts_of(out@)[a], texts_of(out@)[b]) by {
                if b < old_out.len() {
                    assert(texts_of(out@)[a] == texts_of(old_out)[a]);
                    assert(texts_of(out@)[b] == texts_of(old_out)[b]);
                } else {
                    assert(out@[a] == old_out[a]);
                    assert(old_rest[m as int] == x);
                }
            }
        }
    }
    proof {
        assert(texts_of(rest@) =~= Seq::<Seq<char>>::empty());
        vstd::seq_lib::to_multiset_len(texts_of(rest@));
        vstd::multiset::lemma_multiset_empty_len(texts_of(rest@).to_multiset());
        assert(texts_of(rest@).to_multiset() =~= vstd::multiset::Multiset::empty());
        assert(texts_of(out@).to_multiset() =~= texts_of(out@).to_multiset().add(texts_of(rest@).to_multiset()));
    }
    out
}

/// Splitting on a separator character (`str::split`): always at least one part.
pub open spec fn split_on(s: Seq<char>, sep: char) -> Seq<Seq<char>>
    decreases s.len(),
{
    if s.len() == 0 {
        seq![seq![]]
    } else {
        let rest = split_on(s.drop_last(), sep);
        if s.last() == sep {
            rest.push(seq![])
        } else {
            rest.update(rest.len() - 1, rest.last().push(s.last()))
        }
    }
}

pub proof fn lemma_split_on_len(s: Seq<char>, sep: char)
    ensures
        split_on(s, sep).len() >= 1,
    decreases s.len(),
{
    if s.len() > 0 {
        lemma_split_on_len(s.drop_last(), sep);
    }
}

/// Splits a string on a character.
pub fn split_chars(s: &str, sep: char) -> (r: Vec<Vec<char>>)
    ensures
        r@.len() == split_on(s@, sep).len(),
        forall|i: int| 0 <= i < r@.len() ==> #[trigger] r@[i]@ == split_on(s@, sep)[i],
{
    let cs = chars_of(s);
    let mut parts: Vec<Vec<char>> = Vec::new();
    let mut current: Vec<char> = Vec::new();
    let mut i: usize = 0;
    proof {
        assert(cs@.take(0) =~= Seq::<char>::empty());
    }
    while i < cs.len()
        invariant
            cs@ == s@,
            i <= cs@.len(),
            parts@.len() + 1 == split_on(cs@.take(i as int), sep).len(),
            forall|j: int| 0 <= j < parts@.len() ==> #[trigger] parts@[j]@ == split_on(cs@.take(i as int), sep)[j],
            current@ == split_on(cs@.take(i as int), sep).last(),
        decreases cs@.len() - i,
    {
        let c = cs[i];
        proof {
            lemma_split_on_len(cs@.take(i as int), sep);
            assert(cs@.take(i + 1).drop_last() =~= cs@.take(i as int));
            assert(cs@.take(i + 1).last() == c);
        }
        if c == sep {
            parts.push(current);
            current = Vec::new();
            proof {
                assert(current@ =~= Seq::<char>::empty());
            }
        } else {
            current.push(c);
        }
        i = i + 1;
    }
    proof {
        assert(cs@.take(cs@.len() as int) =~= cs@);
        lemma_split_on_len(cs@, sep);
    }
    parts.push(current);
    parts
}

/// The result of `str::to_uppercase` (Unicode case mapping).
pub uninterp spec fn unicode_uppercase(s: Seq<char>) -> Seq<char>;

/// The result of `str::to_lowercase` (Unicode case mapping).
pub uninterp spec fn unicode_lowercase(s: Seq<char>) -> Seq<char>;

/// Calls std's `str::to_uppercase`; the result is named, not stated.
#[verifier::external_body]
pub(crate) fn to_uppercase(s: &str) -> (r: String)
    ensures
        r@ == unicode_uppercase(s@),
{
    s.to_uppercase()
}

/// Calls std's `str::to_lowercase`; the result is named, not stated.
#[verifier::external_body]
pub(crate) fn to_lowercase(s: &str) -> (r: String)
    ensures
        r@ == unicode_lowercase(s@),
{
    s.to_lowercase()
}

/// `char::is_whitespace`: the characters with the Unicode `White_Space` property.
pub open spec fn is_white(c: char) -> bool {
    ('\u{9}' <= c && c <= '\u{d}') || c == ' ' || c == '\u{85}' || c == '\u{a0}' || c == '\u{1680}'
        || ('\u{2000}' <= c && c <= '\u{200a}') || c == '\u{2028}' || c == '\u{2029}' || c == '\u{202f}'
        || c == '\u{205f}' || c == '\u{3000}'
}

fn white(c: char) -> (r: bool)
    ensures
        r == is_white(c),
{
    ('\u{9}' <= c && c <= '\u{d}') || c == ' ' || c == '\u{85}' || c == '\u{a0}' || c == '\u{1680}'
        || ('\u{2000}' <= c && c <= '\u{200a}') || c == '\u{2028}' || c == '\u{2029}' || c == '\u{202f}'
        || c == '\u{205f}' || c == '\u{3000}'
}

/// Number of leading white-space characters.
pub open spec fn lead_white(s: Seq<char>) -> nat
    decreases s.len(),
{
    if s.len() == 0 || !is_white(s[0]) { 0 } else { 1 + lead_white(s.drop_first()) }
}

/// Number of trailing white-space characters.
pub open spec fn trail_white(s: Seq<char>) -> nat
    decreases s.len(),
{
    if s.len() == 0 || !is_white(s.last()) { 0 } else { 1 + trail_white(s.drop_last()) }
}

/// `str::trim`: without leading and trailing white space.
pub open spec fn trimmed(s: Seq<char>) -> Seq<char> {
    let a = lead_white(s);
    let rest = s.skip(a as int);
    rest.take(rest.len() - trail_white(rest))
}

proof fn lemma_lead_white(s: Seq<char>, i: int)
    requires
        0 <= i <= s.len(),
        forall|j: int| 0 <= j < i ==> is_white(#[trigger] s[j]),
        i == s.len() || !is_white(s[i]),
    ensures
        lead_white(s) == i,
    decreases s.len(),
{
    if s.len() > 0 && i > 0 {
        assert forall|j: int| 0 <= j < i - 1 implies is_white(#[trigger] s.drop_first()[j]) by {
            assert(s.drop_first()[j] == s[j + 1]);
        }
        if i - 1 < s.drop_first().len() {
            assert(s.drop_first()[i - 1] == s[i]);
        }
        lemma_lead_white(s.drop_first(), i - 1);
    }
}

proof fn lemma_trail_white(s: Seq<char>, k: int)
    requires
        0 <= k <= s.len(),
        forall|j: int| k <= j < s.len() ==> is_white(#[trigger] s[j]),
        k == 0 || !is_white(s[k - 1]),
    ensures
        trail_white(s) == s.len() - k,
    decreases s.len(),
{
    if s.len() > 0 && k < s.len() {
        assert forall|j: int| k <= j < s.drop_last().len() implies is_white(#[trigger] s.drop_last()[j]) by {
            assert(s.drop_last()[j] == s[j]);
        }
        if k > 0 {
            assert(s.drop_last()[k - 1] == s[k - 1]);
        }
        lemma_trail_white(s.drop_last(), k);
    }
}

/// Removes leading and trailing white space.
pub fn trim(s: &str) -> (r: String)
    ensures
        r@ == trimmed(s@),
{
    let cs = chars_of(s);
    let mut i: usize = 0;
    while i < cs.len() && white(cs[i])
        invariant
            i <= cs@.len(),
            cs@ == s@,
            forall|j: int| 0 <= j < i ==> is_white(#[trigger] cs@[j]),
        decreases cs@.len() - i,
    {
        i = i + 1;
    }
    let mut k: usize = cs.len();
    while k > i && white(cs[k - 1])
        invariant
            i <= k <= cs@.len(),
            cs@ == s@,
            forall|j: int| k <= j < cs@.len() ==> is_white(#[trigger] cs@[j]),
        decreases k,
    {
        k = k - 1;
    }
    proof {
        lemma_lead_white(s@, i as int);
        let rest = s@.skip(i as int);
        assert forall|j: int| k - i <= j < rest.len() implies is_white(#[trigger] rest[j]) by {
            assert(rest[j] == cs@[j + i]);
        }
        if k > i {
            assert(rest[k - i - 1] == cs@[k - 1]);
        }
        lemma_trail_white(rest, k - i);
        assert(rest.take(rest.len() - trail_white(rest)) =~= cs@.subrange(i as int, k as int));
    }
    string_from_chars(&cs.as_slice()[i..k])
}

/// The comma-separated items of a list, each trimmed (`split(',')` then `trim`).
pub open spec fn comma_items(s: Seq<char>) -> Seq<Seq<char>> {
    split_on(s, ',').map_values(|p: Seq<char>| trimmed(p))
}

pub fn split_comma_list(s: &str) -> (r: Vec<String>)
    ensures
        texts_of(r@) == comma_items(s@),
{
    let parts = split_chars(s, ',');
    let ghost sp = split_on(s@, ',');
    let mut out: Vec<String> = Vec::new();
    let mut i: usize = 0;
    while i < parts.len()
        invariant
            i <= parts@.len(),
            parts@.len() == sp.len(),
            forall|j: int| 0 <= j < parts@.len() ==> #[trigger] parts@[j]@ == sp[j],
            out@.len() == i,
            forall|j: int| 0 <= j < i ==> #[trigger] out@[j]@ == trimmed(sp[j]),
        decreases parts@.len() - i,
    {
        let piece = string_from_chars(parts[i].as_slice());
        out.push(trim(piece.as_str()));
        i = i + 1;
    }
    proof {
        assert(texts_of(out@) =~= comma_items(s@));
    }
    out
}

/// `format!("{:<w$}", s)`: the text followed by spaces up to `width` characters.
pub open spec fn pad_right(s: Seq<char>, width: nat) -> Seq<char> {
    if s.len() >= width { s } else { s + Seq::new((width - s.len()) as nat, |i: int| ' ') }
}

pub fn push_padded(out: &mut String, s: &str, width: usize)
    ensures
        final(out)@ == old(out)@ + pad_right(s@, width as nat),
{
    let n = chars_of(s).len();
    push_text(out, s);
    let ghost start = out@;
    if n < width {
        let mut k: usize = n;
        proof {
            assert(start =~= start + Seq::new((k - n) as nat, |i: int| ' '));
        }
        while k < width
            invariant
                n <= k <= width,
                out@ == start + Seq::new((k - n) as nat, |i: int| ' '),
            decreases width - k,
        {
            let ghost prev = out@;
            push_char(out, ' ');
            proof {
                assert(out@ =~= start + Seq::new((k + 1 - n) as nat, |i: int| ' '));
            }
            k = k + 1;
        }
        proof {
            assert(out@ =~= old(out)@ + pad_right(s@, width as nat));
        }
    } else {
        proof {
            assert(out@ =~= old(out)@ + pad_right(s@, width as nat));
        }
    }
}

} // verus!
