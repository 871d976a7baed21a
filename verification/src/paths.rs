//! File system paths as text, with the meaning Unix paths have for `std::path`:
//! joining, the last component and its stem.

use vstd::prelude::*;
use crate::text::{owned, push_text, push_char, chars_of, string_from_chars, split_on, split_chars};

verus! {

/// `Path::join`: an absolute `p` replaces `base`; otherwise `p` follows `base`,
/// with a `/` between them unless `base` is empty or already ends in one.
pub open spec fn spec_path_join(base: Seq<char>, p: Seq<char>) -> Seq<char> {
    if p.len() > 0 && p[0] == '/' {
        p
    } else if base.len() > 0 && base.last() != '/' {
        base + seq!['/'] + p
    } else {
        base + p
    }
}

pub fn path_join(base: &str, p: &str) -> (r: String)
    ensures
        r@ == spec_path_join(base@, p@),
{
    let pc = chars_of(p);
    if pc.len() > 0 && pc[0] == '/' {
        return owned(p);
    }
    let bc = chars_of(base);
    let mut out = owned(base);
    if bc.len() > 0 && bc[bc.len() - 1] != '/' {
        push_char(&mut out, '/');
    }
    push_text(&mut out, p);
    out
}

/// The parts of a path between separators that name something: not empty, not `.`.
pub open spec fn real_segments(parts: Seq<Seq<char>>) -> Seq<Seq<char>>
    decreases parts.len(),
{
    if parts.len() == 0 {
        seq![]
    } else {
        let r = real_segments(parts.drop_last());
        let x = parts.last();
        if x.len() == 0 || x == seq!['.'] { r } else { r.push(x) }
    }
}

/// `Path::file_name`: the last component, unless the path ends at the root, at
/// `.` or at `..`.
pub open spec fn spec_file_name(p: Seq<char>) -> Option<Seq<char>> {
    let s = real_segments(split_on(p, '/'));
    if s.len() == 0 || s.last() == seq!['.', '.'] { None } else { Some(s.last()) }
}

/// Position of the last `.` in `n`, or -1.
pub open spec fn last_dot(n: Seq<char>) -> int
    decreases n.len(),
{
    if n.len() == 0 {
        -1
    } else if n.last() == '.' {
        n.len() - 1
    } else {
        last_dot(n.drop_last())
    }
}

/// A file name without its extension: what precedes the last `.`, unless there
/// is none or it is the leading one.
pub open spec fn stem_of(n: Seq<char>) -> Seq<char> {
    let k = last_dot(n);
    if k <= 0 { n } else { n.take(k) }
}

/// `Path::file_stem`.
pub open spec fn spec_file_stem(p: Seq<char>) -> Option<Seq<char>> {
    match spec_file_name(p) {
        Some(n) => Some(stem_of(n)),
        None => None,
    }
}

pub open spec fn opt_text(s: Option<String>) -> Option<Seq<char>> {
    match s {
        Some(x) => Some(x@),
        None => None,
    }
}

/// The last component of a path (see [`spec_file_name`]).
pub fn file_name(p: &str) -> (r: Option<String>)
    ensures
        opt_text(r) == spec_file_name(p@),
{
    let parts = split_chars(p, '/');
    let ghost sp = split_on(p@, '/');
    let mut last: Option<usize> = None;
    let mut i: usize = 0;
    proof {
        assert(sp.take(0) =~= Seq::<Seq<char>>::empty());
    }
    while i < parts.len()
        invariant
            i <= parts@.len(),
            parts@.len() == sp.len(),
            forall|j: int| 0 <= j < parts@.len() ==> #[trigger] parts@[j]@ == sp[j],
            match last {
                Some(k) => k < i && real_segments(sp.take(i as int)).len() > 0
                    && real_segments(sp.take(i as int)).last() == sp[k as int],
                None => real_segments(sp.take(i as int)).len() == 0,
            },
        decreases parts@.len() - i,
    {
        proof {
            assert(sp.take(i + 1).drop_last() =~= sp.take(i as int));
            assert(sp.take(i + 1).last() == sp[i as int]);
        }
        let part = &parts[i];
        let is_dot = part.len() == 1 && part[0] == '.';
        proof {
            if is_dot {
                assert(part@ =~= seq!['.']);
            }
            if part@.len() == 1 && part@ == seq!['.'] {
                assert(part@[0] == '.');
            }
        }
        if part.len() > 0 && !is_dot {
            last = Some(i);
        }
        i = i + 1;
    }
    proof {
        assert(sp.take(sp.len() as int) =~= sp);
    }
    match last {
        None => None,
        Some(k) => {
            let seg = &parts[k];
            if seg.len() == 2 && seg[0] == '.' && seg[1] == '.' {
                proof {
                    assert(seg@ =~= seq!['.', '.']);
                }
                None
            } else {
                proof {
                    if seg@ == seq!['.', '.'] {
                        assert(seg@[0] == '.' && seg@[1] == '.');
                    }
                }
                Some(string_from_chars(seg.as_slice()))
            }
        },
    }
}

/// The stem of a file name (see [`stem_of`]).
pub fn name_stem(n: &str) -> (r: String)
    ensures
        r@ == stem_of(n@),
{
    let cs = chars_of(n);
    let mut k: usize = 0;
    let mut found = false;
    let mut i: usize = 0;
    proof {
        assert(cs@.take(0) =~= Seq::<char>::empty());
    }
    while i < cs.len()
        invariant
            i <= cs@.len(),
            cs@ == n@,
            found ==> k < i && last_dot(cs@.take(i as int)) == k,
            !found ==> last_dot(cs@.take(i as int)) == -1,
        decreases cs@.len() - i,
    {
        proof {
            assert(cs@.take(i + 1).drop_last() =~= cs@.take(i as int));
        }
        if cs[i] == '.' {
            k = i;
            found = true;
        }
        i = i + 1;
    }
    proof {
        assert(cs@.take(cs@.len() as int) =~= cs@);
    }
    if !found || k == 0 {
        owned(n)
    } else {
        string_from_chars(&cs.as_slice()[0..k])
    }
}

/// The stem of a path's last component (see [`spec_file_stem`]).
pub fn file_stem(p: &str) -> (r: Option<String>)
    ensures
        opt_text(r) == spec_file_stem(p@),
{
    match file_name(p) {
        Some(n) => Some(name_stem(n.as_str())),
        None => None,
    }
}

/// The named segments of a path (see [`real_segments`]).
pub fn path_segments(p: &str) -> (r: Vec<String>)
    ensures
        crate::text::texts_of(r@) == real_segments(split_on(p@, '/')),
{
    let parts = split_chars(p, '/');
    let ghost sp = split_on(p@, '/');
    let mut out: Vec<String> = Vec::new();
    let mut i: usize = 0;
    proof {
        assert(sp.take(0) =~= Seq::<Seq<char>>::empty());
        assert(crate::text::texts_of(out@) =~= seq![]);
    }
    while i < parts.len()
        invariant
            i <= parts@.len(),
            parts@.len() == sp.len(),
            forall|j: int| 0 <= j < parts@.len() ==> #[trigger] parts@[j]@ == sp[j],
            crate::text::texts_of(out@) == real_segments(sp.take(i as int)),
        decreases parts@.len() - i,
    {
        proof {
            assert(sp.take(i + 1).drop_last() =~= sp.take(i as int));
            assert(sp.take(i + 1).last() == sp[i as int]);
        }
        let part = &parts[i];
        let is_dot = part.len() == 1 && part[0] == '.';
        proof {
            if is_dot {
                assert(part@ =~= seq!['.']);
            }
            if part@.len() == 1 && part@ == seq!['.'] {
                assert(part@[0] == '.');
            }
        }
        if part.len() > 0 && !is_dot {
            let ghost before = out@;
            out.push(string_from_chars(part.as_slice()));
            proof {
                assert(crate::text::texts_of(out@) =~= crate::text::texts_of(before).push(sp[i as int]));
            }
        }
        i = i + 1;
    }
    proof {
        assert(sp.take(sp.len() as int) =~= sp);
    }
    out
}

} // verus!
