//! What the HTTP client sends: encoded project paths and error messages.

use vstd::prelude::*;
use crate::error::CliError;
use crate::json::decimal;
use crate::text::{owned, push_text, push_char, split_on, split_chars, join, join_texts, texts_of, chars_of, string_from_chars};

verus! {

/// A byte that stands for itself in a path segment (RFC 3986 unreserved).
pub open spec fn unreserved(b: u8) -> bool {
    (65 <= b <= 90) || (97 <= b <= 122) || (48 <= b <= 57) || b == 45 || b == 95 || b == 46 || b == 126
}

pub open spec fn upper_hex(d: u8) -> char {
    if d < 10 { (48 + d) as char } else { (55 + d) as char }
}

/// Percent-encoding of the UTF-8 bytes of a segment, with upper-case hex digits.
pub open spec fn pct_encode(bytes: Seq<u8>) -> Seq<char>
    decreases bytes.len(),
{
    if bytes.len() == 0 {
        seq![]
    } else {
        let b = bytes.last();
        pct_encode(bytes.drop_last()) + (if unreserved(b) { seq![b as char] } else { seq!['%', upper_hex(b / 16), upper_hex(b % 16)] })
    }
}

fn hex_digit(d: u8) -> (c: char)
    requires
        d < 16,
    ensures
        c == upper_hex(d),
{
    if d < 10 { (48 + d) as char } else { (55 + d) as char }
}

pub fn encode_path_segment(segment: &str) -> (r: String)
    ensures
        r@ == pct_encode(vstd::utf8::encode_utf8(segment@)),
{
    let bytes = segment.as_bytes();
    let mut out = String::new();
    let mut i: usize = 0;
    proof {
        assert(bytes@.take(0) =~= Seq::<u8>::empty());
    }
    while i < bytes.len()
        invariant
            i <= bytes@.len(),
            bytes@ == vstd::utf8::encode_utf8(segment@),
            out@ == pct_encode(bytes@.take(i as int)),
        decreases bytes@.len() - i,
    {
        let b = bytes[i];
        proof {
            assert(bytes@.take(i + 1).drop_last() =~= bytes@.take(i as int));
        }
        let ghost before = out@;
        if (65 <= b && b <= 90) || (97 <= b && b <= 122) || (48 <= b && b <= 57) || b == 45 || b == 95 || b == 46 || b == 126 {
            push_char(&mut out, b as char);
            proof {
                assert(out@ =~= before + seq![b as char]);
            }
        } else {
            push_char(&mut out, '%');
            push_char(&mut out, hex_digit(b / 16));
            push_char(&mut out, hex_digit(b % 16));
            proof {
                assert(out@ =~= before + seq!['%', upper_hex(b / 16), upper_hex(b % 16)]);
            }
        }
        i = i + 1;
    }
    proof {
        assert(bytes@.take(bytes@.len() as int) =~= bytes@);
    }
    out
}

/// The non-empty `/`-separated parts of a project, each encoded.
pub open spec fn encoded_parts(parts: Seq<Seq<char>>) -> Seq<Seq<char>>
    decreases parts.len(),
{
    if parts.len() == 0 {
        seq![]
    } else {
        let prev = encoded_parts(parts.drop_last());
        if parts.last().len() == 0 { prev } else { prev.push(pct_encode(vstd::utf8::encode_utf8(parts.last()))) }
    }
}

/// A project's path in the API: its non-empty segments encoded, joined by `/`.
pub fn project_path(project: &str) -> (r: String)
    ensures
        r@ == join_texts(encoded_parts(split_on(project@, '/')), "/"@),
{
    let parts = split_chars(project, '/');
    let ghost sp = split_on(project@, '/');
    let mut enc: Vec<String> = Vec::new();
    let mut i: usize = 0;
    proof {
        assert(sp.take(0) =~= Seq::<Seq<char>>::empty());
        assert(texts_of(enc@) =~= seq![]);
    }
    while i < parts.len()
        invariant
            i <= parts@.len(),
            parts@.len() == sp.len(),
            forall|j: int| 0 <= j < parts@.len() ==> #[trigger] parts@[j]@ == sp[j],
            texts_of(enc@) == encoded_parts(sp.take(i as int)),
        decreases parts@.len() - i,
    {
        proof {
            assert(sp.take(i + 1).drop_last() =~= sp.take(i as int));
            assert(sp.take(i + 1).last() == sp[i as int]);
        }
        if parts[i].len() > 0 {
            let seg = string_from_chars(parts[i].as_slice());
            let ghost before = enc@;
            enc.push(encode_path_segment(seg.as_str()));
            proof {
                assert(texts_of(enc@) =~= texts_of(before).push(pct_encode(vstd::utf8::encode_utf8(sp[i as int]))));
            }
        }
        i = i + 1;
    }
    proof {
        assert(sp.take(sp.len() as int) =~= sp);
    }
    join(&enc, "/")
}

/// A base URL without its trailing slashes.
pub open spec fn without_trailing_slashes(s: Seq<char>) -> Seq<char>
    decreases s.len(),
{
    if s.len() > 0 && s.last() == '/' { without_trailing_slashes(s.drop_last()) } else { s }
}

pub fn trim_trailing_slashes(s: &str) -> (r: String)
    ensures
        r@ == without_trailing_slashes(s@),
{
    let cs = chars_of(s);
    let mut k: usize = cs.len();
    proof {
        assert(cs@.take(k as int) =~= cs@);
    }
    while k > 0 && cs[k - 1] == '/'
        invariant
            k <= cs@.len(),
            cs@ == s@,
            without_trailing_slashes(cs@.take(k as int)) == without_trailing_slashes(s@),
        decreases k,
    {
        proof {
            assert(cs@.take(k as int).drop_last() =~= cs@.take(k - 1));
        }
        k = k - 1;
    }
    string_from_chars(&cs.as_slice()[0..k])
}

/// The error for a response outside 2xx.
pub fn map_http_error(status: u16, body: &str) -> (r: CliError)
    ensures
        r.text() == "SaaS API error ("@ + decimal(status as nat) + "): "@ + body@,
{
    let mut m = owned("SaaS API error (");
    crate::json::write_decimal(&mut m, status as u64);
    push_text(&mut m, "): ");
    push_text(&mut m, body);
    CliError::Message(m)
}

} // verus!
