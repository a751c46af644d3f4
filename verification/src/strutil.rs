//! Verified string helpers: ASCII lowercasing, substring search, symbol
//! tracking, and a single trusted wrapper for appending one character to
//! a `String`.

use crate::events::Subscription;
use vstd::prelude::*;
use vstd::string::StrSliceExecFns;

verus! {

/// Relies on `String::push`: appends exactly one character to the string.
#[verifier::external_body]
pub fn push_char(s: &mut String, c: char)
    ensures
        final(s)@ == old(s)@.push(c),
{
    s.push(c);
}

/// An upper-case ASCII letter mapped to its lower-case form; any other
/// character unchanged.
pub open spec fn lower_char(c: char) -> char {
    if 'A' <= c && c <= 'Z' {
        ((c as u8) + 32) as char
    } else {
        c
    }
}

/// Character-wise ASCII lowercasing.
pub open spec fn spec_lower(s: Seq<char>) -> Seq<char> {
    s.map_values(|c: char| lower_char(c))
}

/// Lower-case every upper-case ASCII letter of `s`.
pub fn to_lower(s: &str) -> (r: String)
    ensures
        r@ == spec_lower(s@),
{
    let n = s.unicode_len();
    let mut out = String::new();
    proof {
        assert(out@ =~= spec_lower(s@.take(0)));
    }
    let mut i: usize = 0;
    while i < n
        invariant
            0 <= i <= n,
            n == s@.len(),
            out@ == spec_lower(s@.take(i as int)),
        decreases n - i,
    {
        let c = s.get_char(i);
        let lc: char = if 'A' <= c && c <= 'Z' {
            ((c as u8) + 32) as char
        } else {
            c
        };
        push_char(&mut out, lc);
        proof {
            assert(spec_lower(s@.take(i + 1)) =~= spec_lower(s@.take(i as int)).push(
                lower_char(s@[i as int]),
            ));
        }
        i = i + 1;
    }
    proof {
        assert(s@.take(n as int) =~= s@);
    }
    out
}

/// `needle` occurs in `haystack` starting at position `i`.
pub open spec fn contains_at(h: Seq<char>, n: Seq<char>, i: int) -> bool {
    0 <= i && i + n.len() <= h.len() && h.subrange(i, i + n.len()) == n
}

/// `needle` occurs somewhere in `haystack`.
pub open spec fn spec_contains(h: Seq<char>, n: Seq<char>) -> bool {
    exists|i: int| contains_at(h, n, i)
}

/// `needle` occurs in `h` exactly at position `i`.
fn match_at(h: &str, needle: &str, i: usize) -> (r: bool)
    requires
        i + needle@.len() <= h@.len() <= usize::MAX,
    ensures
        r == contains_at(h@, needle@, i as int),
{
    let nn = needle.unicode_len();
    let mut k: usize = 0;
    while k < nn
        invariant
            0 <= k <= nn,
            nn == needle@.len(),
            i + nn <= h@.len() <= usize::MAX,
            forall|l: int| 0 <= l < k ==> h@[i + l] == needle@[l],
        decreases nn - k,
    {
        if h.get_char(i + k) != needle.get_char(k) {
            proof {
                let sub = h@.subrange(i as int, i + nn);
                assert(sub[k as int] == h@[i + k]);
                assert(sub[k as int] != needle@[k as int]);
            }
            return false;
        }
        k = k + 1;
    }
    proof {
        assert(h@.subrange(i as int, i + nn) =~= needle@);
    }
    true
}

/// Whether `h` begins with `p`.
pub open spec fn spec_starts_with(h: Seq<char>, p: Seq<char>) -> bool {
    h.len() >= p.len() && h.subrange(0, p.len() as int) == p
}

/// Prefix test: whether `h` begins with `p`.
pub fn str_starts_with(h: &str, p: &str) -> (r: bool)
    ensures
        r == spec_starts_with(h@, p@),
{
    let nh = h.unicode_len();
    let np = p.unicode_len();
    if np > nh {
        return false;
    }
    match_at(h, p, 0)
}

/// Substring search: whether `needle` occurs anywhere in `h`.
pub fn str_contains(h: &str, needle: &str) -> (r: bool)
    ensures
        r == spec_contains(h@, needle@),
{
    let nh = h.unicode_len();
    let nn = needle.unicode_len();
    if nn > nh {
        proof {
            assert(forall|i: int| !contains_at(h@, needle@, i));
        }
        return false;
    }
    if nn == 0 {
        proof {
            assert(h@.subrange(0, 0) =~= needle@);
            assert(contains_at(h@, needle@, 0));
        }
        return true;
    }
    let mut i: usize = 0;
    while i <= nh - nn
        invariant
            0 <= i <= nh - nn + 1,
            1 <= nn <= nh,
            nh == h@.len(),
            nn == needle@.len(),
            forall|j: int| 0 <= j < i ==> !contains_at(h@, needle@, j),
        decreases nh - i,
    {
        if match_at(h, needle, i) {
            return true;
        }
        i = i + 1;
    }
    proof {
        assert(forall|j: int| j >= i ==> !contains_at(h@, needle@, j));
    }
    false
}

/// Character-for-character string equality.
pub fn str_eq(a: &str, b: &str) -> (r: bool)
    ensures
        r == (a@ == b@),
{
    let na = a.unicode_len();
    let nb = b.unicode_len();
    if na != nb {
        return false;
    }
    let mut i: usize = 0;
    while i < na
        invariant
            0 <= i <= na,
            na == a@.len(),
            na == b@.len(),
            forall|j: int| 0 <= j < i ==> a@[j] == b@[j],
        decreases na - i,
    {
        if a.get_char(i) != b.get_char(i) {
            return false;
        }
        i = i + 1;
    }
    proof {
        assert(a@ =~= b@);
    }
    true
}

/// A symbol with the same characters as `s` is already tracked.
pub open spec fn seq_contains_str(seen: Seq<String>, s: Seq<char>) -> bool {
    exists|i: int| 0 <= i < seen.len() && #[trigger] seen[i]@ == s
}

/// The tracked symbols after registering `subs`, in order of first
/// appearance, duplicates ignored.
pub open spec fn spec_track_symbols(seen: Seq<String>, subs: Seq<Subscription>) -> Seq<String>
    decreases subs.len(),
{
    if subs.len() == 0 {
        seen
    } else {
        let prev = spec_track_symbols(seen, subs.drop_last());
        if seq_contains_str(prev, subs.last().symbol@) {
            prev
        } else {
            prev.push(subs.last().symbol)
        }
    }
}

/// Whether one of `symbols` has exactly the characters of `s`.
pub fn contains_symbol(symbols: &Vec<String>, s: &str) -> (r: bool)
    ensures
        r == seq_contains_str(symbols@, s@),
{
    let n = symbols.len();
    let mut i: usize = 0;
    while i < n
        invariant
            0 <= i <= n,
            n == symbols@.len(),
            forall|j: int| 0 <= j < i ==> #[trigger] symbols@[j]@ != s@,
        decreases n - i,
    {
        if str_eq(symbols[i].as_str(), s) {
            return true;
        }
        i = i + 1;
    }
    false
}

/// Register the symbols of `subs` into `symbols`, each new one once, in
/// order of first appearance.
pub fn track_symbols(symbols: &mut Vec<String>, subs: &Vec<Subscription>)
    ensures
        final(symbols)@ == spec_track_symbols(old(symbols)@, subs@),
{
    let n = subs.len();
    let mut i: usize = 0;
    while i < n
        invariant
            0 <= i <= n,
            n == subs@.len(),
            symbols@ == spec_track_symbols(old(symbols)@, subs@.take(i as int)),
        decreases n - i,
    {
        proof {
            let post = subs@.take(i + 1);
            assert(post.drop_last() =~= subs@.take(i as int));
            assert(post.last() == subs@[i as int]);
        }
        if !contains_symbol(symbols, subs[i].symbol.as_str()) {
            let sym = subs[i].symbol.clone();
            symbols.push(sym);
        }
        i = i + 1;
    }
    proof {
        assert(subs@.take(n as int) =~= subs@);
    }
}

} // verus!
