//! Credential extraction: the `Cookie` request header is parsed into
//! name/value pairs, and the two fixed token cookies are looked up. A
//! missing cookie yields an empty value, never a failure — whether a token
//! is valid is decided later, by the auth gate.
//!
//! Entries are separated by `;`; each entry is trimmed of surrounding
//! spaces and split at its first `=` (an entry without `=` is skipped).
//! On duplicate names the last occurrence wins.

use vstd::prelude::*;
use crate::matcher::spec_split;
use crate::matcher::split_str;

verus! {

/// Name of the cookie carrying the access token.
pub const MADOME_ACCESS_TOKEN: &'static str = "madome_access_token";

/// Name of the cookie carrying the refresh token.
pub const MADOME_REFRESH_TOKEN: &'static str = "madome_refresh_token";

pub open spec fn is_cookie_space(c: char) -> bool {
    c == ' ' || c == '\t'
}

pub open spec fn spec_trim_leading(s: Seq<char>) -> Seq<char>
    decreases s.len(),
{
    if s.len() > 0 && is_cookie_space(s[0]) {
        spec_trim_leading(s.drop_first())
    } else {
        s
    }
}

pub open spec fn spec_trim_trailing(s: Seq<char>) -> Seq<char>
    decreases s.len(),
{
    if s.len() > 0 && is_cookie_space(s.last()) {
        spec_trim_trailing(s.drop_last())
    } else {
        s
    }
}

/// `s` without its leading and trailing spaces.
pub open spec fn spec_trim(s: Seq<char>) -> Seq<char> {
    spec_trim_trailing(spec_trim_leading(s))
}

/// Index of the first occurrence of `c` in `s`, if any.
pub open spec fn spec_find(s: Seq<char>, c: char) -> Option<int>
    decreases s.len(),
{
    if s.len() == 0 {
        None
    } else if s[0] == c {
        Some(0int)
    } else {
        match spec_find(s.drop_first(), c) {
            Some(i) => Some(i + 1),
            None => None,
        }
    }
}

/// The name/value pair of one header entry: the entry is trimmed and split
/// at its first `=`. An entry without `=` carries no pair.
pub open spec fn spec_entry(e: Seq<char>) -> Option<(Seq<char>, Seq<char>)> {
    let t = spec_trim(e);
    match spec_find(t, '=') {
        Some(i) => Some((t.subrange(0, i), t.subrange(i + 1, t.len() as int))),
        None => None,
    }
}

/// The value bound to `name`, searching entries from the last to the
/// first, so that on duplicate names the last occurrence wins.
pub open spec fn spec_lookup(entries: Seq<Seq<char>>, name: Seq<char>) -> Option<Seq<char>>
    decreases entries.len(),
{
    if entries.len() == 0 {
        None
    } else {
        match spec_entry(entries.last()) {
            Some(p) => if p.0 == name {
                Some(p.1)
            } else {
                spec_lookup(entries.drop_last(), name)
            },
            None => spec_lookup(entries.drop_last(), name),
        }
    }
}

/// The value of the cookie `name` in the whole header, if present.
pub open spec fn spec_cookie_value(header: Seq<char>, name: Seq<char>) -> Option<Seq<char>> {
    spec_lookup(spec_split(header, ';'), name)
}

/// As `spec_cookie_value`, with a missing cookie read as the empty value.
pub open spec fn spec_token_of(header: Seq<char>, name: Seq<char>) -> Seq<char> {
    match spec_cookie_value(header, name) {
        Some(v) => v,
        None => Seq::empty(),
    }
}

fn trim_leading<'a>(s: &'a str) -> (r: &'a str)
    ensures
        r@ == spec_trim_leading(s@),
    decreases s@.len(),
{
    let n = s.unicode_len();
    if n > 0 {
        let c = s.get_char(0);
        if c == ' ' || c == '\t' {
            let rest = s.substring_char(1, n);
            proof {
                assert(rest@ =~= s@.drop_first());
            }
            return trim_leading(rest);
        }
    }
    s
}

fn trim_trailing<'a>(s: &'a str) -> (r: &'a str)
    ensures
        r@ == spec_trim_trailing(s@),
    decreases s@.len(),
{
    let n = s.unicode_len();
    if n > 0 {
        let c = s.get_char(n - 1);
        if c == ' ' || c == '\t' {
            let rest = s.substring_char(0, n - 1);
            proof {
                assert(rest@ =~= s@.drop_last());
            }
            return trim_trailing(rest);
        }
    }
    s
}

fn find_char(s: &str, c: char) -> (r: Option<usize>)
    ensures
        spec_find(s@, c) == (match r {
            Some(i) => Some(i as int),
            None => None::<int>,
        }),
        r matches Some(i) ==> i < s@.len(),
    decreases s@.len(),
{
    let n = s.unicode_len();
    if n == 0 {
        None
    } else if s.get_char(0) == c {
        Some(0)
    } else {
        let rest = s.substring_char(1, n);
        proof {
            assert(rest@ =~= s@.drop_first());
        }
        match find_char(rest, c) {
            Some(i) => Some(i + 1),
            None => None,
        }
    }
}

fn parse_entry(e: &str) -> (r: Option<(String, String)>)
    ensures
        match r {
            Some(p) => spec_entry(e@) == Some((p.0@, p.1@)),
            None => spec_entry(e@) is None,
        },
{
    let t = trim_trailing(trim_leading(e));
    let n = t.unicode_len();
    match find_char(t, '=') {
        Some(i) => {
            let name = t.substring_char(0, i);
            let value = t.substring_char(i + 1, n);
            Some((String::from_str(name), String::from_str(value)))
        },
        None => None,
    }
}

fn lookup_from(entries: &Vec<String>, k: usize, name: &String) -> (r: Option<String>)
    requires
        k <= entries.len(),
    ensures
        r.deep_view() == spec_lookup(entries.deep_view().take(k as int), name@),
    decreases k,
{
    if k == 0 {
        proof {
            assert(entries.deep_view().take(0) =~= Seq::<Seq<char>>::empty());
        }
        None
    } else {
        let ghost pre = entries.deep_view().take(k as int);
        proof {
            assert(pre.last() == entries.deep_view()[k - 1]);
            assert(pre.drop_last() =~= entries.deep_view().take((k - 1) as int));
            assert(entries.deep_view()[k - 1] == entries@[k - 1]@);
        }
        match parse_entry(entries[k - 1].as_str()) {
            Some((n, v)) => {
                if n == *name {
                    Some(v)
                } else {
                    lookup_from(entries, k - 1, name)
                }
            },
            None => lookup_from(entries, k - 1, name),
        }
    }
}

/// The value of the cookie `name` in `header`, if present; on duplicate
/// names the last occurrence wins.
pub fn cookie_value(header: &str, name: &str) -> (r: Option<String>)
    ensures
        r.deep_view() == spec_cookie_value(header@, name@),
{
    let entries = split_str(header, ';');
    let name_s = name.to_owned();
    let r = lookup_from(&entries, entries.len(), &name_s);
    proof {
        assert(entries.deep_view().take(entries.len() as int) =~= entries.deep_view());
    }
    r
}

/// The token held by the cookie `name`, with a missing cookie read as the
/// empty token.
pub fn token_of(header: &str, name: &str) -> (r: String)
    ensures
        r@ == spec_token_of(header@, name@),
{
    match cookie_value(header, name) {
        Some(v) => v,
        None => String::new(),
    }
}

} // verus!
