//! Path matching: a request path is matched against a route pattern by
//! comparing their `/`-separated segments position by position. A pattern
//! segment starting with `:` is a variable and matches any non-empty request
//! segment; every other segment is a literal and must be equal. Unequal
//! segment counts never match, and at most one variable per pattern is
//! supported by `extract`.

use vstd::prelude::*;

verus! {

/// The segments of `s`, split on `sep`. Mirrors `str::split`: the result
/// always has one more element than there are separators, so a leading,
/// trailing or doubled separator yields an empty segment.
pub open spec fn spec_split(s: Seq<char>, sep: char) -> Seq<Seq<char>>
    decreases s.len(),
{
    if s.len() == 0 {
        seq![Seq::<char>::empty()]
    } else if s[0] == sep {
        seq![Seq::<char>::empty()] + spec_split(s.drop_first(), sep)
    } else {
        let rest = spec_split(s.drop_first(), sep);
        seq![seq![s[0]] + rest[0]] + rest.drop_first()
    }
}

pub proof fn lemma_spec_split_len(s: Seq<char>, sep: char)
    ensures
        spec_split(s, sep).len() >= 1,
    decreases s.len(),
{
    if s.len() == 0 {
    } else {
        lemma_spec_split_len(s.drop_first(), sep);
    }
}

/// `head` prepended to the first segment of `t`.
spec fn attach(head: Seq<char>, t: Seq<Seq<char>>) -> Seq<Seq<char>>
    recommends
        t.len() >= 1,
{
    seq![head + t[0]] + t.drop_first()
}

/// Splits `s` on `sep`, as `str::split` does.
pub fn split_str(s: &str, sep: char) -> (r: Vec<String>)
    ensures
        r.deep_view() == spec_split(s@, sep),
{
    let n = s.unicode_len();
    let mut i: usize = 0;
    let mut out: Vec<String> = Vec::new();
    let mut cur: String = String::new();

    proof {
        lemma_spec_split_len(s@, sep);
        assert(s@.subrange(0, n as int) =~= s@);
        assert(attach(cur@, spec_split(s@, sep)) =~= spec_split(s@, sep)) by {
            let t = spec_split(s@, sep);
            assert(cur@ + t[0] =~= t[0]);
            assert(seq![t[0]] + t.drop_first() =~= t);
        }
    }

    while i < n
        invariant
            n == s@.len(),
            i <= n,
            spec_split(s@, sep) == out.deep_view() + attach(
                cur@,
                spec_split(s@.subrange(i as int, n as int), sep),
            ),
            spec_split(s@.subrange(i as int, n as int), sep).len() >= 1,
        decreases n - i,
    {
        let ghost suffix = s@.subrange(i as int, n as int);
        let ghost suffix2 = s@.subrange(i + 1, n as int);
        proof {
            assert(suffix.len() > 0);
            assert(suffix[0] == s@[i as int]);
            assert(suffix.drop_first() =~= suffix2);
            lemma_spec_split_len(suffix2, sep);
        }
        let c = s.get_char(i);
        if c == sep {
            let ghost t2 = spec_split(suffix2, sep);
            proof {
                assert(spec_split(suffix, sep) == seq![Seq::<char>::empty()] + t2);
                assert(attach(cur@, spec_split(suffix, sep)) =~= seq![cur@] + t2);
                assert(attach(Seq::<char>::empty(), t2) =~= t2) by {
                    assert(Seq::<char>::empty() + t2[0] =~= t2[0]);
                    assert(seq![t2[0]] + t2.drop_first() =~= t2);
                }
            }
            out.push(cur);
            cur = String::new();
            proof {
                assert(out.deep_view() + attach(cur@, t2) =~= spec_split(s@, sep));
            }
        } else {
            let ghost t2 = spec_split(suffix2, sep);
            let piece = s.substring_char(i, i + 1);
            proof {
                assert(piece@ =~= seq![s@[i as int]]);
                assert(spec_split(suffix, sep) == seq![seq![suffix[0]] + t2[0]]
                    + t2.drop_first());
                assert(attach(cur@ + piece@, t2) =~= attach(cur@, spec_split(suffix, sep)))
                by {
                    assert((cur@ + piece@) + t2[0] =~= cur@ + (seq![s@[i as int]] + t2[0]));
                    assert((seq![seq![suffix[0]] + t2[0]] + t2.drop_first()).drop_first()
                        =~= t2.drop_first());
                }
            }
            cur.append(piece);
            proof {
                assert(out.deep_view() + attach(cur@, t2) =~= spec_split(s@, sep));
            }
        }
        i = i + 1;
    }

    proof {
        let t = spec_split(s@.subrange(n as int, n as int), sep);
        assert(s@.subrange(n as int, n as int) =~= Seq::<char>::empty());
        assert(t == seq![Seq::<char>::empty()]);
        assert(attach(cur@, t) =~= seq![cur@]) by {
            assert(cur@ + Seq::<char>::empty() =~= cur@);
            assert(t.drop_first() =~= Seq::<Seq<char>>::empty());
        }
    }
    let ghost pre = out.deep_view();
    out.push(cur);
    proof {
        assert(out.deep_view() =~= pre + seq![cur@]);
    }
    out
}

/// A pattern segment is a variable when it starts with `:`.
pub open spec fn spec_is_variable(seg: Seq<char>) -> bool {
    seg.len() > 0 && seg[0] == ':'
}

pub fn is_variable(seg: &String) -> (r: bool)
    ensures
        r == spec_is_variable(seg@),
{
    let n = seg.as_str().unicode_len();
    n > 0 && seg.as_str().get_char(0) == ':'
}

/// One position of the matching rule: a variable accepts any non-empty
/// request segment; a literal must be equal to it.
pub open spec fn spec_segment_matches(req: Seq<char>, pat: Seq<char>) -> bool {
    if spec_is_variable(pat) {
        req.len() > 0
    } else {
        req == pat
    }
}

/// The matching rule over whole paths: equal segment counts, and every
/// position accepted.
pub open spec fn spec_matches(path: Seq<char>, pattern: Seq<char>) -> bool {
    let req = spec_split(path, '/');
    let pat = spec_split(pattern, '/');
    req.len() == pat.len() && (forall|j: int|
        0 <= j < pat.len() ==> spec_segment_matches(req[j], pat[j]))
}

/// Whether `path` matches the route `pattern`.
pub fn matches(path: &str, pattern: &str) -> (r: bool)
    ensures
        r == spec_matches(path@, pattern@),
{
    let req = split_str(path, '/');
    let pat = split_str(pattern, '/');
    if req.len() != pat.len() {
        return false;
    }
    let mut j: usize = 0;
    while j < pat.len()
        invariant
            req.deep_view() == spec_split(path@, '/'),
            pat.deep_view() == spec_split(pattern@, '/'),
            req.len() == pat.len(),
            j <= pat.len(),
            forall|k: int| 0 <= k < j ==> spec_segment_matches(req.deep_view()[k], pat.deep_view()[k]),
        decreases pat.len() - j,
    {
        proof {
            assert(req.deep_view()[j as int] == req@[j as int]@);
            assert(pat.deep_view()[j as int] == pat@[j as int]@);
        }
        let ok = if is_variable(&pat[j]) {
            req[j].as_str().unicode_len() > 0
        } else {
            req[j] == pat[j]
        };
        if !ok {
            return false;
        }
        j = j + 1;
    }
    true
}

/// Index of the first variable segment of a pattern, if any.
pub open spec fn spec_first_var_index(pat: Seq<Seq<char>>) -> Option<int>
    decreases pat.len(),
{
    if pat.len() == 0 {
        None
    } else if spec_is_variable(pat[0]) {
        Some(0int)
    } else {
        match spec_first_var_index(pat.drop_first()) {
            Some(i) => Some(i + 1),
            None => None,
        }
    }
}

proof fn lemma_first_var_index_bounds(pat: Seq<Seq<char>>)
    ensures
        match spec_first_var_index(pat) {
            Some(i) => 0 <= i < pat.len() && spec_is_variable(pat[i]),
            None => true,
        },
    decreases pat.len(),
{
    if pat.len() > 0 && !spec_is_variable(pat[0]) {
        lemma_first_var_index_bounds(pat.drop_first());
    }
}

/// The request segment aligned with the pattern's first variable segment,
/// when the path matches and the pattern has a variable.
pub open spec fn spec_extract(path: Seq<char>, pattern: Seq<char>) -> Option<Seq<char>> {
    if spec_matches(path, pattern) {
        match spec_first_var_index(spec_split(pattern, '/')) {
            Some(i) => Some(spec_split(path, '/')[i]),
            None => None,
        }
    } else {
        None
    }
}

/// Extracts the path variable: the request segment aligned with the single
/// variable segment of `pattern`. `None` when the path does not match or the
/// pattern has no variable.
pub fn extract(path: &str, pattern: &str) -> (r: Option<String>)
    ensures
        r.deep_view() == spec_extract(path@, pattern@),
{
    if !matches(path, pattern) {
        return None;
    }
    let req = split_str(path, '/');
    let pat = split_str(pattern, '/');
    let mut j: usize = 0;
    proof {
        lemma_first_var_index_bounds(pat.deep_view());
        assert(pat.deep_view().subrange(0, pat.len() as int) =~= pat.deep_view());
    }
    while j < pat.len()
        invariant
            req.deep_view() == spec_split(path@, '/'),
            pat.deep_view() == spec_split(pattern@, '/'),
            req.len() == pat.len(),
            j <= pat.len(),
            spec_matches(path@, pattern@),
            match spec_first_var_index(pat.deep_view()) {
                Some(i) => j <= i < pat.len(),
                None => true,
            },
            spec_first_var_index(pat.deep_view().subrange(j as int, pat.len() as int))
                == match spec_first_var_index(pat.deep_view()) {
                    Some(i) => Some(i - j),
                    None => None::<int>,
                },
        decreases pat.len() - j,
    {
        let ghost tail = pat.deep_view().subrange(j as int, pat.len() as int);
        proof {
            assert(tail[0] == pat.deep_view()[j as int]);
            assert(tail.drop_first() =~= pat.deep_view().subrange(j + 1, pat.len() as int));
            assert(pat.deep_view()[j as int] == pat@[j as int]@);
            assert(req.deep_view()[j as int] == req@[j as int]@);
            lemma_first_var_index_bounds(tail.drop_first());
        }
        if is_variable(&pat[j]) {
            let out = req[j].clone();
            proof {
                assert(spec_first_var_index(tail) == Some(0int));
                assert(out@ == req.deep_view()[j as int]);
            }
            return Some(out);
        }
        j = j + 1;
    }
    proof {
        assert(pat.deep_view().subrange(pat.len() as int, pat.len() as int)
            =~= Seq::<Seq<char>>::empty());
    }
    None
}

/// The matching rule, characterized as the specification states it: a
/// pattern matches a path exactly when the segment counts are equal and
/// every literal pattern segment equals the request segment at the same
/// position. This holds on every request whose segments aligned with
/// variable segments are non-empty (a variable never accepts an empty
/// segment, so such paths are left out).
pub proof fn lemma_matches_characterization(path: Seq<char>, pattern: Seq<char>)
    requires
        forall|j: int|
            0 <= j < spec_split(pattern, '/').len() && j < spec_split(path, '/').len()
                && spec_is_variable(spec_split(pattern, '/')[j])
                ==> spec_split(path, '/')[j].len() > 0,
    ensures
        spec_matches(path, pattern) <==> {
            let req = spec_split(path, '/');
            let pat = spec_split(pattern, '/');
            req.len() == pat.len() && (forall|j: int|
                0 <= j < pat.len() && !spec_is_variable(pat[j]) ==> req[j] == pat[j])
        },
{
}

} // verus!
