use vstd::prelude::*;
use vstd::string::*;
use crate::params::StrMap;

verus! {

/// Splitting state after reading `s`: the segments completed so far and the
/// one being read. Segments are separated by `/`; empty ones are dropped.
pub open spec fn split_state(s: Seq<char>) -> (Seq<Seq<char>>, Seq<char>)
    decreases s.len(),
{
    if s.len() == 0 {
        (Seq::empty(), Seq::empty())
    } else {
        let (done, cur) = split_state(s.drop_last());
        if s.last() == '/' {
            if cur.len() > 0 {
                (done.push(cur), Seq::empty())
            } else {
                (done, Seq::empty())
            }
        } else {
            (done, cur.push(s.last()))
        }
    }
}

/// The non-empty `/`-separated segments of a path, in order.
pub open spec fn segments(s: Seq<char>) -> Seq<Seq<char>> {
    let (done, cur) = split_state(s);
    if cur.len() > 0 {
        done.push(cur)
    } else {
        done
    }
}

/// A pattern segment that binds a parameter starts with `:`.
pub open spec fn is_param_segment(seg: Seq<char>) -> bool {
    seg.len() > 0 && seg[0] == ':'
}

/// Pattern segments match path segments: same count, and each literal
/// segment equal to its counterpart.
pub open spec fn segments_match(p: Seq<Seq<char>>, a: Seq<Seq<char>>) -> bool {
    &&& p.len() == a.len()
    &&& forall|i: int| 0 <= i < p.len() ==> is_param_segment(#[trigger] p[i]) || p[i] == a[i]
}

pub open spec fn path_matches_spec(pattern: Seq<char>, path: Seq<char>) -> bool {
    segments_match(segments(pattern), segments(path))
}

/// Parameters bound by the first `n` paired segments; a later binding of a
/// name replaces an earlier one.
pub open spec fn bind_params(p: Seq<Seq<char>>, a: Seq<Seq<char>>, n: nat) -> Map<Seq<char>, Seq<char>>
    decreases n,
{
    if n == 0 {
        Map::empty()
    } else if is_param_segment(p[n - 1]) {
        bind_params(p, a, (n - 1) as nat).insert(p[n - 1].drop_first(), a[n - 1])
    } else {
        bind_params(p, a, (n - 1) as nat)
    }
}

pub open spec fn min_nat(x: nat, y: nat) -> nat {
    if x <= y { x } else { y }
}

/// The parameters a pattern binds against a path, over the paired segments.
pub open spec fn path_params_spec(pattern: Seq<char>, path: Seq<char>) -> Map<Seq<char>, Seq<char>> {
    let p = segments(pattern);
    let a = segments(path);
    bind_params(p, a, min_nat(p.len(), a.len()))
}

/// A pattern and a path with different numbers of non-empty segments never match.
pub proof fn law_segment_count_mismatch_fails(pattern: Seq<char>, path: Seq<char>)
    requires
        segments(pattern).len() != segments(path).len(),
    ensures
        !path_matches_spec(pattern, path),
{
}

/// Splits a path into its non-empty `/`-separated segments.
pub fn split_segments(s: &str) -> (r: Vec<String>)
    ensures
        r@.map_values(|x: String| x@) == segments(s@),
{
    let n = s.unicode_len();
    let mut done: Vec<String> = Vec::new();
    let mut cur = String::new();
    let mut i: usize = 0;
    while i < n
        invariant
            n == s@.len(),
            i <= n,
            done@.map_values(|x: String| x@) == split_state(s@.subrange(0, i as int)).0,
            cur@ == split_state(s@.subrange(0, i as int)).1,
        decreases n - i,
    {
        let c = s.get_char(i);
        assert(s@.subrange(0, i + 1).drop_last() == s@.subrange(0, i as int));
        if c == '/' {
            if cur.unicode_len() > 0 {
                let seg = cur;
                done.push(seg);
                cur = String::new();
                assert(done@.map_values(|x: String| x@) == split_state(s@.subrange(0, i + 1)).0);
            }
        } else {
            let piece = s.substring_char(i, i + 1);
            assert(piece@ == seq![c]);
            cur.append(piece);
        }
        i = i + 1;
    }
    assert(s@.subrange(0, n as int) == s@);
    if cur.unicode_len() > 0 {
        done.push(cur);
    }
    assert(done@.map_values(|x: String| x@) == segments(s@));
    done
}

fn starts_with_colon(seg: &String) -> (r: bool)
    ensures
        r == is_param_segment(seg@),
{
    let s = seg.as_str();
    s.unicode_len() > 0 && s.get_char(0) == ':'
}

/// Whether `actual_path` matches `pattern`: equal segment counts, and every
/// segment of the pattern either a `:name` parameter or equal to the path's.
pub fn path_matches(pattern: &str, actual_path: &str) -> (r: bool)
    ensures
        r == path_matches_spec(pattern@, actual_path@),
{
    let p = split_segments(pattern);
    let a = split_segments(actual_path);
    proof {
        assert(p@.map_values(|x: String| x@).len() == p.len());
        assert(a@.map_values(|x: String| x@).len() == a.len());
    }
    if p.len() != a.len() {
        return false;
    }
    let mut i: usize = 0;
    while i < p.len()
        invariant
            p.len() == a.len(),
            i <= p.len(),
            p@.map_values(|x: String| x@) == segments(pattern@),
            a@.map_values(|x: String| x@) == segments(actual_path@),
            forall|k: int| 0 <= k < i ==> is_param_segment(#[trigger] segments(pattern@)[k])
                || segments(pattern@)[k] == segments(actual_path@)[k],
        decreases p.len() - i,
    {
        assert(segments(pattern@)[i as int] == p@[i as int]@);
        assert(segments(actual_path@)[i as int] == a@[i as int]@);
        if !starts_with_colon(&p[i]) && p[i] != a[i] {
            return false;
        }
        i = i + 1;
    }
    true
}

/// The parameters that `pattern` binds in `actual_path`: each `:name`
/// segment maps `name` to the path segment in the same place; where a name
/// recurs, the last one wins.
pub fn extract_path_params(pattern: &str, actual_path: &str) -> (r: StrMap)
    ensures
        r.wf(),
        r.view() == path_params_spec(pattern@, actual_path@),
{
    let p = split_segments(pattern);
    let a = split_segments(actual_path);
    proof {
        assert(p@.map_values(|x: String| x@).len() == p.len());
        assert(a@.map_values(|x: String| x@).len() == a.len());
    }
    let n = if p.len() <= a.len() { p.len() } else { a.len() };
    let mut params = StrMap::new();
    let mut i: usize = 0;
    while i < n
        invariant
            i <= n,
            n <= p.len(),
            n <= a.len(),
            n == min_nat(segments(pattern@).len(), segments(actual_path@).len()),
            p@.map_values(|x: String| x@) == segments(pattern@),
            a@.map_values(|x: String| x@) == segments(actual_path@),
            params.wf(),
            params.view() == bind_params(segments(pattern@), segments(actual_path@), i as nat),
        decreases n - i,
    {
        assert(segments(pattern@)[i as int] == p@[i as int]@);
        assert(segments(actual_path@)[i as int] == a@[i as int]@);
        if starts_with_colon(&p[i]) {
            let ps = p[i].as_str();
            let name = ps.substring_char(1, ps.unicode_len());
            assert(name@ == p@[i as int]@.drop_first());
            params.insert(String::from_str(name), a[i].clone());
        }
        i = i + 1;
    }
    params
}

} // verus!
