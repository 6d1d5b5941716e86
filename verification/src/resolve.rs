//! Directory resolution.
//!
//! The surrounding binary walks the filesystem (in deterministic traversal
//! order, refusing to descend into ignored directories) and hands the
//! resulting candidate paths to [`resolve_targets`], which produces the
//! ordered target list: ignored paths are dropped, and of equal paths only
//! the first occurrence is kept, so overlapping roots never yield duplicate
//! targets.

use vstd::prelude::*;

use crate::matching::contains_pattern;
use crate::matching::ignored;
use crate::matching::should_ignore;
use crate::matching::views;

verus! {

/// The resolved target list for a sequence of candidate paths: candidates
/// are kept in order, ignored ones are dropped, and a candidate equal to an
/// earlier kept one is dropped as well.
pub open spec fn spec_resolve(cands: Seq<Seq<char>>, patterns: Seq<Seq<char>>) -> Seq<Seq<char>>
    decreases cands.len(),
{
    if cands.len() == 0 {
        Seq::empty()
    } else {
        let prefix = spec_resolve(cands.drop_last(), patterns);
        if !ignored(cands.last(), patterns) && !prefix.contains(cands.last()) {
            prefix.push(cands.last())
        } else {
            prefix
        }
    }
}

/// Whether some string in `v` equals `s`.
fn vec_contains_string(v: &Vec<String>, s: &String) -> (r: bool)
    ensures
        r == views(v@).contains(s@),
{
    let n: usize = v.len();
    let mut i: usize = 0;
    while i < n
        invariant
            n == v@.len(),
            i <= n,
            forall|k: int| 0 <= k < i ==> #[trigger] views(v@)[k] != s@,
        decreases n - i,
    {
        if v[i].eq(s) {
            assert(views(v@)[i as int] == s@);
            return true;
        }
        assert(views(v@)[i as int] == v@[i as int]@);
        i = i + 1;
    }
    assert(forall|k: int| 0 <= k < views(v@).len() ==> #[trigger] views(v@)[k] != s@);
    false
}

/// Filter and deduplicate the candidate paths produced by the filesystem
/// walk: the result is exactly `spec_resolve` of the candidates, i.e. the
/// candidates in first-seen order with ignored paths and duplicates removed.
pub fn resolve_targets(candidates: &Vec<String>, ignore: &Vec<String>) -> (r: Vec<String>)
    ensures
        views(r@) == spec_resolve(views(candidates@), views(ignore@)),
{
    let n: usize = candidates.len();
    let mut out: Vec<String> = Vec::new();
    assert(views(out@) =~= spec_resolve(views(candidates@).take(0), views(ignore@)));
    let mut i: usize = 0;
    while i < n
        invariant
            n == candidates@.len(),
            i <= n,
            views(out@) == spec_resolve(views(candidates@).take(i as int), views(ignore@)),
        decreases n - i,
    {
        let c = &candidates[i];
        assert(views(candidates@)[i as int] == c@);
        let is_ignored = should_ignore(c.as_str(), ignore);
        let is_dup = vec_contains_string(&out, c);
        if !is_ignored && !is_dup {
            out.push(c.clone());
        }
        proof {
            let cv = views(candidates@);
            assert(cv.take(i + 1).drop_last() =~= cv.take(i as int));
            assert(cv.take(i + 1).last() == cv[i as int]);
            if !ignored(cv[i as int], views(ignore@)) && !spec_resolve(
                cv.take(i as int),
                views(ignore@),
            ).contains(cv[i as int]) {
                assert(views(out@) =~= spec_resolve(cv.take(i as int), views(ignore@)).push(c@));
            }
        }
        i = i + 1;
    }
    proof {
        assert(views(candidates@).take(n as int) =~= views(candidates@));
    }
    out
}

/// No resolved target matches an ignore pattern. Since a descendant's path
/// textually contains its ancestor's path, this also excludes every
/// descendant of a directory whose path matches a pattern.
pub proof fn lemma_resolve_excludes_ignored(cands: Seq<Seq<char>>, patterns: Seq<Seq<char>>)
    ensures
        forall|j: int|
            0 <= j < spec_resolve(cands, patterns).len() ==> !ignored(
                #[trigger] spec_resolve(cands, patterns)[j],
                patterns,
            ),
    decreases cands.len(),
{
    if cands.len() > 0 {
        lemma_resolve_excludes_ignored(cands.drop_last(), patterns);
        let prefix = spec_resolve(cands.drop_last(), patterns);
        let r = spec_resolve(cands, patterns);
        assert forall|j: int| 0 <= j < r.len() implies !ignored(r[j], patterns) by {
            if j < prefix.len() {
                assert(r[j] == prefix[j]);
            } else {
                assert(r[j] == cands.last());
            }
        }
    }
}

/// Deduplication: the resolved target list holds no duplicate entries, so
/// overlapping roots never produce the same target twice.
pub proof fn lemma_resolve_no_duplicates(cands: Seq<Seq<char>>, patterns: Seq<Seq<char>>)
    ensures
        forall|i: int, j: int|
            0 <= i < j < spec_resolve(cands, patterns).len() ==> spec_resolve(cands, patterns)[i]
                != spec_resolve(cands, patterns)[j],
    decreases cands.len(),
{
    if cands.len() > 0 {
        lemma_resolve_no_duplicates(cands.drop_last(), patterns);
        let prefix = spec_resolve(cands.drop_last(), patterns);
        let r = spec_resolve(cands, patterns);
        if !ignored(cands.last(), patterns) && !prefix.contains(cands.last()) {
            assert forall|i: int, j: int| 0 <= i < j < r.len() implies r[i] != r[j] by {
                if j == r.len() - 1 {
                    assert(r[i] == prefix[i]);
                    assert(!prefix.contains(cands.last()));
                }
            }
        }
    }
}

/// A sequence that is already fully resolved (no ignored entries, no
/// duplicates) resolves to itself.
proof fn lemma_resolve_fixed_point(s: Seq<Seq<char>>, patterns: Seq<Seq<char>>)
    requires
        forall|j: int| 0 <= j < s.len() ==> !ignored(#[trigger] s[j], patterns),
        forall|i: int, j: int| 0 <= i < j < s.len() ==> s[i] != s[j],
    ensures
        spec_resolve(s, patterns) == s,
    decreases s.len(),
{
    if s.len() > 0 {
        lemma_resolve_fixed_point(s.drop_last(), patterns);
        assert(!ignored(s.last(), patterns));
        assert(!s.drop_last().contains(s.last())) by {
            if s.drop_last().contains(s.last()) {
                let i = choose|i: int|
                    0 <= i < s.drop_last().len() && s.drop_last()[i] == s.last();
                assert(s[i] == s[s.len() - 1]);
            }
        }
        assert(spec_resolve(s, patterns) =~= s);
    } else {
        assert(spec_resolve(s, patterns) =~= s);
    }
}

/// Resolution is idempotent: feeding an already resolved target list back
/// through resolution with the same ignore patterns returns it unchanged.
/// In particular, resolving the same candidates twice yields the same
/// ordered target list.
pub proof fn lemma_resolve_idempotent(cands: Seq<Seq<char>>, patterns: Seq<Seq<char>>)
    ensures
        spec_resolve(spec_resolve(cands, patterns), patterns) == spec_resolve(cands, patterns),
{
    lemma_resolve_excludes_ignored(cands, patterns);
    lemma_resolve_no_duplicates(cands, patterns);
    lemma_resolve_fixed_point(spec_resolve(cands, patterns), patterns);
}

} // verus!
