//! Substring-based ignore matching.
//!
//! A path is ignored when it contains any of the configured patterns as a
//! contiguous substring (case-sensitive, unanchored). This is a deliberate
//! design choice: a pattern such as `.git` also hides paths containing
//! `.github`, and callers are expected to document that sharp edge rather
//! than switch to glob semantics.

use vstd::prelude::*;

verus! {

/// The pattern `pat` occurs in `hay` starting at character position `i`.
pub open spec fn match_at(hay: Seq<char>, pat: Seq<char>, i: int) -> bool {
    &&& 0 <= i
    &&& i + pat.len() <= hay.len()
    &&& hay.subrange(i, i + pat.len() as int) == pat
}

/// The pattern `pat` occurs somewhere in `hay` as a contiguous substring.
pub open spec fn contains_pattern(hay: Seq<char>, pat: Seq<char>) -> bool {
    exists|i: int| match_at(hay, pat, i)
}

/// The views of a sequence of owned strings.
pub open spec fn views(ss: Seq<String>) -> Seq<Seq<char>> {
    ss.map_values(|s: String| s@)
}

/// The path matches at least one of the ignore patterns.
pub open spec fn ignored(path: Seq<char>, patterns: Seq<Seq<char>>) -> bool {
    exists|k: int| 0 <= k < patterns.len() && contains_pattern(path, patterns[k])
}

/// A pattern found in a path is still found in any extension of that path.
/// Since a descendant directory's path extends its ancestor's path, a path
/// matching an ignore pattern means every descendant's path matches it too:
/// skipping the whole subtree of an ignored directory loses nothing that the
/// pattern would have allowed.
pub proof fn lemma_ignored_extends(parent: Seq<char>, rest: Seq<char>, patterns: Seq<Seq<char>>)
    requires
        ignored(parent, patterns),
    ensures
        ignored(parent + rest, patterns),
{
    let k = choose|k: int| 0 <= k < patterns.len() && contains_pattern(parent, patterns[k]);
    let pat = patterns[k];
    let i = choose|i: int| match_at(parent, pat, i);
    assert(match_at(parent + rest, pat, i)) by {
        assert((parent + rest).subrange(i, i + pat.len() as int) =~= parent.subrange(
            i,
            i + pat.len() as int,
        ));
    }
}

/// Whether `pat` occurs in `hay` at character position `start`.
fn match_at_exec(hay: &str, pat: &str, start: usize, hay_len: usize, pat_len: usize) -> (r: bool)
    requires
        hay_len == hay@.len(),
        pat_len == pat@.len(),
        start + pat_len <= hay_len,
    ensures
        r == match_at(hay@, pat@, start as int),
{
    let mut j: usize = 0;
    while j < pat_len
        invariant
            hay_len == hay@.len(),
            pat_len == pat@.len(),
            start + pat_len <= hay_len,
            j <= pat_len,
            forall|k: int| 0 <= k < j ==> hay@[start + k] == pat@[k],
        decreases pat_len - j,
    {
        if hay.get_char(start + j) != pat.get_char(j) {
            assert(hay@.subrange(start as int, start + pat_len as int)[j as int] != pat@[j as int]);
            return false;
        }
        j = j + 1;
    }
    assert(hay@.subrange(start as int, start + pat_len as int) =~= pat@);
    true
}

/// Whether `pat` occurs anywhere in `hay` as a contiguous substring of its
/// character sequence. An empty pattern matches every string.
pub fn contains_substring(hay: &str, pat: &str) -> (r: bool)
    ensures
        r == contains_pattern(hay@, pat@),
{
    let hay_len: usize = hay.unicode_len();
    let pat_len: usize = pat.unicode_len();
    if pat_len > hay_len {
        assert(!contains_pattern(hay@, pat@)) by {
            assert(forall|i: int| !match_at(hay@, pat@, i));
        }
        return false;
    }
    if pat_len == 0 {
        assert(match_at(hay@, pat@, 0)) by {
            assert(hay@.subrange(0, 0) =~= pat@);
        }
        return true;
    }
    let last_start: usize = hay_len - pat_len;
    let mut i: usize = 0;
    loop
        invariant
            hay_len == hay@.len(),
            pat_len == pat@.len(),
            1 <= pat_len <= hay_len,
            last_start == hay_len - pat_len,
            i <= last_start + 1,
            forall|k: int| 0 <= k < i ==> !match_at(hay@, pat@, k),
        decreases last_start + 1 - i,
    {
        if i > last_start {
            assert(forall|k: int| match_at(hay@, pat@, k) ==> 0 <= k <= last_start);
            return false;
        }
        if match_at_exec(hay, pat, i, hay_len, pat_len) {
            return true;
        }
        i = i + 1;
    }
}

/// Whether `path` matches any of the `ignore` patterns, i.e. contains any of
/// them as a substring. Matching is case-sensitive and unanchored.
pub fn should_ignore(path: &str, ignore: &Vec<String>) -> (r: bool)
    ensures
        r == ignored(path@, views(ignore@)),
{
    let n: usize = ignore.len();
    let mut k: usize = 0;
    while k < n
        invariant
            n == ignore@.len(),
            k <= n,
            forall|m: int| 0 <= m < k ==> !contains_pattern(path@, #[trigger] views(ignore@)[m]),
        decreases n - k,
    {
        if contains_substring(path, ignore[k].as_str()) {
            assert(views(ignore@)[k as int] == ignore@[k as int]@);
            return true;
        }
        assert(views(ignore@)[k as int] == ignore@[k as int]@);
        k = k + 1;
    }
    false
}

} // verus!
