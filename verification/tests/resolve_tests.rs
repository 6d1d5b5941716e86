use loop_lib::contains_substring;
use loop_lib::resolve_targets;
use loop_lib::should_ignore;

fn strings(v: &[&str]) -> Vec<String> {
    v.iter().map(|s| s.to_string()).collect()
}

#[test]
fn substring_found() {
    assert!(contains_substring("/repo/.git/objects", ".git"));
    assert!(contains_substring("abc", "abc"));
    assert!(contains_substring("abc", "b"));
    assert!(contains_substring("abc", ""));
}

#[test]
fn substring_absent() {
    assert!(!contains_substring("ab", "abc"));
    assert!(!contains_substring("/repo/src", ".git"));
    assert!(!contains_substring("", "x"));
}

#[test]
fn substring_is_case_sensitive() {
    assert!(!contains_substring("/repo/.git", ".Git"));
    assert!(contains_substring("/repo/.Git", ".Git"));
}

#[test]
fn substring_overmatches_partial_names() {
    // The documented sharp edge: a `.git` pattern also hides `.github`.
    assert!(contains_substring("/repo/.github/workflows", ".git"));
}

#[test]
fn should_ignore_any_pattern() {
    let ignore = strings(&[".git", "node_modules"]);
    assert!(should_ignore("/a/.git", &ignore));
    assert!(should_ignore("/a/node_modules/b", &ignore));
    assert!(!should_ignore("/a/src", &ignore));
    assert!(!should_ignore("/a/src", &strings(&[])));
}

#[test]
fn resolve_filters_ignored_paths_and_descendants() {
    let cands = strings(&["a", "a/.git", "a/.git/objects", "a/src", "a/src/.git"]);
    let ignore = strings(&[".git"]);
    let r = resolve_targets(&cands, &ignore);
    assert_eq!(r, strings(&["a", "a/src"]));
}

#[test]
fn resolve_keeps_first_seen_order() {
    let cands = strings(&["b", "a", "c"]);
    let r = resolve_targets(&cands, &strings(&[]));
    assert_eq!(r, strings(&["b", "a", "c"]));
}

#[test]
fn resolve_deduplicates_overlapping_roots() {
    // Two overlapping roots: "a" expanded twice, its child seen twice.
    let cands = strings(&["a", "a/b", "a", "a/b", "a/c"]);
    let r = resolve_targets(&cands, &strings(&[]));
    assert_eq!(r, strings(&["a", "a/b", "a/c"]));
}

#[test]
fn resolve_is_idempotent() {
    let cands = strings(&["a", "a/.git", "a/b", "a", "a/b"]);
    let ignore = strings(&[".git"]);
    let once = resolve_targets(&cands, &ignore);
    let again = resolve_targets(&cands, &ignore);
    assert_eq!(once, again);
    let twice = resolve_targets(&once, &ignore);
    assert_eq!(once, twice);
}

#[test]
fn resolve_empty_candidates() {
    let r = resolve_targets(&strings(&[]), &strings(&[".git"]));
    assert!(r.is_empty());
}
