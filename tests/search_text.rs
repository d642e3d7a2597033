use child_bounties::search::{folded_contains, matches_search};

#[test]
fn search_ignores_case() {
    assert!(matches_search("Open Grant", "grant"));
    assert!(matches_search("Open Grant", "GRANT"));
    assert!(matches_search("open grant", "Open G"));
}

#[test]
fn search_misses() {
    assert!(!matches_search("Open Grant", "xyz"));
    assert!(!matches_search("Open Grant", "grants"));
    assert!(!matches_search("", "a"));
}

#[test]
fn empty_search_matches_all() {
    assert!(matches_search("Open Grant", ""));
    assert!(matches_search("", ""));
}

#[test]
fn folded_substring() {
    let hay: Vec<char> = "open grant".chars().collect();
    assert!(folded_contains(&hay, &"n g".chars().collect()));
    assert!(folded_contains(&hay, &"open grant".chars().collect()));
    assert!(!folded_contains(&hay, &"Open".chars().collect()));
    assert!(folded_contains(&hay, &Vec::new()));
    assert!(!folded_contains(&Vec::new(), &"o".chars().collect()));
}
