use election::candidate::Candidate;
use election::election::ElectionScreen;

fn screen_with(names: &[&str]) -> ElectionScreen {
    let mut candidates = Vec::new();
    for name in names {
        candidates.push(Candidate::new(name.to_string()));
    }
    ElectionScreen::new(candidates)
}

#[test]
fn empty_query_offers_abstain_and_everyone() {
    let s = screen_with(&["Alice", "Bob", "Carol"]);
    let rows = s.visible_rows();
    assert_eq!(rows, vec!["(Empty)", "Alice", "Bob", "Carol"]);
}

#[test]
fn prefix_query_is_case_insensitive() {
    let mut s = screen_with(&["Alice", "Bob", "Carol"]);
    s.set_query("b".to_string());
    assert_eq!(s.visible_rows(), vec!["Bob"]);
    s.set_query("B".to_string());
    assert_eq!(s.visible_rows(), vec!["Bob"]);
    s.set_query("cAr".to_string());
    assert_eq!(s.visible_rows(), vec!["Carol"]);
}

#[test]
fn query_matches_prefix_not_substring() {
    let mut s = screen_with(&["Alice", "Bob"]);
    s.set_query("ob".to_string());
    assert_eq!(s.visible_rows(), Vec::<String>::new());
}

#[test]
fn nonempty_query_suppresses_abstain_row() {
    let mut s = screen_with(&["Alice", "Anna"]);
    s.set_query("a".to_string());
    assert_eq!(s.visible_rows(), vec!["Alice", "Anna"]);
}

#[test]
fn case_folding_covers_non_ascii_names() {
    let mut s = screen_with(&["ÉMILE", "Bob"]);
    s.set_query("émi".to_string());
    assert_eq!(s.visible_rows(), vec!["ÉMILE"]);
}

#[test]
fn typing_narrows_the_list_incrementally() {
    let mut s = screen_with(&["Bob", "Boris", "Carol"]);
    s.set_query("b".to_string());
    assert_eq!(s.visible_rows(), vec!["Bob", "Boris"]);
    s.set_query("bo".to_string());
    assert_eq!(s.visible_rows(), vec!["Bob", "Boris"]);
    s.set_query("bor".to_string());
    assert_eq!(s.visible_rows(), vec!["Boris"]);
    s.set_query(String::new());
    assert_eq!(s.visible_rows(), vec!["(Empty)", "Bob", "Boris", "Carol"]);
}

#[test]
fn selection_is_clamped_when_the_list_shrinks() {
    let mut s = screen_with(&["Alice", "Bob", "Carol"]);
    s.selected = 3;
    s.set_query("zzz".to_string());
    assert_eq!(s.selected, 0);
    assert_eq!(s.visible_rows(), Vec::<String>::new());
}

#[test]
fn query_b_after_round_one_returns_only_bob() {
    let mut s = screen_with(&["Alice", "Bob", "Carol"]);
    // Round 1: first preference Alice (row 0 is the abstain row).
    s.choose_row(1).unwrap();
    // Second preference Bob: Alice is excluded, so the rows are
    // (Empty), Bob, Carol.
    s.choose_row(1).unwrap();
    // The round is over, no exclusion is active.
    s.set_query("b".to_string());
    assert_eq!(s.visible_rows(), vec!["Bob"]);
}
