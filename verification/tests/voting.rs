use election::candidate::Candidate;
use election::election::{begin_election, ElectionError, ElectionScreen};
use election::ranking::rank;

fn screen_with(names: &[&str]) -> ElectionScreen {
    let mut candidates = Vec::new();
    for name in names {
        candidates.push(Candidate::new(name.to_string()));
    }
    ElectionScreen::new(candidates)
}

fn points(s: &ElectionScreen) -> Vec<u16> {
    s.candidates.iter().map(|c| c.points).collect()
}

fn first_votes(s: &ElectionScreen) -> Vec<u16> {
    s.candidates.iter().map(|c| c.first_votes).collect()
}

#[test]
fn begin_election_rejects_an_empty_registry() {
    let r = begin_election(Vec::new());
    assert_eq!(r.err(), Some(ElectionError::EmptyCandidateList));
}

#[test]
fn begin_election_accepts_a_nonempty_registry() {
    let s = begin_election(vec![Candidate::new("Alice".to_string())]).unwrap();
    assert_eq!(s.current_round(), 1);
    assert!(!s.is_second_preference());
}

#[test]
fn completed_round_scores_two_distinct_candidates() {
    let mut s = screen_with(&["Alice", "Bob", "Carol"]);
    s.choose_row(1).unwrap(); // first preference: Alice
    assert!(s.is_second_preference());
    s.choose_row(1).unwrap(); // second preference: Bob (Alice excluded)
    assert_eq!(points(&s), vec![2, 1, 0]);
    assert_eq!(first_votes(&s), vec![1, 0, 0]);
    assert_eq!(s.current_round(), 2);
    assert!(!s.is_second_preference());
}

#[test]
fn abstain_first_then_candidate_adds_one_point_only() {
    let mut s = screen_with(&["Alice", "Bob"]);
    s.choose_row(0).unwrap(); // abstain the first preference
    assert!(s.is_second_preference());
    // Abstain was used up: row 0 is now Alice.
    assert_eq!(s.visible_rows(), vec!["Alice", "Bob"]);
    s.choose_row(1).unwrap(); // second preference: Bob
    assert_eq!(points(&s), vec![0, 1]);
    assert_eq!(first_votes(&s), vec![0, 0]);
    assert_eq!(s.current_round(), 2);
}

#[test]
fn abstain_second_closes_the_round_unchanged() {
    let mut s = screen_with(&["Alice", "Bob"]);
    s.choose_row(1).unwrap(); // first preference: Alice
    s.choose_row(0).unwrap(); // abstain the second preference
    assert_eq!(points(&s), vec![2, 0]);
    assert_eq!(s.current_round(), 2);
    assert!(!s.is_second_preference());
    // The next round offers abstain again.
    assert_eq!(s.visible_rows()[0], "(Empty)");
}

#[test]
fn first_choice_is_excluded_until_the_round_completes() {
    let mut s = screen_with(&["Alice", "Bob", "Carol"]);
    s.choose_row(1).unwrap(); // first preference: Alice
    assert_eq!(s.visible_rows(), vec!["(Empty)", "Bob", "Carol"]);
    // Searching does not bring the excluded candidate back.
    s.set_query("a".to_string());
    assert_eq!(s.visible_rows(), Vec::<String>::new());
    s.set_query(String::new());
    s.choose_row(1).unwrap(); // second preference: Bob
    // Round over: Alice is offerable again.
    assert_eq!(s.visible_rows(), vec!["(Empty)", "Alice", "Bob", "Carol"]);
}

#[test]
fn out_of_range_row_is_a_reported_noop() {
    let mut s = screen_with(&["Alice", "Bob"]);
    let before_rows = s.visible_rows();
    let r = s.choose_row(17);
    assert_eq!(r.err(), Some(ElectionError::InvalidSelection));
    assert_eq!(points(&s), vec![0, 0]);
    assert_eq!(s.current_round(), 1);
    assert!(!s.is_second_preference());
    assert_eq!(s.visible_rows(), before_rows);
}

#[test]
fn select_uses_the_current_selection() {
    let mut s = screen_with(&["Alice", "Bob"]);
    s.selected = 2; // row 2 under the abstain row: Bob
    s.select();
    assert_eq!(points(&s), vec![0, 2]);
    assert_eq!(first_votes(&s), vec![0, 1]);
    assert_eq!(s.selected, 0);
}

#[test]
fn three_round_scenario() {
    let mut s = screen_with(&["Alice", "Bob", "Carol"]);

    // Round 1: first = Alice, second = Bob.
    s.choose_row(1).unwrap();
    s.choose_row(1).unwrap();
    assert_eq!(points(&s), vec![2, 1, 0]);
    assert_eq!(rank(&s.candidates), vec![0, 1, 2]); // Alice, Bob, Carol

    // Round 2: first = Bob, second = Alice.
    s.choose_row(2).unwrap(); // rows: (Empty), Alice, Bob, Carol
    s.choose_row(1).unwrap(); // rows: (Empty), Alice, Carol
    assert_eq!(points(&s), vec![3, 3, 0]);
    assert_eq!(first_votes(&s), vec![1, 1, 0]);
    // Full tie between Alice and Bob: stable registry order, Carol last.
    assert_eq!(rank(&s.candidates), vec![0, 1, 2]);

    // Round 3: first = Carol, second = abstain.
    s.choose_row(3).unwrap();
    s.choose_row(0).unwrap();
    assert_eq!(points(&s), vec![3, 3, 2]);
    assert_eq!(first_votes(&s), vec![1, 1, 1]);
    assert_eq!(s.current_round(), 4);
}
