use election::candidate::Candidate;

#[test]
fn new_candidate_starts_at_zero() {
    let c = Candidate::new("Alice".to_string());
    assert_eq!(c.name, "Alice");
    assert_eq!(c.points, 0);
    assert_eq!(c.first_votes, 0);
}

#[test]
fn first_vote_adds_two_points_and_a_tally() {
    let mut c = Candidate::new("Bob".to_string());
    c.first_vote();
    assert_eq!(c.points, 2);
    assert_eq!(c.first_votes, 1);
    c.first_vote();
    assert_eq!(c.points, 4);
    assert_eq!(c.first_votes, 2);
}

#[test]
fn second_vote_adds_one_point_only() {
    let mut c = Candidate::new("Carol".to_string());
    c.second_vote();
    assert_eq!(c.points, 1);
    assert_eq!(c.first_votes, 0);
}

#[test]
fn empty_and_duplicate_names_are_accepted() {
    let mut reg = election::add::AddScreen::default();
    let a = reg.add_candidate(String::new());
    let b = reg.add_candidate("Alice".to_string());
    let c = reg.add_candidate("Alice".to_string());
    assert_eq!((a, b, c), (0, 1, 2));
    let list = reg.get_cadidates();
    assert_eq!(list.len(), 3);
    assert_eq!(list[0].name, "");
    assert_eq!(list[1].name, "Alice");
    assert_eq!(list[2].name, "Alice");
}
