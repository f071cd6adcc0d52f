//! A candidate and the effect of the two kinds of vote on it.

use vstd::prelude::*;

verus! {

/// One candidate: an immutable name, the accumulated points
/// (two per first preference, one per second preference) and the
/// number of times the candidate was chosen as first preference.
pub struct Candidate {
    pub name: String,
    pub points: u16,
    pub first_votes: u16,
}

/// The candidate as it stands after receiving a first preference.
pub open spec fn with_first_vote(c: Candidate) -> Candidate {
    Candidate { name: c.name, points: (c.points + 2) as u16, first_votes: (c.first_votes + 1) as u16 }
}

/// The candidate as it stands after receiving a second preference.
pub open spec fn with_second_vote(c: Candidate) -> Candidate {
    Candidate { name: c.name, points: (c.points + 1) as u16, first_votes: c.first_votes }
}

impl Candidate {
    /// A fresh candidate with no votes.
    pub fn new(name: String) -> (c: Candidate)
        ensures
            c.name == name,
            c.points == 0,
            c.first_votes == 0,
    {
        Candidate { name, points: 0, first_votes: 0 }
    }

    /// Award a first preference: two points and one first-vote tally.
    pub fn first_vote(&mut self)
        requires
            old(self).points + 2 <= u16::MAX,
            old(self).first_votes + 1 <= u16::MAX,
        ensures
            *final(self) == with_first_vote(*old(self)),
    {
        self.points += 2;
        self.first_votes += 1;
    }

    /// Award a second preference: one point.
    pub fn second_vote(&mut self)
        requires
            old(self).points + 1 <= u16::MAX,
        ensures
            *final(self) == with_second_vote(*old(self)),
    {
        self.points += 1;
    }
}

} // verus!
