//! The candidate-collection phase: an append-only registry of names.

use vstd::prelude::*;

use crate::candidate::Candidate;

verus! {

/// Collects the candidates before the election begins.
/// Names are taken as given: no uniqueness or non-emptiness check.
pub struct AddScreen {
    candidates: Vec<Candidate>,
}

impl Default for AddScreen {
    fn default() -> (s: AddScreen)
        ensures
            s.spec_candidates().len() == 0,
    {
        AddScreen { candidates: Vec::new() }
    }
}

impl AddScreen {
    /// The candidates collected so far, in entry order.
    pub closed spec fn spec_candidates(&self) -> Seq<Candidate> {
        self.candidates@
    }

    /// Append a fresh candidate under the given name; its identifier is its
    /// position in the entry order.
    pub fn add_candidate(&mut self, name: String) -> (id: usize)
        ensures
            final(self).spec_candidates() == old(self).spec_candidates().push(
                (Candidate { name, points: 0, first_votes: 0 }),
            ),
            id == old(self).spec_candidates().len(),
    {
        let id = self.candidates.len();
        self.candidates.push(Candidate::new(name));
        id
    }

    /// A read-only view of the collected candidates, for display.
    pub fn candidates(&self) -> (r: &Vec<Candidate>)
        ensures
            r@ == self.spec_candidates(),
    {
        &self.candidates
    }

    /// Hand the collected candidates over to the election.
    pub fn get_cadidates(self) -> (r: Vec<Candidate>)
        ensures
            r@ == self.spec_candidates(),
    {
        self.candidates
    }
}

} // verus!
