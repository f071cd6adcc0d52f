//! The voting round state machine and the live search filter.

use vstd::prelude::*;

use crate::candidate::Candidate;
use crate::candidate::with_first_vote;
use crate::candidate::with_second_vote;
use crate::text::lower_of;
use crate::text::str_starts_with;
use crate::text::to_lowercase;

verus! {

/// Progress of the current voting round.
pub struct VoteState {
    /// Whether the abstain choice is currently offerable.
    pub include_empty: bool,
    /// False while the first preference is being cast, true for the second.
    pub second: bool,
    /// The round number, starting at 1.
    pub vote: u32,
    /// The candidate chosen as this round's first preference, if any;
    /// excluded from the second preference of the same round.
    pub last: Option<usize>,
}

/// The state every round starts in.
pub open spec fn initial_vote_state() -> VoteState {
    VoteState { include_empty: true, second: false, vote: 1, last: None }
}

/// The state after a completed round: everything reset, round number advanced.
pub open spec fn round_reset(s: VoteState) -> VoteState {
    VoteState { include_empty: true, second: false, vote: (s.vote + 1) as u32, last: None }
}

/// The state after a first preference for candidate `id`.
pub open spec fn first_chosen(s: VoteState, id: usize) -> VoteState {
    VoteState { include_empty: s.include_empty, second: true, vote: s.vote, last: Some(id) }
}

/// The state after an abstained first preference: abstain is no longer
/// offerable for the rest of the round.
pub open spec fn abstain_first(s: VoteState) -> VoteState {
    VoteState { include_empty: false, second: true, vote: s.vote, last: s.last }
}

impl Default for VoteState {
    fn default() -> (s: VoteState)
        ensures
            s == initial_vote_state(),
    {
        VoteState { include_empty: true, second: false, vote: 1, last: None }
    }
}

impl VoteState {
    /// Close the round and open the next one.
    pub fn next_candidate(&mut self)
        requires
            old(self).vote < u32::MAX,
        ensures
            *final(self) == round_reset(*old(self)),
    {
        self.include_empty = true;
        self.second = false;
        self.vote = self.vote + 1;
        self.last = None;
    }

    /// Record a vote for `candidate`, whose registry index is `index`:
    /// a second preference closes the round, a first preference moves to
    /// the second slot and excludes the chosen candidate.
    pub fn select_candidate(&mut self, candidate: &mut Candidate, index: usize)
        requires
            old(candidate).points + 2 <= u16::MAX,
            old(candidate).first_votes + 1 <= u16::MAX,
            old(self).vote < u32::MAX,
        ensures
            old(self).second ==> {
                &&& *final(self) == round_reset(*old(self))
                &&& *final(candidate) == with_second_vote(*old(candidate))
            },
            !old(self).second ==> {
                &&& *final(self) == first_chosen(*old(self), index)
                &&& *final(candidate) == with_first_vote(*old(candidate))
            },
    {
        if self.second {
            self.next_candidate();
            candidate.second_vote();
        } else {
            self.second = true;
            candidate.first_vote();
            self.last = Some(index);
        }
    }

    /// Record an abstention: as second preference it closes the round,
    /// as first preference it suppresses abstain for the rest of the round.
    pub fn select_empty(&mut self)
        requires
            old(self).second ==> old(self).vote < u32::MAX,
        ensures
            old(self).second ==> *final(self) == round_reset(*old(self)),
            !old(self).second ==> *final(self) == abstain_first(*old(self)),
    {
        self.include_empty = false;
        if self.second {
            self.next_candidate();
        } else {
            self.second = true;
        }
    }
}

/// Candidate `c` matches query `q`: the lowercase form of the name starts
/// with the lowercase form of the query.
pub open spec fn matches_query(c: Candidate, q: Seq<char>) -> bool {
    lower_of(q).is_prefix_of(lower_of(c.name@))
}

/// Registry index `i` is offerable under query `q` and exclusion `last`.
pub open spec fn row_visible(c: Seq<Candidate>, q: Seq<char>, last: Option<usize>, i: int) -> bool {
    &&& 0 <= i < c.len()
    &&& matches_query(c[i], q)
    &&& last != Some(i as usize)
}

/// `f` holds exactly the offerable registry indices, in registry order.
pub open spec fn filter_ok(c: Seq<Candidate>, q: Seq<char>, last: Option<usize>, f: Seq<usize>) -> bool {
    &&& forall|k: int| 0 <= k < f.len() ==> row_visible(c, q, last, #[trigger] f[k] as int)
    &&& forall|k1: int, k2: int| 0 <= k1 < k2 < f.len() ==> f[k1] < f[k2]
    &&& forall|i: int| #[trigger] row_visible(c, q, last, i) ==> f.contains(i as usize)
}

/// The error taxonomy of the election core.
#[derive(Clone, Copy, Debug, PartialEq, Eq, Structural)]
pub enum ElectionError {
    /// An election cannot start with no candidates.
    EmptyCandidateList,
    /// A chosen row index lies outside the current visible rows.
    InvalidSelection,
}

/// The voting phase: the candidate registry, the search query with its
/// derived visible list, the current selection row, and the round state.
pub struct ElectionScreen {
    pub search: String,
    pub candidates: Vec<Candidate>,
    pub filtered: Vec<usize>,
    pub selected: usize,
    pub state: VoteState,
}

impl ElectionScreen {
    /// The abstain row is offered exactly while it is still allowed in the
    /// current preference slot and the query is empty.
    pub open spec fn abstain_offered(&self) -> bool {
        self.state.include_empty && self.search@.len() == 0
    }

    /// How many rows the visible list currently has.
    pub open spec fn spec_row_count(&self) -> int {
        self.filtered@.len() + if self.abstain_offered() {
            1int
        } else {
            0int
        }
    }

    /// Well-formedness: the visible list is in step with the query and the
    /// exclusion, the excluded index is in range, and an exclusion only
    /// exists while the second preference is being cast.
    pub open spec fn wf(&self) -> bool {
        &&& filter_ok(self.candidates@, self.search@, self.state.last, self.filtered@)
        &&& (self.state.last matches Some(l) ==> l < self.candidates@.len())
        &&& (self.state.last is Some ==> self.state.second)
    }

    /// Recompute the visible list from the query and the exclusion, and
    /// clamp a dangling selection back to the first row.
    pub fn update_filter(&mut self)
        ensures
            final(self).candidates == old(self).candidates,
            final(self).search == old(self).search,
            final(self).state == old(self).state,
            filter_ok(
                final(self).candidates@,
                final(self).search@,
                final(self).state.last,
                final(self).filtered@,
            ),
            final(self).selected == (if (old(self).selected as int) < final(self).spec_row_count() {
                old(self).selected
            } else {
                0
            }),
    {
        let q = to_lowercase(self.search.as_str());
        let n = self.candidates.len();
        let mut f: Vec<usize> = Vec::new();
        let mut i: usize = 0;
        while i < n
            invariant
                i <= n,
                n == self.candidates@.len(),
                q@ == lower_of(self.search@),
                forall|k: int|
                    0 <= k < f@.len() ==> row_visible(
                        self.candidates@,
                        self.search@,
                        self.state.last,
                        #[trigger] f@[k] as int,
                    ),
                forall|k: int| 0 <= k < f@.len() ==> #[trigger] f@[k] < i,
                forall|k1: int, k2: int| 0 <= k1 < k2 < f@.len() ==> f@[k1] < f@[k2],
                forall|j: int|
                    0 <= j < i && #[trigger] row_visible(
                        self.candidates@,
                        self.search@,
                        self.state.last,
                        j,
                    ) ==> f@.contains(j as usize),
            decreases n - i,
        {
            let excl = match self.state.last {
                Some(l) => l == i,
                None => false,
            };
            let ghost f_before = f@;
            if !excl {
                let low = to_lowercase(self.candidates[i].name.as_str());
                if str_starts_with(low.as_str(), q.as_str()) {
                    f.push(i);
                }
            }
            proof {
                assert forall|j: int|
                    0 <= j < i + 1 && #[trigger] row_visible(
                        self.candidates@,
                        self.search@,
                        self.state.last,
                        j,
                    ) implies f@.contains(j as usize) by {
                    if j == i {
                        assert(f@[f@.len() - 1] == i as usize);
                    } else {
                        let k = choose|k: int| 0 <= k < f_before.len() && f_before[k] == j as usize;
                        assert(f@[k] == j as usize);
                    }
                }
            }
            i = i + 1;
        }
        self.filtered = f;
        let off = self.state.include_empty && self.search.as_str().is_empty();
        let in_range = if off {
            self.selected <= self.filtered.len()
        } else {
            self.selected < self.filtered.len()
        };
        if !in_range {
            self.selected = 0;
        }
    }

    /// Start the voting phase over the given registry, in round 1, awaiting
    /// the first preference, with an empty query and the first row selected.
    pub fn new(candidates: Vec<Candidate>) -> (s: ElectionScreen)
        ensures
            s.wf(),
            s.candidates == candidates,
            s.search@ == Seq::<char>::empty(),
            s.state == initial_vote_state(),
            s.selected == 0,
    {
        let mut s = ElectionScreen {
            search: String::new(),
            candidates,
            filtered: Vec::new(),
            selected: 0,
            state: VoteState { include_empty: true, second: false, vote: 1, last: None },
        };
        s.update_filter();
        s
    }

    /// What a transition leaves unchanged or resets whatever was chosen:
    /// the query is cleared, the visible list recomputed, the selection
    /// back on the first row.
    pub open spec fn post_transition_common(post: ElectionScreen) -> bool {
        &&& post.wf()
        &&& post.search@ == Seq::<char>::empty()
        &&& post.selected == 0
    }

    /// The state after choosing the abstain row: no candidate changes; as a
    /// second preference the round closes, as a first preference abstain is
    /// suppressed for the rest of the round.
    pub open spec fn post_after_abstain(pre: ElectionScreen, post: ElectionScreen) -> bool {
        &&& Self::post_transition_common(post)
        &&& post.candidates@ == pre.candidates@
        &&& post.state == (if pre.state.second {
            round_reset(pre.state)
        } else {
            abstain_first(pre.state)
        })
    }

    /// The state after choosing the visible candidate with registry index
    /// `id`: exactly that candidate's tallies change, by one second-vote
    /// point or by a first vote with exclusion.
    pub open spec fn post_after_candidate(pre: ElectionScreen, post: ElectionScreen, id: usize) -> bool {
        &&& Self::post_transition_common(post)
        &&& (if pre.state.second {
            post.candidates@ == pre.candidates@.update(id as int, with_second_vote(pre.candidates@[id as int]))
                && post.state == round_reset(pre.state)
        } else {
            post.candidates@ == pre.candidates@.update(id as int, with_first_vote(pre.candidates@[id as int]))
                && post.state == first_chosen(pre.state, id)
        })
    }

    /// The full transition table for choosing row `row`: row 0 is abstain
    /// while it is offered, the remaining rows name visible candidates, and
    /// an out-of-range row changes nothing.
    pub open spec fn choose_transition(pre: ElectionScreen, post: ElectionScreen, row: usize) -> bool {
        let off = pre.abstain_offered();
        let idx: int = if off {
            row - 1
        } else {
            row as int
        };
        if off && row == 0 {
            Self::post_after_abstain(pre, post)
        } else if idx < pre.filtered@.len() {
            Self::post_after_candidate(pre, post, pre.filtered@[idx])
        } else {
            post == pre
        }
    }

    /// Apply the transition table to the row with index `row`.
    /// An out-of-range row is reported and leaves the state untouched.
    pub fn choose_row(&mut self, row: usize) -> (r: Result<(), ElectionError>)
        requires
            old(self).wf(),
            forall|i: int|
                0 <= i < old(self).candidates@.len() ==> (#[trigger] old(self).candidates@[i]).points
                    + 2 <= u16::MAX && old(self).candidates@[i].first_votes + 1 <= u16::MAX,
            old(self).state.vote < u32::MAX,
        ensures
            Self::choose_transition(*old(self), *final(self), row),
            r is Ok <==> (row as int) < old(self).spec_row_count(),
            r is Err ==> r == Err::<(), ElectionError>(ElectionError::InvalidSelection),
    {
        let off = self.state.include_empty && self.search.as_str().is_empty();
        if off && row == 0 {
            self.state.select_empty();
        } else {
            let idx = if off {
                row - 1
            } else {
                row
            };
            if idx >= self.filtered.len() {
                return Err(ElectionError::InvalidSelection);
            }
            let id = self.filtered[idx];
            assert(row_visible(self.candidates@, self.search@, self.state.last, id as int));
            self.state.select_candidate(&mut self.candidates[id], id);
        }
        self.search = String::new();
        self.update_filter();
        self.selected = 0;
        Ok(())
    }

    /// Apply the transition table to the currently selected row.
    pub fn select(&mut self)
        requires
            old(self).wf(),
            forall|i: int|
                0 <= i < old(self).candidates@.len() ==> (#[trigger] old(self).candidates@[i]).points
                    + 2 <= u16::MAX && old(self).candidates@[i].first_votes + 1 <= u16::MAX,
            old(self).state.vote < u32::MAX,
        ensures
            Self::choose_transition(*old(self), *final(self), old(self).selected),
    {
        let row = self.selected;
        let _ = self.choose_row(row);
    }

    /// Replace the free-text query and bring the visible list in step.
    /// The registry and the round state are untouched.
    pub fn set_query(&mut self, query: String)
        ensures
            final(self).candidates == old(self).candidates,
            final(self).state == old(self).state,
            final(self).search == query,
            filter_ok(
                final(self).candidates@,
                final(self).search@,
                final(self).state.last,
                final(self).filtered@,
            ),
            old(self).wf() ==> final(self).wf(),
            final(self).selected == (if (old(self).selected as int) < final(self).spec_row_count() {
                old(self).selected
            } else {
                0
            }),
    {
        self.search = query;
        self.update_filter();
    }

    /// The labels of the rows the caller may choose among: the abstain row
    /// while it is offered, then the visible candidates' names in registry
    /// order.
    pub fn visible_rows(&self) -> (rows: Vec<String>)
        requires
            forall|k: int|
                0 <= k < self.filtered@.len() ==> #[trigger] self.filtered@[k]
                    < self.candidates@.len(),
        ensures
            rows@.len() == self.spec_row_count(),
            self.abstain_offered() ==> rows@[0]@ == "(Empty)"@,
            forall|k: int|
                0 <= k < self.filtered@.len() ==> rows@[k + if self.abstain_offered() {
                    1int
                } else {
                    0int
                }]@ == self.candidates@[#[trigger] self.filtered@[k] as int].name@,
    {
        let mut rows: Vec<String> = Vec::new();
        let off = self.state.include_empty && self.search.as_str().is_empty();
        let ghost shift: int = if off {
            1
        } else {
            0
        };
        if off {
            rows.push("(Empty)".to_owned());
        }
        let n = self.filtered.len();
        let mut k: usize = 0;
        while k < n
            invariant
                k <= n,
                n == self.filtered@.len(),
                off == self.abstain_offered(),
                shift == (if off {
                    1int
                } else {
                    0int
                }),
                forall|j: int|
                    0 <= j < self.filtered@.len() ==> #[trigger] self.filtered@[j]
                        < self.candidates@.len(),
                rows@.len() == k + shift,
                off ==> rows@[0]@ == "(Empty)"@,
                forall|j: int|
                    0 <= j < k ==> rows@[j + shift]@ == self.candidates@[
                        #[trigger] self.filtered@[j] as int
                    ].name@,
            decreases n - k,
        {
            let id = self.filtered[k];
            rows.push(self.candidates[id].name.clone());
            k = k + 1;
        }
        rows
    }

    /// The number of the round now being voted, starting at 1.
    pub fn current_round(&self) -> (r: u32)
        ensures
            r == self.state.vote,
    {
        self.state.vote
    }

    /// Whether the second preference of the round is now being cast.
    pub fn is_second_preference(&self) -> (r: bool)
        ensures
            r == self.state.second,
    {
        self.state.second
    }
}

/// Self-exclusion: while a round's first preference stands, that candidate
/// is not among the visible rows, whatever the query.
pub proof fn lemma_self_exclusion(s: ElectionScreen, id: usize)
    requires
        s.wf(),
        s.state.last == Some(id),
    ensures
        !s.filtered@.contains(id),
{
    if s.filtered@.contains(id) {
        let k = choose|k: int| 0 <= k < s.filtered@.len() && s.filtered@[k] == id;
        assert(row_visible(s.candidates@, s.search@, s.state.last, s.filtered@[k] as int));
    }
}

/// Filter correctness: every visible row matches the query case-insensitively
/// by prefix and is not the excluded candidate, and no matching, unexcluded
/// candidate is left out.
pub proof fn lemma_filter_correct(s: ElectionScreen)
    requires
        s.wf(),
    ensures
        forall|k: int|
            0 <= k < s.filtered@.len() ==> matches_query(
                s.candidates@[#[trigger] s.filtered@[k] as int],
                s.search@,
            ) && s.state.last != Some(s.filtered@[k]),
        forall|i: int|
            0 <= i < s.candidates@.len() && matches_query(#[trigger] s.candidates@[i], s.search@)
                && s.state.last != Some(i as usize) ==> s.filtered@.contains(i as usize),
{
    assert forall|k: int| 0 <= k < s.filtered@.len() implies matches_query(
        s.candidates@[#[trigger] s.filtered@[k] as int],
        s.search@,
    ) && s.state.last != Some(s.filtered@[k]) by {
        assert(row_visible(s.candidates@, s.search@, s.state.last, s.filtered@[k] as int));
    }
    assert forall|i: int|
        0 <= i < s.candidates@.len() && matches_query(#[trigger] s.candidates@[i], s.search@)
            && s.state.last != Some(i as usize) implies s.filtered@.contains(i as usize) by {
        assert(row_visible(s.candidates@, s.search@, s.state.last, i));
    }
}

/// A round completed with two real choices: the first choice gains two
/// points and one first vote, the second one point, every other candidate
/// is untouched — and the two choices are necessarily distinct, because the
/// first stays excluded until the round closes.
pub proof fn lemma_completed_round(
    s0: ElectionScreen,
    s1: ElectionScreen,
    s2: ElectionScreen,
    row1: usize,
    row2: usize,
)
    requires
        s0.wf(),
        !s0.state.second,
        ElectionScreen::choose_transition(s0, s1, row1),
        ElectionScreen::choose_transition(s1, s2, row2),
        !(s0.abstain_offered() && row1 == 0),
        (if s0.abstain_offered() {
            row1 - 1
        } else {
            row1 as int
        }) < s0.filtered@.len(),
        !(s1.abstain_offered() && row2 == 0),
        (if s1.abstain_offered() {
            row2 - 1
        } else {
            row2 as int
        }) < s1.filtered@.len(),
        forall|i: int|
            0 <= i < s0.candidates@.len() ==> (#[trigger] s0.candidates@[i]).points + 2 <= u16::MAX
                && s0.candidates@[i].first_votes + 1 <= u16::MAX,
    ensures
        ({
            let a = s0.filtered@[if s0.abstain_offered() {
                row1 - 1
            } else {
                row1 as int
            }];
            let b = s1.filtered@[if s1.abstain_offered() {
                row2 - 1
            } else {
                row2 as int
            }];
            &&& a != b
            &&& s2.candidates@.len() == s0.candidates@.len()
            &&& s2.candidates@[a as int].points == s0.candidates@[a as int].points + 2
            &&& s2.candidates@[a as int].first_votes == s0.candidates@[a as int].first_votes + 1
            &&& s2.candidates@[b as int].points == s0.candidates@[b as int].points + 1
            &&& s2.candidates@[b as int].first_votes == s0.candidates@[b as int].first_votes
            &&& forall|i: int|
                0 <= i < s0.candidates@.len() && i != a && i != b ==> s2.candidates@[i]
                    == s0.candidates@[i]
        }),
{
    let idx1: int = if s0.abstain_offered() {
        row1 - 1
    } else {
        row1 as int
    };
    let idx2: int = if s1.abstain_offered() {
        row2 - 1
    } else {
        row2 as int
    };
    let a = s0.filtered@[idx1];
    let b = s1.filtered@[idx2];
    assert(row_visible(s0.candidates@, s0.search@, s0.state.last, s0.filtered@[idx1] as int));
    assert(s1.state == first_chosen(s0.state, a));
    assert(row_visible(s1.candidates@, s1.search@, s1.state.last, s1.filtered@[idx2] as int));
    assert(a != b);
}

/// A round abstained in its first preference and completed with a real
/// candidate: only that candidate's points change, by one, and no
/// first-vote tally anywhere moves.
pub proof fn lemma_abstain_then_candidate(
    s0: ElectionScreen,
    s1: ElectionScreen,
    s2: ElectionScreen,
    row2: usize,
)
    requires
        s0.wf(),
        !s0.state.second,
        s0.abstain_offered(),
        ElectionScreen::choose_transition(s0, s1, 0),
        ElectionScreen::choose_transition(s1, s2, row2),
        !(s1.abstain_offered() && row2 == 0),
        (if s1.abstain_offered() {
            row2 - 1
        } else {
            row2 as int
        }) < s1.filtered@.len(),
        forall|i: int|
            0 <= i < s0.candidates@.len() ==> (#[trigger] s0.candidates@[i]).points + 1
                <= u16::MAX,
    ensures
        ({
            let b = s1.filtered@[if s1.abstain_offered() {
                row2 - 1
            } else {
                row2 as int
            }];
            &&& s2.candidates@.len() == s0.candidates@.len()
            &&& s2.candidates@[b as int].points == s0.candidates@[b as int].points + 1
            &&& forall|i: int|
                0 <= i < s0.candidates@.len() && i != b ==> s2.candidates@[i] == s0.candidates@[i]
            &&& forall|i: int|
                0 <= i < s0.candidates@.len() ==> (#[trigger] s2.candidates@[i]).first_votes == s0
                    .candidates@[i].first_votes
        }),
{
    let idx2: int = if s1.abstain_offered() {
        row2 - 1
    } else {
        row2 as int
    };
    let b = s1.filtered@[idx2];
    assert(row_visible(s1.candidates@, s1.search@, s1.state.last, s1.filtered@[idx2] as int));
    assert(s1.state == abstain_first(s0.state));
}

/// Start an election over the collected candidates, rejecting an empty
/// registry.
pub fn begin_election(candidates: Vec<Candidate>) -> (r: Result<ElectionScreen, ElectionError>)
    ensures
        candidates@.len() == 0 ==> r == Err::<ElectionScreen, ElectionError>(
            ElectionError::EmptyCandidateList,
        ),
        candidates@.len() > 0 ==> {
            &&& r is Ok
            &&& r->Ok_0.wf()
            &&& r->Ok_0.candidates == candidates
            &&& r->Ok_0.search@ == Seq::<char>::empty()
            &&& r->Ok_0.state == initial_vote_state()
            &&& r->Ok_0.selected == 0
        },
{
    if candidates.len() == 0 {
        Err(ElectionError::EmptyCandidateList)
    } else {
        Ok(ElectionScreen::new(candidates))
    }
}

} // verus!
