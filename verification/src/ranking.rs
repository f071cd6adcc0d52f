//! The ranking engine: a stable order by points, then first votes.

use vstd::prelude::*;

use crate::candidate::Candidate;

verus! {

/// Candidate `i` stands strictly before candidate `j` in the ranking:
/// more points, or equal points and more first votes, or equal on both
/// and earlier in the registry (the stable tie-break).
pub open spec fn ranks_before(c: Seq<Candidate>, i: int, j: int) -> bool {
    ||| c[i].points > c[j].points
    ||| (c[i].points == c[j].points && c[i].first_votes > c[j].first_votes)
    ||| (c[i].points == c[j].points && c[i].first_votes == c[j].first_votes && i < j)
}

/// `r` is the ranking of `c`: a permutation of all registry indices,
/// strictly ordered by `ranks_before`.
pub open spec fn rank_ok(c: Seq<Candidate>, r: Seq<usize>) -> bool {
    &&& r.len() == c.len()
    &&& forall|k: int| 0 <= k < r.len() ==> #[trigger] r[k] < c.len()
    &&& forall|k1: int, k2: int|
        0 <= k1 < k2 < r.len() ==> ranks_before(c, #[trigger] r[k1] as int, #[trigger] r[k2] as int)
    &&& forall|x: usize| x < c.len() ==> #[trigger] r.contains(x)
}

/// `ranks_before` orders any two distinct indices one way or the other.
pub proof fn lemma_before_total(c: Seq<Candidate>, i: int, j: int)
    requires
        0 <= i < c.len(),
        0 <= j < c.len(),
        i != j,
    ensures
        ranks_before(c, i, j) || ranks_before(c, j, i),
{
}

/// `ranks_before` never orders two indices both ways.
pub proof fn lemma_before_asymmetric(c: Seq<Candidate>, i: int, j: int)
    ensures
        !(ranks_before(c, i, j) && ranks_before(c, j, i)),
{
}

/// `ranks_before` is transitive.
pub proof fn lemma_before_transitive(c: Seq<Candidate>, i: int, j: int, k: int)
    requires
        ranks_before(c, i, j),
        ranks_before(c, j, k),
    ensures
        ranks_before(c, i, k),
{
}

/// Whether candidate `i` goes before candidate `j` in the ranking.
fn before(c: &Vec<Candidate>, i: usize, j: usize) -> (r: bool)
    requires
        i < c@.len(),
        j < c@.len(),
    ensures
        r == ranks_before(c@, i as int, j as int),
{
    let pi = c[i].points;
    let pj = c[j].points;
    if pi != pj {
        pi > pj
    } else {
        let fi = c[i].first_votes;
        let fj = c[j].first_votes;
        if fi != fj {
            fi > fj
        } else {
            i < j
        }
    }
}

/// The position at which candidate `i` belongs in the sorted prefix `r`.
fn insert_pos(c: &Vec<Candidate>, r: &Vec<usize>, i: usize) -> (p: usize)
    requires
        i < c@.len(),
        forall|k: int| 0 <= k < r@.len() ==> #[trigger] r@[k] < i,
    ensures
        p <= r@.len(),
        forall|k: int| 0 <= k < p ==> ranks_before(c@, #[trigger] r@[k] as int, i as int),
        p < r@.len() ==> ranks_before(c@, i as int, r@[p as int] as int),
{
    let n = r.len();
    let mut p: usize = 0;
    while p < n
        invariant
            p <= n,
            n == r@.len(),
            i < c@.len(),
            forall|k: int| 0 <= k < r@.len() ==> #[trigger] r@[k] < i,
            forall|k: int| 0 <= k < p ==> ranks_before(c@, #[trigger] r@[k] as int, i as int),
        decreases n - p,
    {
        if before(c, i, r[p]) {
            return p;
        }
        proof {
            lemma_before_total(c@, i as int, r@[p as int] as int);
        }
        p = p + 1;
    }
    p
}

/// Rank the registry: a permutation of all indices, in descending order of
/// points, then of first votes, then stable by registry order.
pub fn rank(candidates: &Vec<Candidate>) -> (r: Vec<usize>)
    ensures
        rank_ok(candidates@, r@),
{
    let n = candidates.len();
    let mut r: Vec<usize> = Vec::new();
    let mut i: usize = 0;
    while i < n
        invariant
            i <= n,
            n == candidates@.len(),
            r@.len() == i,
            forall|k: int| 0 <= k < r@.len() ==> #[trigger] r@[k] < i,
            forall|k1: int, k2: int|
                0 <= k1 < k2 < r@.len() ==> ranks_before(
                    candidates@,
                    #[trigger] r@[k1] as int,
                    #[trigger] r@[k2] as int,
                ),
            forall|x: usize| x < i ==> #[trigger] r@.contains(x),
        decreases n - i,
    {
        let p = insert_pos(candidates, &r, i);
        let ghost r_before = r@;
        r.insert(p, i);
        proof {
            r_before.insert_ensures(p as int, i);
            assert forall|k1: int, k2: int| 0 <= k1 < k2 < r@.len() implies ranks_before(
                candidates@,
                #[trigger] r@[k1] as int,
                #[trigger] r@[k2] as int,
            ) by {
                if k2 < p {
                } else if k1 < p && k2 == p {
                } else if k1 < p && k2 > p {
                } else if k1 == p && k2 > p {
                    if k2 > p + 1 {
                        lemma_before_transitive(
                            candidates@,
                            i as int,
                            r_before[p as int] as int,
                            r_before[k2 - 1] as int,
                        );
                    }
                }
            }
            assert forall|x: usize| x < i + 1 implies #[trigger] r@.contains(x) by {
                if x == i {
                    assert(r@[p as int] == i as usize);
                } else {
                    assert(r_before.contains(x));
                    let k = choose|k: int| 0 <= k < r_before.len() && r_before[k] == x;
                    if k < p {
                        assert(r@[k] == x);
                    } else {
                        assert(r@[k + 1] == x);
                    }
                }
            }
        }
        i = i + 1;
    }
    r
}

/// Any two rankings of the same registry are the same sequence.
proof fn lemma_rank_unique_from(c: Seq<Candidate>, r1: Seq<usize>, r2: Seq<usize>, k: int)
    requires
        rank_ok(c, r1),
        rank_ok(c, r2),
        0 <= k <= c.len(),
        forall|m: int| 0 <= m < k ==> r1[m] == r2[m],
    ensures
        r1 =~= r2,
    decreases c.len() - k,
{
    if k < c.len() {
        let x = r1[k];
        let y = r2[k];
        if x != y {
            assert(r2.contains(x));
            let m = choose|m: int| 0 <= m < r2.len() && r2[m] == x;
            if m < k {
                assert(ranks_before(c, r1[m] as int, r1[k] as int));
                lemma_before_asymmetric(c, x as int, x as int);
            }
            assert(ranks_before(c, y as int, x as int));
            assert(r1.contains(y));
            let m2 = choose|m: int| 0 <= m < r1.len() && r1[m] == y;
            if m2 < k {
                assert(ranks_before(c, r2[m2] as int, r2[k] as int));
                lemma_before_asymmetric(c, y as int, y as int);
            }
            assert(ranks_before(c, x as int, y as int));
            lemma_before_asymmetric(c, x as int, y as int);
        }
        lemma_rank_unique_from(c, r1, r2, k + 1);
    }
}

/// Ranking is deterministic: the contract of `rank` pins one sequence, so
/// two rankings of an unchanged registry are identical.
pub proof fn lemma_rank_deterministic(c: Seq<Candidate>, r1: Seq<usize>, r2: Seq<usize>)
    requires
        rank_ok(c, r1),
        rank_ok(c, r2),
    ensures
        r1 == r2,
{
    lemma_rank_unique_from(c, r1, r2, 0);
}

/// One line of the displayed ranking table.
pub struct RankedRow {
    /// The 1-based place in the ranking.
    pub place: usize,
    pub name: String,
    pub points: u16,
    pub first_votes: u16,
}

/// The ranking table: each candidate's place, name and tallies, in ranking
/// order.
pub fn ranking_rows(candidates: &Vec<Candidate>) -> (rows: Vec<RankedRow>)
    ensures
        exists|ord: Seq<usize>|
            {
                &&& #[trigger] rank_ok(candidates@, ord)
                &&& rows@.len() == ord.len()
                &&& forall|k: int|
                    0 <= k < ord.len() ==> rows@[k] == (RankedRow {
                        place: (k + 1) as usize,
                        name: candidates@[#[trigger] ord[k] as int].name,
                        points: candidates@[ord[k] as int].points,
                        first_votes: candidates@[ord[k] as int].first_votes,
                    })
            },
{
    let ord = rank(candidates);
    let mut rows: Vec<RankedRow> = Vec::new();
    let n = ord.len();
    let mut k: usize = 0;
    while k < n
        invariant
            k <= n,
            n == ord@.len(),
            rank_ok(candidates@, ord@),
            rows@.len() == k,
            forall|j: int|
                0 <= j < k ==> rows@[j] == (RankedRow {
                    place: (j + 1) as usize,
                    name: candidates@[#[trigger] ord@[j] as int].name,
                    points: candidates@[ord@[j] as int].points,
                    first_votes: candidates@[ord@[j] as int].first_votes,
                }),
        decreases n - k,
    {
        let id = ord[k];
        rows.push(
            RankedRow {
                place: k + 1,
                name: candidates[id].name.clone(),
                points: candidates[id].points,
                first_votes: candidates[id].first_votes,
            },
        );
        k = k + 1;
    }
    rows
}

/// Earlier ranked candidates never have fewer points, and among equal
/// points never fewer first votes.
pub proof fn lemma_rank_respects_scores(c: Seq<Candidate>, r: Seq<usize>, k1: int, k2: int)
    requires
        rank_ok(c, r),
        0 <= k1 < k2 < r.len(),
    ensures
        c[r[k1] as int].points >= c[r[k2] as int].points,
        c[r[k1] as int].points == c[r[k2] as int].points ==> c[r[k1] as int].first_votes >= c[
            r[k2] as int
        ].first_votes,
{
    assert(ranks_before(c, r[k1] as int, r[k2] as int));
}

} // verus!
