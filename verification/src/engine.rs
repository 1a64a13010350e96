//! The label propagation engine.
//!
//! Labels start as singletons (`label[v] == v`). Each round recomputes, for
//! every vertex in parallel, the most frequent label among its neighbors,
//! breaking frequency ties uniformly at random by reservoir sampling over the
//! streamed neighbor labels. A round is a fork-join parallel map over a frozen
//! snapshot of the assignment: the evaluator only ever sees fully-joined
//! rounds. Rounds run until none changed a label (`active == 0`) or the round
//! limit is reached; the best-scoring assignment seen (the initial singleton
//! assignment included) is what comes out, since later rounds can regress.

use vstd::prelude::*;

use rayon::iter::IntoParallelIterator;
use rayon::iter::ParallelIterator;

use crate::graph::Graph;
use crate::graph::filled_vec;
use crate::graph::valid_labels;
use crate::graph::MAX_EDGE_COUNT;
use crate::modularity::community_count;
use crate::modularity::count_present_upto;
use crate::modularity::modularity_num;
use crate::modularity::nbr_count;
use crate::modularity::nbr_count_upto;
use crate::modularity::statistics;
use crate::rng::fresh_rng;
use crate::rng::pick_uniform;

verus! {

/// The labels a single update may leave at `v`, given the snapshot `labels`:
/// with no neighbors the vertex keeps its own label; otherwise the new label
/// is one of the labels tied for most frequent among `v`'s neighbors.
pub open spec fn admissible(g: Graph, labels: Seq<usize>, v: int, l: int) -> bool {
    if g.deg(v) == 0 {
        l == labels[v]
    } else {
        &&& nbr_count(g, labels, v, l) >= 1
        &&& forall|l2: int| #[trigger] nbr_count(g, labels, v, l2) <= nbr_count(g, labels, v, l)
    }
}

/// What any one round may produce from the snapshot `before`: one admissible
/// label per vertex.
pub open spec fn round_outcome(g: Graph, before: Seq<usize>, after: Seq<usize>) -> bool {
    &&& after.len() == before.len()
    &&& forall|v: int|
        0 <= v < after.len() ==> admissible(g, before, v, (#[trigger] after[v]) as int)
}

/// How many of the first `k` vertices changed label between two assignments.
pub open spec fn changed_upto(before: Seq<usize>, after: Seq<usize>, k: int) -> int
    decreases k,
{
    if k <= 0 {
        0
    } else {
        changed_upto(before, after, k - 1) + if after[k - 1] == before[k - 1] {
            0int
        } else {
            1int
        }
    }
}

/// The singleton assignment: every vertex its own community.
pub open spec fn identity_labels(n: int) -> Seq<usize> {
    Seq::new(n as nat, |i: int| i as usize)
}

/// A label outside the vertex range is carried by no neighbor, so its count
/// is zero.
proof fn lemma_nbr_count_out_of_range(g: Graph, labels: Seq<usize>, v: int, l: int, j: int)
    requires
        g.wf(),
        valid_labels(labels, g.n()),
        0 <= v < g.n(),
        !(0 <= l < g.n()),
        j <= g.deg(v),
    ensures
        nbr_count_upto(g, labels, v, l, j) == 0,
    decreases j,
{
    if j > 0 {
        lemma_nbr_count_out_of_range(g, labels, v, l, j - 1);
    }
}

/// Compute the label the update rule leaves at `v`, reading the frozen
/// snapshot `labels`: the most frequent label among `v`'s neighbors, a tie at
/// the maximal frequency broken uniformly by reservoir sampling, the vertex's
/// own label if it has no neighbors. Draws from its own thread-local random
/// source; any returned label is admissible, and every admissible label can
/// come back.
pub fn update_vertex(v: usize, labels: &Vec<usize>, g: &Graph) -> (r: usize)
    requires
        g.wf(),
        valid_labels(labels@, g.n()),
        v < g.n(),
    ensures
        admissible(*g, labels@, v as int, r as int),
        r < g.n(),
{
    let deg: usize = g.adjacency[v].len();
    let mut new_label: usize = labels[v];
    if deg == 0 {
        return new_label;
    }
    let n: usize = g.vertex_count();
    let mut counts: Vec<usize> = filled_vec(n, 0usize);
    let mut rng = fresh_rng();
    let mut max_count: usize = 0;
    let mut ties: usize = 0;
    let mut j: usize = 0;
    while j < deg
        invariant
            g.wf(),
            valid_labels(labels@, g.n()),
            v < g.n(),
            n == g.n(),
            deg == g.deg(v as int),
            counts@.len() == n,
            j <= deg,
            ties <= j,
            forall|l2: int|
                0 <= l2 < n ==> #[trigger] counts@[l2] == nbr_count_upto(
                    *g,
                    labels@,
                    v as int,
                    l2,
                    j as int,
                ),
            forall|l2: int|
                0 <= l2 < n ==> nbr_count_upto(*g, labels@, v as int, l2, j as int) <= max_count,
            j == 0 ==> new_label == labels@[v as int] && max_count == 0,
            j > 0 ==> max_count >= 1 && new_label < n && nbr_count_upto(
                *g,
                labels@,
                v as int,
                new_label as int,
                j as int,
            ) == max_count,
        decreases deg - j,
    {
        let nbr: usize = g.adjacency[v][j];
        let nl: usize = labels[nbr];
        let ghost old_label: usize = new_label;
        proof {
            crate::modularity::lemma_nbr_count_bounds(*g, labels@, v as int, nl as int, j as int);
        }
        let c: usize = counts[nl] + 1;
        counts[nl] = c;
        if c > max_count {
            max_count = c;
            new_label = nl;
            ties = 1;
        } else if c == max_count {
            if pick_uniform(&mut rng, ties + 1) == 0 {
                new_label = nl;
            }
            ties = ties + 1;
        }
        proof {
            let vi = v as int;
            let j1 = j as int + 1;
            assert forall|l2: int| 0 <= l2 < n implies #[trigger] counts@[l2] == nbr_count_upto(
                *g,
                labels@,
                vi,
                l2,
                j1,
            ) by {
                assert(nbr_count_upto(*g, labels@, vi, l2, j1) == nbr_count_upto(
                    *g,
                    labels@,
                    vi,
                    l2,
                    j as int,
                ) + if labels@[g.adjacency@[vi]@[j as int] as int] == l2 {
                    1int
                } else {
                    0int
                });
            }
            assert forall|l2: int| 0 <= l2 < n implies nbr_count_upto(*g, labels@, vi, l2, j1)
                <= max_count as int by {
                assert(counts@[l2] == nbr_count_upto(*g, labels@, vi, l2, j1));
                assert(nbr_count_upto(*g, labels@, vi, l2, j1) == nbr_count_upto(
                    *g,
                    labels@,
                    vi,
                    l2,
                    j as int,
                ) + if labels@[g.adjacency@[vi]@[j as int] as int] == l2 {
                    1int
                } else {
                    0int
                });
            }
            assert(new_label < n && nbr_count_upto(*g, labels@, vi, new_label as int, j1)
                == max_count as int) by {
                if new_label == nl {
                    assert(counts@[nl as int] == c);
                } else {
                    assert(new_label == old_label);
                    assert(nbr_count_upto(*g, labels@, vi, new_label as int, j1) == nbr_count_upto(
                        *g,
                        labels@,
                        vi,
                        new_label as int,
                        j as int,
                    ));
                }
            }
        }
        j = j + 1;
    }
    proof {
        assert forall|l2: int|
            nbr_count(*g, labels@, v as int, l2) <= nbr_count(
                *g,
                labels@,
                v as int,
                new_label as int,
            ) by {
            if !(0 <= l2 < n) {
                lemma_nbr_count_out_of_range(*g, labels@, v as int, l2, g.deg(v as int));
            }
        }
    }
    new_label
}

/// One parallel update round over a frozen snapshot of the assignment.
///
/// Relies on rayon's `into_par_iter().map(..).collect()` over `0 .. n`: the
/// collected vector has one entry per index, in index order, each the value
/// `update_vertex` returned for that index; `collect` joins every task before
/// returning, so the result is a fully-completed round.
#[verifier::external_body]
fn par_update(labels: &Vec<usize>, g: &Graph) -> (r: Vec<usize>)
    requires
        g.wf(),
        valid_labels(labels@, g.n()),
    ensures
        round_outcome(*g, labels@, r@),
        forall|v: int| 0 <= v < r@.len() ==> (#[trigger] r@[v]) < g.n(),
{
    (0..labels.len()).into_par_iter().map(|v| update_vertex(v, labels, g)).collect()
}

/// Run one round: update every vertex in parallel from the frozen snapshot
/// `labels`, then count how many vertices changed label.
pub fn round(labels: &Vec<usize>, g: &Graph) -> (r: (Vec<usize>, usize))
    requires
        g.wf(),
        valid_labels(labels@, g.n()),
    ensures
        round_outcome(*g, labels@, r.0@),
        valid_labels(r.0@, g.n()),
        r.1 == changed_upto(labels@, r.0@, g.n()),
{
    let new_labels: Vec<usize> = par_update(labels, g);
    let n: usize = labels.len();
    let mut active: usize = 0;
    let mut v: usize = 0;
    while v < n
        invariant
            n == labels@.len(),
            new_labels@.len() == n,
            v <= n,
            active <= v,
            active == changed_upto(labels@, new_labels@, v as int),
        decreases n - v,
    {
        if new_labels[v] != labels[v] {
            active = active + 1;
        }
        v = v + 1;
    }
    (new_labels, active)
}

/// A deep copy of an assignment.
pub fn copy_labels(labels: &Vec<usize>) -> (r: Vec<usize>)
    ensures
        r@ == labels@,
{
    let mut r: Vec<usize> = Vec::new();
    let mut i: usize = 0;
    let n: usize = labels.len();
    while i < n
        invariant
            n == labels@.len(),
            i <= n,
            r@ == labels@.take(i as int),
        decreases n - i,
    {
        r.push(labels[i]);
        proof {
            assert(r@ =~= labels@.take(i as int + 1));
        }
        i = i + 1;
    }
    proof {
        assert(r@ =~= labels@);
    }
    r
}

/// The initial assignment: every vertex labels itself, a singleton community.
pub fn initial_labels(n: usize) -> (r: Vec<usize>)
    ensures
        r@ == identity_labels(n as int),
        r@.len() == n,
        forall|v: int| 0 <= v < n ==> r@[v] == v,
{
    let mut r: Vec<usize> = Vec::new();
    let mut i: usize = 0;
    while i < n
        invariant
            i <= n,
            r@.len() == i,
            forall|v: int| 0 <= v < i ==> r@[v] == v,
        decreases n - i,
    {
        r.push(i);
        i = i + 1;
    }
    proof {
        assert(r@ =~= identity_labels(n as int));
    }
    r
}

/// The best assignment seen so far: a deep copy of the labels with their
/// statistics. Replaced only by a strictly greater modularity, so the earliest
/// of tied bests is kept and the recorded score never decreases.
pub struct BestSnapshot {
    /// Deep copy of the best-scoring assignment.
    pub labels: Vec<usize>,
    /// Number of distinct labels present in it.
    pub communities: usize,
    /// Its exact modularity numerator over `modularity_den`.
    pub score_num: i128,
}

impl BestSnapshot {
    /// The snapshot carries exactly the statistics of its own assignment.
    pub open spec fn consistent(self, g: Graph) -> bool {
        &&& valid_labels(self.labels@, g.n())
        &&& self.communities == community_count(self.labels@)
        &&& self.score_num == modularity_num(g, self.labels@)
    }

    /// Offer a candidate: replace the stored best exactly when the candidate
    /// scores strictly higher. The recorded score never decreases, and after
    /// the call it is at least the candidate's.
    pub fn update(&mut self, labels: Vec<usize>, communities: usize, score_num: i128)
        ensures
            score_num > old(self).score_num ==> (final(self).labels@ == labels@
                && final(self).communities == communities
                && final(self).score_num == score_num),
            score_num <= old(self).score_num ==> *final(self) == *old(self),
            final(self).score_num >= old(self).score_num,
            final(self).score_num >= score_num,
    {
        if score_num > self.score_num {
            self.labels = labels;
            self.communities = communities;
            self.score_num = score_num;
        }
    }
}

/// Detect communities by label propagation: start from singletons, run rounds
/// of parallel updates until a round changes nothing or `round_limit` rounds
/// have run, evaluating every round's assignment, and return the
/// best-modularity assignment seen with its community count and exact
/// modularity numerator (over `modularity_den`).
///
/// The initial singleton assignment is always a candidate, so the result never
/// scores below it; a `round_limit` of zero runs no rounds and returns exactly
/// the singleton assignment and its statistics. A vertex with no neighbors
/// keeps its own label throughout.
pub fn lpa(g: &Graph, round_limit: usize) -> (r: (Vec<usize>, usize, i128))
    requires
        g.wf(),
        g.edge_count <= MAX_EDGE_COUNT,
    ensures
        valid_labels(r.0@, g.n()),
        r.1 == community_count(r.0@),
        r.2 == modularity_num(*g, r.0@),
        r.2 >= modularity_num(*g, identity_labels(g.n())),
        round_limit == 0 ==> (r.0@ == identity_labels(g.n()) && r.1 == g.n()),
        forall|v: int| 0 <= v < g.n() && g.deg(v) == 0 ==> r.0@[v] == v,
{
    let n: usize = g.vertex_count();
    let mut cur: Vec<usize> = initial_labels(n);
    let (communities, score_num) = statistics(&cur, g);
    let mut best = BestSnapshot {
        labels: copy_labels(&cur),
        communities: communities,
        score_num: score_num,
    };
    let mut active: usize = n;  // seed: force a first round whenever the limit allows one
    let mut iteration: usize = 0;
    while iteration < round_limit && active > 0
        invariant
            g.wf(),
            g.edge_count <= MAX_EDGE_COUNT,
            n == g.n(),
            valid_labels(cur@, g.n()),
            best.consistent(*g),
            best.score_num >= modularity_num(*g, identity_labels(g.n())),
            iteration <= round_limit,
            round_limit == 0 ==> best.labels@ == identity_labels(g.n()),
            forall|v: int| 0 <= v < g.n() && g.deg(v) == 0 ==> cur@[v] == v,
            forall|v: int| 0 <= v < g.n() && g.deg(v) == 0 ==> best.labels@[v] == v,
        decreases round_limit - iteration,
    {
        let (new_labels, act) = round(&cur, g);
        proof {
            assert forall|v: int| 0 <= v < g.n() && g.deg(v) == 0 implies new_labels@[v] == v by {
                assert(admissible(*g, cur@, v, new_labels@[v] as int));
            }
        }
        let (communities, score_num) = statistics(&new_labels, g);
        let snapshot: Vec<usize> = copy_labels(&new_labels);
        best.update(snapshot, communities, score_num);
        cur = new_labels;
        active = act;
        iteration = iteration + 1;
    }
    proof {
        if round_limit == 0 {
            lemma_identity_community_count(g.n());
        }
    }
    (best.labels, best.communities, best.score_num)
}

/// The singleton assignment has as many communities as vertices: every label
/// below `n` is present in it.
pub proof fn lemma_identity_community_count(n: int)
    requires
        0 <= n <= usize::MAX,
    ensures
        community_count(identity_labels(n)) == n,
{
    lemma_identity_count_upto(n, n);
}

/// Every prefix of the labels is fully present in the singleton assignment.
proof fn lemma_identity_count_upto(n: int, k: int)
    requires
        0 <= k <= n <= usize::MAX,
    ensures
        count_present_upto(identity_labels(n), k) == k,
    decreases k,
{
    if k > 0 {
        lemma_identity_count_upto(n, k - 1);
        assert(identity_labels(n)[k - 1] == k - 1);
        assert(crate::modularity::label_present(identity_labels(n), k - 1));
    }
}

/// An assignment a reported-inactive round read is exactly the one it wrote:
/// zero changed vertices means the two assignments are equal, so their
/// community count and modularity are identical.
pub proof fn lemma_inactive_round_identical(g: Graph, before: Seq<usize>, after: Seq<usize>)
    requires
        before.len() == after.len(),
        changed_upto(before, after, before.len() as int) == 0,
    ensures
        after == before,
        community_count(after) == community_count(before),
        modularity_num(g, after) == modularity_num(g, before),
{
    lemma_changed_zero_pointwise(before, after, before.len() as int);
    assert(after =~= before);
}

/// A prefix with zero changes is pointwise unchanged.
proof fn lemma_changed_zero_pointwise(before: Seq<usize>, after: Seq<usize>, k: int)
    requires
        changed_upto(before, after, k) == 0,
    ensures
        forall|v: int| 0 <= v < k ==> after[v] == before[v],
    decreases k,
{
    if k > 0 {
        lemma_changed_nonneg(before, after, k - 1);
        lemma_changed_zero_pointwise(before, after, k - 1);
    }
}

/// Change counts are never negative.
proof fn lemma_changed_nonneg(before: Seq<usize>, after: Seq<usize>, k: int)
    ensures
        changed_upto(before, after, k) >= 0,
    decreases k,
{
    if k > 0 {
        lemma_changed_nonneg(before, after, k - 1);
    }
}

/// An assignment where every admissible update outcome at every vertex is the
/// vertex's current label: no other label ties at the maximal neighbor
/// frequency anywhere, so a round has exactly one possible result.
pub open spec fn stable(g: Graph, labels: Seq<usize>) -> bool {
    forall|v: int, l: int|
        0 <= v < g.n() && #[trigger] admissible(g, labels, v, l) ==> l == labels[v]
}

/// On a stable assignment every further round returns the assignment
/// unchanged and reports zero active vertices: once such a round has happened,
/// repeating it changes nothing and yields identical statistics.
pub proof fn lemma_stable_round_inactive(g: Graph, before: Seq<usize>, after: Seq<usize>)
    requires
        before.len() == g.n(),
        stable(g, before),
        round_outcome(g, before, after),
    ensures
        after == before,
        changed_upto(before, after, g.n()) == 0,
        community_count(after) == community_count(before),
        modularity_num(g, after) == modularity_num(g, before),
{
    assert forall|v: int| 0 <= v < g.n() implies after[v] == before[v] by {
        assert(admissible(g, before, v, after[v] as int));
    }
    assert(after =~= before);
    lemma_changed_equal_zero(before, after, g.n());
}

/// Pointwise-equal prefixes count zero changes.
proof fn lemma_changed_equal_zero(before: Seq<usize>, after: Seq<usize>, k: int)
    requires
        forall|v: int| 0 <= v < k ==> after[v] == before[v],
    ensures
        changed_upto(before, after, k) == 0,
    decreases k,
{
    if k > 0 {
        lemma_changed_equal_zero(before, after, k - 1);
    }
}

} // verus!
