//! The modularity evaluator: a pure function from (graph, label assignment) to
//! (community count, modularity).
//!
//! Modularity is the sum, over the non-empty communities `C`, of
//! `lv/(2m) - (dv/(2m))^2`, where `lv` counts ordered (vertex, neighbor) pairs
//! with both endpoints in `C`, `dv` sums the degrees of the vertices of `C`,
//! and `m` is the edge count. Everything here is exact integer arithmetic: the
//! score is represented as the integer numerator of the fraction with fixed
//! denominator `(2m)^2` (or `1` when `m == 0`, where the score is defined to
//! be zero). No division ever happens, so the evaluation is exact and total.

use vstd::prelude::*;

use rayon::iter::IndexedParallelIterator;
use rayon::iter::IntoParallelRefIterator;
use rayon::iter::ParallelIterator;

use crate::graph::Graph;
use crate::graph::filled_vec;
use crate::graph::lemma_deg_sum_monotone;
use crate::graph::valid_labels;
use crate::graph::MAX_EDGE_COUNT;

verus! {

/// Among the first `j` adjacency entries of `v`, how many neighbors carry
/// label `l`.
pub open spec fn nbr_count_upto(g: Graph, labels: Seq<usize>, v: int, l: int, j: int) -> int
    decreases j,
{
    if j <= 0 {
        0
    } else {
        nbr_count_upto(g, labels, v, l, j - 1) + if labels[g.adjacency@[v]@[j - 1] as int] == l {
            1int
        } else {
            0int
        }
    }
}

/// How many neighbors of `v` carry label `l`.
pub open spec fn nbr_count(g: Graph, labels: Seq<usize>, v: int, l: int) -> int {
    nbr_count_upto(g, labels, v, l, g.deg(v))
}

/// Intra-community degree of `v`: how many of its neighbors share its own label.
pub open spec fn intra_deg(g: Graph, labels: Seq<usize>, v: int) -> int {
    nbr_count(g, labels, v, labels[v] as int)
}

/// `dv` of label `l`, restricted to vertices `0 .. k`: total degree of the
/// vertices labeled `l`.
pub open spec fn dv_upto(g: Graph, labels: Seq<usize>, l: int, k: int) -> int
    decreases k,
{
    if k <= 0 {
        0
    } else {
        dv_upto(g, labels, l, k - 1) + if labels[k - 1] == l {
            g.deg(k - 1)
        } else {
            0int
        }
    }
}

/// `lv` of label `l`, restricted to vertices `0 .. k`: ordered (vertex,
/// neighbor) pairs with both endpoints labeled `l`, the vertex below `k`.
pub open spec fn lv_upto(g: Graph, labels: Seq<usize>, l: int, k: int) -> int
    decreases k,
{
    if k <= 0 {
        0
    } else {
        lv_upto(g, labels, l, k - 1) + if labels[k - 1] == l {
            intra_deg(g, labels, k - 1)
        } else {
            0int
        }
    }
}

/// Total degree of the community labeled `l`.
pub open spec fn dv_of(g: Graph, labels: Seq<usize>, l: int) -> int {
    dv_upto(g, labels, l, g.n())
}

/// Internal ordered-pair count of the community labeled `l`.
pub open spec fn lv_of(g: Graph, labels: Seq<usize>, l: int) -> int {
    lv_upto(g, labels, l, g.n())
}

/// Numerator contribution of the community labeled `l`, over the fixed
/// denominator `(2m)^2`: it is `lv * 2m - dv^2`. An empty community has
/// `lv == dv == 0` and contributes zero.
pub open spec fn contribution(g: Graph, labels: Seq<usize>, l: int) -> int {
    lv_of(g, labels, l) * (2 * g.edge_count) - dv_of(g, labels, l) * dv_of(g, labels, l)
}

/// Numerator of the modularity sum over the communities labeled `0 .. k`.
pub open spec fn mod_num_upto(g: Graph, labels: Seq<usize>, k: int) -> int
    decreases k,
{
    if k <= 0 {
        0
    } else {
        mod_num_upto(g, labels, k - 1) + contribution(g, labels, k - 1)
    }
}

/// Numerator of the modularity of `labels` on `g`, over the denominator
/// `modularity_den(g)`. Labels are vertex ids, so every non-empty community
/// is covered by `0 .. n`.
pub open spec fn modularity_num(g: Graph, labels: Seq<usize>) -> int {
    mod_num_upto(g, labels, g.n())
}

/// Denominator of the modularity fraction: `(2m)^2`, or `1` when the graph
/// has no edges (where the numerator is zero and the score is a defined `0`).
pub open spec fn modularity_den(g: Graph) -> int {
    if g.edge_count == 0 {
        1
    } else {
        (2 * g.edge_count) * (2 * g.edge_count)
    }
}

/// Whether label `l` occurs among the first `k` slots of the assignment.
pub open spec fn present_upto(labels: Seq<usize>, l: int, k: int) -> bool {
    exists|v: int| 0 <= v < k && (#[trigger] labels[v]) == l
}

/// Whether label `l` occurs anywhere in the assignment.
pub open spec fn label_present(labels: Seq<usize>, l: int) -> bool {
    present_upto(labels, l, labels.len() as int)
}

/// Number of labels below `k` that occur in the assignment.
pub open spec fn count_present_upto(labels: Seq<usize>, k: int) -> int
    decreases k,
{
    if k <= 0 {
        0
    } else {
        count_present_upto(labels, k - 1) + if label_present(labels, k - 1) {
            1int
        } else {
            0int
        }
    }
}

/// Number of distinct labels present: the community count of the assignment.
/// Valid labels are vertex ids, so scanning `0 .. len` covers them all.
pub open spec fn community_count(labels: Seq<usize>) -> int {
    count_present_upto(labels, labels.len() as int)
}

/// Sum over the labels `0 .. k` of `dv_upto(_, l, upto_v)`.
pub open spec fn dv_label_sum(g: Graph, labels: Seq<usize>, k: int, upto_v: int) -> int
    decreases k,
{
    if k <= 0 {
        0
    } else {
        dv_label_sum(g, labels, k - 1, upto_v) + dv_upto(g, labels, k - 1, upto_v)
    }
}

/// Sum over the labels `0 .. k` of `lv_upto(_, l, upto_v)`.
pub open spec fn lv_label_sum(g: Graph, labels: Seq<usize>, k: int, upto_v: int) -> int
    decreases k,
{
    if k <= 0 {
        0
    } else {
        lv_label_sum(g, labels, k - 1, upto_v) + lv_upto(g, labels, k - 1, upto_v)
    }
}

/// Sum over the labels `0 .. k` of the square of the community degree.
pub open spec fn dv_sq_sum(g: Graph, labels: Seq<usize>, k: int) -> int
    decreases k,
{
    if k <= 0 {
        0
    } else {
        dv_sq_sum(g, labels, k - 1) + dv_of(g, labels, k - 1) * dv_of(g, labels, k - 1)
    }
}

/// Sum over the vertices `0 .. k` of the intra-community degree.
pub open spec fn intra_sum(g: Graph, labels: Seq<usize>, k: int) -> int
    decreases k,
{
    if k <= 0 {
        0
    } else {
        intra_sum(g, labels, k - 1) + intra_deg(g, labels, k - 1)
    }
}

/// A neighbor-label count over `j` entries lies between `0` and `j`.
pub proof fn lemma_nbr_count_bounds(g: Graph, labels: Seq<usize>, v: int, l: int, j: int)
    ensures
        0 <= nbr_count_upto(g, labels, v, l, j),
        j >= 0 ==> nbr_count_upto(g, labels, v, l, j) <= j,
    decreases j,
{
    if j > 0 {
        lemma_nbr_count_bounds(g, labels, v, l, j - 1);
    }
}

/// The intra-community degree of a vertex lies between `0` and its degree.
pub proof fn lemma_intra_deg_bounds(g: Graph, labels: Seq<usize>, v: int)
    ensures
        0 <= intra_deg(g, labels, v) <= g.deg(v),
{
    lemma_nbr_count_bounds(g, labels, v, labels[v] as int, g.deg(v));
}

/// Community degree prefixes are nonnegative and bounded by the degree sum
/// over the same vertices.
pub proof fn lemma_dv_upto_bounds(g: Graph, labels: Seq<usize>, l: int, k: int)
    ensures
        0 <= dv_upto(g, labels, l, k),
        k >= 0 ==> dv_upto(g, labels, l, k) <= g.deg_sum(k),
    decreases k,
{
    if k > 0 {
        lemma_dv_upto_bounds(g, labels, l, k - 1);
    }
}

/// Internal pair counts are nonnegative and bounded by the community degree.
pub proof fn lemma_lv_upto_bounds(g: Graph, labels: Seq<usize>, l: int, k: int)
    ensures
        0 <= lv_upto(g, labels, l, k) <= dv_upto(g, labels, l, k),
    decreases k,
{
    if k > 0 {
        lemma_lv_upto_bounds(g, labels, l, k - 1);
        lemma_intra_deg_bounds(g, labels, k - 1);
    } else {
        lemma_dv_upto_bounds(g, labels, l, k);
    }
}

/// Extending the vertex range of a label-summed community degree by one vertex
/// adds that vertex's degree exactly when its label lies below `k`.
proof fn lemma_dv_label_sum_step(g: Graph, labels: Seq<usize>, k: int, v: int)
    requires
        v >= 0,
    ensures
        dv_label_sum(g, labels, k, v + 1) == dv_label_sum(g, labels, k, v) + if 0 <= (
        labels[v] as int) < k {
            g.deg(v)
        } else {
            0int
        },
    decreases k,
{
    if k > 0 {
        lemma_dv_label_sum_step(g, labels, k - 1, v);
    }
}

/// Same step, for the internal pair counts.
proof fn lemma_lv_label_sum_step(g: Graph, labels: Seq<usize>, k: int, v: int)
    requires
        v >= 0,
    ensures
        lv_label_sum(g, labels, k, v + 1) == lv_label_sum(g, labels, k, v) + if 0 <= (
        labels[v] as int) < k {
            intra_deg(g, labels, v)
        } else {
            0int
        },
    decreases k,
{
    if k > 0 {
        lemma_lv_label_sum_step(g, labels, k - 1, v);
    }
}

/// Both label sums vanish when no vertices are counted.
proof fn lemma_label_sum_zero(g: Graph, labels: Seq<usize>, k: int)
    ensures
        dv_label_sum(g, labels, k, 0) == 0,
        lv_label_sum(g, labels, k, 0) == 0,
    decreases k,
{
    if k > 0 {
        lemma_label_sum_zero(g, labels, k - 1);
    }
}

/// Every vertex belongs to exactly one community, so summing the community
/// degrees over all labels gives the plain degree sum, and summing the
/// internal pair counts gives the total intra-community degree.
pub proof fn lemma_label_sum_total(g: Graph, labels: Seq<usize>, upto_v: int)
    requires
        valid_labels(labels, g.n()),
        0 <= upto_v <= g.n(),
    ensures
        dv_label_sum(g, labels, g.n(), upto_v) == g.deg_sum(upto_v),
        lv_label_sum(g, labels, g.n(), upto_v) == intra_sum(g, labels, upto_v),
    decreases upto_v,
{
    if upto_v <= 0 {
        lemma_label_sum_zero(g, labels, g.n());
    } else {
        lemma_label_sum_total(g, labels, upto_v - 1);
        lemma_dv_label_sum_step(g, labels, g.n(), upto_v - 1);
        lemma_lv_label_sum_step(g, labels, g.n(), upto_v - 1);
    }
}

/// The total intra-community degree never exceeds the total degree.
pub proof fn lemma_intra_sum_le_deg_sum(g: Graph, labels: Seq<usize>, k: int)
    ensures
        0 <= intra_sum(g, labels, k),
        k >= 0 ==> intra_sum(g, labels, k) <= g.deg_sum(k),
    decreases k,
{
    if k > 0 {
        lemma_intra_sum_le_deg_sum(g, labels, k - 1);
        lemma_intra_deg_bounds(g, labels, k - 1);
    }
}

/// Label sums over a prefix of the labels are bounded by the full label sums.
pub proof fn lemma_label_sum_monotone(g: Graph, labels: Seq<usize>, j: int, k: int, upto_v: int)
    requires
        0 <= j <= k,
    ensures
        dv_label_sum(g, labels, j, upto_v) <= dv_label_sum(g, labels, k, upto_v),
        lv_label_sum(g, labels, j, upto_v) <= lv_label_sum(g, labels, k, upto_v),
    decreases k,
{
    if j < k {
        lemma_label_sum_monotone(g, labels, j, k - 1, upto_v);
        lemma_dv_upto_bounds(g, labels, k - 1, upto_v);
        lemma_lv_upto_bounds(g, labels, k - 1, upto_v);
    }
}

/// Pointwise, internal pairs are at most the community degree; so are the sums.
pub proof fn lemma_lv_label_sum_le(g: Graph, labels: Seq<usize>, k: int, upto_v: int)
    ensures
        0 <= lv_label_sum(g, labels, k, upto_v) <= dv_label_sum(g, labels, k, upto_v),
    decreases k,
{
    if k > 0 {
        lemma_lv_label_sum_le(g, labels, k - 1, upto_v);
        lemma_lv_upto_bounds(g, labels, k - 1, upto_v);
    }
}

/// For nonnegative community degrees, the sum of the squares is at most the
/// square of the sum.
pub proof fn lemma_sq_sum_le(g: Graph, labels: Seq<usize>, k: int)
    ensures
        0 <= dv_sq_sum(g, labels, k),
        dv_sq_sum(g, labels, k) <= dv_label_sum(g, labels, k, g.n()) * dv_label_sum(
            g,
            labels,
            k,
            g.n(),
        ),
    decreases k,
{
    if k <= 0 {
        assert(dv_label_sum(g, labels, k, g.n()) * dv_label_sum(g, labels, k, g.n()) >= 0) by (nonlinear_arith);
    } else {
        lemma_sq_sum_le(g, labels, k - 1);
        lemma_dv_upto_bounds(g, labels, k - 1, g.n());
        let s = dv_label_sum(g, labels, k - 1, g.n());
        let x = dv_of(g, labels, k - 1);
        let q = dv_sq_sum(g, labels, k - 1);
        assert(s >= 0) by {
            lemma_dv_label_sum_nonneg(g, labels, k - 1, g.n());
        }
        assert(q + x * x <= (s + x) * (s + x)) by (nonlinear_arith)
            requires
                q <= s * s,
                s >= 0,
                x >= 0,
        ;
    }
}

/// A label sum of community degrees is never negative.
pub proof fn lemma_dv_label_sum_nonneg(g: Graph, labels: Seq<usize>, k: int, upto_v: int)
    ensures
        0 <= dv_label_sum(g, labels, k, upto_v),
    decreases k,
{
    if k > 0 {
        lemma_dv_label_sum_nonneg(g, labels, k - 1, upto_v);
        lemma_dv_upto_bounds(g, labels, k - 1, upto_v);
    }
}

/// The modularity numerator over the first `k` communities decomposes into
/// `2m` times the internal pairs minus the squared community degrees.
pub proof fn lemma_mod_num_decompose(g: Graph, labels: Seq<usize>, k: int)
    ensures
        mod_num_upto(g, labels, k) == lv_label_sum(g, labels, k, g.n()) * (2 * g.edge_count)
            - dv_sq_sum(g, labels, k),
    decreases k,
{
    if k > 0 {
        lemma_mod_num_decompose(g, labels, k - 1);
        assert((lv_label_sum(g, labels, k - 1, g.n()) + lv_of(g, labels, k - 1)) * (2
            * g.edge_count) == lv_label_sum(g, labels, k - 1, g.n()) * (2 * g.edge_count) + lv_of(
            g,
            labels,
            k - 1,
        ) * (2 * g.edge_count)) by (nonlinear_arith);
    }
}

/// Core bound: on a well-formed graph with a valid assignment, every prefix of
/// the modularity numerator lies within `[-(2m)^2, (2m)^2]`.
pub proof fn lemma_mod_num_bounds(g: Graph, labels: Seq<usize>, k: int)
    requires
        g.wf(),
        valid_labels(labels, g.n()),
        0 <= k <= g.n(),
    ensures
        -((2 * g.edge_count) * (2 * g.edge_count)) <= mod_num_upto(g, labels, k),
        mod_num_upto(g, labels, k) <= (2 * g.edge_count) * (2 * g.edge_count),
{
    let m2 = 2 * g.edge_count;
    lemma_mod_num_decompose(g, labels, k);
    lemma_label_sum_total(g, labels, g.n());
    lemma_label_sum_monotone(g, labels, k, g.n(), g.n());
    lemma_lv_label_sum_le(g, labels, k, g.n());
    lemma_dv_label_sum_nonneg(g, labels, k, g.n());
    lemma_sq_sum_le(g, labels, k);
    lemma_intra_sum_le_deg_sum(g, labels, g.n());
    let lvs = lv_label_sum(g, labels, k, g.n());
    let dvs = dv_label_sum(g, labels, k, g.n());
    let sq = dv_sq_sum(g, labels, k);
    assert(dvs <= m2);
    assert(lvs <= m2);
    assert(lvs * m2 <= m2 * m2) by (nonlinear_arith)
        requires
            0 <= lvs <= m2,
    ;
    assert(sq <= dvs * dvs);
    assert(dvs * dvs <= m2 * m2) by (nonlinear_arith)
        requires
            0 <= dvs <= m2,
    ;
    assert(lvs * m2 >= 0) by (nonlinear_arith)
        requires
            lvs >= 0,
            m2 >= 0,
    ;
}

/// The modularity of any valid assignment lies within `[-1, 1]`: its numerator
/// is bounded in magnitude by its (positive) denominator. With no edges the
/// numerator is exactly zero.
pub proof fn lemma_modularity_range(g: Graph, labels: Seq<usize>)
    requires
        g.wf(),
        valid_labels(labels, g.n()),
    ensures
        modularity_den(g) >= 1,
        -modularity_den(g) <= modularity_num(g, labels) <= modularity_den(g),
        g.edge_count == 0 ==> modularity_num(g, labels) == 0,
{
    lemma_mod_num_bounds(g, labels, g.n());
    let m2 = 2 * g.edge_count;
    if g.edge_count == 0 {
        assert(m2 * m2 == 0) by (nonlinear_arith)
            requires
                m2 == 0,
        ;
    } else {
        assert(m2 * m2 >= 1) by (nonlinear_arith)
            requires
                m2 >= 2,
        ;
    }
}

/// A community of isolated vertices has no degree.
proof fn lemma_isolated_dv_zero(g: Graph, labels: Seq<usize>, l: int, k: int)
    requires
        k <= g.n(),
        forall|u: int| 0 <= u < g.n() && labels[u] == l ==> g.deg(u) == 0,
    ensures
        dv_upto(g, labels, l, k) == 0,
    decreases k,
{
    if k > 0 {
        lemma_isolated_dv_zero(g, labels, l, k - 1);
    }
}

/// A community made only of isolated vertices contributes exactly zero to the
/// modularity numerator: it has no internal pairs and no degree.
pub proof fn lemma_isolated_label_contribution(g: Graph, labels: Seq<usize>, l: int)
    requires
        forall|u: int| 0 <= u < g.n() && labels[u] == l ==> g.deg(u) == 0,
    ensures
        contribution(g, labels, l) == 0,
{
    lemma_isolated_dv_zero(g, labels, l, g.n());
    lemma_lv_upto_bounds(g, labels, l, g.n());
    let m2 = 2 * g.edge_count;
    assert(lv_of(g, labels, l) * m2 == 0) by (nonlinear_arith)
        requires
            lv_of(g, labels, l) == 0,
    ;
    assert(dv_of(g, labels, l) * dv_of(g, labels, l) == 0) by (nonlinear_arith)
        requires
            dv_of(g, labels, l) == 0,
    ;
}

/// The denominator of the modularity fraction, as a runtime value: `(2m)^2`,
/// or `1` for an edgeless graph.
pub fn modularity_denominator(g: &Graph) -> (r: i128)
    requires
        g.edge_count <= MAX_EDGE_COUNT,
    ensures
        r == modularity_den(*g),
        r >= 1,
{
    if g.edge_count == 0 {
        1
    } else {
        let m2: i128 = 2 * (g.edge_count as i128);
        proof {
            assert(1 <= m2 * m2 <= 0x4000_0000_0000_0000_0000_0000_0000_0000int)
                by (nonlinear_arith)
                requires
                    2 <= m2 <= 0x8000_0000_0000_0000int,
            ;
        }
        m2 * m2
    }
}

/// Numerator contribution of one community from its internal pair count `lv`
/// and degree `dv`: exactly `lv * 2m - dv^2`.
fn community_term(lv: u64, dv: u64, g: &Graph) -> (r: i128)
    requires
        g.edge_count <= MAX_EDGE_COUNT,
        lv <= dv,
        dv <= 2 * g.edge_count,
    ensures
        r == lv * (2 * g.edge_count) - dv * dv,
{
    let m2: i128 = 2 * (g.edge_count as i128);
    let lvw: i128 = lv as i128;
    let dvw: i128 = dv as i128;
    proof {
        assert(0 <= lvw * m2 <= m2 * m2 && 0 <= dvw * dvw <= m2 * m2) by (nonlinear_arith)
            requires
                0 <= lvw <= m2,
                0 <= dvw <= m2,
        ;
        assert(m2 * m2 <= 0x4000_0000_0000_0000_0000_0000_0000_0000int) by (nonlinear_arith)
            requires
                0 <= m2 <= 0x8000_0000_0000_0000int,
        ;
    }
    lvw * m2 - dvw * dvw
}

/// All per-community contributions, computed in parallel over the communities.
///
/// Relies on rayon's `par_iter().zip(..).map(..).collect()`: the collected
/// vector has one entry per index, in index order, each the value
/// `community_term` returned for the pair at that index, and `collect` joins
/// every task before returning.
#[verifier::external_body]
fn par_community_terms(lv_acc: &Vec<u64>, dv_acc: &Vec<u64>, g: &Graph) -> (r: Vec<i128>)
    requires
        g.edge_count <= MAX_EDGE_COUNT,
        lv_acc@.len() == dv_acc@.len(),
        forall|l: int| 0 <= l < lv_acc@.len() ==> (#[trigger] lv_acc@[l]) <= dv_acc@[l],
        forall|l: int| 0 <= l < dv_acc@.len() ==> (#[trigger] dv_acc@[l]) <= 2 * g.edge_count,
    ensures
        r@.len() == lv_acc@.len(),
        forall|l: int|
            0 <= l < r@.len() ==> (#[trigger] r@[l]) == lv_acc@[l] * (2 * g.edge_count)
                - dv_acc@[l] * dv_acc@[l],
{
    lv_acc.par_iter().zip(dv_acc.par_iter()).map(|(a, b)| community_term(*a, *b, g)).collect()
}

/// Count how many of `v`'s neighbors carry the same label as `v` itself.
fn intra_degree(labels: &Vec<usize>, g: &Graph, v: usize) -> (r: usize)
    requires
        g.wf(),
        valid_labels(labels@, g.n()),
        v < g.n(),
    ensures
        r == intra_deg(*g, labels@, v as int),
{
    let own: usize = labels[v];
    let deg: usize = g.adjacency[v].len();
    let mut c: usize = 0;
    let mut j: usize = 0;
    while j < deg
        invariant
            g.wf(),
            valid_labels(labels@, g.n()),
            v < g.n(),
            own == labels@[v as int],
            deg == g.deg(v as int),
            j <= deg,
            c == nbr_count_upto(*g, labels@, v as int, own as int, j as int),
            c <= j,
        decreases deg - j,
    {
        let nbr: usize = g.adjacency[v][j];
        if labels[nbr] == own {
            c = c + 1;
        }
        j = j + 1;
    }
    c
}

/// Evaluate a frozen assignment: the number of distinct labels present and the
/// exact modularity numerator over the denominator `modularity_den`. A pure
/// function of its arguments: evaluating the same assignment twice yields the
/// same pair.
pub fn statistics(labels: &Vec<usize>, g: &Graph) -> (r: (usize, i128))
    requires
        g.wf(),
        valid_labels(labels@, g.n()),
        g.edge_count <= MAX_EDGE_COUNT,
    ensures
        r.0 == community_count(labels@),
        r.1 == modularity_num(*g, labels@),
{
    let n: usize = g.vertex_count();

    // Distinct labels present.
    let mut seen: Vec<bool> = filled_vec(n, false);
    let mut v: usize = 0;
    while v < n
        invariant
            valid_labels(labels@, n as int),
            n == labels@.len(),
            seen@.len() == n,
            v <= n,
            forall|l2: int| 0 <= l2 < n ==> #[trigger] seen@[l2] == present_upto(
                labels@,
                l2,
                v as int,
            ),
        decreases n - v,
    {
        let l: usize = labels[v];
        seen[l] = true;
        assert forall|l2: int| 0 <= l2 < n implies #[trigger] seen@[l2] == present_upto(
            labels@,
            l2,
            v as int + 1,
        ) by {
            if l2 == l {
                assert(present_upto(labels@, l2, v as int + 1));
            } else {
                if present_upto(labels@, l2, v as int + 1) {
                    let w = choose|w: int| 0 <= w < v as int + 1 && labels@[w] == l2;
                    assert(0 <= w < v as int && labels@[w] == l2);
                    assert(present_upto(labels@, l2, v as int));
                }
                if present_upto(labels@, l2, v as int) {
                    let w = choose|w: int| 0 <= w < v as int && labels@[w] == l2;
                    assert(0 <= w < v as int + 1 && labels@[w] == l2);
                    assert(present_upto(labels@, l2, v as int + 1));
                }
            }
        }
        v = v + 1;
    }
    let mut count: usize = 0;
    let mut l: usize = 0;
    while l < n
        invariant
            n == labels@.len(),
            seen@.len() == n,
            l <= n,
            count <= l,
            forall|l2: int| 0 <= l2 < n ==> #[trigger] seen@[l2] == label_present(labels@, l2),
            count == count_present_upto(labels@, l as int),
        decreases n - l,
    {
        if seen[l] {
            count = count + 1;
        }
        l = l + 1;
    }

    // Per-community degree and internal pair totals, indexed by label.
    let mut dv_acc: Vec<u64> = filled_vec(n, 0u64);
    let mut lv_acc: Vec<u64> = filled_vec(n, 0u64);
    let mut v: usize = 0;
    while v < n
        invariant
            g.wf(),
            valid_labels(labels@, g.n()),
            g.edge_count <= MAX_EDGE_COUNT,
            n == g.n(),
            dv_acc@.len() == n,
            lv_acc@.len() == n,
            v <= n,
            forall|l2: int| 0 <= l2 < n ==> #[trigger] dv_acc@[l2] == dv_upto(
                *g,
                labels@,
                l2,
                v as int,
            ),
            forall|l2: int| 0 <= l2 < n ==> #[trigger] lv_acc@[l2] == lv_upto(
                *g,
                labels@,
                l2,
                v as int,
            ),
        decreases n - v,
    {
        let l: usize = labels[v];
        let deg: usize = g.adjacency[v].len();
        let c: usize = intra_degree(labels, g, v);
        proof {
            lemma_dv_upto_bounds(*g, labels@, l as int, v as int + 1);
            lemma_lv_upto_bounds(*g, labels@, l as int, v as int + 1);
            lemma_deg_sum_monotone(*g, v as int + 1, g.n());
        }
        dv_acc[l] = dv_acc[l] + deg as u64;
        lv_acc[l] = lv_acc[l] + c as u64;
        v = v + 1;
    }

    // Numerator: per-community contributions in parallel, summed exactly.
    proof {
        assert forall|l2: int| 0 <= l2 < n implies (#[trigger] lv_acc@[l2]) <= dv_acc@[l2] by {
            lemma_lv_upto_bounds(*g, labels@, l2, g.n());
        }
        assert forall|l2: int| 0 <= l2 < n implies (#[trigger] dv_acc@[l2]) <= 2
            * g.edge_count by {
            lemma_dv_upto_bounds(*g, labels@, l2, g.n());
        }
    }
    let terms: Vec<i128> = par_community_terms(&lv_acc, &dv_acc, g);
    proof {
        assert forall|l2: int| 0 <= l2 < n implies (#[trigger] terms@[l2]) == contribution(
            *g,
            labels@,
            l2,
        ) by {
            assert(lv_acc@[l2] == lv_of(*g, labels@, l2));
            assert(dv_acc@[l2] == dv_of(*g, labels@, l2));
        }
    }
    let mut num: i128 = 0;
    let mut l: usize = 0;
    while l < n
        invariant
            g.wf(),
            valid_labels(labels@, g.n()),
            g.edge_count <= MAX_EDGE_COUNT,
            n == g.n(),
            terms@.len() == n,
            l <= n,
            forall|l2: int|
                0 <= l2 < n ==> (#[trigger] terms@[l2]) == contribution(*g, labels@, l2),
            num == mod_num_upto(*g, labels@, l as int),
        decreases n - l,
    {
        proof {
            lemma_mod_num_bounds(*g, labels@, l as int + 1);
            lemma_mod_num_bounds(*g, labels@, l as int);
            let m2: int = 2 * g.edge_count;
            assert(m2 * m2 <= 0x4000_0000_0000_0000_0000_0000_0000_0000int) by (nonlinear_arith)
                requires
                    0 <= m2 <= 0x8000_0000_0000_0000int,
            ;
        }
        num = num + terms[l];
        l = l + 1;
    }
    (count, num)
}

} // verus!

