//! The graph: dense-indexed adjacency lists, read-only once built.
//!
//! Vertices are the integers `0 .. vertex_count`. The adjacency structure
//! stores both directions of every undirected input edge, so the length of
//! `adjacency[v]` is the degree of `v`. Self-loops and parallel edges are kept
//! as delivered. `edge_count` is the number of input edges (not doubled by the
//! directional expansion); it is the modularity denominator constant `m`.

use vstd::prelude::*;

verus! {

/// Cap on `edge_count` under which all modularity arithmetic fits in `i128`:
/// `(2 * m)^2` stays below `2^126`.
pub const MAX_EDGE_COUNT: u64 = 0x3fff_ffff_ffff_ffff;

/// A label assignment for a graph of `n` vertices: one label per vertex, every
/// label itself a valid vertex id.
pub open spec fn valid_labels(labels: Seq<usize>, n: int) -> bool {
    &&& labels.len() == n
    &&& forall|v: int| 0 <= v < n ==> (#[trigger] labels[v]) < n
}

/// An undirected graph over vertices `0 .. adjacency.len()`.
#[derive(Debug)]
pub struct Graph {
    /// `adjacency[v]` holds the neighbors of `v`, one entry per edge end.
    pub adjacency: Vec<Vec<usize>>,
    /// Number of undirected input edges (`m`); half the total adjacency length.
    pub edge_count: usize,
}

impl Graph {
    /// Number of vertices.
    pub open spec fn n(self) -> int {
        self.adjacency@.len() as int
    }

    /// Degree of vertex `v`: the length of its adjacency list.
    pub open spec fn deg(self, v: int) -> int {
        self.adjacency@[v]@.len() as int
    }

    /// Sum of the degrees of the vertices `0 .. k`.
    pub open spec fn deg_sum(self, k: int) -> int
        decreases k,
    {
        if k <= 0 {
            0
        } else {
            self.deg_sum(k - 1) + self.deg(k - 1)
        }
    }

    /// Well-formed: at least one vertex, every adjacency entry is a valid
    /// vertex, and the total adjacency length is exactly twice `edge_count`
    /// (both directions of every edge are present).
    pub open spec fn wf(self) -> bool {
        &&& self.n() > 0
        &&& forall|v: int, j: int|
            0 <= v < self.n() && 0 <= j < self.deg(v) ==> 0 <= #[trigger] self.adjacency@[v]@[j]
                < self.n()
        &&& self.deg_sum(self.n()) == 2 * self.edge_count
    }

    /// Executable vertex count.
    pub fn vertex_count(&self) -> (r: usize)
        ensures
            r == self.n(),
    {
        self.adjacency.len()
    }
}

/// A vector of `n` copies of `x`.
pub fn filled_vec<T: Copy>(n: usize, x: T) -> (r: Vec<T>)
    ensures
        r@.len() == n,
        forall|i: int| 0 <= i < n ==> r@[i] == x,
{
    let mut r: Vec<T> = Vec::new();
    let mut i: usize = 0;
    while i < n
        invariant
            i <= n,
            r@.len() == i,
            forall|j: int| 0 <= j < i ==> r@[j] == x,
        decreases n - i,
    {
        r.push(x);
        i = i + 1;
    }
    r
}

/// Why building a graph failed.
#[derive(Clone, Copy, Debug, PartialEq, Eq, Structural)]
pub enum GraphError {
    /// The vertex count was zero.
    NoVertices,
    /// Some edge endpoint was not a vertex id below the vertex count.
    EdgeOutOfRange,
}

/// The adjacency list of `v` after inserting both directions of the first `k`
/// edges, in input order: edge `(a, b)` appends `b` to `a`'s list and then `a`
/// to `b`'s list (a self-loop thus appends twice).
pub open spec fn adj_after(edges: Seq<(usize, usize)>, k: int, v: int) -> Seq<usize>
    decreases k,
{
    if k <= 0 {
        Seq::empty()
    } else {
        let prev = adj_after(edges, k - 1, v);
        let e = edges[k - 1];
        let s1 = if e.0 == v {
            prev.push(e.1)
        } else {
            prev
        };
        if e.1 == v {
            s1.push(e.0)
        } else {
            s1
        }
    }
}

/// Sum over the vertices `0 .. upto_v` of the adjacency length after `k` edges.
pub open spec fn adj_len_sum(edges: Seq<(usize, usize)>, k: int, upto_v: int) -> int
    decreases upto_v,
{
    if upto_v <= 0 {
        0
    } else {
        adj_len_sum(edges, k, upto_v - 1) + adj_after(edges, k, upto_v - 1).len()
    }
}

/// Adjacency entries are edge endpoints, so they stay below `n` when every
/// endpoint does.
proof fn lemma_adj_after_in_range(edges: Seq<(usize, usize)>, k: int, v: int, n: int)
    requires
        forall|i: int| 0 <= i < edges.len() ==> (#[trigger] edges[i]).0 < n && edges[i].1 < n,
        k <= edges.len(),
    ensures
        forall|j: int|
            0 <= j < adj_after(edges, k, v).len() ==> 0 <= (#[trigger] adj_after(edges, k, v)[j])
                < n,
    decreases k,
{
    if k > 0 {
        lemma_adj_after_in_range(edges, k - 1, v, n);
        let prev = adj_after(edges, k - 1, v);
        let e = edges[k - 1];
        let cur = adj_after(edges, k, v);
        assert(e.0 < n && e.1 < n);
        assert forall|j: int| 0 <= j < cur.len() implies 0 <= #[trigger] cur[j] < n by {
            if j < prev.len() {
                assert(cur[j] == prev[j]);
            }
        }
    }
}

/// Before any edge is inserted every adjacency list is empty.
proof fn lemma_adj_len_sum_zero(edges: Seq<(usize, usize)>, upto_v: int)
    ensures
        adj_len_sum(edges, 0, upto_v) == 0,
    decreases upto_v,
{
    if upto_v > 0 {
        lemma_adj_len_sum_zero(edges, upto_v - 1);
    }
}

/// Inserting one more edge grows the total adjacency length by one per
/// endpoint that lies below `upto_v`.
proof fn lemma_adj_len_sum_step(edges: Seq<(usize, usize)>, k: int, upto_v: int)
    requires
        0 < k <= edges.len(),
        upto_v >= 0,
    ensures
        adj_len_sum(edges, k, upto_v) == adj_len_sum(edges, k - 1, upto_v) + (if 0 <= (
        edges[k - 1].0 as int) < upto_v {
            1int
        } else {
            0int
        }) + (if 0 <= (edges[k - 1].1 as int) < upto_v {
            1int
        } else {
            0int
        }),
    decreases upto_v,
{
    if upto_v > 0 {
        lemma_adj_len_sum_step(edges, k, upto_v - 1);
    }
}

/// Both endpoints of every inserted edge are vertices, so inserting `k` edges
/// makes the total adjacency length exactly `2 * k`.
proof fn lemma_adj_len_sum_total(edges: Seq<(usize, usize)>, k: int, n: int)
    requires
        0 <= k <= edges.len(),
        n >= 0,
        forall|i: int| 0 <= i < edges.len() ==> (#[trigger] edges[i]).0 < n && edges[i].1 < n,
    ensures
        adj_len_sum(edges, k, n) == 2 * k,
    decreases k,
{
    if k > 0 {
        lemma_adj_len_sum_total(edges, k - 1, n);
        lemma_adj_len_sum_step(edges, k, n);
        assert((edges[k - 1]).0 < n && (edges[k - 1]).1 < n);
    } else {
        lemma_adj_len_sum_zero(edges, n);
    }
}

/// A graph whose rows are the built adjacency lists has the built lengths.
proof fn lemma_deg_sum_from_rows(g: Graph, edges: Seq<(usize, usize)>, upto_v: int)
    requires
        0 <= upto_v <= g.n(),
        forall|v: int|
            0 <= v < g.n() ==> #[trigger] g.adjacency@[v]@ == adj_after(
                edges,
                edges.len() as int,
                v,
            ),
    ensures
        g.deg_sum(upto_v) == adj_len_sum(edges, edges.len() as int, upto_v),
    decreases upto_v,
{
    if upto_v > 0 {
        lemma_deg_sum_from_rows(g, edges, upto_v - 1);
    }
}

/// Build the graph for a list of undirected edges over the vertices
/// `0 .. vertex_count`: both directions of every edge are inserted, in input
/// order, without deduplication, and `edge_count` is the number of input
/// edges. Rejected before any structure is built: a zero vertex count, and any
/// edge endpoint outside `0 .. vertex_count` — exactly those inputs, each with
/// its own error.
pub fn from_edges(vertex_count: usize, edges: &Vec<(usize, usize)>) -> (r: Result<
    Graph,
    GraphError,
>)
    ensures
        (r is Ok) <==> (vertex_count > 0 && forall|i: int|
            0 <= i < edges@.len() ==> (#[trigger] edges@[i]).0 < vertex_count && edges@[i].1
                < vertex_count),
        vertex_count == 0 ==> r == Err::<Graph, GraphError>(GraphError::NoVertices),
        (r is Err && vertex_count > 0) ==> r == Err::<Graph, GraphError>(GraphError::EdgeOutOfRange),
        r matches Ok(g) ==> (g.wf() && g.n() == vertex_count && g.edge_count == edges@.len()
            && forall|v: int|
            0 <= v < vertex_count ==> #[trigger] g.adjacency@[v]@ == adj_after(
                edges@,
                edges@.len() as int,
                v,
            )),
{
    if vertex_count == 0 {
        return Err(GraphError::NoVertices);
    }
    let ne: usize = edges.len();
    let mut i: usize = 0;
    while i < ne
        invariant
            vertex_count > 0,
            ne == edges@.len(),
            i <= ne,
            forall|k: int| 0 <= k < i ==> (#[trigger] edges@[k]).0 < vertex_count && edges@[k].1
                < vertex_count,
        decreases ne - i,
    {
        let (a, b): (usize, usize) = (edges[i].0, edges[i].1);
        if a >= vertex_count || b >= vertex_count {
            proof {
                assert(!((#[trigger] edges@[i as int]).0 < vertex_count && edges@[i as int].1
                    < vertex_count));
            }
            return Err(GraphError::EdgeOutOfRange);
        }
        i = i + 1;
    }
    let mut adjacency: Vec<Vec<usize>> = Vec::new();
    let mut v: usize = 0;
    while v < vertex_count
        invariant
            vertex_count > 0,
            ne == edges@.len(),
            forall|k: int| 0 <= k < ne ==> (#[trigger] edges@[k]).0 < vertex_count && edges@[k].1
                < vertex_count,
            adjacency@.len() == v,
            v <= vertex_count,
            forall|u: int|
                0 <= u < v ==> #[trigger] adjacency@[u]@ == adj_after(edges@, ne as int, u),
        decreases vertex_count - v,
    {
        let mut row: Vec<usize> = Vec::new();
        let mut k: usize = 0;
        while k < ne
            invariant
                ne == edges@.len(),
                k <= ne,
                row@ == adj_after(edges@, k as int, v as int),
            decreases ne - k,
        {
            let (a, b): (usize, usize) = (edges[k].0, edges[k].1);
            if a == v {
                row.push(b);
            }
            if b == v {
                row.push(a);
            }
            proof {
                assert(row@ =~= adj_after(edges@, k as int + 1, v as int));
            }
            k = k + 1;
        }
        adjacency.push(row);
        v = v + 1;
    }
    let g = Graph { adjacency, edge_count: ne };
    proof {
        assert forall|w: int, j: int| 0 <= w < g.n() && 0 <= j < g.deg(w) implies 0 <= (
        #[trigger] g.adjacency@[w]@[j]) < g.n() by {
            lemma_adj_after_in_range(edges@, ne as int, w, vertex_count as int);
        }
        lemma_adj_len_sum_total(edges@, ne as int, vertex_count as int);
        lemma_deg_sum_from_rows(g, edges@, g.n());
    }
    Ok(g)
}

/// Degrees are never negative, so prefixes of the degree sum grow monotonically.
pub proof fn lemma_deg_sum_monotone(g: Graph, j: int, k: int)
    requires
        0 <= j <= k,
    ensures
        g.deg_sum(j) <= g.deg_sum(k),
    decreases k,
{
    if j < k {
        lemma_deg_sum_monotone(g, j, k - 1);
    }
}

} // verus!
