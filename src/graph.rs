//! Directed multigraph with per-vertex outgoing-edge lists.
use vstd::prelude::*;

verus! {

/// Dense zero-based vertex identifier.
pub type VertexId = usize;

/// A directed edge. Parallel edges are allowed.
#[derive(Clone, Copy, Debug, PartialEq, Eq, Structural)]
pub struct Edge {
    pub from: VertexId,
    pub to: VertexId,
}

/// A vertex; the vertex at index `i` of a graph has id `i`.
#[derive(Clone, Copy, Debug, PartialEq, Eq, Structural)]
pub struct Vertex {
    pub id: VertexId,
}

/// Why a graph could not be built.
#[derive(Clone, Copy, Debug, PartialEq, Eq, Structural)]
pub enum GraphError {
    /// The first input pair with an endpoint outside `[0, n)`.
    InvalidEdgeEndpoint { from: VertexId, to: VertexId },
}

/// A graph that is never changed once built. Its view is the sequence of
/// outgoing-edge lists, one per vertex.
#[derive(Debug)]
pub struct Graph {
    vertices: Vec<Vertex>,
    edges: Vec<Vec<Edge>>,
}

/// The edge that an input pair stands for.
pub open spec fn edge_of(p: (VertexId, VertexId)) -> Edge {
    Edge { from: p.0, to: p.1 }
}

/// Both endpoints of `p` are vertex ids of a graph with `n` vertices.
pub open spec fn pair_in_range(p: (VertexId, VertexId), n: nat) -> bool {
    p.0 < n && p.1 < n
}

pub open spec fn endpoints_in_range(pairs: Seq<(VertexId, VertexId)>, n: nat) -> bool {
    forall|k: int| 0 <= k < pairs.len() ==> pair_in_range(#[trigger] pairs[k], n)
}

/// `pairs[k]` is the first pair with an endpoint out of range.
pub open spec fn is_first_bad_pair(pairs: Seq<(VertexId, VertexId)>, n: nat, k: int) -> bool {
    &&& 0 <= k < pairs.len()
    &&& !pair_in_range(pairs[k], n)
    &&& forall|j: int| 0 <= j < k ==> pair_in_range(#[trigger] pairs[j], n)
}

/// The edges among `pairs` that leave `v`, in input order.
pub open spec fn edges_leaving(pairs: Seq<(VertexId, VertexId)>, v: int) -> Seq<Edge>
    decreases pairs.len(),
{
    if pairs.len() == 0 {
        seq![]
    } else {
        let rest = edges_leaving(pairs.drop_last(), v);
        if pairs.last().0 == v {
            rest.push(edge_of(pairs.last()))
        } else {
            rest
        }
    }
}

/// Every list of `adj` holds only edges leaving its own vertex and arriving
/// at a vertex of `adj`.
pub open spec fn adjacency_wf(adj: Seq<Seq<Edge>>) -> bool {
    forall|v: int, j: int|
        0 <= v < adj.len() && 0 <= j < adj[v].len() ==> {
            &&& (#[trigger] adj[v][j]).from == v
            &&& adj[v][j].to < adj.len()
        }
}

/// `e` is one of the edges of `adj`.
pub open spec fn has_edge(adj: Seq<Seq<Edge>>, e: Edge) -> bool {
    0 <= e.from < adj.len() && adj[e.from as int].contains(e)
}

impl View for Graph {
    type V = Seq<Seq<Edge>>;

    closed spec fn view(&self) -> Seq<Seq<Edge>> {
        self.edges@.map_values(|row: Vec<Edge>| row@)
    }
}

impl Graph {
    /// The vertex list holds the ids `0..n` in order, one per outgoing list.
    pub closed spec fn vertices_are_ids(&self) -> bool {
        &&& self.vertices@.len() == self.edges@.len()
        &&& forall|i: int| 0 <= i < self.vertices@.len() ==> (#[trigger] self.vertices@[i]).id == i
    }

    pub open spec fn wf(&self) -> bool {
        &&& self.vertices_are_ids()
        &&& adjacency_wf(self@)
    }

    /// Builds a graph on the vertices `0..n` from `(from, to)` pairs; each
    /// outgoing list keeps the input order.
    pub fn construct_graph(n: usize, pairs: Vec<(VertexId, VertexId)>) -> (r: Result<
        Graph,
        GraphError,
    >)
        ensures
            r is Ok <==> endpoints_in_range(pairs@, n as nat),
            r matches Ok(g) ==> {
                &&& g.wf()
                &&& g@.len() == n
                &&& forall|v: int| 0 <= v < n ==> #[trigger] g@[v] == edges_leaving(pairs@, v)
            },
            r matches Err(GraphError::InvalidEdgeEndpoint { from, to }) ==> exists|k: int|
                is_first_bad_pair(pairs@, n as nat, k) && pairs@[k] == (from, to),
    {
        let mut k: usize = 0;
        while k < pairs.len()
            invariant
                0 <= k <= pairs@.len(),
                forall|j: int| 0 <= j < k ==> pair_in_range(#[trigger] pairs@[j], n as nat),
            decreases pairs@.len() - k,
        {
            let (from, to) = pairs[k];
            if from >= n || to >= n {
                assert(is_first_bad_pair(pairs@, n as nat, k as int));
                return Err(GraphError::InvalidEdgeEndpoint { from, to });
            }
            k = k + 1;
        }
        let mut vertices: Vec<Vertex> = Vec::new();
        let mut edges: Vec<Vec<Edge>> = Vec::new();
        let mut i: usize = 0;
        while i < n
            invariant
                0 <= i <= n,
                vertices@.len() == i,
                edges@.len() == i,
                forall|j: int| 0 <= j < i ==> (#[trigger] vertices@[j]).id == j,
                forall|j: int| 0 <= j < i ==> (#[trigger] edges@[j])@ == Seq::<Edge>::empty(),
            decreases n - i,
        {
            vertices.push(Vertex { id: i });
            edges.push(Vec::new());
            i = i + 1;
        }
        let mut k: usize = 0;
        while k < pairs.len()
            invariant
                0 <= k <= pairs@.len(),
                endpoints_in_range(pairs@, n as nat),
                edges@.len() == n,
                forall|v: int|
                    0 <= v < n ==> (#[trigger] edges@[v])@ == edges_leaving(pairs@.take(k as int), v),
            decreases pairs@.len() - k,
        {
            let (from, to) = pairs[k];
            assert(pair_in_range(pairs@[k as int], n as nat));
            let ghost before = edges@;
            edges[from].push(Edge { from, to });
            proof {
                let pre = pairs@.take(k as int);
                let post = pairs@.take(k as int + 1);
                assert(post.drop_last() =~= pre);
                assert(post.last() == pairs@[k as int]);
                assert forall|v: int| 0 <= v < n implies (#[trigger] edges@[v])@ == edges_leaving(
                    post,
                    v,
                ) by {
                    if v != from {
                        assert(edges@[v] == before[v]);
                    }
                }
            }
            k = k + 1;
        }
        assert(pairs@.take(pairs@.len() as int) =~= pairs@);
        let g = Graph { vertices, edges };
        proof {
            assert forall|v: int| 0 <= v < n implies #[trigger] g@[v] == edges_leaving(pairs@, v) by {
                assert(g@[v] == edges@[v]@);
            }
            assert forall|v: int, j: int|
                0 <= v < g@.len() && 0 <= j < g@[v].len() implies {
                    &&& (#[trigger] g@[v][j]).from == v
                    &&& g@[v][j].to < g@.len()
                } by {
                lemma_edges_leaving_wf(pairs@, n as nat, v, j);
            }
        }
        Ok(g)
    }
}

impl Graph {
    /// The number of vertices.
    pub fn vertex_count(&self) -> (r: usize)
        requires
            self.wf(),
        ensures
            r == self@.len(),
    {
        self.edges.len()
    }

    /// The number of edges leaving `v`.
    pub fn out_degree(&self, v: VertexId) -> (r: usize)
        requires
            self.wf(),
            v < self@.len(),
        ensures
            r == self@[v as int].len(),
    {
        self.edges[v].len()
    }

    /// The vertex with id `id`.
    pub fn vertex(&self, id: VertexId) -> (r: Vertex)
        requires
            self.wf(),
            id < self@.len(),
        ensures
            r.id == id,
    {
        self.vertices[id]
    }

    /// The outgoing list of `v`.
    pub fn outgoing(&self, v: VertexId) -> (r: &Vec<Edge>)
        requires
            self.wf(),
            v < self@.len(),
        ensures
            r@ == self@[v as int],
    {
        &self.edges[v]
    }

    /// The edge in slot `slot` of the outgoing list of `v`.
    pub fn edge_at(&self, v: VertexId, slot: usize) -> (r: Edge)
        requires
            self.wf(),
            v < self@.len(),
            slot < self@[v as int].len(),
        ensures
            r == self@[v as int][slot as int],
    {
        self.edges[v][slot]
    }

    /// Whether every vertex at which some edge arrives has an outgoing edge,
    /// so that a walk started on any edge never reaches a dead end.
    pub fn validate_for_walk(&self) -> (r: bool)
        requires
            self.wf(),
        ensures
            r == walkable(self@),
    {
        let n = self.edges.len();
        let mut v: usize = 0;
        while v < n
            invariant
                self.wf(),
                n == self@.len(),
                0 <= v <= n,
                forall|u: int, j: int|
                    0 <= u < v && 0 <= j < self@[u].len() ==> self@[(#[trigger] self@[u][j]).to as int].len() > 0,
            decreases n - v,
        {
            let row = &self.edges[v];
            let mut j: usize = 0;
            while j < row.len()
                invariant
                    self.wf(),
                    n == self@.len(),
                    0 <= v < n,
                    row@ == self@[v as int],
                    0 <= j <= row@.len(),
                    forall|u: int, i: int|
                        0 <= u < v && 0 <= i < self@[u].len() ==> self@[(#[trigger] self@[u][i]).to as int].len() > 0,
                    forall|i: int| 0 <= i < j ==> self@[(#[trigger] self@[v as int][i]).to as int].len() > 0,
                decreases row@.len() - j,
            {
                let to = row[j].to;
                if self.edges[to].len() == 0 {
                    assert(self@[to as int].len() == 0);
                    return false;
                }
                j = j + 1;
            }
            v = v + 1;
        }
        true
    }
}

/// Every vertex at which an edge of `adj` arrives has an outgoing edge.
pub open spec fn walkable(adj: Seq<Seq<Edge>>) -> bool {
    forall|u: int, j: int|
        0 <= u < adj.len() && 0 <= j < adj[u].len() ==> adj[(#[trigger] adj[u][j]).to as int].len() > 0
}

/// The edge list of a five-vertex example graph.
pub open spec fn example_pairs() -> Seq<(VertexId, VertexId)> {
    seq![(0, 1), (1, 2), (2, 3), (3, 0), (1, 4), (4, 0)]
}

/// A five-vertex example graph: the cycle `0 -> 1 -> 2 -> 3 -> 0` with the
/// detour `1 -> 4 -> 0`.
pub fn test_graph() -> (g: Graph)
    ensures
        g.wf(),
        g@.len() == 5,
        forall|v: int| 0 <= v < 5 ==> #[trigger] g@[v] == edges_leaving(example_pairs(), v),
{
    let pairs: Vec<(VertexId, VertexId)> = vec![(0, 1), (1, 2), (2, 3), (3, 0), (1, 4), (4, 0)];
    assert(pairs@ =~= example_pairs());
    assert(endpoints_in_range(pairs@, 5));
    let r = Graph::construct_graph(5, pairs);
    r.unwrap()
}

/// Every edge that `edges_leaving(pairs, v)` lists leaves `v` and arrives in range.
proof fn lemma_edges_leaving_wf(pairs: Seq<(VertexId, VertexId)>, n: nat, v: int, j: int)
    requires
        endpoints_in_range(pairs, n),
        0 <= j < edges_leaving(pairs, v).len(),
    ensures
        edges_leaving(pairs, v)[j].from == v,
        edges_leaving(pairs, v)[j].to < n,
    decreases pairs.len(),
{
    if pairs.len() > 0 {
        let rest = pairs.drop_last();
        assert(pair_in_range(pairs[pairs.len() - 1], n));
        if j < edges_leaving(rest, v).len() {
            lemma_edges_leaving_wf(rest, n, v, j);
        }
    }
}

} // verus!
