//! The random walk: announce the current edge, dwell, then move to an edge
//! drawn uniformly from the outgoing list of the arrival vertex.
use rand::Rng;
use vstd::prelude::*;

use crate::graph::{has_edge, walkable, Edge, Graph, VertexId};

verus! {

/// What the walk announces each time it commits to an edge.
#[derive(Clone, Copy, Debug, PartialEq, Eq, Structural)]
pub enum SimulationUpdate {
    EdgeSelected(Edge),
}

/// Why the walk cannot go on.
#[derive(Clone, Copy, Debug, PartialEq, Eq, Structural)]
pub enum WalkError {
    /// The walk arrived at this vertex, which has no outgoing edge.
    DeadEndVertex(VertexId),
}

/// Where the walk stands between two calls.
#[derive(Clone, Copy, Debug, PartialEq, Eq, Structural)]
pub enum WalkPhase {
    /// The current edge is still to be announced.
    Emitting,
    /// The current edge was announced; the walk moves on next.
    Dwelling,
    /// The receiving side went away after an announcement: a clean end.
    Stopped,
    /// The walk reached a dead end.
    Failed,
}

/// `next` continues the walk from the arrival vertex of `prev`.
pub open spec fn is_step(adj: Seq<Seq<Edge>>, prev: Edge, next: Edge) -> bool {
    &&& next.from == prev.to
    &&& adj[prev.to as int].contains(next)
}

/// Each edge of `s` continues from the arrival vertex of the one before.
pub open spec fn is_legal_walk(adj: Seq<Seq<Edge>>, s: Seq<Edge>) -> bool {
    forall|i: int| 0 <= i < s.len() - 1 ==> #[trigger] is_step(adj, s[i], s[i + 1])
}

/// The walk's cursor into its graph, with the edges it has announced so far.
pub struct Walk {
    graph: Graph,
    current: Edge,
    phase: WalkPhase,
    start: Ghost<Edge>,
    emitted: Ghost<Seq<Edge>>,
}

/// Relies on rand::thread_rng and rand::Rng::gen_range: a value drawn from
/// `0..len`. gen_range panics on an empty range, which `requires` leaves out.
#[verifier::external_body]
fn random_slot(len: usize) -> (r: usize)
    requires
        len > 0,
    ensures
        r < len,
{
    rand::thread_rng().gen_range(0..len)
}

impl Walk {
    pub closed spec fn graph_view(&self) -> Seq<Seq<Edge>> {
        self.graph@
    }

    pub closed spec fn current(&self) -> Edge {
        self.current
    }

    pub closed spec fn phase(&self) -> WalkPhase {
        self.phase
    }

    /// The edge the walk started on.
    pub closed spec fn start(&self) -> Edge {
        self.start@
    }

    /// The edges announced so far, oldest first.
    pub closed spec fn emitted(&self) -> Seq<Edge> {
        self.emitted@
    }

    pub closed spec fn wf(&self) -> bool {
        let adj = self.graph@;
        let s = self.emitted@;
        &&& self.graph.wf()
        &&& has_edge(adj, self.current)
        &&& has_edge(adj, self.start@)
        &&& is_legal_walk(adj, s)
        &&& s.len() == 0 ==> self.current == self.start@ && self.phase == WalkPhase::Emitting
        &&& s.len() > 0 ==> s[0] == self.start@
        &&& self.phase != WalkPhase::Emitting ==> s.len() > 0 && s.last() == self.current
        &&& (self.phase == WalkPhase::Emitting && s.len() > 0) ==> is_step(adj, s.last(), self.current)
    }

    /// A walk on `graph` positioned at `start`, nothing announced yet.
    pub fn new(graph: Graph, start: Edge) -> (w: Walk)
        requires
            graph.wf(),
            has_edge(graph@, start),
        ensures
            w.wf(),
            w.graph_view() == graph@,
            w.current() == start,
            w.start() == start,
            w.phase() == WalkPhase::Emitting,
            w.emitted() == Seq::<Edge>::empty(),
    {
        Walk { graph, current: start, phase: WalkPhase::Emitting, start: Ghost(start), emitted: Ghost(Seq::empty()) }
    }

    /// A walk started on the first edge leaving vertex 0, if there is one.
    pub fn from_first_edge(graph: Graph) -> (r: Option<Walk>)
        requires
            graph.wf(),
        ensures
            r is Some <==> graph@.len() > 0 && graph@[0].len() > 0,
            r matches Some(w) ==> {
                &&& w.wf()
                &&& w.graph_view() == graph@
                &&& w.current() == graph@[0][0]
                &&& w.start() == graph@[0][0]
                &&& w.phase() == WalkPhase::Emitting
                &&& w.emitted() == Seq::<Edge>::empty()
            },
    {
        if graph.vertex_count() == 0 || graph.out_degree(0) == 0 {
            return None;
        }
        let start = graph.edge_at(0, 0);
        assert(graph@[0].contains(start)) by {
            assert(graph@[0][0] == start);
        }
        Some(Walk::new(graph, start))
    }

    /// The edge the walk stands on.
    pub fn current_edge(&self) -> (r: Edge)
        ensures
            r == self.current(),
    {
        self.current
    }

    pub fn current_phase(&self) -> (r: WalkPhase)
        ensures
            r == self.phase(),
    {
        self.phase
    }

    /// The number of edges leaving the arrival vertex of the current edge.
    pub fn arrival_degree(&self) -> (r: usize)
        requires
            self.wf(),
        ensures
            r == self.graph_view()[self.current().to as int].len(),
    {
        proof {
            self.lemma_current_arrival_in_range();
        }
        self.graph.out_degree(self.current.to)
    }

    proof fn lemma_current_arrival_in_range(&self)
        requires
            self.wf(),
        ensures
            self.current.to < self.graph@.len(),
    {
        let adj = self.graph@;
        let j = choose|j: int| 0 <= j < adj[self.current.from as int].len() && adj[self.current.from as int][j] == self.current;
        assert(adj[self.current.from as int][j] == self.current);
    }

    /// Announces the current edge.
    pub fn emit(&mut self) -> (u: SimulationUpdate)
        requires
            old(self).wf(),
            old(self).phase() == WalkPhase::Emitting,
        ensures
            final(self).wf(),
            u == SimulationUpdate::EdgeSelected(old(self).current()),
            final(self).emitted() == old(self).emitted().push(old(self).current()),
            final(self).phase() == WalkPhase::Dwelling,
            final(self).current() == old(self).current(),
            final(self).start() == old(self).start(),
            final(self).graph_view() == old(self).graph_view(),
    {
        let ghost adj = self.graph@;
        let ghost s = self.emitted@;
        self.emitted = Ghost(self.emitted@.push(self.current));
        self.phase = WalkPhase::Dwelling;
        proof {
            let t = self.emitted@;
            assert forall|i: int| 0 <= i < t.len() - 1 implies #[trigger] is_step(adj, t[i], t[i + 1]) by {
                if i < s.len() - 1 {
                    assert(t[i] == s[i] && t[i + 1] == s[i + 1]);
                    assert(is_step(adj, s[i], s[i + 1]));
                }
            }
        }
        SimulationUpdate::EdgeSelected(self.current)
    }

    /// Ends the walk cleanly: the announcement found no receiver.
    pub fn stop(&mut self)
        requires
            old(self).wf(),
            old(self).phase() == WalkPhase::Dwelling,
        ensures
            final(self).wf(),
            final(self).phase() == WalkPhase::Stopped,
            final(self).emitted() == old(self).emitted(),
            final(self).current() == old(self).current(),
            final(self).start() == old(self).start(),
            final(self).graph_view() == old(self).graph_view(),
    {
        self.phase = WalkPhase::Stopped;
    }

    /// Moves to the edge in slot `slot` of the arrival vertex's outgoing list,
    /// or fails where that list is empty.
    pub fn advance_to(&mut self, slot: usize) -> (r: Result<(), WalkError>)
        requires
            old(self).wf(),
            old(self).phase() == WalkPhase::Dwelling,
            old(self).graph_view()[old(self).current().to as int].len() == 0
                || slot < old(self).graph_view()[old(self).current().to as int].len(),
        ensures
            final(self).wf(),
            final(self).emitted() == old(self).emitted(),
            final(self).start() == old(self).start(),
            final(self).graph_view() == old(self).graph_view(),
            r is Err <==> old(self).graph_view()[old(self).current().to as int].len() == 0,
            r matches Err(e) ==> {
                &&& e == WalkError::DeadEndVertex(old(self).current().to)
                &&& final(self).phase() == WalkPhase::Failed
                &&& final(self).current() == old(self).current()
            },
            r is Ok ==> {
                &&& final(self).phase() == WalkPhase::Emitting
                &&& final(self).current() == old(self).graph_view()[old(self).current().to as int][slot as int]
                &&& is_step(old(self).graph_view(), old(self).current(), final(self).current())
            },
    {
        let arrival = self.current.to;
        let degree = self.arrival_degree();
        if degree == 0 {
            self.phase = WalkPhase::Failed;
            return Err(WalkError::DeadEndVertex(arrival));
        }
        let next = self.graph.edge_at(arrival, slot);
        proof {
            let adj = self.graph@;
            assert(adj[arrival as int][slot as int] == next);
            assert(adj[arrival as int].contains(next));
        }
        self.current = next;
        self.phase = WalkPhase::Emitting;
        Ok(())
    }

    /// Moves to an edge drawn uniformly at random from the arrival vertex's
    /// outgoing list, or fails where that list is empty.
    pub fn advance(&mut self) -> (r: Result<(), WalkError>)
        requires
            old(self).wf(),
            old(self).phase() == WalkPhase::Dwelling,
        ensures
            final(self).wf(),
            final(self).emitted() == old(self).emitted(),
            final(self).start() == old(self).start(),
            final(self).graph_view() == old(self).graph_view(),
            r is Err <==> old(self).graph_view()[old(self).current().to as int].len() == 0,
            r matches Err(e) ==> {
                &&& e == WalkError::DeadEndVertex(old(self).current().to)
                &&& final(self).phase() == WalkPhase::Failed
                &&& final(self).current() == old(self).current()
            },
            r is Ok ==> {
                &&& final(self).phase() == WalkPhase::Emitting
                &&& is_step(old(self).graph_view(), old(self).current(), final(self).current())
            },
    {
        let degree = self.arrival_degree();
        if degree == 0 {
            return self.advance_to(0);
        }
        let slot = random_slot(degree);
        self.advance_to(slot)
    }
}

/// The first edge a walk announces is the edge it started on.
pub proof fn lemma_first_event_is_start(w: &Walk)
    requires
        w.wf(),
        w.emitted().len() > 0,
    ensures
        w.emitted()[0] == w.start(),
{
}

/// Of two edges announced one after the other, the second leaves the arrival
/// vertex of the first and is one of that vertex's outgoing edges.
pub proof fn lemma_consecutive_events_legal(w: &Walk, i: int)
    requires
        w.wf(),
        0 <= i,
        i + 1 < w.emitted().len(),
    ensures
        w.emitted()[i + 1].from == w.emitted()[i].to,
        w.graph_view()[w.emitted()[i].to as int].contains(w.emitted()[i + 1]),
{
    assert(is_step(w.graph_view(), w.emitted()[i], w.emitted()[i + 1]));
}

/// A walk whose start edge arrives at a vertex without outgoing edges never
/// announces more than that one edge.
pub proof fn lemma_dead_end_start_emits_once(w: &Walk)
    requires
        w.wf(),
        w.graph_view()[w.start().to as int].len() == 0,
    ensures
        w.emitted().len() <= 1,
        w.emitted().len() == 1 ==> w.emitted()[0] == w.start(),
{
    if w.emitted().len() > 1 {
        lemma_consecutive_events_legal(w, 0);
    }
}

/// On a graph where every arrival vertex has an outgoing edge, the walk's
/// next move never fails.
pub proof fn lemma_walkable_has_no_dead_end(w: &Walk)
    requires
        w.wf(),
        walkable(w.graph_view()),
    ensures
        w.graph_view()[w.current().to as int].len() > 0,
{
    let adj = w.graph_view();
    let c = w.current();
    let j = choose|j: int| 0 <= j < adj[c.from as int].len() && adj[c.from as int][j] == c;
    assert(adj[c.from as int][j] == c);
}

} // verus!
