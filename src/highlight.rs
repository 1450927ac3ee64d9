//! The edge-highlight state machine: follows walk events and keeps at most
//! one edge entity highlighted.
use vstd::prelude::*;

use crate::graph::{Edge, Graph, VertexId};
use crate::walk::SimulationUpdate;

verus! {

/// The renderer's entity for the edge in slot `slot` of the outgoing list of
/// vertex `from`.
#[derive(Clone, Copy, Debug, PartialEq, Eq, Structural)]
pub struct EdgeHandle {
    pub from: VertexId,
    pub slot: usize,
}

/// The two visual styles of an edge entity.
#[derive(Clone, Copy, Debug, PartialEq, Eq, Structural)]
pub enum Style {
    Default,
    Highlighted,
}

/// A request to the renderer: give `handle` the style `style`.
#[derive(Clone, Copy, Debug, PartialEq, Eq, Structural)]
pub struct StyleCommand {
    pub handle: EdgeHandle,
    pub style: Style,
}

/// Why an event could not be followed.
#[derive(Clone, Copy, Debug, PartialEq, Eq, Structural)]
pub enum HighlightError {
    /// No entity stands for this edge.
    UnresolvedEdge(Edge),
}

/// Slot `i` of `row` is the first whose target is `to`.
pub open spec fn is_first_match(row: Seq<VertexId>, to: VertexId, i: int) -> bool {
    &&& 0 <= i < row.len()
    &&& row[i] == to
    &&& forall|j: int| 0 <= j < i ==> row[j] != to
}

/// The entity for `e` in a table that lists, per vertex, the target of each
/// outgoing slot: the first slot of `e.from` whose target is `e.to`.
pub open spec fn resolve(targets: Seq<Seq<VertexId>>, e: Edge) -> Option<EdgeHandle> {
    if e.from < targets.len() && exists|i: int| is_first_match(targets[e.from as int], e.to, i) {
        Some(
            EdgeHandle {
                from: e.from,
                slot: (choose|i: int| is_first_match(targets[e.from as int], e.to, i)) as usize,
            },
        )
    } else {
        None
    }
}

/// The commands that move the highlight from `prev` to `next`: the previous
/// entity is restored first, then the next one is highlighted.
pub open spec fn highlight_commands(prev: Option<EdgeHandle>, next: EdgeHandle) -> Seq<StyleCommand> {
    match prev {
        Some(p) => seq![
            StyleCommand { handle: p, style: Style::Default },
            StyleCommand { handle: next, style: Style::Highlighted },
        ],
        None => seq![StyleCommand { handle: next, style: Style::Highlighted }],
    }
}

/// The highlighted entities after applying `c` to the highlighted set `lit`.
pub open spec fn apply_command(lit: Set<EdgeHandle>, c: StyleCommand) -> Set<EdgeHandle> {
    match c.style {
        Style::Default => lit.remove(c.handle),
        Style::Highlighted => lit.insert(c.handle),
    }
}

/// The highlighted entities after applying `cmds` in order.
pub open spec fn apply_commands(lit: Set<EdgeHandle>, cmds: Seq<StyleCommand>) -> Set<EdgeHandle>
    decreases cmds.len(),
{
    if cmds.len() == 0 {
        lit
    } else {
        apply_command(apply_commands(lit, cmds.drop_last()), cmds.last())
    }
}

/// The set holding the entity of `o`, if any.
pub open spec fn option_set(o: Option<EdgeHandle>) -> Set<EdgeHandle> {
    match o {
        Some(h) => set![h],
        None => Set::empty(),
    }
}

pub open spec fn at_most_one(s: Set<EdgeHandle>) -> bool {
    forall|a: EdgeHandle, b: EdgeHandle| s.contains(a) && s.contains(b) ==> a == b
}

/// `targets` lists, for each vertex of `adj`, the arrival vertex of each of
/// its outgoing edges, slot by slot.
pub open spec fn mirrors(targets: Seq<Seq<VertexId>>, adj: Seq<Seq<Edge>>) -> bool {
    &&& targets.len() == adj.len()
    &&& forall|v: int| 0 <= v < adj.len() ==> (#[trigger] targets[v]).len() == adj[v].len()
    &&& forall|v: int, j: int|
        0 <= v < adj.len() && 0 <= j < adj[v].len() ==> #[trigger] targets[v][j] == adj[v][j].to
}

/// Every slot index of `targets` is a `usize`.
pub open spec fn slots_fit(targets: Seq<Seq<VertexId>>) -> bool {
    forall|v: int| 0 <= v < targets.len() ==> #[trigger] targets[v].len() <= usize::MAX
}

/// Follows walk events and tracks which edge entity is highlighted.
pub struct HighlightController {
    targets: Vec<Vec<VertexId>>,
    highlighted: Option<EdgeHandle>,
}

impl HighlightController {
    /// The lookup table: per vertex, the target of each outgoing slot.
    pub closed spec fn targets(&self) -> Seq<Seq<VertexId>> {
        self.targets@.map_values(|row: Vec<VertexId>| row@)
    }

    pub open spec fn wf(&self) -> bool {
        slots_fit(self.targets())
    }

    /// The entity currently highlighted.
    pub closed spec fn highlighted(&self) -> Option<EdgeHandle> {
        self.highlighted
    }

    /// The lookup table for the edge entities of `graph`, nothing highlighted.
    pub fn from_graph(graph: &Graph) -> (c: HighlightController)
        requires
            graph.wf(),
        ensures
            c.wf(),
            mirrors(c.targets(), graph@),
            c.highlighted() is None,
    {
        let n = graph.vertex_count();
        let mut targets: Vec<Vec<VertexId>> = Vec::new();
        let mut v: usize = 0;
        while v < n
            invariant
                graph.wf(),
                n == graph@.len(),
                0 <= v <= n,
                targets@.len() == v,
                forall|u: int| 0 <= u < v ==> (#[trigger] targets@[u])@.len() == graph@[u].len(),
                forall|u: int| 0 <= u < v ==> (#[trigger] targets@[u])@.len() <= usize::MAX,
                forall|u: int, j: int|
                    0 <= u < v && 0 <= j < graph@[u].len() ==> #[trigger] targets@[u]@[j] == graph@[u][j].to,
            decreases n - v,
        {
            let degree = graph.out_degree(v);
            let mut row: Vec<VertexId> = Vec::new();
            let mut j: usize = 0;
            while j < degree
                invariant
                    graph.wf(),
                    n == graph@.len(),
                    0 <= v < n,
                    degree == graph@[v as int].len(),
                    0 <= j <= degree,
                    row@.len() == j,
                    forall|i: int| 0 <= i < j ==> #[trigger] row@[i] == graph@[v as int][i].to,
                decreases degree - j,
            {
                row.push(graph.edge_at(v, j).to);
                j = j + 1;
            }
            targets.push(row);
            v = v + 1;
        }
        let c = HighlightController { targets, highlighted: None };
        assert forall|u: int, j: int|
            0 <= u < graph@.len() && 0 <= j < graph@[u].len() implies #[trigger] c.targets()[u][j]
                == graph@[u][j].to by {
            assert(c.targets()[u] == targets@[u]@);
        }
        assert forall|u: int| 0 <= u < graph@.len() implies (#[trigger] c.targets()[u]).len()
            == graph@[u].len() by {
            assert(c.targets()[u] == targets@[u]@);
        }
        assert forall|u: int| 0 <= u < c.targets().len() implies #[trigger] c.targets()[u].len()
            <= usize::MAX by {
            assert(c.targets()[u] == targets@[u]@);
        }
        c
    }

    /// The entity currently highlighted.
    pub fn highlighted_edge(&self) -> (r: Option<EdgeHandle>)
        ensures
            r == self.highlighted(),
    {
        self.highlighted
    }

    /// The entity that stands for `e`.
    pub fn resolve_edge(&self, e: Edge) -> (r: Option<EdgeHandle>)
        ensures
            r == resolve(self.targets(), e),
    {
        if e.from >= self.targets.len() {
            return None;
        }
        let row = &self.targets[e.from];
        assert(row@ == self.targets()[e.from as int]);
        let mut i: usize = 0;
        while i < row.len()
            invariant
                0 <= i <= row@.len(),
                row@ == self.targets()[e.from as int],
                e.from < self.targets().len(),
                forall|j: int| 0 <= j < i ==> row@[j] != e.to,
            decreases row@.len() - i,
        {
            if row[i] == e.to {
                proof {
                    let tr = self.targets()[e.from as int];
                    assert(is_first_match(tr, e.to, i as int));
                    let k = choose|k: int| is_first_match(tr, e.to, k);
                    assert(k == i) by {
                        if k < i {
                            assert(tr[k] != e.to);
                        } else if k > i {
                            assert(tr[i as int] != e.to);
                        }
                    }
                }
                return Some(EdgeHandle { from: e.from, slot: i });
            }
            i = i + 1;
        }
        None
    }

    /// Follows one walk event: restores the highlighted entity, if any, then
    /// highlights the entity of the announced edge. Returns the style commands
    /// for the renderer, in the order in which they apply.
    pub fn process(&mut self, update: SimulationUpdate) -> (r: Result<Vec<StyleCommand>, HighlightError>)
        ensures
            final(self).targets() == old(self).targets(),
            match update {
                SimulationUpdate::EdgeSelected(e) => match resolve(old(self).targets(), e) {
                    Some(h) => r matches Ok(cmds) && cmds@ == highlight_commands(old(self).highlighted(), h)
                        && final(self).highlighted() == Some(h),
                    None => r == Err::<Vec<StyleCommand>, HighlightError>(HighlightError::UnresolvedEdge(e))
                        && final(self).highlighted() == old(self).highlighted(),
                },
            },
    {
        let SimulationUpdate::EdgeSelected(e) = update;
        match self.resolve_edge(e) {
            None => Err(HighlightError::UnresolvedEdge(e)),
            Some(h) => {
                let mut cmds: Vec<StyleCommand> = Vec::new();
                if let Some(prev) = self.highlighted {
                    cmds.push(StyleCommand { handle: prev, style: Style::Default });
                }
                cmds.push(StyleCommand { handle: h, style: Style::Highlighted });
                self.highlighted = Some(h);
                proof {
                    assert(cmds@ =~= highlight_commands(old(self).highlighted(), h));
                }
                Ok(cmds)
            },
        }
    }

    /// One rendering tick: follows the pending event, if there is one. With
    /// none pending nothing changes and no command is issued.
    pub fn step(&mut self, pending: Option<SimulationUpdate>) -> (r: Result<Vec<StyleCommand>, HighlightError>)
        ensures
            final(self).targets() == old(self).targets(),
            pending is None ==> {
                &&& r matches Ok(cmds) && cmds@.len() == 0
                &&& final(self).highlighted() == old(self).highlighted()
            },
            pending matches Some(SimulationUpdate::EdgeSelected(e)) ==> match resolve(old(self).targets(), e) {
                Some(h) => r matches Ok(cmds) && cmds@ == highlight_commands(old(self).highlighted(), h)
                    && final(self).highlighted() == Some(h),
                None => r == Err::<Vec<StyleCommand>, HighlightError>(HighlightError::UnresolvedEdge(e))
                    && final(self).highlighted() == old(self).highlighted(),
            },
    {
        match pending {
            None => Ok(Vec::new()),
            Some(update) => self.process(update),
        }
    }
}

/// Starting from the highlighted set `option_set(prev)`, every prefix of the
/// commands that move the highlight to `next` leaves at most one entity
/// highlighted, and all of them leave exactly `next`.
pub proof fn lemma_commands_keep_at_most_one(prev: Option<EdgeHandle>, next: EdgeHandle)
    ensures
        forall|k: int|
            0 <= k <= highlight_commands(prev, next).len() ==> at_most_one(
                #[trigger] apply_commands(option_set(prev), highlight_commands(prev, next).take(k)),
            ),
        apply_commands(option_set(prev), highlight_commands(prev, next)) == set![next],
{
    let lit = option_set(prev);
    let cmds = highlight_commands(prev, next);
    assert(cmds.take(0).len() == 0);
    assert(apply_commands(lit, cmds.take(0)) == lit);
    assert(cmds.take(1).drop_last() =~= cmds.take(0));
    assert(apply_commands(lit, cmds.take(1)) == apply_command(lit, cmds[0]));
    match prev {
        Some(p) => {
            assert(cmds.take(2) =~= cmds);
            assert(cmds.drop_last() =~= cmds.take(1));
            assert(apply_commands(lit, cmds.take(1)) =~= Set::<EdgeHandle>::empty());
            assert(apply_commands(lit, cmds) =~= set![next]);
        },
        None => {
            assert(cmds.take(1) =~= cmds);
            assert(apply_commands(lit, cmds) =~= set![next]);
        },
    }
    assert forall|k: int|
        0 <= k <= cmds.len() implies at_most_one(#[trigger] apply_commands(lit, cmds.take(k))) by {
        if k == cmds.len() {
            assert(cmds.take(k) =~= cmds);
        }
    }
}

/// Two different edges resolve to two different entities.
pub proof fn lemma_distinct_edges_distinct_entities(targets: Seq<Seq<VertexId>>, e1: Edge, e2: Edge)
    requires
        slots_fit(targets),
        resolve(targets, e1) is Some,
        resolve(targets, e2) is Some,
        e1 != e2,
    ensures
        resolve(targets, e1) != resolve(targets, e2),
{
    if e1.from == e2.from {
        let row = targets[e1.from as int];
        let i1 = choose|i: int| is_first_match(row, e1.to, i);
        let i2 = choose|i: int| is_first_match(row, e2.to, i);
        assert(row[i1] == e1.to && row[i2] == e2.to);
        assert(row.len() <= usize::MAX);
    }
}

/// After the controller follows an event `e1` and then a different event
/// `e2`, both of which resolve: the entity of `e1` is restored to the default
/// style before the entity of `e2` is highlighted, no prefix of either
/// event's commands leaves more than one entity highlighted, and after each
/// event exactly that event's entity is highlighted.
pub proof fn lemma_highlight_toggling(c: &HighlightController, e1: Edge, e2: Edge)
    requires
        c.wf(),
        resolve(c.targets(), e1) is Some,
        resolve(c.targets(), e2) is Some,
        e1 != e2,
    ensures
        ({
            let h1 = resolve(c.targets(), e1)->Some_0;
            let h2 = resolve(c.targets(), e2)->Some_0;
            let cmds1 = highlight_commands(c.highlighted(), h1);
            let lit1 = apply_commands(option_set(c.highlighted()), cmds1);
            let cmds2 = highlight_commands(Some(h1), h2);
            &&& h1 != h2
            &&& forall|k: int| 0 <= k <= cmds1.len() ==> at_most_one(
                #[trigger] apply_commands(option_set(c.highlighted()), cmds1.take(k)),
            )
            &&& lit1 == set![h1]
            &&& cmds2 == seq![
                StyleCommand { handle: h1, style: Style::Default },
                StyleCommand { handle: h2, style: Style::Highlighted },
            ]
            &&& forall|k: int| 0 <= k <= cmds2.len() ==> at_most_one(#[trigger] apply_commands(lit1, cmds2.take(k)))
            &&& apply_commands(lit1, cmds2) == set![h2]
        }),
{
    let h1 = resolve(c.targets(), e1)->Some_0;
    let h2 = resolve(c.targets(), e2)->Some_0;
    lemma_distinct_edges_distinct_entities(c.targets(), e1, e2);
    lemma_commands_keep_at_most_one(c.highlighted(), h1);
    lemma_commands_keep_at_most_one(Some(h1), h2);
    assert(option_set(Some(h1)) == set![h1]);
}

} // verus!
