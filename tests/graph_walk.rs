use graph_walk::graph::{test_graph, Edge, Graph, GraphError};
use graph_walk::highlight::{EdgeHandle, HighlightController, HighlightError, Style, StyleCommand};
use graph_walk::walk::{SimulationUpdate, Walk, WalkError, WalkPhase};

fn edge(from: usize, to: usize) -> Edge {
    Edge { from, to }
}

fn cmd(from: usize, slot: usize, style: Style) -> StyleCommand {
    StyleCommand { handle: EdgeHandle { from, slot }, style }
}

#[test]
fn construct_groups_edges_by_source_in_input_order() {
    let g = Graph::construct_graph(3, vec![(0, 1), (2, 0), (0, 2), (0, 1), (1, 1)]).unwrap();
    assert_eq!(g.vertex_count(), 3);
    assert_eq!(g.outgoing(0), &vec![edge(0, 1), edge(0, 2), edge(0, 1)]);
    assert_eq!(g.outgoing(1), &vec![edge(1, 1)]);
    assert_eq!(g.outgoing(2), &vec![edge(2, 0)]);
    for id in 0..3 {
        assert_eq!(g.vertex(id).id, id);
    }
}

#[test]
fn construct_with_no_edges() {
    let g = Graph::construct_graph(2, vec![]).unwrap();
    assert_eq!(g.vertex_count(), 2);
    assert_eq!(g.out_degree(0), 0);
    assert_eq!(g.out_degree(1), 0);
}

#[test]
fn construct_rejects_out_of_range_target() {
    let r = Graph::construct_graph(3, vec![(0, 1), (1, 3), (4, 0)]);
    assert_eq!(r.unwrap_err(), GraphError::InvalidEdgeEndpoint { from: 1, to: 3 });
}

#[test]
fn construct_rejects_out_of_range_source() {
    let r = Graph::construct_graph(2, vec![(2, 0)]);
    assert_eq!(r.unwrap_err(), GraphError::InvalidEdgeEndpoint { from: 2, to: 0 });
}

#[test]
fn construct_rejects_any_edge_without_vertices() {
    let r = Graph::construct_graph(0, vec![(0, 0)]);
    assert_eq!(r.unwrap_err(), GraphError::InvalidEdgeEndpoint { from: 0, to: 0 });
}

#[test]
fn example_graph_lists() {
    let g = test_graph();
    assert_eq!(g.vertex_count(), 5);
    assert_eq!(g.outgoing(0), &vec![edge(0, 1)]);
    assert_eq!(g.outgoing(1), &vec![edge(1, 2), edge(1, 4)]);
    assert_eq!(g.outgoing(2), &vec![edge(2, 3)]);
    assert_eq!(g.outgoing(3), &vec![edge(3, 0)]);
    assert_eq!(g.outgoing(4), &vec![edge(4, 0)]);
    assert_eq!(g.edge_at(1, 1), edge(1, 4));
}

#[test]
fn validate_for_walk_accepts_example_and_rejects_dead_end() {
    assert!(test_graph().validate_for_walk());
    let g = Graph::construct_graph(3, vec![(0, 1), (1, 2)]).unwrap();
    assert!(!g.validate_for_walk());
    let g = Graph::construct_graph(3, vec![(0, 1), (1, 0)]).unwrap();
    assert!(g.validate_for_walk());
}

#[test]
fn walk_first_event_is_start_edge() {
    let g = test_graph();
    let mut w = Walk::new(g, edge(1, 4));
    assert_eq!(w.current_phase(), WalkPhase::Emitting);
    assert_eq!(w.emit(), SimulationUpdate::EdgeSelected(edge(1, 4)));
    assert_eq!(w.current_phase(), WalkPhase::Dwelling);
}

#[test]
fn example_scenario_second_event_leaves_vertex_one() {
    let mut w = Walk::from_first_edge(test_graph()).unwrap();
    assert_eq!(w.emit(), SimulationUpdate::EdgeSelected(edge(0, 1)));
    assert_eq!(w.advance(), Ok(()));
    let SimulationUpdate::EdgeSelected(second) = w.emit();
    assert_eq!(second.from, 1);
    assert!(second.to == 2 || second.to == 4);
}

#[test]
fn random_walk_events_are_legal() {
    let mut w = Walk::from_first_edge(test_graph()).unwrap();
    let check = test_graph();
    let mut prev = edge(0, 1);
    assert_eq!(w.emit(), SimulationUpdate::EdgeSelected(prev));
    for _ in 0..200 {
        assert_eq!(w.advance(), Ok(()));
        let SimulationUpdate::EdgeSelected(next) = w.emit();
        assert_eq!(next.from, prev.to);
        assert!(check.outgoing(prev.to).contains(&next));
        prev = next;
    }
}

#[test]
fn random_walk_reaches_both_branches() {
    let mut seen_two = false;
    let mut seen_four = false;
    for _ in 0..200 {
        let mut w = Walk::new(test_graph(), edge(0, 1));
        w.emit();
        w.advance().unwrap();
        match w.current_edge().to {
            2 => seen_two = true,
            4 => seen_four = true,
            other => panic!("unexpected target {}", other),
        }
    }
    assert!(seen_two && seen_four);
}

#[test]
fn advance_to_takes_the_given_slot() {
    let mut w = Walk::from_first_edge(test_graph()).unwrap();
    w.emit();
    assert_eq!(w.advance_to(0), Ok(()));
    assert_eq!(w.current_edge(), edge(1, 2));
    assert_eq!(w.arrival_degree(), 1);
    w.emit();
    assert_eq!(w.advance_to(0), Ok(()));
    assert_eq!(w.emit(), SimulationUpdate::EdgeSelected(edge(2, 3)));
}

#[test]
fn dead_end_fails_after_one_event() {
    let g = Graph::construct_graph(3, vec![(0, 1), (1, 2)]).unwrap();
    let mut w = Walk::new(g, edge(1, 2));
    assert_eq!(w.emit(), SimulationUpdate::EdgeSelected(edge(1, 2)));
    assert_eq!(w.arrival_degree(), 0);
    assert_eq!(w.advance(), Err(WalkError::DeadEndVertex(2)));
    assert_eq!(w.current_phase(), WalkPhase::Failed);
    assert_eq!(w.current_edge(), edge(1, 2));
}

#[test]
fn no_first_edge_without_edges_from_zero() {
    let g = Graph::construct_graph(2, vec![(1, 0)]).unwrap();
    assert!(Walk::from_first_edge(g).is_none());
}

#[test]
fn stop_ends_walk_cleanly() {
    let mut w = Walk::from_first_edge(test_graph()).unwrap();
    w.emit();
    w.stop();
    assert_eq!(w.current_phase(), WalkPhase::Stopped);
    assert_eq!(w.current_edge(), edge(0, 1));
}

#[test]
fn highlight_first_event_highlights_only() {
    let mut c = HighlightController::from_graph(&test_graph());
    assert_eq!(c.highlighted_edge(), None);
    let cmds = c.step(Some(SimulationUpdate::EdgeSelected(edge(1, 4)))).unwrap();
    assert_eq!(cmds, vec![cmd(1, 1, Style::Highlighted)]);
    assert_eq!(c.highlighted_edge(), Some(EdgeHandle { from: 1, slot: 1 }));
}

#[test]
fn highlight_toggles_previous_before_next() {
    let mut c = HighlightController::from_graph(&test_graph());
    c.process(SimulationUpdate::EdgeSelected(edge(0, 1))).unwrap();
    let cmds = c.process(SimulationUpdate::EdgeSelected(edge(1, 2))).unwrap();
    assert_eq!(cmds, vec![cmd(0, 0, Style::Default), cmd(1, 0, Style::Highlighted)]);
    assert_eq!(c.highlighted_edge(), Some(EdgeHandle { from: 1, slot: 0 }));
}

#[test]
fn highlight_resolves_first_parallel_edge() {
    let g = Graph::construct_graph(2, vec![(0, 1), (0, 0), (0, 1)]).unwrap();
    let c = HighlightController::from_graph(&g);
    assert_eq!(c.resolve_edge(edge(0, 1)), Some(EdgeHandle { from: 0, slot: 0 }));
    assert_eq!(c.resolve_edge(edge(0, 0)), Some(EdgeHandle { from: 0, slot: 1 }));
    assert_eq!(c.resolve_edge(edge(1, 0)), None);
}

#[test]
fn highlight_poll_without_update_is_noop() {
    let mut c = HighlightController::from_graph(&test_graph());
    assert_eq!(c.step(None), Ok(vec![]));
    assert_eq!(c.highlighted_edge(), None);
    c.step(Some(SimulationUpdate::EdgeSelected(edge(3, 0)))).unwrap();
    assert_eq!(c.step(None), Ok(vec![]));
    assert_eq!(c.highlighted_edge(), Some(EdgeHandle { from: 3, slot: 0 }));
}

#[test]
fn highlight_unresolved_edge_is_error() {
    let mut c = HighlightController::from_graph(&test_graph());
    c.step(Some(SimulationUpdate::EdgeSelected(edge(0, 1)))).unwrap();
    let r = c.step(Some(SimulationUpdate::EdgeSelected(edge(0, 3))));
    assert_eq!(r, Err(HighlightError::UnresolvedEdge(edge(0, 3))));
    let r = c.step(Some(SimulationUpdate::EdgeSelected(edge(9, 0))));
    assert_eq!(r, Err(HighlightError::UnresolvedEdge(edge(9, 0))));
    assert_eq!(c.highlighted_edge(), Some(EdgeHandle { from: 0, slot: 0 }));
}

#[test]
fn walk_drives_highlight() {
    let g = test_graph();
    let mut c = HighlightController::from_graph(&g);
    let mut w = Walk::from_first_edge(g).unwrap();
    for _ in 0..50 {
        let u = w.emit();
        let prev = c.highlighted_edge();
        let cmds = c.step(Some(u)).unwrap();
        let now = c.highlighted_edge().unwrap();
        match prev {
            Some(p) => assert_eq!(cmds, vec![StyleCommand { handle: p, style: Style::Default }, StyleCommand { handle: now, style: Style::Highlighted }]),
            None => assert_eq!(cmds, vec![StyleCommand { handle: now, style: Style::Highlighted }]),
        }
        w.advance().unwrap();
    }
}
