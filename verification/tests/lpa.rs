use lpa::engine::initial_labels;
use lpa::engine::lpa;
use lpa::engine::round;
use lpa::engine::update_vertex;
use lpa::engine::BestSnapshot;
use lpa::graph::from_edges;
use lpa::graph::Graph;
use lpa::graph::GraphError;
use lpa::modularity::modularity_denominator;
use lpa::modularity::statistics;

fn build(n: usize, edges: Vec<(usize, usize)>) -> Graph {
    from_edges(n, &edges).unwrap()
}

fn two_triangles() -> Graph {
    build(6, vec![(0, 1), (1, 2), (0, 2), (3, 4), (4, 5), (3, 5)])
}

#[test]
fn initialization_singletons() {
    let labels = initial_labels(5);
    assert_eq!(labels, vec![0, 1, 2, 3, 4]);
}

#[test]
fn builder_rejects_zero_vertices() {
    assert_eq!(from_edges(0, &vec![]).unwrap_err(), GraphError::NoVertices);
}

#[test]
fn builder_rejects_out_of_range_edge() {
    assert_eq!(
        from_edges(2, &vec![(0, 1), (0, 5)]).unwrap_err(),
        GraphError::EdgeOutOfRange
    );
}

#[test]
fn builder_inserts_both_directions() {
    let g = build(3, vec![(0, 1), (1, 2)]);
    assert_eq!(g.adjacency, vec![vec![1], vec![0, 2], vec![1]]);
    assert_eq!(g.edge_count, 2);
}

#[test]
fn builder_keeps_self_loops_and_parallel_edges() {
    let g = build(2, vec![(0, 0), (0, 1), (0, 1)]);
    assert_eq!(g.adjacency[0], vec![0, 0, 1, 1]);
    assert_eq!(g.adjacency[1], vec![0, 0]);
    assert_eq!(g.edge_count, 3);
}

#[test]
fn purity_same_assignment_twice() {
    let g = two_triangles();
    let labels = vec![0, 0, 1, 1, 5, 5];
    let first = statistics(&labels, &g);
    let second = statistics(&labels, &g);
    assert_eq!(first, second);
}

#[test]
fn no_edges_yields_defined_zero_modularity() {
    let g = build(3, vec![]);
    assert_eq!(modularity_denominator(&g), 1);
    assert_eq!(statistics(&vec![0, 1, 2], &g), (3, 0));
    assert_eq!(statistics(&vec![1, 1, 1], &g), (1, 0));
}

#[test]
fn modularity_within_range_for_any_assignment() {
    let g = build(3, vec![(0, 1), (1, 2), (0, 2)]);
    let den = modularity_denominator(&g);
    assert_eq!(den, 36);
    for labels in [
        vec![0, 0, 0],
        vec![0, 1, 2],
        vec![0, 0, 1],
        vec![2, 2, 2],
        vec![1, 0, 1],
    ] {
        let (_, num) = statistics(&labels, &g);
        assert!(-den <= num && num <= den);
    }
}

#[test]
fn exact_value_for_two_separated_triangles() {
    let g = two_triangles();
    let den = modularity_denominator(&g);
    assert_eq!(den, 144);
    let (communities, num) = statistics(&vec![0, 0, 0, 3, 3, 3], &g);
    assert_eq!(communities, 2);
    assert_eq!(num, 72);
    assert_eq!(num as f64 / den as f64, 0.5);
}

#[test]
fn single_community_scores_zero() {
    let g = build(3, vec![(0, 1), (1, 2), (0, 2)]);
    assert_eq!(statistics(&vec![1, 1, 1], &g), (1, 0));
}

#[test]
fn best_tracker_never_regresses_and_keeps_earliest_tie() {
    let mut best = BestSnapshot {
        labels: vec![0, 1],
        communities: 2,
        score_num: -10,
    };
    best.update(vec![0, 0], 1, 5);
    assert_eq!(best.score_num, 5);
    assert_eq!(best.labels, vec![0, 0]);
    // A tie keeps the earlier snapshot.
    best.update(vec![1, 1], 1, 5);
    assert_eq!(best.labels, vec![0, 0]);
    // A lower score changes nothing.
    best.update(vec![1, 0], 2, -3);
    assert_eq!(best.score_num, 5);
    assert_eq!(best.labels, vec![0, 0]);
    // Only a strictly greater score replaces.
    best.update(vec![1, 1], 1, 6);
    assert_eq!(best.score_num, 6);
    assert_eq!(best.labels, vec![1, 1]);
}

#[test]
fn converged_assignment_is_a_fixed_point() {
    let g = two_triangles();
    let stable = vec![0, 0, 0, 3, 3, 3];
    let (after, active) = round(&stable, &g);
    assert_eq!(active, 0);
    assert_eq!(after, stable);
    let (again, active_again) = round(&after, &g);
    assert_eq!(active_again, 0);
    assert_eq!(again, stable);
    assert_eq!(statistics(&again, &g), statistics(&stable, &g));
}

#[test]
fn scenario_two_triangles_converges_to_two_communities() {
    let g = two_triangles();
    let den = modularity_denominator(&g);
    let (labels, communities, num) = lpa(&g, 200);
    assert_eq!(communities, 2);
    assert_eq!(2 * num, den);
    assert!(labels[0] == labels[1] && labels[1] == labels[2]);
    assert!(labels[3] == labels[4] && labels[4] == labels[5]);
    assert_ne!(labels[0], labels[3]);
}

#[test]
fn scenario_path_best_is_at_least_singletons() {
    let g = build(4, vec![(0, 1), (1, 2), (2, 3)]);
    let (_, singleton_num) = statistics(&initial_labels(4), &g);
    let (_, _, best_num) = lpa(&g, 20);
    assert!(best_num >= singleton_num);
}

#[test]
fn scenario_isolated_vertex_keeps_label_and_adds_nothing() {
    let g = build(4, vec![(1, 2), (2, 3), (1, 3)]);
    let (labels, _, _) = lpa(&g, 20);
    assert_eq!(labels[0], 0);
    // The triangle as one community scores zero, so the whole score is the
    // isolated vertex's contribution: exactly zero.
    assert_eq!(statistics(&vec![0, 1, 1, 1], &g), (2, 0));
}

#[test]
fn scenario_zero_round_limit_returns_singletons() {
    let g = two_triangles();
    let (labels, communities, num) = lpa(&g, 0);
    assert_eq!(labels, vec![0, 1, 2, 3, 4, 5]);
    assert_eq!(communities, 6);
    let (expected_communities, expected_num) = statistics(&initial_labels(6), &g);
    assert_eq!(communities, expected_communities);
    assert_eq!(num, expected_num);
}

#[test]
fn round_adopts_neighbor_labels() {
    let g = build(2, vec![(0, 1)]);
    let (after, active) = round(&vec![0, 1], &g);
    assert_eq!(after, vec![1, 0]);
    assert_eq!(active, 2);
}

#[test]
fn assignment_length_is_vertex_count_after_every_round() {
    let g = build(4, vec![(0, 1), (1, 2), (2, 3)]);
    let mut cur = initial_labels(4);
    for _ in 0..5 {
        let (next, _) = round(&cur, &g);
        assert_eq!(next.len(), 4);
        cur = next;
    }
    let (labels, _, _) = lpa(&g, 7);
    assert_eq!(labels.len(), 4);
}

#[test]
fn update_adopts_strict_majority() {
    let g = build(4, vec![(0, 1), (0, 2), (0, 3)]);
    let labels = vec![0, 2, 2, 1];
    for _ in 0..50 {
        assert_eq!(update_vertex(0, &labels, &g), 2);
    }
}

#[test]
fn tie_break_is_roughly_uniform() {
    // Two labels tied at the maximal frequency: each should be chosen about
    // half the time. The bounds are loose enough that a uniform chooser fails
    // them with only negligible probability.
    let g = build(3, vec![(0, 1), (0, 2)]);
    let labels = vec![0, 1, 2];
    let mut ones: u32 = 0;
    for _ in 0..400 {
        if update_vertex(0, &labels, &g) == 1 {
            ones += 1;
        }
    }
    assert!(120 <= ones && ones <= 280, "ones = {}", ones);
}

#[test]
fn tie_break_reaches_both_sides() {
    let g = build(3, vec![(0, 1), (0, 2)]);
    let labels = vec![0, 1, 2];
    let mut saw_one = false;
    let mut saw_two = false;
    for _ in 0..200 {
        match update_vertex(0, &labels, &g) {
            1 => saw_one = true,
            2 => saw_two = true,
            other => panic!("inadmissible label {}", other),
        }
    }
    assert!(saw_one && saw_two);
}
