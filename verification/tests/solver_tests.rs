use loop_closure::assemble::Edge;
use loop_closure::solver::solve_graph_least_squares;

fn bits(v: f64) -> u64 {
    v.to_bits()
}

fn val(b: u64) -> f64 {
    f64::from_bits(b)
}

fn bits_vec(vs: &[f64]) -> Vec<u64> {
    vs.iter().map(|v| v.to_bits()).collect()
}

fn vals(bs: &[u64]) -> Vec<f64> {
    bs.iter().map(|b| f64::from_bits(*b)).collect()
}

fn edge(from: usize, to: usize, dx: f64, dy: f64, w: f64) -> Edge {
    Edge { from, to, dx: bits(dx), dy: bits(dy), weight: bits(w) }
}

#[test]
fn zero_edges_keep_initial_guess() {
    let mut x = bits_vec(&[1.0, 2.5, -3.0, 0.0]);
    let mut y = bits_vec(&[4.0, -0.5, 6.25, 7.0]);
    let x_before = x.clone();
    let y_before = y.clone();
    let flags = vec![true, false, false, true];
    let edges: Vec<Edge> = Vec::new();
    let status = solve_graph_least_squares(&mut x, &mut y, &flags, &edges, 100, bits(1e-9));
    assert_eq!(status, 0);
    assert_eq!(x, x_before);
    assert_eq!(y, y_before);
}

#[test]
fn anchored_edges_do_not_affect_result() {
    let flags = vec![true, true, false];
    let shared = vec![
        edge(0, 2, 1.0, 0.5, 1.0),
        edge(1, 2, 0.25, -0.5, 2.0),
    ];
    let mut with_anchored = shared.clone();
    with_anchored.insert(1, edge(0, 1, 9.0, -9.0, 4.0));

    let mut x1 = bits_vec(&[0.0, 1.0, 5.0]);
    let mut y1 = bits_vec(&[0.0, 2.0, 5.0]);
    let s1 = solve_graph_least_squares(&mut x1, &mut y1, &flags, &shared, 50, bits(1e-12));
    let mut x2 = bits_vec(&[0.0, 1.0, 5.0]);
    let mut y2 = bits_vec(&[0.0, 2.0, 5.0]);
    let s2 = solve_graph_least_squares(&mut x2, &mut y2, &flags, &with_anchored, 50, bits(1e-12));

    assert_eq!(s1, 0);
    assert_eq!(s2, 0);
    assert_eq!(x1, x2);
    assert_eq!(y1, y2);
}

#[test]
fn two_vertex_chain_converges() {
    let mut x = bits_vec(&[0.0, 5.0]);
    let mut y = bits_vec(&[0.0, 5.0]);
    let flags = vec![true, false];
    let edges = vec![edge(0, 1, 1.0, 0.0, 1.0)];
    let status = solve_graph_least_squares(&mut x, &mut y, &flags, &edges, 10, bits(1e-9));
    assert_eq!(status, 0);
    let xs = vals(&x);
    let ys = vals(&y);
    assert_eq!(xs[0], 0.0);
    assert_eq!(ys[0], 0.0);
    assert!((xs[1] - 1.0).abs() < 1e-9);
    assert!(ys[1].abs() < 1e-9);
}

#[test]
fn redundant_constraints_consistent() {
    let mut x = bits_vec(&[0.0, 0.5, 4.0]);
    let mut y = bits_vec(&[0.0, 1.0, -1.0]);
    let flags = vec![true, false, false];
    let edges = vec![
        edge(0, 1, 2.0, 0.0, 1.0),
        edge(0, 2, 2.0, 0.0, 1.0),
        edge(1, 2, 0.0, 0.0, 1.0),
    ];
    let status = solve_graph_least_squares(&mut x, &mut y, &flags, &edges, 50, bits(1e-12));
    assert_eq!(status, 0);
    let xs = vals(&x);
    let ys = vals(&y);
    assert!((xs[1] - 2.0).abs() < 1e-9);
    assert!((xs[2] - 2.0).abs() < 1e-9);
    assert!(ys[1].abs() < 1e-9);
    assert!(ys[2].abs() < 1e-9);
}

#[test]
fn weighted_average_pull() {
    // Free vertex 1 between anchors at 0.0 and 10.0, with zero observed
    // displacement on both edges: the minimum of
    // 3 * (x1 - 0)^2 + 1 * (10 - x1)^2 is the weighted average
    // (3 * 0 + 1 * 10) / 4 = 2.5, closer to the heavier anchor.
    let mut x = bits_vec(&[0.0, 5.0, 10.0]);
    let mut y = bits_vec(&[0.0, 0.0, 0.0]);
    let flags = vec![true, false, true];
    let edges = vec![
        edge(0, 1, 0.0, 0.0, 3.0),
        edge(1, 2, 0.0, 0.0, 1.0),
    ];
    let status = solve_graph_least_squares(&mut x, &mut y, &flags, &edges, 50, bits(1e-12));
    assert_eq!(status, 0);
    let xs = vals(&x);
    let expected = (3.0 * 0.0 + 1.0 * 10.0) / 4.0;
    assert!((xs[1] - expected).abs() < 1e-9);
    assert!((xs[1] - 0.0).abs() < (xs[1] - 10.0).abs());
}

#[test]
fn sentinel_iterations_fail_without_writing() {
    let mut x = bits_vec(&[0.0, 5.0]);
    let mut y = bits_vec(&[0.0, 5.0]);
    let x_before = x.clone();
    let y_before = y.clone();
    let flags = vec![true, false];
    let edges = vec![edge(0, 1, 1.0, 0.0, 1.0)];
    let status = solve_graph_least_squares(&mut x, &mut y, &flags, &edges, -1, bits(1e-9));
    assert_eq!(status, -1);
    assert_eq!(x, x_before);
    assert_eq!(y, y_before);
}

#[test]
fn anchorless_component_terminates() {
    // No path to any fixed anchor: the system is only positive
    // semi-definite.  The solver must still terminate within the iteration
    // cap and report success with finite best-effort values.
    let mut x = bits_vec(&[0.0, 0.0]);
    let mut y = bits_vec(&[0.0, 0.0]);
    let flags = vec![false, false];
    let edges = vec![edge(0, 1, 1.0, 0.0, 1.0)];
    let status = solve_graph_least_squares(&mut x, &mut y, &flags, &edges, 1000, bits(1e-12));
    assert_eq!(status, 0);
    for b in x.iter().chain(y.iter()) {
        assert!(val(*b).is_finite());
    }
}

#[test]
fn no_free_vertices_is_noop() {
    let mut x = bits_vec(&[1.0, 2.0]);
    let mut y = bits_vec(&[3.0, 4.0]);
    let x_before = x.clone();
    let y_before = y.clone();
    let flags = vec![true, true];
    let edges = vec![edge(0, 1, 7.0, 7.0, 1.0)];
    let status = solve_graph_least_squares(&mut x, &mut y, &flags, &edges, 25, bits(1e-9));
    assert_eq!(status, 0);
    assert_eq!(x, x_before);
    assert_eq!(y, y_before);
}

#[test]
fn duplicate_edges_accumulate() {
    // Two identical unit-weight edges must behave exactly like one edge of
    // weight two: the duplicated matrix and right-hand-side contributions
    // are summed, and all the sums involved are exact in binary64.
    let flags = vec![true, false];
    let doubled = vec![
        edge(0, 1, 1.0, 0.0, 1.0),
        edge(0, 1, 1.0, 0.0, 1.0),
    ];
    let single = vec![edge(0, 1, 1.0, 0.0, 2.0)];
    let mut x1 = bits_vec(&[0.0, 5.0]);
    let mut y1 = bits_vec(&[0.0, 5.0]);
    let s1 = solve_graph_least_squares(&mut x1, &mut y1, &flags, &doubled, 20, bits(1e-12));
    let mut x2 = bits_vec(&[0.0, 5.0]);
    let mut y2 = bits_vec(&[0.0, 5.0]);
    let s2 = solve_graph_least_squares(&mut x2, &mut y2, &flags, &single, 20, bits(1e-12));
    assert_eq!(s1, 0);
    assert_eq!(s2, 0);
    assert_eq!(x1, x2);
    assert_eq!(y1, y2);
    assert!((vals(&x1)[1] - 1.0).abs() < 1e-9);
}

#[test]
fn convergence_uses_residual_norm_root() {
    // Initial residual is 2, so rho starts at 4.  With tolerance 3 the
    // solver must stop before the first iteration (sqrt(4) = 2 < 3) and
    // hand the initial guess back; comparing rho itself against the
    // tolerance would iterate instead and move the vertex to 2.
    let mut x = bits_vec(&[2.0, 0.0]);
    let mut y = bits_vec(&[0.0, 0.0]);
    let flags = vec![true, false];
    let edges = vec![edge(0, 1, 0.0, 0.0, 1.0)];
    let status = solve_graph_least_squares(&mut x, &mut y, &flags, &edges, 5, bits(3.0));
    assert_eq!(status, 0);
    assert_eq!(vals(&x)[1], 0.0);
}

#[test]
fn zero_iteration_cap_returns_guess() {
    let mut x = bits_vec(&[0.0, 7.0]);
    let mut y = bits_vec(&[0.0, -7.0]);
    let x_before = x.clone();
    let y_before = y.clone();
    let flags = vec![true, false];
    let edges = vec![edge(0, 1, 1.0, 1.0, 1.0)];
    let status = solve_graph_least_squares(&mut x, &mut y, &flags, &edges, 0, bits(1e-9));
    assert_eq!(status, 0);
    assert_eq!(x, x_before);
    assert_eq!(y, y_before);
}
