use pso::fixed::SCALE;
use pso::pso::{ConfigurationError, Pso};
use pso::topology::reachable_within;
use rand::SeedableRng;
use rand::rngs::StdRng;

fn eval_func(position: &Vec<i64>) -> i64 {
    position.iter().fold(0i64, |acc, &x| acc.saturating_add(x))
}

fn sphere(position: &Vec<i64>) -> i64 {
    position
        .iter()
        .fold(0i64, |acc, &x| acc.saturating_add(pso::fixed::fmul(x, x)))
}

fn test_graph() -> Vec<Vec<usize>> {
    vec![
        vec![1, 2],
        vec![0, 2],
        vec![0, 1, 3],
        vec![2, 4],
        vec![3, 5],
        vec![4, 6],
        vec![5, 7],
        vec![6, 8],
        vec![7, 9],
        vec![8],
    ]
}

fn complete_graph(n: usize) -> Vec<Vec<usize>> {
    let mut graph = Vec::new();
    for i in 0..n {
        let mut row = Vec::new();
        for j in 0..n {
            if i != j {
                row.push(j);
            }
        }
        graph.push(row);
    }
    graph
}

#[test]
fn test_pso_new() {
    let w = SCALE / 2;
    let c1 = SCALE;
    let c2 = 2 * SCALE;
    let min = 0;
    let max = SCALE;
    let dim = 2;
    let neighborhood_graph = test_graph();
    let neighborhood_depth = 1;
    let mut rng = StdRng::seed_from_u64(1);

    let pso = Pso::new(
        w,
        c1,
        c2,
        min,
        max,
        dim,
        eval_func,
        &neighborhood_graph,
        neighborhood_depth,
        &mut rng,
    )
    .unwrap();

    assert_eq!(pso.particles.len(), neighborhood_graph.len());
    assert_eq!(pso.global_best.len(), dim);
}

#[test]
fn test_pso_update() {
    let w = SCALE / 2;
    let c1 = SCALE;
    let c2 = 2 * SCALE;
    let min = 0;
    let max = SCALE;
    let dim = 2;
    let neighborhood_graph = test_graph();
    let neighborhood_depth = 1;
    let mut rng = StdRng::seed_from_u64(2);

    let mut pso = Pso::new(
        w,
        c1,
        c2,
        min,
        max,
        dim,
        eval_func,
        &neighborhood_graph,
        neighborhood_depth,
        &mut rng,
    )
    .unwrap();

    pso.update(&mut rng);
}

#[test]
fn test_pso_local_best_idx() {
    let w = SCALE / 2;
    let c1 = SCALE;
    let c2 = 2 * SCALE;
    let min = 0;
    let max = SCALE;
    let dim = 2;
    let neighborhood_graph = test_graph();
    let neighborhood_depth = 1;
    let mut rng = StdRng::seed_from_u64(3);

    let pso = Pso::new(
        w,
        c1,
        c2,
        min,
        max,
        dim,
        eval_func,
        &neighborhood_graph,
        neighborhood_depth,
        &mut rng,
    )
    .unwrap();

    let _ = pso.local_best_idx(0);
}

#[test]
fn test_pso_run() {
    let w = SCALE / 2;
    let c1 = SCALE;
    let c2 = 2 * SCALE;
    let min = 0;
    let max = SCALE;
    let dim = 2;
    let neighborhood_graph = test_graph();
    let neighborhood_depth = 1;
    let mut rng = StdRng::seed_from_u64(4);

    let mut pso = Pso::new(
        w,
        c1,
        c2,
        min,
        max,
        dim,
        eval_func,
        &neighborhood_graph,
        neighborhood_depth,
        &mut rng,
    )
    .unwrap();

    pso.run(&mut rng, 10, false);
}

#[test]
fn particle_lengths_match_dimensionality() {
    let dim = 7;
    let mut rng = StdRng::seed_from_u64(5);
    let pso = Pso::new(
        SCALE / 2,
        SCALE,
        SCALE,
        -3 * SCALE,
        3 * SCALE,
        dim,
        eval_func,
        &test_graph(),
        2,
        &mut rng,
    )
    .unwrap();
    for p in &pso.particles {
        assert_eq!(p.position.len(), dim);
        assert_eq!(p.velocity.len(), dim);
        assert_eq!(p.personal_best.len(), dim);
    }
    assert_eq!(pso.global_best.len(), dim);
    assert_eq!(pso.personal_best_scores.len(), pso.particles.len());
    assert_eq!(pso.position_scores.len(), pso.particles.len());
}

#[test]
fn initial_positions_within_bounds_and_randomized() {
    let min = 3 * SCALE;
    let max = 5 * SCALE;
    let mut rng = StdRng::seed_from_u64(6);
    let pso = Pso::new(
        SCALE / 2,
        SCALE,
        SCALE,
        min,
        max,
        5,
        eval_func,
        &complete_graph(20),
        1,
        &mut rng,
    )
    .unwrap();
    let mut all_equal = true;
    let first = pso.particles[0].position[0];
    for p in &pso.particles {
        for (&x, &v) in p.position.iter().zip(p.velocity.iter()) {
            assert!(min <= x && x <= max);
            assert_eq!(v, 0);
            if x != first {
                all_equal = false;
            }
        }
        assert_eq!(p.personal_best, p.position);
    }
    assert!(!all_equal);
}

#[test]
fn construction_errors() {
    let mut rng = StdRng::seed_from_u64(7);
    let empty: Vec<Vec<usize>> = Vec::new();
    assert_eq!(
        Pso::new(0, 0, 0, 0, SCALE, 2, eval_func, &empty, 1, &mut rng).err(),
        Some(ConfigurationError::EmptyTopology)
    );
    let bad_index = vec![vec![5]];
    assert_eq!(
        Pso::new(0, 0, 0, 0, SCALE, 2, eval_func, &bad_index, 1, &mut rng).err(),
        Some(ConfigurationError::NeighborOutOfRange)
    );
    let ok_graph = vec![vec![0]];
    assert_eq!(
        Pso::new(0, 0, 0, SCALE, 0, 2, eval_func, &ok_graph, 1, &mut rng).err(),
        Some(ConfigurationError::InvalidBounds)
    );
    assert_eq!(
        Pso::new(0, 0, 0, 0, SCALE, 0, eval_func, &ok_graph, 1, &mut rng).err(),
        Some(ConfigurationError::ZeroDimension)
    );
}

#[test]
fn global_best_score_never_regresses() {
    let mut rng = StdRng::seed_from_u64(8);
    let mut pso = Pso::new(
        700_000,
        1_400_000,
        1_400_000,
        -10 * SCALE,
        10 * SCALE,
        3,
        sphere,
        &test_graph(),
        1,
        &mut rng,
    )
    .unwrap();
    let mut last = pso.global_best_score;
    for _ in 0..30 {
        pso.update(&mut rng);
        assert!(pso.global_best_score <= last);
        last = pso.global_best_score;
    }
}

#[test]
fn run_zero_iterations_changes_nothing() {
    let mut rng = StdRng::seed_from_u64(9);
    let mut pso = Pso::new(
        SCALE / 2,
        SCALE,
        2 * SCALE,
        -SCALE,
        SCALE,
        4,
        sphere,
        &test_graph(),
        1,
        &mut rng,
    )
    .unwrap();
    let positions: Vec<Vec<i64>> = pso.particles.iter().map(|p| p.position.clone()).collect();
    let velocities: Vec<Vec<i64>> = pso.particles.iter().map(|p| p.velocity.clone()).collect();
    let bests: Vec<Vec<i64>> = pso.particles.iter().map(|p| p.personal_best.clone()).collect();
    let global_best = pso.global_best.clone();
    let global_best_score = pso.global_best_score;
    pso.run(&mut rng, 0, false);
    for (i, p) in pso.particles.iter().enumerate() {
        assert_eq!(p.position, positions[i]);
        assert_eq!(p.velocity, velocities[i]);
        assert_eq!(p.personal_best, bests[i]);
    }
    assert_eq!(pso.global_best, global_best);
    assert_eq!(pso.global_best_score, global_best_score);
}

#[test]
fn sphere_converges_with_full_connectivity() {
    let mut rng = StdRng::seed_from_u64(10);
    let mut pso = Pso::new(
        700_000,
        1_400_000,
        1_400_000,
        -10 * SCALE,
        10 * SCALE,
        5,
        sphere,
        &complete_graph(20),
        1,
        &mut rng,
    )
    .unwrap();
    let initial = pso.global_best_score;
    pso.run(&mut rng, 120, false);
    let final_score = pso.global_best_score;
    assert!(final_score >= 0);
    assert!(final_score <= initial / 4);
}

#[test]
fn local_best_depth_zero_returns_self() {
    let mut rng = StdRng::seed_from_u64(11);
    let pso = Pso::new(
        SCALE / 2,
        SCALE,
        SCALE,
        0,
        SCALE,
        2,
        eval_func,
        &test_graph(),
        0,
        &mut rng,
    )
    .unwrap();
    for i in 0..pso.particles.len() {
        assert_eq!(pso.local_best_idx(i), i);
    }
}

#[test]
fn depth_one_neighborhood_is_self_plus_direct_neighbors() {
    let graph = vec![vec![1, 2], vec![0, 2], vec![0, 1, 3], vec![2, 4], vec![3]];
    let reach = reachable_within(&graph, 2, 1);
    assert_eq!(reach, vec![true, true, true, true, false]);
}

#[test]
fn local_best_ignores_particles_beyond_depth() {
    let graph = vec![vec![1, 2], vec![0, 2], vec![0, 1, 3], vec![2, 4], vec![3]];
    let mut rng = StdRng::seed_from_u64(12);
    let mut pso = Pso::new(
        SCALE / 2,
        SCALE,
        SCALE,
        0,
        SCALE,
        1,
        eval_func,
        &graph,
        1,
        &mut rng,
    )
    .unwrap();
    // particle 4 scores best of all, but lies two hops from particle 2 and
    // must not be chosen; particle 3 is the best within one hop.
    pso.position_scores = vec![5, 1, 9, 0, -100];
    assert_eq!(pso.local_best_idx(2), 3);
    // on a tie the queried particle wins against its neighbors
    pso.position_scores = vec![0, 0, 0, 5, 5];
    assert_eq!(pso.local_best_idx(2), 2);
}
