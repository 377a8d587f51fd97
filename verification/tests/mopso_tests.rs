use pso::fixed::SCALE;
use pso::mopso::{Mopso, dominates, nondominated_indices};
use rand::SeedableRng;
use rand::rngs::StdRng;

fn objective_sum(position: &Vec<i64>) -> i64 {
    position.iter().fold(0i64, |acc, &x| acc.saturating_add(x))
}

fn objective_neg_sum(position: &Vec<i64>) -> i64 {
    position.iter().fold(0i64, |acc, &x| acc.saturating_sub(x))
}

#[test]
fn dominates_basic_cases() {
    assert!(dominates(&vec![1, 2], &vec![1, 3]));
    assert!(dominates(&vec![0, 0], &vec![1, 1]));
    assert!(!dominates(&vec![1, 3], &vec![1, 2]));
    assert!(!dominates(&vec![2, 0], &vec![0, 2]));
    assert!(!dominates(&vec![0, 2], &vec![2, 0]));
}

#[test]
fn dominates_is_irreflexive() {
    let a = vec![3, 1, 4, 1, 5];
    assert!(!dominates(&a, &a));
    let b: Vec<i64> = Vec::new();
    assert!(!dominates(&b, &b));
}

#[test]
fn dominates_is_asymmetric() {
    let a = vec![1, 2];
    let b = vec![1, 3];
    assert!(dominates(&a, &b));
    assert!(!dominates(&b, &a));
}

#[test]
fn nondominated_front_of_small_population() {
    // row 3 is dominated by row 1; the other rows are mutually nondominated
    let m = vec![vec![0, 5], vec![1, 1], vec![2, 0], vec![3, 3]];
    assert_eq!(nondominated_indices(&m), vec![0, 1, 2]);
}

#[test]
fn identical_objective_vectors_are_both_retained() {
    let m = vec![vec![1, 1], vec![1, 1]];
    assert_eq!(nondominated_indices(&m), vec![0, 1]);
}

#[test]
fn front_of_empty_population_is_empty() {
    let m: Vec<Vec<i64>> = Vec::new();
    assert_eq!(nondominated_indices(&m), Vec::<usize>::new());
}

#[test]
fn archive_is_mutually_nondominated() {
    let funcs: Vec<fn(&Vec<i64>) -> i64> = vec![objective_sum, objective_neg_sum];
    let mut rng = StdRng::seed_from_u64(21);
    let mopso = Mopso::new(
        SCALE / 2,
        SCALE,
        SCALE,
        -2 * SCALE,
        2 * SCALE,
        12,
        3,
        funcs.clone(),
        &mut rng,
    );
    assert_eq!(mopso.particles.len(), 12);
    for p in &mopso.particles {
        assert_eq!(p.position.len(), 3);
        assert_eq!(p.velocity.len(), 3);
        assert_eq!(p.personal_best.len(), 3);
    }
    assert!(!mopso.external_archive.is_empty());
    let scores: Vec<Vec<i64>> = mopso
        .external_archive
        .iter()
        .map(|p| funcs.iter().map(|f| f(&p.position)).collect())
        .collect();
    for i in 0..scores.len() {
        for j in 0..scores.len() {
            if i != j {
                assert!(!dominates(&scores[j], &scores[i]));
            }
        }
    }
}

#[test]
fn multi_objective_update_is_a_snapshot_no_op() {
    let funcs: Vec<fn(&Vec<i64>) -> i64> = vec![objective_sum];
    let mut rng = StdRng::seed_from_u64(22);
    let mut mopso = Mopso::new(SCALE / 2, SCALE, SCALE, 0, SCALE, 4, 2, funcs, &mut rng);
    let positions: Vec<Vec<i64>> = mopso.particles.iter().map(|p| p.position.clone()).collect();
    let archive_len = mopso.external_archive.len();
    mopso.update(&mut rng);
    for (i, p) in mopso.particles.iter().enumerate() {
        assert_eq!(p.position, positions[i]);
    }
    assert_eq!(mopso.external_archive.len(), archive_len);
}
