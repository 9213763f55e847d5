use clarans::partition::worker_share;
use clarans::point::Distance;
use clarans::point::GridPoint;
use clarans::rng::RandomSource;
use clarans::rng::SeededRandom;
use clarans::rng::ThreadRandom;
use clarans::search::calculate_medoids;
use clarans::search::calculate_medoids_fast;
use clarans::search::compute_total_cost;
use clarans::search::get_neighbor;
use clarans::search::init_medoids;

fn two_cluster_points() -> Vec<GridPoint> {
    vec![
        GridPoint::new(0, 0),
        GridPoint::new(0, 1),
        GridPoint::new(10, 0),
        GridPoint::new(10, 1),
    ]
}

#[test]
fn grid_point_distance_values() {
    let a = GridPoint::new(0, 0);
    let b = GridPoint::new(3, 4);
    assert_eq!(a.distance(&b), 25);
    assert_eq!(b.distance(&a), 25);
    assert_eq!(a.distance(&a), 0);
    let c = GridPoint::new(-2, 5);
    assert_eq!(a.distance(&c), 29);
}

#[test]
fn cost_evaluator_exact_value() {
    let points = two_cluster_points();
    // medoids (0,0) and (10,0): costs 0, 1, 0, 1
    assert_eq!(compute_total_cost(&points, &vec![0, 2]), 2);
    // single medoid (0,0): costs 0, 1, 100, 101
    assert_eq!(compute_total_cost(&points, &vec![0]), 202);
}

#[test]
fn cost_evaluator_idempotent() {
    let points = two_cluster_points();
    let medoids = vec![1, 2];
    let first = compute_total_cost(&points, &medoids);
    let second = compute_total_cost(&points, &medoids);
    assert_eq!(first, second);
}

#[test]
fn cost_evaluator_tolerates_duplicate_medoids() {
    // a degenerate proposal may repeat a position; it is costed normally
    let points = two_cluster_points();
    assert_eq!(compute_total_cost(&points, &vec![0, 0]), 202);
}

#[test]
fn returned_cost_matches_recomputation() {
    let points = two_cluster_points();
    let mut rng = SeededRandom::new(11);
    let (medoids, cost) = calculate_medoids(&points, 2, 5, 20, &mut rng);
    assert_eq!(cost, compute_total_cost(&points, &medoids));

    let mut rng = SeededRandom::new(12);
    let (medoids, cost) = calculate_medoids_fast(&points, 2, 9, 20, 3, &mut rng);
    assert_eq!(cost, compute_total_cost(&points, &medoids));
}

#[test]
fn zero_neighbors_returns_initial_sample() {
    // with no refinement budget, one restart returns its initial random
    // sample unchanged; a seeded source makes the sample reproducible
    let points = two_cluster_points();
    let mut sample_rng = SeededRandom::new(42);
    let sample = init_medoids(points.len(), 2, &mut sample_rng);
    let expected = compute_total_cost(&points, &sample);

    let mut search_rng = SeededRandom::new(42);
    let (medoids, cost) = calculate_medoids(&points, 2, 1, 0, &mut search_rng);
    assert_eq!(medoids, sample);
    assert_eq!(cost, expected);
}

#[test]
fn more_restarts_never_worse() {
    let points = vec![
        GridPoint::new(0, 0),
        GridPoint::new(1, 7),
        GridPoint::new(4, 4),
        GridPoint::new(9, 2),
        GridPoint::new(-3, 6),
        GridPoint::new(12, -5),
    ];
    let mut last: Option<u128> = None;
    for minima in 1..8 {
        let mut rng = SeededRandom::new(5);
        let (_, cost) = calculate_medoids(&points, 2, minima, 3, &mut rng);
        if let Some(previous) = last {
            assert!(cost <= previous);
        }
        last = Some(cost);
    }
}

#[test]
fn partition_covers_budget_exactly() {
    for &(minima, threads) in &[(10usize, 3usize), (1, 8), (7, 7), (0, 4), (1000, 8), (5, 1)] {
        let mut sum = 0usize;
        for tid in 0..threads {
            let share = worker_share(minima, threads, tid);
            assert!(share <= minima / threads + 1);
            sum += share;
        }
        assert_eq!(sum, minima);
    }
}

#[test]
fn converges_on_two_clusters() {
    let points = two_cluster_points();
    let mut rng = SeededRandom::new(3);
    let (medoids, cost) = calculate_medoids(&points, 2, 10, 60, &mut rng);
    assert_eq!(cost, 2);
    let mut sorted = medoids.clone();
    sorted.sort();
    assert!(sorted[0] == 0 || sorted[0] == 1);
    assert!(sorted[1] == 2 || sorted[1] == 3);
}

#[test]
fn every_point_its_own_medoid() {
    let points = two_cluster_points();
    let mut rng = SeededRandom::new(9);
    let (medoids, cost) = calculate_medoids(&points, points.len(), 3, 5, &mut rng);
    assert_eq!(cost, 0);
    let mut sorted = medoids.clone();
    sorted.sort();
    assert_eq!(sorted, vec![0, 1, 2, 3]);
}

#[test]
fn single_medoid_matches_brute_force() {
    let points = vec![
        GridPoint::new(0, 0),
        GridPoint::new(2, 1),
        GridPoint::new(3, 3),
        GridPoint::new(8, 1),
        GridPoint::new(1, 2),
        GridPoint::new(5, 5),
        GridPoint::new(2, 2),
        GridPoint::new(7, 0),
        GridPoint::new(4, 1),
        GridPoint::new(3, 2),
    ];
    let mut best = u128::MAX;
    for i in 0..points.len() {
        let c = compute_total_cost(&points, &vec![i]);
        if c < best {
            best = c;
        }
    }
    let mut rng = SeededRandom::new(17);
    let (medoids, cost) = calculate_medoids(&points, 1, 20, 100, &mut rng);
    assert_eq!(cost, best);
    assert_eq!(compute_total_cost(&points, &vec![medoids[0]]), best);
}

#[test]
fn parallel_plan_agrees_with_recomputation_on_single_point() {
    let points = vec![GridPoint::new(4, -4)];
    let mut rng = SeededRandom::new(2);
    let (medoids, cost) = calculate_medoids_fast(&points, 1, 4, 6, 2, &mut rng);
    assert_eq!(medoids, vec![0]);
    assert_eq!(cost, 0);
}

#[test]
fn neighbor_changes_at_most_one_slot() {
    let medoids = vec![0usize, 1, 2];
    let mut rng = SeededRandom::new(8);
    for _ in 0..20 {
        let neighbor = get_neighbor(4, &medoids, &mut rng);
        assert_eq!(neighbor.len(), medoids.len());
        let changed = medoids
            .iter()
            .zip(neighbor.iter())
            .filter(|(a, b)| a != b)
            .count();
        assert!(changed <= 1);
        for &m in &neighbor {
            assert!(m < 4);
        }
    }
}

#[test]
fn seeded_source_repeats_and_stays_below_bound() {
    let mut a = SeededRandom::new(123);
    let mut b = SeededRandom::new(123);
    for _ in 0..50 {
        let x = a.below(7);
        let y = b.below(7);
        assert_eq!(x, y);
        assert!(x < 7);
    }
    let mut c = SeededRandom::new(123);
    let sample = c.sample_distinct(10, 10);
    let mut sorted = sample.clone();
    sorted.sort();
    assert_eq!(sorted, (0..10).collect::<Vec<usize>>());
}

#[test]
fn seeded_sample_is_distinct_and_bounded() {
    let mut rng = SeededRandom::new(77);
    let sample = rng.sample_distinct(9, 4);
    assert_eq!(sample.len(), 4);
    for i in 0..sample.len() {
        assert!(sample[i] < 9);
        for j in 0..i {
            assert_ne!(sample[i], sample[j]);
        }
    }
}

#[test]
fn thread_source_respects_bounds() {
    let mut rng = ThreadRandom::new();
    for _ in 0..50 {
        assert!(rng.below(5) < 5);
    }
    let sample = rng.sample_distinct(12, 12);
    let mut sorted = sample.clone();
    sorted.sort();
    assert_eq!(sorted, (0..12).collect::<Vec<usize>>());
    let partial = rng.sample_distinct(12, 5);
    assert_eq!(partial.len(), 5);
    for i in 0..partial.len() {
        assert!(partial[i] < 12);
        for j in 0..i {
            assert_ne!(partial[i], partial[j]);
        }
    }
}

#[test]
fn thread_source_drives_search() {
    let points = two_cluster_points();
    let mut rng = ThreadRandom::new();
    let (medoids, cost) = calculate_medoids_fast(&points, 2, 20, 60, 4, &mut rng);
    assert_eq!(cost, compute_total_cost(&points, &medoids));
    assert_eq!(medoids.len(), 2);
}
