use vstd::prelude::*;

verus! {

use crate::best::costs_of;
use crate::best::first_min_pos;
use crate::best::lemma_first_min_pos;
use crate::best::reduce_best;
use crate::best::seq_min;
use crate::partition::lemma_first_share_positive;
use crate::partition::worker_share;
use crate::point::Distance;
use crate::rng::RandomSource;

/// Every item of the collection is one the distance is defined on.
pub open spec fn all_wf<T: Distance>(points: Seq<T>) -> bool {
    forall|i: int| 0 <= i < points.len() ==> points[i].wf()
}

/// A medoid set over a collection of `n_points` items: a non-empty vector
/// of positions into the collection.
pub open spec fn valid_medoids(medoids: Seq<usize>, n_points: int) -> bool {
    &&& medoids.len() >= 1
    &&& forall|j: int| 0 <= j < medoids.len() ==> medoids[j] < n_points
}

/// No position occurs twice.
pub open spec fn distinct_indices(s: Seq<usize>) -> bool {
    forall|i: int, j: int| 0 <= i < j < s.len() ==> s[i] != s[j]
}

/// The distance from the item at `pi` to each medoid, in medoid order.
pub open spec fn dists_of<T: Distance>(points: Seq<T>, medoids: Seq<usize>, pi: int) -> Seq<
    int,
> {
    medoids.map(|j: int, m: usize| points[pi].dist_spec(&points[m as int]) as int)
}

/// The assignment cost of the item at `pi`: its distance to the nearest
/// medoid.
pub open spec fn assign_cost<T: Distance>(points: Seq<T>, medoids: Seq<usize>, pi: int) -> int {
    seq_min(dists_of(points, medoids, pi))
}

/// Sum of the assignment costs of the first `n` items.
pub open spec fn cost_prefix<T: Distance>(points: Seq<T>, medoids: Seq<usize>, n: int) -> int
    decreases n,
{
    if n <= 0 {
        0
    } else {
        cost_prefix(points, medoids, n - 1) + assign_cost(points, medoids, n - 1)
    }
}

/// The total assignment cost of a medoid set: the sum, over all items of
/// the collection, of the distance from the item to its nearest medoid.
pub open spec fn total_cost<T: Distance>(points: Seq<T>, medoids: Seq<usize>) -> int {
    cost_prefix(points, medoids, points.len() as int)
}

/// Returns the medoid of `medoids` nearest to the item at `pi`, as a
/// position into `points`, together with that distance. Ties keep the
/// earliest medoid in iteration order.
#[verifier::loop_isolation(false)]
pub fn closest_medoid<T: Distance>(points: &Vec<T>, pi: usize, medoids: &Vec<usize>) -> (r: (
    usize,
    u64,
))
    requires
        all_wf(points@),
        pi < points@.len(),
        valid_medoids(medoids@, points@.len() as int),
    ensures
        r.0 == medoids@[first_min_pos(dists_of(points@, medoids@, pi as int))],
        r.1 as int == seq_min(dists_of(points@, medoids@, pi as int)),
{
    let ghost dists = dists_of(points@, medoids@, pi as int);
    let mut min_point: usize = medoids[0];
    let mut min_distance: u64 = points[pi].distance(&points[medoids[0]]);
    let mut j: usize = 1;
    while j < medoids.len()
        invariant
            1 <= j <= medoids@.len(),
            min_point == medoids@[first_min_pos(dists.take(j as int))],
            min_distance as int == seq_min(dists.take(j as int)),
        decreases medoids@.len() - j,
    {
        proof {
            assert(dists.take(j as int + 1).drop_last() =~= dists.take(j as int));
            lemma_first_min_pos(dists.take(j as int));
        }
        let d = points[pi].distance(&points[medoids[j]]);
        if d < min_distance {
            min_distance = d;
            min_point = medoids[j];
        }
        j = j + 1;
    }
    proof {
        assert(dists.take(dists.len() as int) =~= dists);
    }
    (min_point, min_distance)
}

/// Computes the total assignment cost of `medoids` against `points`. The
/// sum is carried in a `u128`, which cannot overflow: it is bounded by the
/// number of items times the largest single distance.
#[verifier::loop_isolation(false)]
pub fn compute_total_cost<T: Distance>(points: &Vec<T>, medoids: &Vec<usize>) -> (c: u128)
    requires
        all_wf(points@),
        valid_medoids(medoids@, points@.len() as int),
    ensures
        c as int == total_cost(points@, medoids@),
{
    let mut c: u128 = 0;
    let mut i: usize = 0;
    while i < points.len()
        invariant
            0 <= i <= points@.len(),
            c as int == cost_prefix(points@, medoids@, i as int),
            c as int <= i as int * (u64::MAX as int),
        decreases points@.len() - i,
    {
        let (_, d) = closest_medoid(points, i, medoids);
        proof {
            lemma_first_min_pos(dists_of(points@, medoids@, i as int));
            assert((i as int + 1) * (u64::MAX as int) == i as int * (u64::MAX as int) + (
            u64::MAX as int));
        }
        c = c + d as u128;
        i = i + 1;
    }
    c
}

/// Produces one neighbor of `medoids`: the same medoid set with a uniformly
/// random slot replaced by a uniformly random position of the collection.
/// The replacement is drawn with replacement, so the proposal may repeat a
/// position that is already a medoid; such a degenerate proposal is
/// evaluated like any other.
#[verifier::loop_isolation(false)]
pub fn get_neighbor<R: RandomSource>(n_points: usize, medoids: &Vec<usize>, rng: &mut R) -> (r:
    Vec<usize>)
    requires
        n_points >= 1,
        medoids@.len() >= 1,
    ensures
        r@.len() == medoids@.len(),
        exists|slot: int, p: usize|
            0 <= slot < medoids@.len() && p < n_points && r@ == medoids@.update(slot, p),
        valid_medoids(medoids@, n_points as int) ==> valid_medoids(r@, n_points as int),
{
    let slot = rng.below(medoids.len());
    let p = rng.below(n_points);
    let ghost target = medoids@.update(slot as int, p);
    let mut r: Vec<usize> = Vec::new();
    let mut i: usize = 0;
    while i < medoids.len()
        invariant
            i <= medoids@.len(),
            r@ == target.take(i as int),
        decreases medoids@.len() - i,
    {
        if i == slot {
            r.push(p);
        } else {
            r.push(medoids[i]);
        }
        proof {
            assert(r@ =~= target.take(i as int + 1));
        }
        i = i + 1;
    }
    proof {
        assert(target.take(medoids@.len() as int) =~= target);
    }
    r
}

/// Samples an initial medoid set: `count` distinct positions drawn
/// uniformly at random without replacement from a collection of `n_points`
/// items.
pub fn init_medoids<R: RandomSource>(n_points: usize, count: usize, rng: &mut R) -> (r: Vec<
    usize,
>)
    requires
        count <= n_points,
    ensures
        r@.len() == count,
        forall|i: int| 0 <= i < count ==> r@[i] < n_points,
        distinct_indices(r@),
{
    rng.sample_distinct(n_points, count)
}

/// One restart of the local search: samples an initial medoid set, then
/// repeatedly proposes neighbors, migrating to any strictly cheaper one.
/// An adopted move resets the trial counter, so the restart ends only after
/// `max_neighbors` consecutive non-improving proposals. The returned cost
/// is the total assignment cost of the returned medoid set.
#[verifier::loop_isolation(false)]
pub fn single_restart<T: Distance, R: RandomSource>(
    points: &Vec<T>,
    num_clusters: usize,
    max_neighbors: usize,
    rng: &mut R,
) -> (r: (Vec<usize>, u128))
    requires
        all_wf(points@),
        1 <= num_clusters <= points@.len(),
    ensures
        r.0@.len() == num_clusters,
        valid_medoids(r.0@, points@.len() as int),
        r.1 as int == total_cost(points@, r.0@),
        max_neighbors == 0 ==> distinct_indices(r.0@),
{
    let mut current = init_medoids(points.len(), num_clusters, rng);
    let mut current_cost = compute_total_cost(points, &current);
    let mut trials: usize = 0;
    while trials < max_neighbors
        invariant
            trials <= max_neighbors,
            current@.len() == num_clusters,
            valid_medoids(current@, points@.len() as int),
            current_cost as int == total_cost(points@, current@),
            max_neighbors == 0 ==> distinct_indices(current@),
        decreases current_cost, max_neighbors - trials,
    {
        let neighbor = get_neighbor(points.len(), &current, rng);
        let neighbor_cost = compute_total_cost(points, &neighbor);
        if neighbor_cost < current_cost {
            current = neighbor;
            current_cost = neighbor_cost;
            trials = 0;
        } else {
            trials = trials + 1;
        }
    }
    (current, current_cost)
}

/// The multi-restart driver: runs `minima` independent restarts and returns
/// the best (medoid set, cost) pair found, an earlier restart winning exact
/// cost ties. The returned cost is the total assignment cost of the
/// returned medoid set, recomputable from it.
#[verifier::loop_isolation(false)]
pub fn calculate_medoids<T: Distance, R: RandomSource>(
    points: &Vec<T>,
    num_clusters: usize,
    minima: usize,
    max_neighbors: usize,
    rng: &mut R,
) -> (r: (Vec<usize>, u128))
    requires
        all_wf(points@),
        1 <= num_clusters <= points@.len(),
        minima >= 1,
    ensures
        r.0@.len() == num_clusters,
        valid_medoids(r.0@, points@.len() as int),
        r.1 as int == total_cost(points@, r.0@),
        max_neighbors == 0 ==> distinct_indices(r.0@),
{
    let mut best = single_restart(points, num_clusters, max_neighbors, rng);
    let mut i: usize = 1;
    while i < minima
        invariant
            1 <= i <= minima,
            best.0@.len() == num_clusters,
            valid_medoids(best.0@, points@.len() as int),
            best.1 as int == total_cost(points@, best.0@),
            max_neighbors == 0 ==> distinct_indices(best.0@),
        decreases minima - i,
    {
        let candidate = single_restart(points, num_clusters, max_neighbors, rng);
        if candidate.1 < best.1 {
            best = candidate;
        }
        i = i + 1;
    }
    best
}

/// The parallel driver's plan, run to completion: splits the `minima`
/// restart budget over `num_threads` workers as evenly as possible, runs
/// the multi-restart driver once per worker share, and reduces the
/// worker-local bests to the global best, the lowest worker index winning
/// exact cost ties. The returned cost is the total assignment cost of the
/// returned medoid set.
#[verifier::loop_isolation(false)]
pub fn calculate_medoids_fast<T: Distance, R: RandomSource>(
    points: &Vec<T>,
    num_clusters: usize,
    minima: usize,
    max_neighbors: usize,
    num_threads: usize,
    rng: &mut R,
) -> (r: (Vec<usize>, u128))
    requires
        all_wf(points@),
        1 <= num_clusters <= points@.len(),
        minima >= 1,
        num_threads >= 1,
    ensures
        r.0@.len() == num_clusters,
        valid_medoids(r.0@, points@.len() as int),
        r.1 as int == total_cost(points@, r.0@),
        max_neighbors == 0 ==> distinct_indices(r.0@),
{
    let mut results: Vec<(Vec<usize>, u128)> = Vec::new();
    let mut tid: usize = 0;
    while tid < num_threads
        invariant
            tid <= num_threads,
            tid >= 1 ==> results@.len() >= 1,
            forall|e: int|
                0 <= e < results@.len() ==> {
                    &&& (#[trigger] results@[e]).0@.len() == num_clusters
                    &&& valid_medoids(results@[e].0@, points@.len() as int)
                    &&& results@[e].1 as int == total_cost(points@, results@[e].0@)
                    &&& (max_neighbors == 0 ==> distinct_indices(results@[e].0@))
                },
        decreases num_threads - tid,
    {
        let share = worker_share(minima, num_threads, tid);
        proof {
            if tid == 0 {
                lemma_first_share_positive(minima as int, num_threads as int);
            }
        }
        if share >= 1 {
            let local = calculate_medoids(points, num_clusters, share, max_neighbors, rng);
            results.push(local);
        }
        tid = tid + 1;
    }
    let ghost collected = results@;
    let r = reduce_best(results);
    proof {
        lemma_first_min_pos(costs_of(collected));
    }
    r
}

proof fn lemma_cost_prefix_nonneg<T: Distance>(points: Seq<T>, medoids: Seq<usize>, n: int)
    requires
        medoids.len() >= 1,
        0 <= n <= points.len(),
    ensures
        cost_prefix(points, medoids, n) >= 0,
    decreases n,
{
    if n > 0 {
        lemma_cost_prefix_nonneg(points, medoids, n - 1);
        let dists = dists_of(points, medoids, n - 1);
        lemma_first_min_pos(dists);
        assert(dists[first_min_pos(dists)] >= 0);
    }
}

/// The total assignment cost is never negative: each item's assignment
/// cost is a distance, and distances are non-negative.
pub proof fn lemma_total_cost_nonneg<T: Distance>(points: Seq<T>, medoids: Seq<usize>)
    requires
        medoids.len() >= 1,
    ensures
        total_cost(points, medoids) >= 0,
{
    lemma_cost_prefix_nonneg(points, medoids, points.len() as int);
}

proof fn lemma_cost_prefix_zero<T: Distance>(points: Seq<T>, medoids: Seq<usize>, n: int)
    requires
        points.len() <= usize::MAX,
        valid_medoids(medoids, points.len() as int),
        forall|i: int| 0 <= i < points.len() ==> medoids.contains(#[trigger] (i as usize)),
        forall|i: int|
            0 <= i < points.len() ==> #[trigger] points[i].dist_spec(&points[i]) == 0,
        0 <= n <= points.len(),
    ensures
        cost_prefix(points, medoids, n) == 0,
    decreases n,
{
    if n > 0 {
        lemma_cost_prefix_zero(points, medoids, n - 1);
        let pi = n - 1;
        let dists = dists_of(points, medoids, pi);
        assert(medoids.contains(pi as usize));
        let j = choose|j: int| 0 <= j < medoids.len() && medoids[j] == pi as usize;
        assert(dists[j] == points[pi].dist_spec(&points[medoids[j] as int]) as int);
        assert(dists[j] == points[pi].dist_spec(&points[pi]) as int);
        lemma_first_min_pos(dists);
        assert(dists[first_min_pos(dists)] >= 0);
    }
}

/// When every position of the collection stands in the medoid set and each
/// item is at distance zero from itself, every item is its own nearest
/// medoid and the total assignment cost is zero, whatever the search did.
pub proof fn lemma_every_point_a_medoid_zero_cost<T: Distance>(
    points: Seq<T>,
    medoids: Seq<usize>,
)
    requires
        points.len() <= usize::MAX,
        valid_medoids(medoids, points.len() as int),
        forall|i: int| 0 <= i < points.len() ==> medoids.contains(#[trigger] (i as usize)),
        forall|i: int|
            0 <= i < points.len() ==> #[trigger] points[i].dist_spec(&points[i]) == 0,
    ensures
        total_cost(points, medoids) == 0,
{
    lemma_cost_prefix_zero(points, medoids, points.len() as int);
}

/// The cost evaluator is a pure function of the collection and the medoid
/// set: evaluating the same medoid set twice against the same points yields
/// the identical cost.
pub proof fn lemma_cost_evaluator_pure<T: Distance>(
    points: Seq<T>,
    medoids: Seq<usize>,
    c1: int,
    c2: int,
)
    requires
        c1 == total_cost(points, medoids),
        c2 == total_cost(points, medoids),
    ensures
        c1 == c2,
{
}

} // verus!
