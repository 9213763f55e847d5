use vstd::prelude::*;

verus! {

/// Position of the first element of `s` that attains the minimum: a later
/// element displaces the running best only when it is strictly smaller.
pub open spec fn first_min_pos(s: Seq<int>) -> int
    recommends
        s.len() >= 1,
    decreases s.len(),
{
    if s.len() <= 1 {
        0
    } else {
        let p = first_min_pos(s.drop_last());
        if s.last() < s[p] {
            s.len() - 1
        } else {
            p
        }
    }
}

/// The minimum of a non-empty sequence, as the element at `first_min_pos`.
pub open spec fn seq_min(s: Seq<int>) -> int
    recommends
        s.len() >= 1,
{
    s[first_min_pos(s)]
}

/// `first_min_pos` is a position of `s`, its element is a lower bound for
/// every element, and every earlier element is strictly larger.
pub proof fn lemma_first_min_pos(s: Seq<int>)
    requires
        s.len() >= 1,
    ensures
        0 <= first_min_pos(s) < s.len(),
        forall|k: int| 0 <= k < s.len() ==> seq_min(s) <= s[k],
        forall|k: int| 0 <= k < first_min_pos(s) ==> s[k] > seq_min(s),
    decreases s.len(),
{
    if s.len() > 1 {
        lemma_first_min_pos(s.drop_last());
        assert(forall|k: int| 0 <= k < s.len() - 1 ==> s.drop_last()[k] == s[k]);
    }
}

/// The cost of each entry of a sequence of (medoid set, cost) results.
pub open spec fn costs_of(results: Seq<(Vec<usize>, u128)>) -> Seq<int> {
    results.map(|i: int, r: (Vec<usize>, u128)| r.1 as int)
}

/// Reduces worker-local best results, in worker index order, to the single
/// best one: minimum cost, the earliest worker winning exact ties.
pub fn reduce_best(results: Vec<(Vec<usize>, u128)>) -> (best: (Vec<usize>, u128))
    requires
        results@.len() >= 1,
    ensures
        ({
            let pos = first_min_pos(costs_of(results@));
            &&& best.1 == seq_min(costs_of(results@))
            &&& 0 <= pos < results@.len()
            &&& best.0@ == results@[pos].0@
            &&& best.1 == results@[pos].1
        }),
{
    let ghost costs = costs_of(results@);
    let mut best_idx: usize = 0;
    let mut i: usize = 1;
    proof {
        assert(costs.take(1) =~= seq![costs[0]]);
    }
    while i < results.len()
        invariant
            1 <= i <= results@.len(),
            costs == costs_of(results@),
            costs.len() == results@.len(),
            best_idx < i,
            best_idx == first_min_pos(costs.take(i as int)),
            results@[best_idx as int].1 as int == seq_min(costs.take(i as int)),
        decreases results@.len() - i,
    {
        proof {
            let prefix = costs.take(i as int + 1);
            assert(prefix.drop_last() =~= costs.take(i as int));
            assert(prefix.last() == costs[i as int]);
            lemma_first_min_pos(costs.take(i as int));
        }
        if results[i].1 < results[best_idx].1 {
            best_idx = i;
        }
        i = i + 1;
    }
    proof {
        assert(costs.take(costs.len() as int) =~= costs);
        lemma_first_min_pos(costs);
    }
    let mut results = results;
    let best = results.swap_remove(best_idx);
    best
}

/// With the restart outcomes held fixed — a seeded generator repeats the
/// first `n` restarts of a longer run — raising the restart budget from `n`
/// to `m` never worsens the best cost retained by the driver, because the
/// best over a sequence of restart costs never exceeds the best over a
/// prefix of it.
pub proof fn lemma_more_restarts_never_worse(costs: Seq<int>, n: int, m: int)
    requires
        1 <= n <= m <= costs.len(),
    ensures
        seq_min(costs.take(m)) <= seq_min(costs.take(n)),
    decreases m,
{
    if m > n {
        lemma_more_restarts_never_worse(costs, n, m - 1);
        assert(costs.take(m).drop_last() =~= costs.take(m - 1));
        lemma_first_min_pos(costs.take(m - 1));
    }
}

} // verus!
