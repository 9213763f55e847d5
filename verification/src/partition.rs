use vstd::prelude::*;

verus! {

/// Restarts assigned to the worker with index `tid` out of a total budget
/// `minima` split over `num_threads` workers: every worker gets the
/// quotient, and the first `minima % num_threads` workers one extra.
pub open spec fn share_spec(minima: int, num_threads: int, tid: int) -> int
    recommends
        num_threads >= 1,
{
    minima / num_threads + if tid < minima % num_threads {
        1int
    } else {
        0int
    }
}

/// Sum of the shares of the workers with index below `i`.
pub open spec fn sum_shares(minima: int, num_threads: int, i: int) -> int
    recommends
        num_threads >= 1,
    decreases i,
{
    if i <= 0 {
        0
    } else {
        sum_shares(minima, num_threads, i - 1) + share_spec(minima, num_threads, i - 1)
    }
}

/// Number of restarts assigned to one worker.
pub fn worker_share(minima: usize, num_threads: usize, thread_id: usize) -> (r: usize)
    requires
        num_threads >= 1,
    ensures
        r == share_spec(minima as int, num_threads as int, thread_id as int),
{
    let share: usize = minima / num_threads;
    if thread_id < minima % num_threads {
        proof {
            let q = minima as int / num_threads as int;
            vstd::arithmetic::div_mod::lemma_fundamental_div_mod(
                minima as int,
                num_threads as int,
            );
            assert(num_threads as int * q >= q) by (nonlinear_arith)
                requires
                    num_threads >= 1,
                    q >= 0,
            ;
        }
        share + 1
    } else {
        share
    }
}

/// Sum of the first `i` shares: `i` quotients plus one extra restart for
/// each of the first `min(i, minima % num_threads)` workers.
proof fn lemma_sum_shares_closed(minima: int, num_threads: int, i: int)
    requires
        minima >= 0,
        num_threads >= 1,
        0 <= i <= num_threads,
    ensures
        sum_shares(minima, num_threads, i) == i * (minima / num_threads) + if i
            <= minima % num_threads {
            i
        } else {
            minima % num_threads
        },
    decreases i,
{
    vstd::arithmetic::div_mod::lemma_mod_bound(minima, num_threads);
    vstd::arithmetic::div_mod::lemma_div_pos_is_pos(minima, num_threads);
    if i > 0 {
        lemma_sum_shares_closed(minima, num_threads, i - 1);
        let q = minima / num_threads;
        assert(i * q == (i - 1) * q + q) by (nonlinear_arith);
    } else {
        assert(0 * (minima / num_threads) == 0) by (nonlinear_arith);
    }
}

/// Partition completeness: splitting a restart budget over the workers
/// covers every restart exactly once — the per-worker shares sum to the
/// whole budget — and no share exceeds the quotient plus one.
pub proof fn lemma_partition_complete(minima: int, num_threads: int)
    requires
        minima >= 0,
        num_threads >= 1,
    ensures
        sum_shares(minima, num_threads, num_threads) == minima,
        forall|tid: int|
            0 <= tid < num_threads ==> 0 <= #[trigger] share_spec(minima, num_threads, tid)
                <= minima / num_threads + 1,
{
    lemma_sum_shares_closed(minima, num_threads, num_threads);
    vstd::arithmetic::div_mod::lemma_fundamental_div_mod(minima, num_threads);
    assert(num_threads * (minima / num_threads) == (minima / num_threads) * num_threads)
        by (nonlinear_arith);
    vstd::arithmetic::div_mod::lemma_div_pos_is_pos(minima, num_threads);
    vstd::arithmetic::div_mod::lemma_mod_bound(minima, num_threads);
}

/// The first worker is assigned at least one restart whenever there is one
/// to assign.
pub proof fn lemma_first_share_positive(minima: int, num_threads: int)
    requires
        minima >= 1,
        num_threads >= 1,
    ensures
        share_spec(minima, num_threads, 0) >= 1,
{
    vstd::arithmetic::div_mod::lemma_fundamental_div_mod(minima, num_threads);
    vstd::arithmetic::div_mod::lemma_div_pos_is_pos(minima, num_threads);
    vstd::arithmetic::div_mod::lemma_mod_bound(minima, num_threads);
    if minima % num_threads == 0 {
        let q = minima / num_threads;
        assert(num_threads * q >= 1 ==> q >= 1) by (nonlinear_arith)
            requires
                num_threads >= 1,
                q >= 0,
        ;
    }
}

} // verus!
