use vstd::prelude::*;

verus! {

/// A source of the random choices the search makes. The engine is generic
/// over the source, so callers can run it from the process-wide generator
/// or from a seeded one for repeatable runs.
pub trait RandomSource {
    /// Picks an index below `n`.
    fn below(&mut self, n: usize) -> (r: usize)
        requires
            n >= 1,
        ensures
            r < n,
    ;

    /// Picks `k` distinct indices below `n`.
    fn sample_distinct(&mut self, n: usize, k: usize) -> (r: Vec<usize>)
        requires
            k <= n,
        ensures
            r@.len() == k,
            forall|i: int| 0 <= i < k ==> r@[i] < n,
            forall|i: int, j: int| 0 <= i < j < k ==> r@[i] != r@[j],
    ;
}

/// Relies on rand::Rng::gen_range over `0..n`: returns a value within the
/// range, and panics only when the range is empty.
#[verifier::external_body]
fn thread_below(n: usize) -> (r: usize)
    requires
        n >= 1,
    ensures
        r < n,
{
    rand::Rng::gen_range(&mut rand::thread_rng(), 0..n)
}

/// Relies on rand::seq::index::sample: exactly `k` distinct indices drawn
/// from `0..n`, panicking only when `k > n`.
#[verifier::external_body]
fn thread_sample(n: usize, k: usize) -> (r: Vec<usize>)
    requires
        k <= n,
    ensures
        r@.len() == k,
        forall|i: int| 0 <= i < k ==> r@[i] < n,
        forall|i: int, j: int| 0 <= i < j < k ==> r@[i] != r@[j],
{
    rand::seq::index::sample(&mut rand::thread_rng(), n, k).into_vec()
}

/// Draws every choice from the process-wide thread-local generator.
pub struct ThreadRandom {}

impl ThreadRandom {
    pub fn new() -> (r: ThreadRandom) {
        ThreadRandom {}
    }
}

impl RandomSource for ThreadRandom {
    fn below(&mut self, n: usize) -> (r: usize) {
        thread_below(n)
    }

    fn sample_distinct(&mut self, n: usize, k: usize) -> (r: Vec<usize>) {
        thread_sample(n, k)
    }
}

/// Multiplier of the linear congruential step.
const LCG_MUL: u64 = 6364136223846793005;

/// Increment of the linear congruential step.
const LCG_INC: u64 = 1442695040888963407;

/// A deterministic source for seeded, repeatable runs: a 64-bit linear
/// congruential generator. Two sources built from the same seed make the
/// same sequence of choices.
pub struct SeededRandom {
    state: u64,
}

impl SeededRandom {
    pub fn new(seed: u64) -> (r: SeededRandom) {
        SeededRandom { state: seed }
    }

    /// Advances the generator and returns its upper bits.
    fn next(&mut self) -> (r: u64) {
        proof {
            assert((self.state as int) * (LCG_MUL as int) + (LCG_INC as int) <= u128::MAX)
                by (nonlinear_arith)
                requires
                    self.state <= u64::MAX,
            ;
        }
        let wide: u128 = (self.state as u128) * (LCG_MUL as u128) + (LCG_INC as u128);
        let next_state: u64 = (wide % 0x1_0000_0000_0000_0000u128) as u64;
        self.state = next_state;
        next_state >> 33
    }
}

impl RandomSource for SeededRandom {
    fn below(&mut self, n: usize) -> (r: usize) {
        let v = self.next();
        (v % (n as u64)) as usize
    }

    /// Selection sampling: draws `k` positions one by one from a shrinking
    /// pool of the positions not yet taken, so the result is distinct.
    #[verifier::loop_isolation(false)]
    fn sample_distinct(&mut self, n: usize, k: usize) -> (r: Vec<usize>) {
        let mut pool: Vec<usize> = Vec::new();
        let mut i: usize = 0;
        while i < n
            invariant
                i <= n,
                pool@.len() == i,
                forall|t: int| 0 <= t < i ==> pool@[t] == t,
            decreases n - i,
        {
            pool.push(i);
            i = i + 1;
        }
        let mut r: Vec<usize> = Vec::new();
        let mut j: usize = 0;
        while j < k
            invariant
                j <= k,
                r@.len() == j,
                pool@.len() == n - j,
                forall|t: int| 0 <= t < pool@.len() ==> pool@[t] < n,
                forall|a: int, b: int|
                    0 <= a < b < pool@.len() ==> pool@[a] != pool@[b],
                forall|t: int| 0 <= t < r@.len() ==> r@[t] < n,
                forall|a: int, b: int| 0 <= a < b < r@.len() ==> r@[a] != r@[b],
                forall|a: int, b: int|
                    0 <= a < r@.len() && 0 <= b < pool@.len() ==> r@[a] != pool@[b],
            decreases k - j,
        {
            let ghost old_pool = pool@;
            let idx = self.below(pool.len());
            let chosen = pool[idx];
            r.push(chosen);
            pool.swap_remove(idx);
            proof {
                assert(forall|b: int|
                    0 <= b < pool@.len() && b != idx as int ==> pool@[b] == old_pool[b]);
                assert((idx as int) < pool@.len() ==> pool@[idx as int] == old_pool.last());
            }
            j = j + 1;
        }
        r
    }
}

} // verus!
