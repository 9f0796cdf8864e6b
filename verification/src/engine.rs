//! Aggregation of terminal prices into hit tallies, for a full run and for a
//! batched run.
//!
//! The host simulates the paths and hands their terminal prices over as
//! order-preserving `u64` keys (see `target`). The functions here validate
//! the target, classify every terminal price, and count hits — once over the
//! whole run, or cumulatively at every batch boundary. The probability,
//! standard error and confidence interval that a caller reports are
//! functions of the `(hits, paths)` pair alone, so pinning that pair pins
//! the statistical content of both run shapes.

use vstd::arithmetic::div_mod::lemma_basic_div;
use vstd::arithmetic::div_mod::lemma_fundamental_div_mod;
use vstd::arithmetic::div_mod::lemma_remainder;
use vstd::prelude::*;

use crate::target::ResolvedTarget;
use crate::target::SimError;
use crate::target::Target;
use crate::target::classify_hit;
use crate::target::spec_hit;
use crate::target::spec_validate;
use crate::target::validate_target;

verus! {

/// How many of the terminal price keys in `prices` satisfy the target.
pub open spec fn spec_hit_count(prices: Seq<u64>, t: ResolvedTarget) -> int
    decreases prices.len(),
{
    if prices.len() == 0 {
        0
    } else {
        spec_hit_count(prices.drop_last(), t) + if spec_hit(prices.last(), t) {
            1int
        } else {
            0int
        }
    }
}

/// The hit count lies between 0 and the number of paths.
pub proof fn lemma_hit_count_bounds(prices: Seq<u64>, t: ResolvedTarget)
    ensures
        0 <= spec_hit_count(prices, t) <= prices.len(),
    decreases prices.len(),
{
    if prices.len() > 0 {
        lemma_hit_count_bounds(prices.drop_last(), t);
    }
}

/// Counting one more price extends the count of the prefix by its hit.
proof fn lemma_hit_count_take_step(prices: Seq<u64>, t: ResolvedTarget, i: int)
    requires
        0 <= i < prices.len(),
    ensures
        spec_hit_count(prices.take(i + 1), t) == spec_hit_count(prices.take(i), t) + if spec_hit(
            prices[i],
            t,
        ) {
            1int
        } else {
            0int
        },
{
    assert(prices.take(i + 1).drop_last() =~= prices.take(i));
    assert(prices.take(i + 1).last() == prices[i]);
}

/// Count the terminal price keys that satisfy the target.
pub fn count_hits(prices: &Vec<u64>, t: &ResolvedTarget) -> (hits: usize)
    ensures
        hits == spec_hit_count(prices@, *t),
{
    let mut hits: usize = 0;
    let mut i: usize = 0;
    while i < prices.len()
        invariant
            i <= prices@.len(),
            hits <= i,
            hits == spec_hit_count(prices@.take(i as int), *t),
        decreases prices@.len() - i,
    {
        proof {
            lemma_hit_count_take_step(prices@, *t, i as int);
        }
        if classify_hit(prices[i], t) {
            hits = hits + 1;
        }
        i = i + 1;
    }
    proof {
        assert(prices@.take(prices@.len() as int) =~= prices@);
    }
    hits
}

/// The aggregate of one full run: how many paths were simulated and how many
/// of them hit the target.
#[derive(Clone, Copy, Debug, PartialEq, Eq, Structural)]
pub struct RunTally {
    /// Paths that satisfied the target.
    pub hits: u32,
    /// Paths simulated.
    pub n: u32,
}

/// What a full run yields for a raw target and a sequence of terminal price
/// keys: the exact validation error when the target is malformed, otherwise
/// the hit tally over every path.
pub open spec fn spec_run(t: Target, prices: Seq<u64>) -> Result<RunTally, SimError> {
    match spec_validate(t) {
        Ok(rt) => Ok(RunTally { hits: spec_hit_count(prices, rt) as u32, n: prices.len() as u32 }),
        Err(e) => Err(e),
    }
}

/// Evaluate one full run: validate the target, then classify every terminal
/// price key and tally the hits. A malformed target yields its exact error
/// and no price is examined.
pub fn evaluate_run(target: &Target, prices: &Vec<u64>) -> (r: Result<RunTally, SimError>)
    requires
        prices@.len() as int <= u32::MAX as int,
    ensures
        r == spec_run(*target, prices@),
        r matches Ok(tally) ==> tally.hits <= tally.n,
{
    let rt = match validate_target(target) {
        Ok(rt) => rt,
        Err(e) => {
            return Err(e);
        },
    };
    proof {
        lemma_hit_count_bounds(prices@, rt);
    }
    let hits: usize = count_hits(prices, &rt);
    Ok(RunTally { hits: hits as u32, n: prices.len() as u32 })
}

/// How many batches a run of `n` paths splits into at `bs` paths per batch:
/// the ceiling of `n / bs`.
pub open spec fn spec_num_batches(n: int, bs: int) -> int {
    (n + bs - 1) / bs
}

/// How many paths have been consumed once batches `0 ..= i` are done: every
/// batch takes `bs` paths until the run is exhausted.
pub open spec fn spec_cum_paths(n: int, bs: int, i: int) -> int {
    if (i + 1) * bs <= n {
        (i + 1) * bs
    } else {
        n
    }
}

/// How many paths batch `i` itself consumes.
pub open spec fn spec_batch_len(n: int, bs: int, i: int) -> int {
    spec_cum_paths(n, bs, i) - spec_cum_paths(n, bs, i - 1)
}

/// The cumulative aggregate emitted at one batch boundary.
#[derive(Clone, Copy, Debug, PartialEq, Eq, Structural)]
pub struct BatchTally {
    /// One-based index of the batch just completed.
    pub batch: u32,
    /// Paths simulated so far, across all completed batches.
    pub total_paths: u32,
    /// Paths so far that satisfied the target.
    pub total_hits: u32,
}

/// The tally emitted after batch `i`: the cumulative path count and the hit
/// count over exactly the paths consumed so far.
pub open spec fn spec_batch_tally(
    prices: Seq<u64>,
    rt: ResolvedTarget,
    bs: int,
    i: int,
) -> BatchTally {
    BatchTally {
        batch: (i + 1) as u32,
        total_paths: spec_cum_paths(prices.len() as int, bs, i) as u32,
        total_hits: spec_hit_count(prices.take(spec_cum_paths(prices.len() as int, bs, i)), rt)
            as u32,
    }
}

/// Ceiling division covers the run: `spec_num_batches(n, bs)` batches of at
/// most `bs` paths reach all `n` paths, one batch fewer does not, and there
/// are never more batches than paths.
pub proof fn lemma_num_batches_covers(n: int, bs: int)
    requires
        n >= 0,
        bs >= 1,
    ensures
        spec_num_batches(n, bs) * bs >= n,
        0 <= spec_num_batches(n, bs) <= n,
        n > 0 ==> (spec_num_batches(n, bs) - 1) * bs < n,
        n > 0 ==> spec_num_batches(n, bs) >= 1,
        n == 0 ==> spec_num_batches(n, bs) == 0,
{
    let nb = spec_num_batches(n, bs);
    lemma_fundamental_div_mod(n + bs - 1, bs);
    lemma_remainder(n + bs - 1, bs);
    let r = (n + bs - 1) - (n + bs - 1) / bs * bs;
    assert(nb * bs == (n + bs - 1) / bs * bs);
    assert(nb * bs == n + bs - 1 - r);
    assert((nb - 1) * bs == nb * bs - bs) by (nonlinear_arith);
    if n == 0 {
        assert((bs - 1) / bs == 0) by {
            lemma_basic_div(bs - 1, bs);
        }
    } else {
        if nb <= 0 {
            assert(nb * bs <= 0) by (nonlinear_arith)
                requires
                    nb <= 0,
                    bs >= 1,
            ;
        }
    }
    if nb > n {
        assert(nb * bs >= (n + 1) * bs) by (nonlinear_arith)
            requires
                nb >= n + 1,
                bs >= 1,
        ;
        assert((n + 1) * bs == n * bs + bs) by (nonlinear_arith);
        assert(n * bs >= n) by (nonlinear_arith)
            requires
                n >= 0,
                bs >= 1,
        ;
    }
}

/// The sum of the path-counts of batches `0 ..< k`.
pub open spec fn spec_sum_batch_lens(n: int, bs: int, k: int) -> int
    decreases k,
{
    if k <= 0 {
        0
    } else {
        spec_sum_batch_lens(n, bs, k - 1) + spec_batch_len(n, bs, k - 1)
    }
}

/// The batch path-counts telescope: the first `k` of them sum to the
/// cumulative path count after batch `k - 1`.
proof fn lemma_sum_batch_lens_telescopes(n: int, bs: int, k: int)
    requires
        n >= 0,
        bs >= 1,
        k >= 0,
    ensures
        spec_sum_batch_lens(n, bs, k) == spec_cum_paths(n, bs, k - 1),
    decreases k,
{
    if k > 0 {
        lemma_sum_batch_lens_telescopes(n, bs, k - 1);
        assert(spec_sum_batch_lens(n, bs, k) == spec_sum_batch_lens(n, bs, k - 1)
            + spec_batch_len(n, bs, k - 1));
    } else {
        assert(0 * bs == 0) by (nonlinear_arith);
        assert(spec_cum_paths(n, bs, -1) == 0);
    }
}

/// A batched run consumes every path: after its last batch the cumulative
/// path count is the whole run, and the cumulative hit count is the hit
/// count of the full run over the same terminal prices. Batching changes
/// only the reporting granularity, never the final aggregate.
pub proof fn lemma_batched_final_matches_run(prices: Seq<u64>, rt: ResolvedTarget, bs: int)
    requires
        bs >= 1,
        prices.len() as int <= u32::MAX as int,
    ensures
        spec_cum_paths(
            prices.len() as int,
            bs,
            spec_num_batches(prices.len() as int, bs) - 1,
        ) == prices.len() as int,
        spec_batch_tally(
            prices,
            rt,
            bs,
            spec_num_batches(prices.len() as int, bs) - 1,
        ).total_paths == prices.len() as u32,
        spec_batch_tally(prices, rt, bs, spec_num_batches(prices.len() as int, bs) - 1).total_hits
            == spec_hit_count(prices, rt) as u32,
{
    let n = prices.len() as int;
    lemma_num_batches_covers(n, bs);
    assert(spec_cum_paths(n, bs, spec_num_batches(n, bs) - 1) == n);
    assert(prices.take(n) =~= prices);
}

/// The emitted batch path-counts partition the run: every batch except
/// possibly the last consumes exactly `bs` paths, the last consumes the
/// positive remainder, and all of them together sum to `n`.
pub proof fn lemma_batch_partition(n: int, bs: int)
    requires
        n >= 0,
        bs >= 1,
    ensures
        spec_sum_batch_lens(n, bs, spec_num_batches(n, bs)) == n,
        forall|i: int|
            0 <= i < spec_num_batches(n, bs) - 1 ==> spec_batch_len(n, bs, i) == bs,
        n > 0 ==> spec_batch_len(n, bs, spec_num_batches(n, bs) - 1) == n - (spec_num_batches(
            n,
            bs,
        ) - 1) * bs,
        n > 0 ==> 1 <= spec_batch_len(n, bs, spec_num_batches(n, bs) - 1) <= bs,
{
    let nb = spec_num_batches(n, bs);
    lemma_num_batches_covers(n, bs);
    lemma_sum_batch_lens_telescopes(n, bs, nb);
    assert(spec_cum_paths(n, bs, nb - 1) == n);
    assert forall|i: int| 0 <= i < nb - 1 implies spec_batch_len(n, bs, i) == bs by {
        assert(n > 0);
        assert((i + 1) * bs <= (nb - 1) * bs) by (nonlinear_arith)
            requires
                i + 1 <= nb - 1,
                bs >= 1,
        ;
        assert((i + 1) * bs == i * bs + bs) by (nonlinear_arith);
    }
    if n > 0 {
        if nb >= 2 {
            assert((nb - 1) * bs == (nb - 2) * bs + bs) by (nonlinear_arith);
        }
        assert(nb * bs == (nb - 1) * bs + bs) by (nonlinear_arith);
    }
}

/// Evaluate a batched run: validate the target, then consume the terminal
/// price keys batch by batch, `batch_size` at a time with the remainder in
/// the last batch, emitting after each batch the cumulative tally over every
/// path consumed so far. A malformed target yields its exact error and no
/// price is examined. Batching changes only the reporting granularity: each
/// emitted tally is the full-run tally over the prefix consumed so far.
#[verifier::loop_isolation(false)]
pub fn evaluate_batched(target: &Target, prices: &Vec<u64>, batch_size: u32) -> (r: Result<
    Vec<BatchTally>,
    SimError,
>)
    requires
        batch_size >= 1,
        prices@.len() as int <= u32::MAX as int,
    ensures
        match r {
            Ok(tallies) => {
                &&& spec_validate(*target) is Ok
                &&& tallies@.len() == spec_num_batches(prices@.len() as int, batch_size as int)
                &&& forall|i: int|
                    0 <= i < tallies@.len() ==> tallies@[i] == spec_batch_tally(
                        prices@,
                        spec_validate(*target)->Ok_0,
                        batch_size as int,
                        i,
                    )
                &&& forall|i: int|
                    0 <= i < tallies@.len() ==> tallies@[i].total_hits <= tallies@[i].total_paths
                &&& tallies@.len() > 0 ==> tallies@[tallies@.len() - 1].total_paths
                    == prices@.len() as u32
                &&& tallies@.len() > 0 ==> tallies@[tallies@.len() - 1].total_hits
                    == spec_hit_count(prices@, spec_validate(*target)->Ok_0) as u32
            },
            Err(e) => spec_validate(*target) == Err::<ResolvedTarget, SimError>(e),
        },
{
    let rt = match validate_target(target) {
        Ok(rt) => rt,
        Err(e) => {
            return Err(e);
        },
    };
    let ghost gn = prices@.len() as int;
    let ghost gbs = batch_size as int;
    let ghost nb = spec_num_batches(gn, gbs);
    proof {
        lemma_num_batches_covers(gn, gbs);
    }
    let n: usize = prices.len();
    let bs: usize = batch_size as usize;
    let mut tallies: Vec<BatchTally> = Vec::new();
    let mut idx: usize = 0;
    let mut hits: u32 = 0;
    while idx < n
        invariant
            idx <= n,
            hits <= idx,
            tallies@.len() <= nb,
            idx == spec_cum_paths(gn, gbs, tallies@.len() - 1),
            hits == spec_hit_count(prices@.take(idx as int), rt),
            forall|j: int|
                0 <= j < tallies@.len() ==> tallies@[j] == spec_batch_tally(prices@, rt, gbs, j),
        decreases n - idx,
    {
        let ghost k = tallies@.len() as int;
        proof {
            // idx < n, so the first k batches did not exhaust the run:
            // idx is exactly k * bs, and there is room for batch k.
            assert(idx == k * gbs);
            if k + 1 > nb {
                assert(nb * gbs <= k * gbs) by (nonlinear_arith)
                    requires
                        nb <= k,
                        gbs >= 1,
                ;
            }
            assert((k + 1) * gbs == k * gbs + gbs) by (nonlinear_arith);
        }
        let remaining: usize = n - idx;
        let this_batch: usize = if remaining < bs {
            remaining
        } else {
            bs
        };
        let end: usize = idx + this_batch;
        proof {
            assert(end == spec_cum_paths(gn, gbs, k));
        }
        while idx < end
            invariant
                idx <= end,
                hits <= idx,
                hits == spec_hit_count(prices@.take(idx as int), rt),
            decreases end - idx,
        {
            proof {
                lemma_hit_count_take_step(prices@, rt, idx as int);
            }
            if classify_hit(prices[idx], &rt) {
                hits = hits + 1;
            }
            idx = idx + 1;
        }
        let batch_no: usize = tallies.len() + 1;
        tallies.push(
            BatchTally { batch: batch_no as u32, total_paths: end as u32, total_hits: hits },
        );
    }
    proof {
        // the loop exhausted the run, so all batches were emitted
        let k = tallies@.len() as int;
        if k < nb {
            assert(k * gbs >= gn);
            assert((nb - 1) * gbs >= k * gbs) by (nonlinear_arith)
                requires
                    k <= nb - 1,
                    gbs >= 1,
            ;
            assert(false);
        }
        assert forall|i: int|
            0 <= i < tallies@.len() implies tallies@[i].total_hits
            <= tallies@[i].total_paths by {
            assert((i + 1) * gbs >= 0) by (nonlinear_arith)
                requires
                    i >= 0,
                    gbs >= 1,
            ;
            let cum = spec_cum_paths(gn, gbs, i);
            lemma_hit_count_bounds(prices@.take(cum), rt);
        }
        lemma_batched_final_matches_run(prices@, rt, gbs);
    }
    Ok(tallies)
}

} // verus!
