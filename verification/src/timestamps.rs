use vstd::prelude::*;

use crate::datetime::ts_in_range;
use crate::errors::Error;
use crate::errors::Result;
use vstd::arithmetic::div_mod::lemma_div_is_ordered;
use vstd::arithmetic::div_mod::lemma_div_multiples_vanish;
use vstd::arithmetic::div_mod::lemma_div_pos_is_pos;
use vstd::arithmetic::mul::lemma_mul_inequality;
use vstd::arithmetic::mul::lemma_mul_nonnegative;
use vstd::arithmetic::mul::lemma_mul_upper_bound;

verus! {

/// The spacing floor between consecutive generated commits: three hours.
pub const MIN_GAP_SECONDS: u64 = 10800;

/// Random weights are drawn from `1..=WEIGHT_CAP`; keeping them positive and
/// bounded lets the slack arithmetic stay inside machine integers.
pub const WEIGHT_CAP: u64 = 1_000_000;

/// The sum of the first `k` weights.
pub open spec fn weight_prefix_sum(ws: Seq<u64>, k: int) -> int
    decreases k,
{
    if k <= 0 {
        0
    } else {
        weight_prefix_sum(ws, k - 1) + ws[k - 1]
    }
}

pub open spec fn weights_admissible(ws: Seq<u64>) -> bool {
    forall|i: int| 0 <= i < ws.len() ==> 1 <= #[trigger] ws[i] <= WEIGHT_CAP
}

/// The share of the slack handed to the first `k` gaps: the slack scaled by
/// the weight mass seen so far, rounded down.
pub open spec fn slack_alloc(slack: int, ws: Seq<u64>, total: int, k: int) -> int {
    (slack * weight_prefix_sum(ws, k)) / total
}

proof fn lemma_prefix_sum_bounds(ws: Seq<u64>, k: int)
    requires
        weights_admissible(ws),
        0 <= k <= ws.len(),
    ensures
        k <= weight_prefix_sum(ws, k) <= k * (WEIGHT_CAP as int),
    decreases k,
{
    if k > 0 {
        lemma_prefix_sum_bounds(ws, k - 1);
        assert(1 <= ws[k - 1] <= WEIGHT_CAP);
        assert((k - 1) * (WEIGHT_CAP as int) + WEIGHT_CAP == k * (WEIGHT_CAP as int)) by {
            vstd::arithmetic::mul::lemma_mul_is_distributive_sub_other_way(
                WEIGHT_CAP as int,
                k,
                1,
            );
        }
    }
}

proof fn lemma_prefix_sum_monotone(ws: Seq<u64>, j: int, k: int)
    requires
        weights_admissible(ws),
        0 <= j <= k <= ws.len(),
    ensures
        weight_prefix_sum(ws, j) <= weight_prefix_sum(ws, k),
    decreases k - j,
{
    if j < k {
        lemma_prefix_sum_monotone(ws, j, k - 1);
        assert(1 <= ws[k - 1]);
    }
}

proof fn lemma_alloc_monotone(slack: int, ws: Seq<u64>, total: int, j: int, k: int)
    requires
        slack >= 0,
        total > 0,
        weights_admissible(ws),
        0 <= j <= k <= ws.len(),
    ensures
        slack_alloc(slack, ws, total, j) <= slack_alloc(slack, ws, total, k),
    decreases k - j,
{
    if j < k {
        lemma_alloc_monotone(slack, ws, total, j, k - 1);
        assert(weight_prefix_sum(ws, k) == weight_prefix_sum(ws, k - 1) + ws[k - 1]);
        assert(1 <= ws[k - 1]);
        lemma_mul_inequality(weight_prefix_sum(ws, k - 1), weight_prefix_sum(ws, k), slack);
        assert(slack * weight_prefix_sum(ws, k - 1) == weight_prefix_sum(ws, k - 1) * slack)
            by {
            vstd::arithmetic::mul::lemma_mul_is_commutative(
                slack,
                weight_prefix_sum(ws, k - 1),
            );
        }
        assert(slack * weight_prefix_sum(ws, k) == weight_prefix_sum(ws, k) * slack) by {
            vstd::arithmetic::mul::lemma_mul_is_commutative(slack, weight_prefix_sum(ws, k));
        }
        lemma_div_is_ordered(
            slack * weight_prefix_sum(ws, k - 1),
            slack * weight_prefix_sum(ws, k),
            total,
        );
    }
}

proof fn lemma_alloc_bounded(slack: int, ws: Seq<u64>, total: int, k: int)
    requires
        slack >= 0,
        total > 0,
        weights_admissible(ws),
        0 <= k <= ws.len(),
        weight_prefix_sum(ws, k) <= total,
    ensures
        0 <= slack_alloc(slack, ws, total, k) <= slack,
{
    lemma_prefix_sum_bounds(ws, k);
    lemma_mul_nonnegative(slack, weight_prefix_sum(ws, k));
    lemma_div_pos_is_pos(slack * weight_prefix_sum(ws, k), total);
    lemma_mul_inequality(weight_prefix_sum(ws, k), total, slack);
    assert(slack * weight_prefix_sum(ws, k) == weight_prefix_sum(ws, k) * slack) by {
        vstd::arithmetic::mul::lemma_mul_is_commutative(slack, weight_prefix_sum(ws, k));
    }
    assert(slack * total == total * slack) by {
        vstd::arithmetic::mul::lemma_mul_is_commutative(slack, total);
    }
    lemma_div_is_ordered(slack * weight_prefix_sum(ws, k), total * slack, total);
    lemma_div_multiples_vanish(slack, total);
}

/// Lays out `count` timestamps inside `[start, end]`: the first exactly at
/// `start`, every consecutive pair at least three hours apart, and the slack
/// beyond the three-hour floor spread over the gaps in proportion to the
/// given weights. Fails with `RangeTooSmall` exactly when the interval
/// cannot hold `count` commits at the floor spacing.
pub fn schedule_timestamps(start: i64, end: i64, count: usize, weights: &Vec<u64>) -> (r:
    Result<Vec<i64>>)
    requires
        ts_in_range(start as int),
        ts_in_range(end as int),
        start < end,
        count >= 1,
        weights@.len() + 1 == count,
        weights_admissible(weights@),
    ensures
        match r {
            Ok(ts) => {
                &&& end - start >= MIN_GAP_SECONDS * (count - 1)
                &&& ts@.len() == count
                &&& ts@[0] == start
                &&& count >= 2 ==> ts@[count - 1] == end
                &&& forall|i: int|
                    0 <= i < count - 1 ==> #[trigger] ts@[i + 1] - ts@[i]
                        >= MIN_GAP_SECONDS
                &&& forall|i: int| 0 <= i < count ==> start <= #[trigger] ts@[i] <= end
            },
            Err(e) => e == Error::RangeTooSmall && end - start < MIN_GAP_SECONDS * (count
                - 1),
        },
{
    let span: i64 = end - start;
    let gaps: usize = count - 1;
    if gaps == 0 {
        let mut ts: Vec<i64> = Vec::new();
        ts.push(start);
        return Ok(ts);
    }
    // `span / 10800 < gaps` is the overflow-free reading of
    // `span < 10800 * gaps`.
    let fits: bool = (span as u64) / MIN_GAP_SECONDS >= gaps as u64;
    proof {
        let q = span as int / (MIN_GAP_SECONDS as int);
        vstd::arithmetic::div_mod::lemma_fundamental_div_mod(
            span as int,
            MIN_GAP_SECONDS as int,
        );
        vstd::arithmetic::div_mod::lemma_mod_bound(span as int, MIN_GAP_SECONDS as int);
        vstd::arithmetic::mul::lemma_mul_is_commutative(MIN_GAP_SECONDS as int, q);
        vstd::arithmetic::mul::lemma_mul_is_commutative(MIN_GAP_SECONDS as int, q + 1);
        vstd::arithmetic::mul::lemma_mul_is_commutative(MIN_GAP_SECONDS as int, gaps as int);
        if q >= gaps as int {
            lemma_mul_inequality(gaps as int, q, MIN_GAP_SECONDS as int);
            assert(span as int >= MIN_GAP_SECONDS * (gaps as int));
        } else {
            lemma_mul_inequality(q + 1, gaps as int, MIN_GAP_SECONDS as int);
            vstd::arithmetic::mul::lemma_mul_is_distributive_add_other_way(
                MIN_GAP_SECONDS as int,
                q,
                1,
            );
            assert((span as int) < MIN_GAP_SECONDS * (gaps as int));
        }
    }
    if !fits {
        return Err(Error::RangeTooSmall);
    }
    assert(gaps as int <= span as int / (MIN_GAP_SECONDS as int));
    assert(gaps <= 1_700_000_000) by {
        lemma_div_is_ordered(span as int, 18_000_000_000_000, MIN_GAP_SECONDS as int);
    }

    let mut total: u64 = 0;
    let mut i: usize = 0;
    while i < gaps
        invariant
            gaps == weights@.len(),
            gaps <= 1_700_000_000,
            weights_admissible(weights@),
            i <= gaps,
            total == weight_prefix_sum(weights@, i as int),
            total <= i * (WEIGHT_CAP as int),
        decreases gaps - i,
    {
        proof {
            lemma_prefix_sum_bounds(weights@, i as int + 1);
        }
        total = total + weights[i];
        i = i + 1;
    }
    proof {
        lemma_prefix_sum_bounds(weights@, gaps as int);
    }
    assert(1 <= total <= gaps * (WEIGHT_CAP as int));
    assert(total <= 1_700_000_000_000_000_000u64) by {
        lemma_mul_inequality(gaps as int, 1_700_000_000, WEIGHT_CAP as int);
    }

    let floor_total: i64 = (MIN_GAP_SECONDS as i64) * (gaps as i64);
    assert(floor_total <= span) by {
        assert(MIN_GAP_SECONDS * (gaps as int) == gaps as int * (MIN_GAP_SECONDS as int)) by {
            vstd::arithmetic::mul::lemma_mul_is_commutative(
                MIN_GAP_SECONDS as int,
                gaps as int,
            );
        }
    }
    let slack: i64 = span - floor_total;
    assert(0 <= slack <= 18_000_000_000_000);

    let mut ts: Vec<i64> = Vec::new();
    ts.push(start);
    let mut prefix: u64 = 0;
    let mut k: usize = 0;
    while k < gaps
        invariant
            gaps == weights@.len(),
            gaps <= 1_700_000_000,
            weights_admissible(weights@),
            k <= gaps,
            prefix == weight_prefix_sum(weights@, k as int),
            total == weight_prefix_sum(weights@, gaps as int),
            1 <= total <= 1_700_000_000_000_000_000u64,
            0 <= slack <= 18_000_000_000_000,
            ts_in_range(start as int),
            ts_in_range(end as int),
            span == end - start,
            floor_total == MIN_GAP_SECONDS * (gaps as int),
            slack == span - floor_total,
            ts@.len() == k + 1,
            ts@[0] == start,
            forall|i: int|
                0 <= i <= k ==> #[trigger] ts@[i] == start + MIN_GAP_SECONDS * i
                    + slack_alloc(slack as int, weights@, total as int, i),
            forall|i: int| 0 <= i <= k ==> start <= #[trigger] ts@[i] <= end,
        decreases gaps - k,
    {
        proof {
            lemma_prefix_sum_bounds(weights@, k as int + 1);
            lemma_prefix_sum_monotone(weights@, k as int + 1, gaps as int);
        }
        prefix = prefix + weights[k];
        assert(prefix <= total);
        proof {
            lemma_mul_upper_bound(
                slack as int,
                18_000_000_000_000,
                prefix as int,
                1_700_000_000_000_000_000,
            );
        }
        let wide: u128 = (slack as u128) * (prefix as u128);
        let alloc128: u128 = wide / (total as u128);
        proof {
            lemma_alloc_bounded(slack as int, weights@, total as int, k as int + 1);
            lemma_alloc_monotone(slack as int, weights@, total as int, k as int, k as int + 1);
            lemma_prefix_sum_bounds(weights@, k as int);
            lemma_alloc_bounded(slack as int, weights@, total as int, k as int);
        }
        let alloc: i64 = alloc128 as i64;
        assert(alloc as int == slack_alloc(slack as int, weights@, total as int, k as int
            + 1));
        let step: i64 = (MIN_GAP_SECONDS as i64) * ((k + 1) as i64);
        assert(MIN_GAP_SECONDS * (k as int + 1) <= MIN_GAP_SECONDS * (gaps as int)) by {
            lemma_mul_inequality(k as int + 1, gaps as int, MIN_GAP_SECONDS as int);
            vstd::arithmetic::mul::lemma_mul_is_commutative(
                MIN_GAP_SECONDS as int,
                k as int + 1,
            );
            vstd::arithmetic::mul::lemma_mul_is_commutative(MIN_GAP_SECONDS as int, gaps as int);
        }
        assert(MIN_GAP_SECONDS * (k as int + 1) >= 0) by {
            lemma_mul_nonnegative(MIN_GAP_SECONDS as int, k as int + 1);
        }
        let t: i64 = start + step + alloc;
        assert(start <= t <= end);
        ts.push(t);
        k = k + 1;
        proof {
            assert(forall|i: int|
                0 <= i <= k ==> #[trigger] ts@[i] == start + MIN_GAP_SECONDS * i + slack_alloc(
                    slack as int,
                    weights@,
                    total as int,
                    i,
                ));
        }
    }
    proof {
        // the last gap's allocation is the whole slack, so the schedule
        // ends exactly at `end`
        lemma_prefix_sum_bounds(weights@, gaps as int);
        vstd::arithmetic::mul::lemma_mul_is_commutative(slack as int, total as int);
        lemma_div_multiples_vanish(slack as int, total as int);
        assert(slack_alloc(slack as int, weights@, total as int, gaps as int) == slack as int);
        assert(ts@[gaps as int] == start + MIN_GAP_SECONDS * (gaps as int) + slack);
        assert forall|i: int| 0 <= i < count - 1 implies #[trigger] ts@[i + 1] - ts@[i]
            >= MIN_GAP_SECONDS by {
            lemma_alloc_monotone(slack as int, weights@, total as int, i, i + 1);
            assert(MIN_GAP_SECONDS * (i + 1) == MIN_GAP_SECONDS * i + MIN_GAP_SECONDS) by {
                vstd::arithmetic::mul::lemma_mul_is_distributive_add(
                    MIN_GAP_SECONDS as int,
                    i,
                    1,
                );
            }
        }
    }
    Ok(ts)
}

/// Relies on `rand::random_range`, documented to return a value inside the
/// given (nonempty) range; each weight is drawn independently from
/// `1..=WEIGHT_CAP`.
#[verifier::external_body]
fn draw_weight() -> (r: u64)
    ensures
        1 <= r <= WEIGHT_CAP,
{
    rand::random_range(1..=WEIGHT_CAP)
}

/// Draws the per-gap weights for a schedule of `count` commits.
fn draw_weights(gaps: usize) -> (r: Vec<u64>)
    ensures
        r@.len() == gaps,
        weights_admissible(r@),
{
    let mut r: Vec<u64> = Vec::new();
    let mut i: usize = 0;
    while i < gaps
        invariant
            i <= gaps,
            r@.len() == i,
            weights_admissible(r@),
        decreases gaps - i,
    {
        r.push(draw_weight());
        i = i + 1;
    }
    r
}

/// Generates `count` timestamps inside `[start, end]` with randomly spread
/// slack. Whatever weights the random draw hands back, the schedule starts
/// exactly at `start`, keeps at least three hours between consecutive
/// commits, and stays inside the interval; `RangeTooSmall` comes exactly
/// when the interval is too short for `count` commits.
pub fn generate_timestamps(start: i64, end: i64, count: usize) -> (r: Result<Vec<i64>>)
    requires
        ts_in_range(start as int),
        ts_in_range(end as int),
        start < end,
        count >= 1,
    ensures
        match r {
            Ok(ts) => {
                &&& end - start >= MIN_GAP_SECONDS * (count - 1)
                &&& ts@.len() == count
                &&& ts@[0] == start
                &&& count >= 2 ==> ts@[count - 1] == end
                &&& forall|i: int|
                    0 <= i < count - 1 ==> #[trigger] ts@[i + 1] - ts@[i]
                        >= MIN_GAP_SECONDS
                &&& forall|i: int| 0 <= i < count ==> start <= #[trigger] ts@[i] <= end
            },
            Err(e) => e == Error::RangeTooSmall && end - start < MIN_GAP_SECONDS * (count
                - 1),
        },
{
    let weights = draw_weights(count - 1);
    schedule_timestamps(start, end, count, &weights)
}

/// Spreads `count` timestamps evenly across `[start, end]`: an empty list
/// for zero, exactly `[start]` for one, and otherwise `start` plus uniform
/// steps of the truncated average gap.
pub fn generate_range_timestamps(start: i64, end: i64, count: usize) -> (r: Vec<i64>)
    requires
        ts_in_range(start as int),
        ts_in_range(end as int),
        start <= end,
    ensures
        r@.len() == count,
        count >= 1 ==> r@[0] == start,
        count >= 2 ==> forall|i: int|
            0 <= i < count ==> #[trigger] r@[i] == start + ((end - start) / (count - 1)) * i,
        forall|i: int| 0 <= i < count ==> start <= #[trigger] r@[i] <= end,
        forall|i: int| 0 <= i < count - 1 ==> #[trigger] r@[i] <= r@[i + 1],
{
    let mut r: Vec<i64> = Vec::new();
    if count == 0 {
        return r;
    }
    if count == 1 {
        r.push(start);
        return r;
    }
    let span: i64 = end - start;
    let step: u64 = (span as u64) / ((count - 1) as u64);
    proof {
        lemma_div_pos_is_pos(span as int, count as int - 1);
        vstd::arithmetic::div_mod::lemma_fundamental_div_mod(span as int, count as int - 1);
        vstd::arithmetic::div_mod::lemma_mod_bound(span as int, count as int - 1);
        assert((count as int - 1) * (step as int) <= span);
    }
    let mut i: usize = 0;
    while i < count
        invariant
            2 <= count,
            span == end - start,
            0 <= span,
            ts_in_range(start as int),
            ts_in_range(end as int),
            step == span as int / (count as int - 1),
            (count as int - 1) * (step as int) <= span,
            i <= count,
            r@.len() == i,
            forall|j: int| 0 <= j < i ==> #[trigger] r@[j] == start + step * j,
            forall|j: int| 0 <= j < i ==> start <= #[trigger] r@[j] <= end,
        decreases count - i,
    {
        proof {
            lemma_mul_nonnegative(step as int, i as int);
            lemma_mul_inequality(i as int, count as int - 1, step as int);
            vstd::arithmetic::mul::lemma_mul_is_commutative(step as int, i as int);
            vstd::arithmetic::mul::lemma_mul_is_commutative(step as int, count as int - 1);
            vstd::arithmetic::mul::lemma_mul_is_commutative(count as int - 1, step as int);
            assert(step * (i as int) <= span);
        }
        let inc: u64 = step * (i as u64);
        let t: i64 = start + (inc as i64);
        r.push(t);
        i = i + 1;
    }
    proof {
        assert forall|i: int| 0 <= i < count - 1 implies #[trigger] r@[i] <= r@[i + 1] by {
            lemma_mul_inequality(i, i + 1, step as int);
            vstd::arithmetic::mul::lemma_mul_is_commutative(step as int, i);
            vstd::arithmetic::mul::lemma_mul_is_commutative(step as int, i + 1);
        }
    }
    r
}

} // verus!
