//! The performance view: each target's last day in hourly bricks, each
//! brick graded by the share of finished requests that succeeded.
use vstd::prelude::*;

verus! {

/// How many bricks a target shows.
pub const BRICK_COUNT: i64 = 24;

/// How many hours the bricks cover.
pub const WINDOW_HOURS: i64 = 24;

/// The grade of one brick.
#[derive(Clone, Copy, Debug, PartialEq, Eq, Structural)]
pub enum BrickStatus {
    Empty,
    Up,
    Degraded,
    Down,
}

/// The label of a grade.
pub open spec fn brick_label(s: BrickStatus) -> Seq<char> {
    match s {
        BrickStatus::Empty => "empty"@,
        BrickStatus::Up => "up"@,
        BrickStatus::Degraded => "degraded"@,
        BrickStatus::Down => "down"@,
    }
}

impl BrickStatus {
    /// The label of the grade.
    pub fn as_str(self) -> (r: &'static str)
        ensures
            r@ == brick_label(self),
    {
        match self {
            BrickStatus::Empty => "empty",
            BrickStatus::Up => "up",
            BrickStatus::Degraded => "degraded",
            BrickStatus::Down => "down",
        }
    }
}

/// The grade of a brick: empty without finished requests; up when at least
/// 99% of them succeeded, degraded from 95%, down below.
pub open spec fn brick_grade(finished: int, success: int) -> BrickStatus {
    if finished <= 0 {
        BrickStatus::Empty
    } else if 100 * success >= 99 * finished {
        BrickStatus::Up
    } else if 100 * success >= 95 * finished {
        BrickStatus::Degraded
    } else {
        BrickStatus::Down
    }
}

/// The grade of a brick with `finished_count` finished requests of which
/// `success_count` succeeded.
pub fn brick_status(finished_count: i64, success_count: i64) -> (r: BrickStatus)
    ensures
        r == brick_grade(finished_count as int, success_count as int),
{
    if finished_count <= 0 {
        return BrickStatus::Empty;
    }
    let s = (success_count as i128) * 100;
    let f = finished_count as i128;
    if s >= f * 99 {
        BrickStatus::Up
    } else if s >= f * 95 {
        BrickStatus::Degraded
    } else {
        BrickStatus::Down
    }
}

/// Request counts of one hour of a target's window.
#[derive(Clone, Copy, Debug, PartialEq, Eq, Structural)]
pub struct HourBucket {
    pub hour_idx: i64,
    pub finished_count: i64,
    pub success_count: i64,
}

/// `a + b`, saturating at the bounds of `i64`.
pub open spec fn saturating_sum(a: int, b: int) -> int {
    if a + b > i64::MAX {
        i64::MAX as int
    } else if a + b < i64::MIN {
        i64::MIN as int
    } else {
        a + b
    }
}

/// The brick an hour index falls in: clamped to `0..n`.
pub open spec fn brick_of(hour_idx: int, n: int) -> int {
    if hour_idx < 0 {
        0
    } else if hour_idx > n - 1 {
        n - 1
    } else {
        hour_idx
    }
}

/// The saturating sum of the finished (or successful) counts of the rows
/// that fall in brick `k` of `n`.
pub open spec fn brick_total(rows: Seq<HourBucket>, n: int, k: int, finished: bool) -> int
    decreases rows.len(),
{
    if rows.len() == 0 {
        0
    } else {
        let prev = brick_total(rows.drop_last(), n, k, finished);
        let row = rows.last();
        if brick_of(row.hour_idx as int, n) == k {
            saturating_sum(
                prev,
                if finished {
                    row.finished_count as int
                } else {
                    row.success_count as int
                },
            )
        } else {
            prev
        }
    }
}

fn saturating_add_i64(a: i64, b: i64) -> (r: i64)
    ensures
        r == saturating_sum(a as int, b as int),
{
    match a.checked_add(b) {
        Some(v) => v,
        None => if b > 0 {
            i64::MAX
        } else {
            i64::MIN
        },
    }
}

/// The grades of a target's `brick_count` bricks, from its hourly counts:
/// each row is added (saturating) to the brick its hour index falls in.
pub fn brick_statuses(hour_buckets: &Vec<HourBucket>, brick_count: i64) -> (r: Vec<BrickStatus>)
    requires
        1 <= brick_count <= usize::MAX,
    ensures
        r@.len() == brick_count,
        forall|k: int|
            0 <= k < brick_count ==> #[trigger] r@[k] == brick_grade(
                brick_total(hour_buckets@, brick_count as int, k, true),
                brick_total(hour_buckets@, brick_count as int, k, false),
            ),
{
    let n = brick_count as usize;
    let ghost rows = hour_buckets@;
    let mut finished: Vec<i64> = Vec::new();
    let mut success: Vec<i64> = Vec::new();
    while finished.len() < n
        invariant
            finished@.len() == success@.len(),
            finished@.len() <= n,
            forall|k: int| 0 <= k < finished@.len() ==> #[trigger] finished@[k] == 0,
            forall|k: int| 0 <= k < success@.len() ==> #[trigger] success@[k] == 0,
        decreases n - finished@.len(),
    {
        finished.push(0);
        success.push(0);
    }
    let mut i: usize = 0;
    while i < hour_buckets.len()
        invariant
            n == brick_count,
            1 <= brick_count <= usize::MAX,
            rows == hour_buckets@,
            finished@.len() == n,
            success@.len() == n,
            i <= rows.len(),
            forall|k: int|
                0 <= k < n ==> #[trigger] finished@[k] == brick_total(rows.take(i as int), n as int, k, true),
            forall|k: int|
                0 <= k < n ==> #[trigger] success@[k] == brick_total(rows.take(i as int), n as int, k, false),
        decreases rows.len() - i,
    {
        let row = hour_buckets[i];
        let h = if row.hour_idx < 0 {
            0
        } else if row.hour_idx > brick_count - 1 {
            brick_count - 1
        } else {
            row.hour_idx
        };
        let idx = h as usize;
        let f = saturating_add_i64(finished[idx], row.finished_count);
        let s = saturating_add_i64(success[idx], row.success_count);
        finished.set(idx, f);
        success.set(idx, s);
        proof {
            assert(rows.take(i + 1).drop_last() =~= rows.take(i as int));
            assert(rows.take(i + 1).last() == row);
        }
        i += 1;
    }
    proof {
        assert(rows.take(rows.len() as int) =~= rows);
    }
    let mut out: Vec<BrickStatus> = Vec::new();
    let mut k: usize = 0;
    while k < n
        invariant
            n == brick_count,
            finished@.len() == n,
            success@.len() == n,
            k <= n,
            out@.len() == k,
            forall|t: int|
                0 <= t < n ==> #[trigger] finished@[t] == brick_total(rows, n as int, t, true),
            forall|t: int|
                0 <= t < n ==> #[trigger] success@[t] == brick_total(rows, n as int, t, false),
            forall|t: int|
                0 <= t < k ==> #[trigger] out@[t] == brick_grade(
                    brick_total(rows, n as int, t, true),
                    brick_total(rows, n as int, t, false),
                ),
        decreases n - k,
    {
        out.push(brick_status(finished[k], success[k]));
        k += 1;
    }
    out
}

} // verus!
