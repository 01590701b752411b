//! Levels of the ranking system: a score `x` is at level `⌊√x ÷ 3⌋`, and the
//! progress towards the next level is how far the score lies between the
//! least scores of the two levels.

use vstd::prelude::*;

verus! {

/// The least score that reaches level `k`, `(3k)²`.
pub open spec fn level_floor(k: int) -> int {
    9 * k * k
}

/// `level` is `⌊√score ÷ 3⌋`: the greatest `k` with `9k² ≤ score`.
pub open spec fn is_level_of(score: int, level: int) -> bool {
    &&& 0 <= level
    &&& level_floor(level) <= score
    &&& score < level_floor(level + 1)
}

/// Scores from this one up would overflow the least score of the next level
/// in 64 bits.
pub const LEVEL_SCORE_LIMIT: i64 = 9223372018778247009i64;

/// A level with the progress towards the next one as the fraction
/// `gained / needed`.
#[derive(Debug, Clone, Copy, PartialEq, Eq)]
pub struct LevelProgress {
    pub level: i64,
    pub gained: i64,
    pub needed: i64,
}

/// Turns a score into a level and the progress between this level and the
/// next; scores below 1 are level 0 with no progress.
pub fn calculate_level(score: i64) -> (r: LevelProgress)
    requires
        score < LEVEL_SCORE_LIMIT,
    ensures
        score < 1 ==> (r == (LevelProgress { level: 0, gained: 0, needed: 1 })),
        score >= 1 ==> is_level_of(score as int, r.level as int),
        score >= 1 ==> r.gained == score - level_floor(r.level as int),
        score >= 1 ==> r.needed == level_floor(r.level + 1) - level_floor(r.level as int),
{
    if score < 1 {
        return LevelProgress { level: 0, gained: 0, needed: 1 };
    }
    // binary search for the greatest k with 9k² <= score
    let mut lo: i128 = 0;
    let mut hi: i128 = 1012333499;
    assert(level_floor(1012333499) == 9223372018778247009) by (nonlinear_arith);
    while lo + 1 < hi
        invariant
            0 <= lo < hi <= 1012333499,
            level_floor(lo as int) <= score,
            score < level_floor(hi as int),
        decreases hi - lo,
    {
        let mid: i128 = lo + (hi - lo) / 2;
        assert(0 <= mid * mid <= 1012333499 * 1012333499) by (nonlinear_arith)
            requires
                0 <= mid <= 1012333499,
        ;
        assert(level_floor(mid as int) == 9 * (mid * mid)) by (nonlinear_arith);
        if 9 * (mid * mid) <= score as i128 {
            lo = mid;
        } else {
            hi = mid;
        }
    }
    let k: i64 = lo as i64;
    assert(0 <= k * k <= 1012333499 * 1012333499) by (nonlinear_arith)
        requires
            0 <= k < 1012333499,
    ;
    assert(0 <= (k + 1) * (k + 1) <= 1012333499 * 1012333499) by (nonlinear_arith)
        requires
            0 <= k < 1012333499,
    ;
    let floor_score: i64 = k * k * 9;
    let ceil_score: i64 = (k + 1) * (k + 1) * 9;
    assert(floor_score == level_floor(k as int)) by (nonlinear_arith)
        requires
            floor_score == k * k * 9,
    ;
    assert(ceil_score == level_floor(k + 1)) by (nonlinear_arith)
        requires
            ceil_score == (k + 1) * (k + 1) * 9,
    ;
    LevelProgress { level: k, gained: score - floor_score, needed: ceil_score - floor_score }
}

proof fn lemma_floor_monotone(a: int, b: int)
    requires
        0 <= a <= b,
    ensures
        level_floor(a) <= level_floor(b),
{
    assert(9 * a * a <= 9 * b * b) by (nonlinear_arith)
        requires
            0 <= a <= b,
    ;
}

/// A score has one level: the level that `calculate_level` reports is the
/// only one the score can be at.
pub proof fn law_level_unique(score: int, l1: int, l2: int)
    requires
        is_level_of(score, l1),
        is_level_of(score, l2),
    ensures
        l1 == l2,
{
    if l1 < l2 {
        lemma_floor_monotone(l1 + 1, l2);
    } else if l2 < l1 {
        lemma_floor_monotone(l2 + 1, l1);
    }
}

/// More score never means a lower level.
pub proof fn law_level_monotone(s1: int, s2: int, l1: int, l2: int)
    requires
        s1 <= s2,
        is_level_of(s1, l1),
        is_level_of(s2, l2),
    ensures
        l1 <= l2,
{
    if l1 > l2 {
        lemma_floor_monotone(l2 + 1, l1);
    }
}

/// The progress towards the next level is a fraction in `[0, 1)`: what a
/// score has gained beyond its level is less than the step to the next.
pub proof fn law_progress_below_one(score: int, level: int)
    requires
        is_level_of(score, level),
    ensures
        0 <= score - level_floor(level) < level_floor(level + 1) - level_floor(level),
{
}

} // verus!
