//! The integer part of the engagement score.
use vstd::prelude::*;

verus! {

/// The weighted interaction count: each comment weighs as much as two likes.
pub open spec fn raw_engagement(likes: int, comments: int) -> int {
    likes + 2 * comments
}

/// The weighted interaction count of `likes` and `comments` when it is
/// positive, and `None` when it is zero or negative, which scores zero.
///
/// A positive count `raw` scores `ln(raw + 1) * 20`, clamped to the maximum.
pub fn engagement_raw(likes: i64, comments: i64) -> (r: Option<u128>)
    ensures
        r is None <==> raw_engagement(likes as int, comments as int) <= 0,
        r matches Some(raw) ==> raw as int == raw_engagement(likes as int, comments as int),
{
    let raw: i128 = likes as i128 + 2 * (comments as i128);
    if raw <= 0 {
        None
    } else {
        Some(raw as u128)
    }
}

/// Among counts that score, more likes or more comments never give a smaller
/// weighted count.
pub proof fn lemma_engagement_monotone(likes1: int, comments1: int, likes2: int, comments2: int)
    requires
        likes1 <= likes2,
        comments1 <= comments2,
    ensures
        raw_engagement(likes1, comments1) <= raw_engagement(likes2, comments2),
        raw_engagement(likes1, comments1) > 0 ==> raw_engagement(likes2, comments2) > 0,
{
}

} // verus!
