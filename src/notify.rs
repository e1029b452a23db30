use vstd::prelude::*;

verus! {

/// Score from which an issue counts as important.
pub const IMPORTANCE_THRESHOLD: i32 = 80;

/// Whether a score counts as important.
pub open spec fn is_important(score: int) -> bool {
    score >= IMPORTANCE_THRESHOLD as int
}

/// An issue is announced when its score crosses the threshold upwards: it is
/// important now, and it was either unknown before or not important.
pub open spec fn crosses_threshold(previous: Option<i32>, score: i32) -> bool {
    is_important(score as int) && match previous {
        None => true,
        Some(p) => !is_important(p as int),
    }
}

/// Decides whether a notification is due, given the score an issue had at the
/// previous synchronization (`None` when it was not stored) and its new score.
pub fn should_notify(previous: Option<i32>, score: i32) -> (r: bool)
    ensures
        r == crosses_threshold(previous, score),
{
    if score < IMPORTANCE_THRESHOLD {
        return false;
    }
    match previous {
        None => true,
        Some(p) => p < IMPORTANCE_THRESHOLD,
    }
}

/// An issue that stays important is announced once: a second important score
/// after an important one is no crossing. One that fell below the threshold is
/// announced again when it rises back.
pub proof fn lemma_announced_once_per_crossing(first: i32, second: i32, third: i32)
    ensures
        is_important(first as int) && is_important(second as int) ==> !crosses_threshold(
            Some(first),
            second,
        ),
        is_important(first as int) && !is_important(second as int) && is_important(third as int)
            ==> !crosses_threshold(Some(first), second) && crosses_threshold(Some(second), third),
{
}

} // verus!
