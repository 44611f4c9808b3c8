//! Speed and accuracy figures of a session.
use vstd::prelude::*;

verus! {

/// Words per minute over `elapsed_ms` milliseconds, rounded half up.
pub open spec fn wpm_of(elapsed_ms: nat, words: nat) -> int
    recommends
        elapsed_ms > 0,
{
    (60000 * words + elapsed_ms / 2) as int / (elapsed_ms as int)
}

/// `part` as a percentage of `whole`, rounded half up.
pub open spec fn percent_of(part: nat, whole: nat) -> int
    recommends
        whole > 0,
{
    (100 * part + whole / 2) as int / (whole as int)
}

/// Words per minute for `words` words typed in `elapsed_ms` milliseconds,
/// rounded half up. Unavailable for a zero duration, or when the figure
/// does not fit in a `u64`.
pub fn words_per_minute(elapsed_ms: u64, words: u64) -> (r: Option<u64>)
    ensures
        elapsed_ms == 0 ==> r is None,
        elapsed_ms > 0 ==> r == if wpm_of(elapsed_ms as nat, words as nat) <= u64::MAX {
            Some(wpm_of(elapsed_ms as nat, words as nat) as u64)
        } else {
            None::<u64>
        },
{
    if elapsed_ms == 0 {
        return None;
    }
    let num: u128 = 60000u128 * (words as u128) + (elapsed_ms as u128) / 2;
    let q: u128 = num / (elapsed_ms as u128);
    if q <= u64::MAX as u128 {
        Some(q as u64)
    } else {
        None
    }
}

/// `part` as a percentage of `whole`, rounded half up; unavailable when
/// `whole` is zero.
pub fn percentage(part: u64, whole: u64) -> (r: Option<u64>)
    requires
        part <= whole,
    ensures
        whole == 0 ==> r is None,
        whole > 0 ==> r == Some(percent_of(part as nat, whole as nat) as u64),
        r matches Some(v) ==> v <= 100,
{
    if whole == 0 {
        return None;
    }
    let num: u128 = 100u128 * (part as u128) + (whole as u128) / 2;
    let q: u128 = num / (whole as u128);
    assert(q <= 100) by (nonlinear_arith)
        requires
            q == num / (whole as u128),
            num == 100 * part + whole / 2,
            part <= whole,
            whole > 0,
    ;
    Some(q as u64)
}

} // verus!
