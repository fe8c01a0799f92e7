//! The calendar window a report covers.
//!
//! A calendar date is carried as its day number: the count of whole days from
//! the first day of the common era, so that day `1` is the era's first day and
//! consecutive dates differ by exactly one. Chronological order on dates is
//! numeric order on day numbers.

use vstd::prelude::*;

use crate::ArgumentError;

verus! {

/// The window of `n` day numbers ending at `today`: ascending, consecutive,
/// with `today` as its last element.
pub open spec fn window_spec(n: nat, today: u64) -> Seq<u64> {
    Seq::new(n, |i: int| (today - (n - 1 - i)) as u64)
}

/// The list of calendar dates a report over `n` trailing days covers, ending
/// at `today` (which the caller samples once from its clock). The dates come
/// chronologically ascending, each exactly one day before the next, and the
/// last is `today` itself. A window of zero days is refused.
pub fn dates_for_window(n: u32, today: u64) -> (r: Result<Vec<u64>, ArgumentError>)
    requires
        n as u64 <= today,
    ensures
        r is Err <==> n == 0,
        r matches Err(e) ==> e == ArgumentError::EmptyWindow,
        r matches Ok(v) ==> v@ == window_spec(n as nat, today),
        r matches Ok(v) ==> v@.len() == n,
        r matches Ok(v) ==> forall|i: int| 0 <= i < n - 1 ==> #[trigger] v@[i] < v@[i + 1],
        r matches Ok(v) ==> v@[n - 1] == today,
{
    if n == 0 {
        return Err(ArgumentError::EmptyWindow);
    }
    let mut v: Vec<u64> = Vec::new();
    let mut i: u32 = 0;
    while i < n
        invariant
            i <= n,
            1 <= n,
            n as u64 <= today,
            v@.len() == i,
            forall|k: int| 0 <= k < i ==> v@[k] == today - (n - 1 - k),
        decreases n - i,
    {
        v.push(today - (n - 1 - i) as u64);
        i = i + 1;
    }
    assert(v@ =~= window_spec(n as nat, today));
    Ok(v)
}

} // verus!
