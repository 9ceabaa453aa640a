//! CPU module: the split of CPU time between two samples of the system
//! times.  The percentage and its colour are floating-point computations
//! and happen outside this library.
use vstd::prelude::*;

verus! {

/// Busy and total CPU time between two samples `(idle, kernel, user)`.
/// Kernel time includes idle time; counters that went backwards count as
/// no time.
pub open spec fn cpu_split_spec(prev: (u64, u64, u64), curr: (u64, u64, u64)) -> (int, int) {
    let d_idle = if curr.0 >= prev.0 { curr.0 - prev.0 } else { 0 };
    let d_kernel = if curr.1 >= prev.1 { curr.1 - prev.1 } else { 0 };
    let d_user = if curr.2 >= prev.2 { curr.2 - prev.2 } else { 0 };
    let total = d_kernel + d_user;
    (if total >= d_idle { total - d_idle } else { 0 }, total)
}

/// `(busy, total)` CPU time between the samples; the usage is `busy / total`
/// (none when `total` is zero).
pub fn cpu_time_split(prev: (u64, u64, u64), curr: (u64, u64, u64)) -> (r: (u64, u64))
    requires
        cpu_split_spec(prev, curr).1 <= u64::MAX,
    ensures
        r.0 as int == cpu_split_spec(prev, curr).0,
        r.1 as int == cpu_split_spec(prev, curr).1,
        r.0 <= r.1,
{
    let d_idle = curr.0.saturating_sub(prev.0);
    let d_kernel = curr.1.saturating_sub(prev.1);
    let d_user = curr.2.saturating_sub(prev.2);
    let total = d_kernel + d_user;
    let busy = total.saturating_sub(d_idle);
    (busy, total)
}

} // verus!
