//! The integer side of keeping emulated time in step with real time: how long a run of cycles
//! lasts at a clock period, when a clock is due to check the time, and what it does when it
//! compares the emulated time with the time that really passed.
use vstd::prelude::*;

verus! {

/// A number of clock cycles.
pub type Cycles = usize;

/// The longest duration that `std::time::Duration` holds, in nanoseconds.
pub open spec fn max_duration_nanos() -> int {
    u64::MAX * 1_000_000_000 + 999_999_999
}

/// What a clock does once it has compared the emulated time of a run with the real time it
/// took.
#[derive(Debug, Clone, Copy, PartialEq, Eq, Structural)]
pub enum SyncAction {
    /// Nothing: the clock was not asked to wait.
    Go,
    /// Sleeps this many nanoseconds: the emulation ran ahead of real time.
    Sleep(u128),
    /// Cannot keep the pace: the emulation ran behind real time by this many nanoseconds.
    Late(u128),
}

/// The emulated time of `cycles` cycles at a period of `period_nanos`: the period is multiplied
/// by the count taken as a `u32`, that is modulo 2^32.
pub fn emulated_nanos(period_nanos: u128, cycles: Cycles) -> (r: u128)
    requires
        period_nanos * (cycles as int % 0x1_0000_0000) <= max_duration_nanos(),
    ensures
        r == period_nanos * (cycles as int % 0x1_0000_0000),
{
    let n = (cycles as u64 % 0x1_0000_0000) as u32;
    period_nanos * (n as u128)
}

/// The number of cycles after which a clock of period `period_subsec_nanos` nanoseconds checks
/// the time: as many as make ten milliseconds.
pub fn adjust_period(period_subsec_nanos: u32) -> (r: Cycles)
    requires
        period_subsec_nanos > 0,
    ensures
        r == 10_000_000int / period_subsec_nanos as int,
{
    10_000_000 / period_subsec_nanos as Cycles
}

/// Adds `cycles` to the `total` counted so far, and says whether the clock is due to check the
/// time: when the new total reaches `adjust_period`.
pub fn advance(total: Cycles, cycles: Cycles, adjust_period: Cycles) -> (r: (Cycles, bool))
    requires
        total + cycles <= usize::MAX,
    ensures
        r.0 == total + cycles,
        r.1 == (total + cycles >= adjust_period),
{
    let total = total + cycles;
    (total, total >= adjust_period)
}

/// What a clock does when a run that should take `expected_nanos` took `actual_nanos`: if it was
/// asked to wait and the emulation ran ahead, it sleeps until real time catches up, so that the
/// real time then equals the emulated time; if it ran behind, it is late.
pub fn sync_action(expected_nanos: u128, actual_nanos: u128, wait: bool) -> (r: SyncAction)
    ensures
        r == (if !wait {
            SyncAction::Go
        } else if expected_nanos > actual_nanos {
            SyncAction::Sleep((expected_nanos - actual_nanos) as u128)
        } else {
            SyncAction::Late((actual_nanos - expected_nanos) as u128)
        }),
        r matches SyncAction::Sleep(d) ==> actual_nanos + d == expected_nanos,
{
    if !wait {
        SyncAction::Go
    } else if expected_nanos > actual_nanos {
        SyncAction::Sleep(expected_nanos - actual_nanos)
    } else {
        SyncAction::Late(actual_nanos - expected_nanos)
    }
}

} // verus!
