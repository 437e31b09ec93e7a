//! How long to wait between two requests to a service.

use crate::math::power_of_two;
use vstd::prelude::*;

verus! {

/// The wait after a success, in seconds.
pub const USAGE_INTERVAL_SECS: u64 = 300;

/// The wait after the first failure, in seconds.
pub const MIN_RETRY_SECS: u64 = 30;

/// The longest wait, in seconds.
pub const MAX_RETRY_SECS: u64 = 3600;

/// The number of failures after which the wait no longer grows.
pub const MAX_BACKOFF_STEPS: u32 = 6;

/// The wait after `failures` failures in a row: doubled with each, up to a point.
pub open spec fn backoff_model(failures: u32) -> nat {
    let steps = if failures < MAX_BACKOFF_STEPS {
        failures
    } else {
        MAX_BACKOFF_STEPS
    };
    MIN_RETRY_SECS as nat * power_of_two(if steps == 0 {
        0
    } else {
        (steps - 1) as nat
    })
}

/// The wait before the next request, in seconds. `retry_after` is the wait that
/// the service asked for.
pub open spec fn delay_model(failures: u32, retry_after: Option<u64>) -> nat {
    match retry_after {
        Some(asked) => {
            let wait = if asked as nat > backoff_model(failures) {
                asked as nat
            } else {
                backoff_model(failures)
            };
            if wait < MAX_RETRY_SECS {
                wait
            } else {
                MAX_RETRY_SECS as nat
            }
        },
        None => if failures > 0 {
            backoff_model(failures)
        } else {
            USAGE_INTERVAL_SECS as nat
        },
    }
}

fn backoff(failures: u32) -> (r: u64)
    ensures
        r == backoff_model(failures),
        r <= 960,
{
    proof {
        reveal_with_fuel(power_of_two, 7);
    }
    if failures <= 1 {
        MIN_RETRY_SECS
    } else if failures == 2 {
        MIN_RETRY_SECS * 2
    } else if failures == 3 {
        MIN_RETRY_SECS * 4
    } else if failures == 4 {
        MIN_RETRY_SECS * 8
    } else if failures == 5 {
        MIN_RETRY_SECS * 16
    } else {
        MIN_RETRY_SECS * 32
    }
}

/// The requests that failed in a row.
#[derive(Clone, Copy, Debug, PartialEq, Eq)]
pub struct Poll {
    pub failures: u32,
}

impl Poll {
    /// Before the first request.
    pub fn new() -> (r: Poll)
        ensures
            r.failures == 0,
    {
        Poll { failures: 0 }
    }

    /// Takes in whether a request succeeded, and says how many seconds to wait
    /// before the next.
    pub fn after_request(&mut self, succeeded: bool, retry_after: Option<u64>) -> (r: u64)
        ensures
            final(self).failures == (if succeeded {
                0
            } else if old(self).failures == u32::MAX {
                u32::MAX as int
            } else {
                old(self).failures + 1
            }),
            r == delay_model(final(self).failures, retry_after),
    {
        if succeeded {
            self.failures = 0;
        } else if self.failures < u32::MAX {
            self.failures = self.failures + 1;
        }
        let grown: u64 = backoff(self.failures);
        match retry_after {
            Some(asked) => {
                let wait: u64 = if asked > grown {
                    asked
                } else {
                    grown
                };
                if wait < MAX_RETRY_SECS {
                    wait
                } else {
                    MAX_RETRY_SECS
                }
            },
            None => if self.failures > 0 {
                grown
            } else {
                USAGE_INTERVAL_SECS
            },
        }
    }
}

/// The wait is never short and never endless, whatever the service asks for,
/// and it never shrinks as failures add up.
pub proof fn waits_are_bounded(failures: u32, more: u32, retry_after: Option<u64>)
    requires
        0 < failures <= more,
    ensures
        MIN_RETRY_SECS <= delay_model(failures, retry_after) <= MAX_RETRY_SECS,
        delay_model(failures, retry_after) <= delay_model(more, retry_after),
{
    reveal_with_fuel(power_of_two, 7);
}

/// A usage that was fetched is fetched again after the usual time, unless the
/// service asked for more; each failure doubles the wait, from half a minute to
/// sixteen.
pub proof fn failures_double_the_wait(failures: u32, asked: u64)
    ensures
        delay_model(0, None) == 300,
        delay_model(1, None) == 30,
        1 <= failures < 6 ==> delay_model((failures + 1) as u32, None) == 2 * delay_model(
            failures,
            None,
        ),
        failures >= 6 ==> delay_model(failures, None) == 960,
        backoff_model(failures) <= asked <= 3600 ==> delay_model(failures, Some(asked)) == asked,
        asked > 3600 ==> delay_model(failures, Some(asked)) == 3600,
{
    reveal_with_fuel(power_of_two, 7);
}

} // verus!
