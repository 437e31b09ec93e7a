//! Powers of two.

use vstd::prelude::*;

verus! {

/// Two to the power of `n`.
pub open spec fn power_of_two(n: nat) -> nat
    decreases n,
{
    if n == 0 {
        1
    } else {
        2 * power_of_two((n - 1) as nat)
    }
}

/// Powers of two grow.
pub proof fn powers_grow(a: nat, b: nat)
    requires
        a <= b,
    ensures
        0 < power_of_two(a) <= power_of_two(b),
    decreases b,
{
    if a < b {
        powers_grow(a, (b - 1) as nat);
    } else if b > 0 {
        powers_grow((a - 1) as nat, (b - 1) as nat);
    }
}

} // verus!
