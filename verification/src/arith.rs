//! Division with remainder.

use vstd::prelude::*;

verus! {

/// A number is its quotient by a divisor times the divisor, and a rest below
/// the divisor.
pub(crate) proof fn lemma_quotient_and_rest(amount: nat, divisor: nat)
    by (nonlinear_arith)
    requires
        divisor > 0,
    ensures
        amount == (amount / divisor) * divisor + amount % divisor,
        0 <= amount % divisor < divisor,
{
}

} // verus!
