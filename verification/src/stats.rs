//! Support for the statistics collaborator that consumes the history
//! samples. The time-series analysis itself works in floating point and
//! lives outside the crate; only its integer combinatorics are here.

use vstd::prelude::*;

verus! {

/// The factorial of a number.
pub open spec fn spec_factorial(n: nat) -> nat
    decreases n,
{
    if n <= 1 {
        1
    } else {
        n * spec_factorial((n - 1) as nat)
    }
}

/// Computes the factorial. Twelve is the largest argument whose
/// factorial a machine word holds on every word size the crate admits.
pub fn factorial(n: usize) -> (r: usize)
    requires
        n <= 12,
    ensures
        r == spec_factorial(n as nat),
    decreases n,
{
    if n <= 1 {
        1
    } else {
        let rest = factorial(n - 1);
        proof {
            lemma_factorial_monotone(n as nat, 12);
            assert(spec_factorial(12) == 479_001_600) by {
                reveal_with_fuel(spec_factorial, 13);
            }
        }
        n * rest
    }
}

/// The factorial grows with its argument.
proof fn lemma_factorial_monotone(n: nat, m: nat)
    requires
        n <= m,
    ensures
        spec_factorial(n) <= spec_factorial(m),
    decreases m,
{
    if m <= 1 {
    } else if n < m {
        lemma_factorial_monotone(n, (m - 1) as nat);
        assert(spec_factorial(m) == m * spec_factorial((m - 1) as nat));
        assert(m * spec_factorial((m - 1) as nat) >= spec_factorial((m - 1) as nat))
            by (nonlinear_arith)
            requires
                m >= 1,
        ;
    }
}

} // verus!
