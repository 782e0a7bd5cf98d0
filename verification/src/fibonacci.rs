use vstd::prelude::*;

verus! {

use vstd::arithmetic::power2::pow2;
use vstd::arithmetic::power2::lemma_pow2_adds;
use vstd::arithmetic::power2::lemma_pow2_strictly_increases;
use vstd::arithmetic::power2::lemma2_to64;
use vstd::arithmetic::power2::lemma2_to64_rest;

/// The failure signalled when the requested sequence index is invalid.
#[derive(Clone, Copy, Debug, PartialEq, Eq, Structural)]
pub enum FibonacciError {
    /// The requested index was negative.
    InvalidArgument,
}

/// The sequence value at index `n`: the terms at indices 0 and 1 are both 1,
/// and every later term is the sum of the two terms before it.
pub open spec fn spec_fib(n: int) -> int
    decreases n,
{
    if n <= 1 {
        1
    } else {
        spec_fib(n - 1) + spec_fib(n - 2)
    }
}

/// Every sequence value is at least 1.
pub proof fn lemma_fib_pos(n: int)
    ensures
        spec_fib(n) >= 1,
    decreases n,
{
    if n > 1 {
        lemma_fib_pos(n - 1);
        lemma_fib_pos(n - 2);
    }
}

/// The sequence never decreases as the index grows.
pub proof fn lemma_fib_monotonic(m: int, n: int)
    requires
        m <= n,
    ensures
        spec_fib(m) <= spec_fib(n),
    decreases n - m,
{
    if m < n {
        lemma_fib_monotonic(m, n - 1);
        if n > 1 {
            lemma_fib_pos(n - 2);
        }
    }
}

/// Each sequence value is bounded by the power of two at its index.
pub proof fn lemma_fib_le_pow2(n: int)
    requires
        n >= 0,
    ensures
        spec_fib(n) <= pow2(n as nat),
    decreases n,
{
    lemma2_to64();
    if n > 1 {
        lemma_fib_le_pow2(n - 1);
        lemma_fib_le_pow2(n - 2);
        lemma_pow2_strictly_increases((n - 2) as nat, (n - 1) as nat);
        lemma_pow2_adds((n - 1) as nat, 1);
    }
}

/// At every index up to 126 the sequence value fits in an `i128`,
/// because it is bounded by `pow2(126)`, which does.
pub proof fn lemma_fib_fits_i128(n: int)
    requires
        0 <= n <= 126,
    ensures
        spec_fib(n) <= i128::MAX,
{
    lemma_fib_le_pow2(n);
    if n < 126 {
        lemma_pow2_strictly_increases(n as nat, 126);
    }
    lemma_pow2_adds(64, 62);
    lemma2_to64();
    lemma2_to64_rest();
    assert(pow2(126) == 0x10000000000000000 * 0x4000000000000000);
}

/// What `fibonacci` promises of its result for the index `value`: a negative
/// index yields exactly the invalid-argument failure, and any other index
/// yields exactly the sequence value at that index.
pub open spec fn fibonacci_result_spec(value: i32, result: Result<i128, FibonacciError>) -> bool {
    match result {
        Ok(term) => value >= 0 && term == spec_fib(value as int),
        Err(e) => value < 0 && e == FibonacciError::InvalidArgument,
    }
}

/// The calculator is a pure function of its index: any two results that meet
/// its contract for the same index are equal.
pub proof fn lemma_fibonacci_deterministic(
    value: i32,
    r1: Result<i128, FibonacciError>,
    r2: Result<i128, FibonacciError>,
)
    requires
        fibonacci_result_spec(value, r1),
        fibonacci_result_spec(value, r2),
    ensures
        r1 == r2,
{
}

/// The recurrence: at every index past the first two, the sequence value is
/// the sum of the values at the two indices before it.
pub proof fn lemma_fib_recurrence(n: int)
    requires
        n >= 2,
    ensures
        spec_fib(n) == spec_fib(n - 1) + spec_fib(n - 2),
{
}

/// Returns the sequence value at index `value`, or the invalid-argument
/// failure when `value` is negative.
///
/// The precondition asks only what the machine forces: the value at the
/// requested index must fit in the `i128` result. `lemma_fib_fits_i128`
/// discharges it for every index up to 126, which covers every index the
/// sequence is used at here.
pub fn fibonacci(value: i32) -> (result: Result<i128, FibonacciError>)
    requires
        value >= 0 ==> spec_fib(value as int) <= i128::MAX,
    ensures
        fibonacci_result_spec(value, result),
{
    if value < 0 {
        return Err(FibonacciError::InvalidArgument);
    }
    let mut previous: i128 = 1;
    let mut current: i128 = 1;
    let mut index: i32 = 1;
    while index < value
        invariant
            1 <= index,
            index <= value || index == 1,
            0 <= value,
            spec_fib(value as int) <= i128::MAX,
            previous == spec_fib(index - 1),
            current == spec_fib(index as int),
        decreases value - index,
    {
        proof {
            lemma_fib_pos(index - 1);
            lemma_fib_pos(index as int);
            lemma_fib_monotonic(index + 1, value as int);
        }
        let next: i128 = previous + current;
        previous = current;
        current = next;
        index = index + 1;
    }
    Ok(current)
}

} // verus!
