//! The Fibonacci numbers, computed iteratively.
//!
//! The classic two-way recursion is kept as the specification; the
//! executable function walks forward with a pair of accumulators, so the
//! `n`-th number costs `n` steps instead of exponentially many.  Where
//! the number no longer fits the machine word, the function says so
//! instead of overflowing.

use vstd::prelude::*;

verus! {

/// The mathematical Fibonacci sequence: 0, 1, 1, 2, 3, 5, ...
pub open spec fn fib_nat(n: nat) -> nat
    decreases n,
{
    if n == 0 {
        0
    } else if n == 1 {
        1
    } else {
        fib_nat((n - 2) as nat) + fib_nat((n - 1) as nat)
    }
}

/// The sequence never shrinks as the index grows.
pub proof fn lemma_fib_monotonic(i: nat, j: nat)
    requires
        i <= j,
    ensures
        fib_nat(i) <= fib_nat(j),
    decreases j - i,
{
    if i < j {
        if j >= 2 {
            lemma_fib_monotonic(i, (j - 1) as nat);
            assert(fib_nat(j) == fib_nat((j - 2) as nat) + fib_nat((j - 1) as nat));
        } else {
            assert(fib_nat(0) == 0 && fib_nat(1) == 1);
        }
    }
}

/// The `n`-th Fibonacci number, or `None` exactly when that number does
/// not fit the machine word.
#[verifier::loop_isolation(false)]
pub fn fib(n: u64) -> (r: Option<u64>)
    ensures
        r matches Some(v) ==> v == fib_nat(n as nat),
        r == None::<u64> <==> fib_nat(n as nat) > u64::MAX,
{
    if n == 0 {
        return Some(0);
    }
    let mut a: u64 = 0;
    let mut b: u64 = 1;
    let mut i: u64 = 0;
    while i < n - 1
        invariant
            i <= n - 1,
            a == fib_nat(i as nat),
            b == fib_nat((i + 1) as nat),
        decreases n - i,
    {
        match a.checked_add(b) {
            Some(s) => {
                a = b;
                b = s;
                i = i + 1;
            },
            None => {
                // this sum is the next number; all later ones are at
                // least as big, so the n-th cannot fit either
                proof {
                    lemma_fib_monotonic((i + 2) as nat, n as nat);
                }
                return None;
            },
        }
    }
    Some(b)
}

} // verus!
