use vstd::prelude::*;

verus! {

/// `n!`, with `0! == 1`.
pub open spec fn factorial(n: nat) -> nat
    decreases n,
{
    if n <= 1 {
        1
    } else {
        n * factorial((n - 1) as nat)
    }
}

/// The Fibonacci numbers from `fib(1) == fib(2) == 1`; `fib(0)` is 0.
pub open spec fn fib(n: nat) -> nat
    decreases n,
{
    if n == 0 {
        0
    } else if n <= 2 {
        1
    } else {
        fib((n - 1) as nat) + fib((n - 2) as nat)
    }
}

/// Factorials never shrink.
pub proof fn lemma_factorial_grows(n: nat)
    requires
        n >= 1,
    ensures
        factorial((n - 1) as nat) <= factorial(n),
        factorial(n) >= 1,
    decreases n,
{
    if n > 1 {
        lemma_factorial_grows((n - 1) as nat);
        let f = factorial((n - 1) as nat);
        assert(f <= n * f) by (nonlinear_arith)
            requires
                n >= 1,
        ;
    }
}

/// `n!`, computed recursively.
pub fn fatorial(n: u64) -> (r: u64)
    requires
        factorial(n as nat) <= u64::MAX,
    ensures
        r == factorial(n as nat),
    decreases n,
{
    if n == 0 || n == 1 {
        1
    } else {
        proof {
            lemma_factorial_grows(n as nat);
        }
        let smaller = fatorial(n - 1);
        proof {
            let f = factorial((n - 1) as nat);
            assert(factorial(n as nat) == n * f);
            assert(smaller * n == n * f) by (nonlinear_arith)
                requires
                    smaller == f,
            ;
        }
        smaller * n
    }
}

/// The `n`th Fibonacci number, computed by the defining recursion.
pub fn fibonnaci(n: u32) -> (r: u64)
    requires
        n >= 1,
        fib(n as nat) <= u64::MAX,
    ensures
        r == fib(n as nat),
    decreases n,
{
    if n == 2 || n == 1 {
        1
    } else {
        fibonnaci(n - 1) + fibonnaci(n - 2)
    }
}

/// A function that returns the `n`th Fibonacci number.
pub fn fibonnaci_mem() -> (f: impl Fn(u32) -> u64)
    ensures
        forall|n: u32| n >= 1 && fib(n as nat) <= u64::MAX ==> #[trigger] f.requires((n,)),
        forall|n: u32, r: u64| #[trigger] f.ensures((n,), r) ==> r == fib(n as nat),
{
    |n: u32| -> (r: u64)
        requires
            n >= 1,
            fib(n as nat) <= u64::MAX,
        ensures
            r == fib(n as nat),
        { fibonnaci(n) }
}

} // verus!
