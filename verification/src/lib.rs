//! Fibonacci numbers by fast exponentiation of the recurrence matrix.
//!
//! The scalar is `u128` and all arithmetic wraps, so every function is total
//! and returns the exact mathematical value reduced modulo `2^128`. Up to
//! index 186 the Fibonacci number itself fits, and the result is exact.

use crate::algebra::mat_pow;
use crate::matrix::{
    apply, lemma_constants, lemma_matrix_value_fits, matrix_power, vector_value, F, X,
};
use crate::modular::{lemma_wrap_fits, lemma_wrap_mat_apply, modulus, wrap};
use crate::sequence::{
    fibonacci, fibonacci_by_matrix, fibonacci_by_recurrence, lemma_fibonacci_fits,
    lemma_methods_agree, recurrence_matrix, recurrence_pair, seed_vector,
    MAX_EXACT_INDEX,
};
use vstd::arithmetic::div_mod::lemma_add_mod_noop;
use vstd::prelude::*;

pub mod algebra;
pub mod matrix;
pub mod modular;
pub mod sequence;

verus! {

/// The `n`-th Fibonacci number modulo `2^128`, in a logarithmic number of
/// matrix products: the second component of the `n`-th power of the
/// recurrence matrix applied to the seed vector.
pub fn fib(n: u8) -> (r: u128)
    ensures
        r == wrap(fibonacci_by_matrix(n as nat)),
        r == wrap(fibonacci(n as nat) as int),
        r == fibonacci(n as nat) <==> n <= MAX_EXACT_INDEX,
{
    let f_pow_n = matrix_power(F, n);
    let v = apply(f_pow_n, X);
    proof {
        lemma_constants();
        lemma_matrix_value_fits(f_pow_n);
        lemma_wrap_fits(1);
        lemma_wrap_fits(0);
        lemma_wrap_mat_apply(mat_pow(recurrence_matrix(), n as nat), seed_vector());
        assert(vector_value(v).y == wrap(fibonacci_by_matrix(n as nat)));
        lemma_methods_agree(n as nat);
        lemma_exact_range(n as nat);
    }
    v[1]
}

/// The `n`-th Fibonacci number modulo `2^128` by `n` steps of the linear
/// recurrence `(a, b) = (b, a + b)` from `(0, 1)`.
pub fn _fib_linear(n: u8) -> (r: u128)
    ensures
        r == wrap(fibonacci_by_recurrence(n as nat) as int),
        r == wrap(fibonacci(n as nat) as int),
        r == fibonacci(n as nat) <==> n <= MAX_EXACT_INDEX,
{
    let mut a: u128 = 0;
    let mut b: u128 = 1;
    proof {
        lemma_wrap_fits(0);
        lemma_wrap_fits(1);
    }
    for i in 0..n
        invariant
            a == wrap(recurrence_pair(i as nat).0 as int),
            b == wrap(recurrence_pair(i as nat).1 as int),
    {
        proof {
            let (x, y) = recurrence_pair(i as nat);
            lemma_add_mod_noop(x as int, y as int, modulus());
        }
        let next: u128 = a.wrapping_add(b);
        a = b;
        b = next;
    }
    proof {
        lemma_methods_agree(n as nat);
        lemma_exact_range(n as nat);
    }
    a
}

/// The `n`-th Fibonacci number modulo `2^128`, straight from the definition.
/// The number of calls grows as the result does.
pub fn _fib_naive(n: u8) -> (r: u128)
    ensures
        r == wrap(fibonacci(n as nat) as int),
        r == fibonacci(n as nat) <==> n <= MAX_EXACT_INDEX,
    decreases n,
{
    proof {
        lemma_exact_range(n as nat);
    }
    if n <= 1 {
        proof {
            lemma_wrap_fits(n as int);
        }
        n as u128
    } else {
        proof {
            lemma_add_mod_noop(
                fibonacci((n - 1) as nat) as int,
                fibonacci((n - 2) as nat) as int,
                modulus(),
            );
        }
        _fib_naive(n - 1).wrapping_add(_fib_naive(n - 2))
    }
}

/// The wrapped Fibonacci number is the Fibonacci number exactly up to the
/// largest exact index.
proof fn lemma_exact_range(n: nat)
    ensures
        wrap(fibonacci(n) as int) == fibonacci(n) <==> n <= MAX_EXACT_INDEX,
{
    lemma_fibonacci_fits(n);
    lemma_wrap_fits(fibonacci(n) as int);
}

} // verus!
