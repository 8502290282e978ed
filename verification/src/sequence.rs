//! The Fibonacci sequence, defined three ways, and the proof that the three
//! agree.

use crate::algebra::{
    lemma_mat_pow_add, lemma_mat_pow_one, mat_apply, mat_mul, mat_pow, IntMatrix, IntVector,
};
use vstd::prelude::*;

verus! {

/// The matrix of the Fibonacci recurrence, `[[1, 1], [1, 0]]`.
pub open spec fn recurrence_matrix() -> IntMatrix {
    IntMatrix { a: 1, b: 1, c: 1, d: 0 }
}

/// The vector of the two seed values, `[fibonacci(1), fibonacci(0)]`.
pub open spec fn seed_vector() -> IntVector {
    IntVector { x: 1, y: 0 }
}

/// The Fibonacci sequence: 0, 1, and from there on the sum of the two before.
pub open spec fn fibonacci(n: nat) -> nat
    decreases n,
{
    if n == 0 {
        0
    } else if n == 1 {
        1
    } else {
        fibonacci((n - 1) as nat) + fibonacci((n - 2) as nat)
    }
}

/// The pair `(a, b)` after `n` steps of `(a, b) = (b, a + b)` from `(0, 1)`.
pub open spec fn recurrence_pair(n: nat) -> (nat, nat)
    decreases n,
{
    if n == 0 {
        (0, 1)
    } else {
        let (a, b) = recurrence_pair((n - 1) as nat);
        (b, a + b)
    }
}

/// The Fibonacci number that the matrix method reads off: the second
/// component of the `n`-th power of the recurrence matrix applied to the seeds.
pub open spec fn fibonacci_by_matrix(n: nat) -> int {
    mat_apply(mat_pow(recurrence_matrix(), n), seed_vector()).y
}

/// The Fibonacci number that the linear method reads off: the first of the
/// pair after `n` steps.
pub open spec fn fibonacci_by_recurrence(n: nat) -> nat {
    recurrence_pair(n).0
}

/// The largest index whose Fibonacci number fits in 128 bits.
pub const MAX_EXACT_INDEX: u8 = 186;

/// After `n` steps the pair holds the `n`-th Fibonacci number and the next.
pub proof fn lemma_recurrence_pair(n: nat)
    ensures
        recurrence_pair(n) == (fibonacci(n), fibonacci(n + 1)),
    decreases n,
{
    if n > 0 {
        lemma_recurrence_pair((n - 1) as nat);
    }
}

/// The powers of the recurrence matrix hold three neighbours of the
/// sequence: the power `n + 1` is
/// `[[fibonacci(n + 2), fibonacci(n + 1)], [fibonacci(n + 1), fibonacci(n)]]`.
pub proof fn lemma_recurrence_matrix_pow(n: nat)
    ensures
        mat_pow(recurrence_matrix(), n + 1) == (IntMatrix {
            a: fibonacci(n + 2) as int,
            b: fibonacci(n + 1) as int,
            c: fibonacci(n + 1) as int,
            d: fibonacci(n) as int,
        }),
    decreases n,
{
    let f = recurrence_matrix();
    if n == 0 {
        lemma_mat_pow_one(f);
        assert(fibonacci(2) == 1) by {
            reveal_with_fuel(fibonacci, 3);
        }
    } else {
        lemma_recurrence_matrix_pow((n - 1) as nat);
        assert(mat_pow(f, n + 1) == mat_mul(mat_pow(f, n), f));
    }
}

/// The `n`-th power of the recurrence matrix takes the seeds to
/// `[fibonacci(n + 1), fibonacci(n)]`.
pub proof fn lemma_power_applied_to_seeds(n: nat)
    ensures
        mat_apply(mat_pow(recurrence_matrix(), n), seed_vector()) == (IntVector {
            x: fibonacci(n + 1) as int,
            y: fibonacci(n) as int,
        }),
{
    if n > 0 {
        lemma_recurrence_matrix_pow((n - 1) as nat);
    }
}

/// The matrix method and the linear recurrence compute the same number, the
/// Fibonacci number of the definition, at every index.
pub proof fn lemma_methods_agree(n: nat)
    ensures
        fibonacci_by_matrix(n) == fibonacci_by_recurrence(n),
        fibonacci_by_matrix(n) == fibonacci(n),
{
    lemma_power_applied_to_seeds(n);
    lemma_recurrence_pair(n);
}

/// The sequence never falls.
pub proof fn lemma_fibonacci_monotonic(i: nat, j: nat)
    requires
        i <= j,
    ensures
        fibonacci(i) <= fibonacci(j),
    decreases j - i,
{
    if i < j {
        lemma_fibonacci_monotonic(i, (j - 1) as nat);
    }
}

/// From the power `k` of the recurrence matrix, `[[a, b], [c, d]]`, to the
/// powers `2 * k` and `2 * k + 1`.
proof fn lemma_double(k: nat, a: int, b: int, c: int, d: int)
    requires
        mat_pow(recurrence_matrix(), k) == (IntMatrix { a, b, c, d }),
    ensures
        mat_pow(recurrence_matrix(), 2 * k) == (IntMatrix {
            a: a * a + b * c,
            b: a * b + b * d,
            c: c * a + d * c,
            d: c * b + d * d,
        }),
        mat_pow(recurrence_matrix(), 2 * k + 1) == (IntMatrix {
            a: a * a + b * c + a * b + b * d,
            b: a * a + b * c,
            c: c * a + d * c + c * b + d * d,
            d: c * a + d * c,
        }),
{
    lemma_mat_pow_add(recurrence_matrix(), k, k);
    assert(k + k == 2 * k);
}

/// The Fibonacci numbers on both sides of the 128-bit boundary.
pub proof fn lemma_fibonacci_at_boundary()
    ensures
        fibonacci(186) == 332825110087067562321196029789634457848,
        fibonacci(187) == 538522340430300790495419781092981030533int,
        fibonacci(186) <= u128::MAX < fibonacci(187),
{
    let f = recurrence_matrix();
    lemma_mat_pow_one(f);
    lemma_double(1, 1, 1, 1, 0);
    lemma_double(2, 2, 1, 1, 1);
    lemma_double(5, 8, 5, 5, 3);
    lemma_double(11, 144, 89, 89, 55);
    lemma_double(23, 46368, 28657, 28657, 17711);
    lemma_double(46, 2971215073, 1836311903, 1836311903, 1134903170);
    lemma_double(
        93,
        19740274219868223167,
        12200160415121876738,
        12200160415121876738,
        7540113804746346429,
    );
    assert(mat_pow(f, 186).b == 332825110087067562321196029789634457848);
    lemma_recurrence_matrix_pow(185);
}

/// The Fibonacci number fits in 128 bits exactly up to index 186.
pub proof fn lemma_fibonacci_fits(n: nat)
    ensures
        fibonacci(n) <= u128::MAX <==> n <= MAX_EXACT_INDEX,
{
    lemma_fibonacci_at_boundary();
    if n <= 186 {
        lemma_fibonacci_monotonic(n, 186);
    } else {
        lemma_fibonacci_monotonic(187, n);
    }
}

} // verus!
