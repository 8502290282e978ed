//! Fixed 2x2 matrices over `u128` with wrapping arithmetic, and their powers
//! by repeated squaring.
//!
//! Each operation returns the exact integer result reduced modulo `2^128`
//! entry by entry, and so the exact result itself wherever that fits.

use crate::algebra::{
    identity, lemma_identity_pow, lemma_mat_mul_identity, lemma_mat_pow_add, lemma_mat_pow_one,
    mat_apply, mat_mul, mat_pow, IntMatrix, IntVector,
};
use crate::modular::{
    lemma_wrap_fits, lemma_wrap_mat_mul, lemma_wrap_matrix_fits, lemma_wrap_vector_fits,
    matrix_fits, modulus, vector_fits, wrap, wrap_matrix, wrap_vector,
};
use crate::sequence::{recurrence_matrix, seed_vector};
use vstd::arithmetic::div_mod::lemma_add_mod_noop;
use vstd::arithmetic::power2::{
    lemma2_to64, lemma_pow2_strictly_increases, lemma_pow2_unfold, pow2,
};
use vstd::bits::lemma_u16_shl_is_mul;
use vstd::prelude::*;

verus! {

/// Two scalars.
pub type Vector = [u128; 2];

/// Two rows of two scalars.
pub type Matrix = [Vector; 2];

/// The matrix of the Fibonacci recurrence.
pub const F: Matrix = [[1, 1], [1, 0]];

/// The seed vector `[fibonacci(1), fibonacci(0)]`.
pub const X: Vector = [1, 0];

/// The identity matrix.
pub const ID: Matrix = [[1, 0], [0, 1]];

/// The number of bits of an exponent, and so of squarings that cover it.
pub const EXPONENT_BITS: usize = 8;

/// The integer vector that `v` holds.
pub open spec fn vector_value(v: Vector) -> IntVector {
    IntVector { x: v[0] as int, y: v[1] as int }
}

/// The integer matrix that `m` holds.
pub open spec fn matrix_value(m: Matrix) -> IntMatrix {
    IntMatrix { a: m[0][0] as int, b: m[0][1] as int, c: m[1][0] as int, d: m[1][1] as int }
}

/// The product of two matrices, each entry reduced modulo `2^128`.
pub fn matrix_mul(m1: Matrix, m2: Matrix) -> (r: Matrix)
    ensures
        matrix_value(r) == wrap_matrix(mat_mul(matrix_value(m1), matrix_value(m2))),
        matrix_fits(mat_mul(matrix_value(m1), matrix_value(m2))) ==> matrix_value(r) == mat_mul(
            matrix_value(m1),
            matrix_value(m2),
        ),
{
    let a: u128 = m1[0][0];
    let b: u128 = m1[0][1];
    let c: u128 = m1[1][0];
    let d: u128 = m1[1][1];
    let e: u128 = m2[0][0];
    let f: u128 = m2[0][1];
    let g: u128 = m2[1][0];
    let h: u128 = m2[1][1];
    proof {
        lemma_wrapping_dot(a, e, b, g);
        lemma_wrapping_dot(a, f, b, h);
        lemma_wrapping_dot(c, e, d, g);
        lemma_wrapping_dot(c, f, d, h);
        lemma_wrap_matrix_fits(mat_mul(matrix_value(m1), matrix_value(m2)));
    }
    [
        [
            a.wrapping_mul(e).wrapping_add(b.wrapping_mul(g)),
            a.wrapping_mul(f).wrapping_add(b.wrapping_mul(h)),
        ],
        [
            c.wrapping_mul(e).wrapping_add(d.wrapping_mul(g)),
            c.wrapping_mul(f).wrapping_add(d.wrapping_mul(h)),
        ],
    ]
}

/// The matrix applied to the vector, each component reduced modulo `2^128`.
pub fn apply(m: Matrix, x: Vector) -> (r: Vector)
    ensures
        vector_value(r) == wrap_vector(mat_apply(matrix_value(m), vector_value(x))),
        vector_fits(mat_apply(matrix_value(m), vector_value(x))) ==> vector_value(r) == mat_apply(
            matrix_value(m),
            vector_value(x),
        ),
{
    let a: u128 = m[0][0];
    let b: u128 = m[0][1];
    let c: u128 = m[1][0];
    let d: u128 = m[1][1];
    let x0: u128 = x[0];
    let x1: u128 = x[1];
    proof {
        lemma_wrapping_dot(a, x0, b, x1);
        lemma_wrapping_dot(c, x0, d, x1);
        lemma_wrap_vector_fits(mat_apply(matrix_value(m), vector_value(x)));
    }
    [
        a.wrapping_mul(x0).wrapping_add(b.wrapping_mul(x1)),
        c.wrapping_mul(x0).wrapping_add(d.wrapping_mul(x1)),
    ]
}

/// The matrix times itself, each entry reduced modulo `2^128`.
pub fn square(m: Matrix) -> (r: Matrix)
    ensures
        matrix_value(r) == wrap_matrix(mat_mul(matrix_value(m), matrix_value(m))),
        matrix_fits(mat_mul(matrix_value(m), matrix_value(m))) ==> matrix_value(r) == mat_mul(
            matrix_value(m),
            matrix_value(m),
        ),
{
    matrix_mul(m, m)
}

/// The `n`-th power of `m`, each entry reduced modulo `2^128`. The zeroth
/// power is the identity.
///
/// The squares `m^(2^i)` are computed first, one for each bit of an
/// exponent; the result is the product, from the lowest bit up, of those
/// whose bit is set in `n`.
pub fn matrix_power(m: Matrix, n: u8) -> (r: Matrix)
    ensures
        matrix_value(r) == wrap_matrix(mat_pow(matrix_value(m), n as nat)),
        matrix_fits(mat_pow(matrix_value(m), n as nat)) ==> matrix_value(r) == mat_pow(
            matrix_value(m),
            n as nat,
        ),
        n == 0 ==> r == ID,
{
    let ghost base = matrix_value(m);
    // powers[i] == m^(2^i)
    let mut powers: [Matrix; EXPONENT_BITS] = [m; EXPONENT_BITS];
    proof {
        assert(pow2(0) == 1) by {
            lemma2_to64();
        }
        lemma_mat_pow_one(base);
        lemma_matrix_value_fits(m);
    }
    for i in 1..EXPONENT_BITS
        invariant
            base == matrix_value(m),
            forall|j: int|
                0 <= j < i ==> matrix_value(#[trigger] powers[j]) == wrap_matrix(
                    mat_pow(base, pow2(j as nat)),
                ),
    {
        let previous: Matrix = powers[i - 1];
        let squared: Matrix = square(previous);
        proof {
            let half = pow2((i - 1) as nat);
            assert(pow2(i as nat) == half + half) by {
                lemma_pow2_unfold(i as nat);
            }
            lemma_mat_pow_add(base, half, half);
            lemma_wrap_mat_mul(mat_pow(base, half), mat_pow(base, half));
            assert(matrix_value(squared) == wrap_matrix(mat_pow(base, pow2(i as nat))));
        }
        powers[i] = squared;
    }

    let mut product: Matrix = ID;
    proof {
        assert(low_bits(n, 0) == 0) by {
            lemma2_to64();
        }
        lemma_matrix_value_fits(ID);
    }
    for i in 0..EXPONENT_BITS
        invariant
            base == matrix_value(m),
            forall|j: int|
                0 <= j < EXPONENT_BITS ==> matrix_value(#[trigger] powers[j]) == wrap_matrix(
                    mat_pow(base, pow2(j as nat)),
                ),
            matrix_value(product) == wrap_matrix(mat_pow(base, low_bits(n, i as nat))),
    {
        proof {
            lemma_low_bits_step(n, i as u8);
        }
        if (n & 1 << i) != 0 {
            let ghost low = low_bits(n, i as nat);
            let ghost weight = pow2(i as nat);
            let selected: Matrix = powers[i];
            product = matrix_mul(product, selected);
            proof {
                assert(low_bits(n, (i + 1) as nat) == low + weight);
                lemma_mat_pow_add(base, low, weight);
                lemma_wrap_mat_mul(mat_pow(base, low), mat_pow(base, weight));
            }
        }
    }
    proof {
        assert(pow2(8) == 256) by {
            lemma2_to64();
        }
        assert(low_bits(n, 8) == n as nat);
        lemma_wrap_matrix_fits(mat_pow(base, n as nat));
        if n == 0 {
            lemma_matrix_value_fits(ID);
            lemma_matrix_value_injective(product, ID);
        }
    }
    product
}

/// The three constants hold the recurrence matrix, the seed vector and the
/// identity of the integers.
pub proof fn lemma_constants()
    ensures
        matrix_value(F) == recurrence_matrix(),
        vector_value(X) == seed_vector(),
        matrix_value(ID) == identity(),
{
}

/// A matrix is determined by the integers it holds.
pub proof fn lemma_matrix_value_injective(m1: Matrix, m2: Matrix)
    requires
        matrix_value(m1) == matrix_value(m2),
    ensures
        m1 == m2,
{
    assert(m1[0] =~= m2[0]);
    assert(m1[1] =~= m2[1]);
    assert(m1 =~= m2);
}

/// A vector is determined by the integers it holds.
pub proof fn lemma_vector_value_injective(v1: Vector, v2: Vector)
    requires
        vector_value(v1) == vector_value(v2),
    ensures
        v1 == v2,
{
    assert(v1 =~= v2);
}

/// What a matrix holds are values of the scalar type, which wrapping leaves
/// as they are.
pub proof fn lemma_matrix_value_fits(m: Matrix)
    ensures
        matrix_fits(matrix_value(m)),
        wrap_matrix(matrix_value(m)) == matrix_value(m),
{
    lemma_wrap_matrix_fits(matrix_value(m));
}

/// `ID` is neutral on both sides of `matrix_mul`: the product with it holds
/// what the other factor holds.
pub proof fn lemma_matrix_mul_identity(m: Matrix)
    ensures
        wrap_matrix(mat_mul(matrix_value(m), matrix_value(ID))) == matrix_value(m),
        wrap_matrix(mat_mul(matrix_value(ID), matrix_value(m))) == matrix_value(m),
{
    lemma_mat_mul_identity(matrix_value(m));
    lemma_matrix_value_fits(m);
}

/// Every power of `ID` that `matrix_power` computes holds what `ID` holds.
pub proof fn lemma_matrix_power_identity(n: u8)
    ensures
        wrap_matrix(mat_pow(matrix_value(ID), n as nat)) == matrix_value(ID),
{
    lemma_identity_pow(n as nat);
    lemma_matrix_value_fits(ID);
}

/// The value of the lowest `i` bits of `n`.
spec fn low_bits(n: u8, i: nat) -> nat {
    (n as nat) % pow2(i)
}

/// The lowest `i + 1` bits are the lowest `i` bits and the weight of bit
/// `i` where that bit is set.
proof fn lemma_low_bits_step(n: u8, i: u8)
    requires
        i < 8,
    ensures
        low_bits(n, (i + 1) as nat) == low_bits(n, i as nat) + if n & (1u8 << i) != 0 {
            pow2(i as nat)
        } else {
            0
        },
{
    let lo: u16 = 1u16 << (i as u16);
    let hi: u16 = 1u16 << ((i + 1) as u16);
    let bit: u8 = 1u8 << i;
    assert((n as u16) % hi == (n as u16) % lo + if n & bit != 0 {
        lo
    } else {
        0u16
    }) by (bit_vector)
        requires
            i < 8,
            lo == 1u16 << (i as u16),
            hi == 1u16 << ((i + 1) as u16),
            bit == 1u8 << i,
    ;
    lemma2_to64();
    lemma_pow2_strictly_increases(i as nat, 8);
    if i < 7 {
        lemma_pow2_strictly_increases((i + 1) as nat, 8);
    }
    lemma_u16_shl_is_mul(1, i as u16);
    lemma_u16_shl_is_mul(1, (i + 1) as u16);
}

/// What two wrapping multiplications and a wrapping addition make of
/// `p * q + s * t`: its remainder modulo `2^128`.
proof fn lemma_wrapping_dot(p: u128, q: u128, s: u128, t: u128)
    ensures
        p.wrapping_mul(q).wrapping_add(s.wrapping_mul(t)) == wrap(p * q + s * t),
{
    let m = modulus();
    let pq = p.wrapping_mul(q);
    let st = s.wrapping_mul(t);
    assert(0 <= p * q && 0 <= s * t) by (nonlinear_arith);
    assert(pq == (p * q) % m);
    assert(st == (s * t) % m);
    assert(pq.wrapping_add(st) == (pq + st) % m);
    lemma_add_mod_noop(p * q, s * t, m);
}

} // verus!
