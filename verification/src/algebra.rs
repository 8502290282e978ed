//! 2x2 matrices of mathematical integers: product, application to a
//! vector, powers, and the laws of these that the executable code rests on.

use vstd::prelude::*;

verus! {

/// A pair of integers, read as a column vector.
pub struct IntVector {
    pub x: int,
    pub y: int,
}

/// A 2x2 matrix of integers, `[[a, b], [c, d]]`.
pub struct IntMatrix {
    pub a: int,
    pub b: int,
    pub c: int,
    pub d: int,
}

/// The multiplicative identity.
pub open spec fn identity() -> IntMatrix {
    IntMatrix { a: 1, b: 0, c: 0, d: 1 }
}

/// The matrix product `m1 * m2`.
pub open spec fn mat_mul(m1: IntMatrix, m2: IntMatrix) -> IntMatrix {
    IntMatrix {
        a: m1.a * m2.a + m1.b * m2.c,
        b: m1.a * m2.b + m1.b * m2.d,
        c: m1.c * m2.a + m1.d * m2.c,
        d: m1.c * m2.b + m1.d * m2.d,
    }
}

/// The matrix `m` applied to the vector `v`.
pub open spec fn mat_apply(m: IntMatrix, v: IntVector) -> IntVector {
    IntVector { x: m.a * v.x + m.b * v.y, y: m.c * v.x + m.d * v.y }
}

/// The `n`-th power of `m`; the zeroth power is the identity.
pub open spec fn mat_pow(m: IntMatrix, n: nat) -> IntMatrix
    decreases n,
{
    if n == 0 {
        identity()
    } else {
        mat_mul(mat_pow(m, (n - 1) as nat), m)
    }
}

/// The identity is neutral on both sides.
pub proof fn lemma_mat_mul_identity(m: IntMatrix)
    ensures
        mat_mul(m, identity()) == m,
        mat_mul(identity(), m) == m,
{
}

/// Regrouping of a sum of triple products: one entry of a product of three
/// matrices, bracketed from the left and from the right.
proof fn lemma_regroup(a: int, b: int, e: int, f: int, g: int, h: int, x: int, y: int)
    ensures
        (a * e + b * g) * x + (a * f + b * h) * y == a * (e * x + f * y) + b * (g * x + h * y),
{
    assert((a * e + b * g) * x == a * (e * x) + b * (g * x)) by (nonlinear_arith);
    assert((a * f + b * h) * y == a * (f * y) + b * (h * y)) by (nonlinear_arith);
    assert(a * (e * x + f * y) == a * (e * x) + a * (f * y)) by (nonlinear_arith);
    assert(b * (g * x + h * y) == b * (g * x) + b * (h * y)) by (nonlinear_arith);
}

/// The matrix product is associative.
pub proof fn lemma_mat_mul_associative(m1: IntMatrix, m2: IntMatrix, m3: IntMatrix)
    ensures
        mat_mul(mat_mul(m1, m2), m3) == mat_mul(m1, mat_mul(m2, m3)),
{
    lemma_regroup(m1.a, m1.b, m2.a, m2.b, m2.c, m2.d, m3.a, m3.c);
    lemma_regroup(m1.a, m1.b, m2.a, m2.b, m2.c, m2.d, m3.b, m3.d);
    lemma_regroup(m1.c, m1.d, m2.a, m2.b, m2.c, m2.d, m3.a, m3.c);
    lemma_regroup(m1.c, m1.d, m2.a, m2.b, m2.c, m2.d, m3.b, m3.d);
}

/// The first power of a matrix is the matrix.
pub proof fn lemma_mat_pow_one(m: IntMatrix)
    ensures
        mat_pow(m, 1) == m,
{
    assert(mat_pow(m, 1) == mat_mul(mat_pow(m, 0), m));
    lemma_mat_mul_identity(m);
}

/// Every power of the identity is the identity.
pub proof fn lemma_identity_pow(n: nat)
    ensures
        mat_pow(identity(), n) == identity(),
    decreases n,
{
    if n > 0 {
        lemma_identity_pow((n - 1) as nat);
    }
}

/// Exponents add: `m^(j + k) == m^j * m^k`.
pub proof fn lemma_mat_pow_add(m: IntMatrix, j: nat, k: nat)
    ensures
        mat_pow(m, j + k) == mat_mul(mat_pow(m, j), mat_pow(m, k)),
    decreases k,
{
    if k == 0 {
        lemma_mat_mul_identity(mat_pow(m, j));
    } else {
        let k1 = (k - 1) as nat;
        lemma_mat_pow_add(m, j, k1);
        assert((j + k - 1) as nat == j + k1);
        lemma_mat_mul_associative(mat_pow(m, j), mat_pow(m, k1), m);
    }
}

} // verus!
