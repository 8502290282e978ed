//! Reduction modulo `2^128`, which is what wrapping arithmetic on the scalar
//! type computes, and its compatibility with sums of products.

use crate::algebra::{mat_apply, mat_mul, IntMatrix, IntVector};
use vstd::arithmetic::div_mod::{lemma_add_mod_noop, lemma_mul_mod_noop_general, lemma_small_mod};
use vstd::prelude::*;

verus! {

/// The number of values of the scalar type, `2^128`.
pub open spec fn modulus() -> int {
    0x1_0000_0000_0000_0000_0000_0000_0000_0000int
}

/// What wrapping arithmetic keeps of `v`: its remainder modulo `2^128`.
pub open spec fn wrap(v: int) -> int {
    v % modulus()
}

/// `v` with each component wrapped.
pub open spec fn wrap_vector(v: IntVector) -> IntVector {
    IntVector { x: wrap(v.x), y: wrap(v.y) }
}

/// `m` with each entry wrapped.
pub open spec fn wrap_matrix(m: IntMatrix) -> IntMatrix {
    IntMatrix { a: wrap(m.a), b: wrap(m.b), c: wrap(m.c), d: wrap(m.d) }
}

/// Whether `v` is a value of the scalar type.
pub open spec fn fits(v: int) -> bool {
    0 <= v <= u128::MAX
}

/// Whether both components of `v` are values of the scalar type.
pub open spec fn vector_fits(v: IntVector) -> bool {
    fits(v.x) && fits(v.y)
}

/// Whether all entries of `m` are values of the scalar type.
pub open spec fn matrix_fits(m: IntMatrix) -> bool {
    fits(m.a) && fits(m.b) && fits(m.c) && fits(m.d)
}

/// Wrapping leaves exactly the values of the scalar type as they are.
pub proof fn lemma_wrap_fits(v: int)
    ensures
        wrap(v) == v <==> fits(v),
{
    if fits(v) {
        lemma_small_mod(v as nat, modulus() as nat);
    }
}

/// Wrapping leaves exactly the vectors of the scalar type as they are.
pub proof fn lemma_wrap_vector_fits(v: IntVector)
    ensures
        wrap_vector(v) == v <==> vector_fits(v),
{
    lemma_wrap_fits(v.x);
    lemma_wrap_fits(v.y);
}

/// Wrapping leaves exactly the matrices of the scalar type as they are.
pub proof fn lemma_wrap_matrix_fits(m: IntMatrix)
    ensures
        wrap_matrix(m) == m <==> matrix_fits(m),
{
    lemma_wrap_fits(m.a);
    lemma_wrap_fits(m.b);
    lemma_wrap_fits(m.c);
    lemma_wrap_fits(m.d);
}

/// Wrapping the factors first does not change the wrapped value of
/// `p * q + s * t`.
proof fn lemma_wrap_dot(p: int, q: int, s: int, t: int)
    ensures
        wrap(wrap(p) * wrap(q) + wrap(s) * wrap(t)) == wrap(p * q + s * t),
{
    let m = modulus();
    lemma_mul_mod_noop_general(p, q, m);
    lemma_mul_mod_noop_general(s, t, m);
    lemma_add_mod_noop(wrap(p) * wrap(q), wrap(s) * wrap(t), m);
    lemma_add_mod_noop(p * q, s * t, m);
}

/// Wrapping is compatible with the matrix product: the factors may be
/// wrapped first.
pub proof fn lemma_wrap_mat_mul(m1: IntMatrix, m2: IntMatrix)
    ensures
        wrap_matrix(mat_mul(wrap_matrix(m1), wrap_matrix(m2))) == wrap_matrix(mat_mul(m1, m2)),
{
    lemma_wrap_dot(m1.a, m2.a, m1.b, m2.c);
    lemma_wrap_dot(m1.a, m2.b, m1.b, m2.d);
    lemma_wrap_dot(m1.c, m2.a, m1.d, m2.c);
    lemma_wrap_dot(m1.c, m2.b, m1.d, m2.d);
}

/// Wrapping is compatible with applying a matrix to a vector.
pub proof fn lemma_wrap_mat_apply(m: IntMatrix, v: IntVector)
    ensures
        wrap_vector(mat_apply(wrap_matrix(m), wrap_vector(v))) == wrap_vector(mat_apply(m, v)),
{
    lemma_wrap_dot(m.a, v.x, m.b, v.y);
    lemma_wrap_dot(m.c, v.x, m.d, v.y);
}

} // verus!
