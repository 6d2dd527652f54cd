//! Both products are associative.
//!
//! A coefficient of `(a * b) * c` and the same coefficient of `a * (b * c)`
//! are sums of the same 64 products of one coefficient of each factor. The
//! proof writes both out, and matches the parts by the associativity of the
//! product of blades.

use vstd::prelude::*;
use crate::blade::{disjoint, product_index, product_negative};
use crate::model::{
    exterior_product, exterior_term, geometric_product, geometric_term, is_multivector,
};

verus! {

/// `x` with its sign changed where `negative` holds.
spec fn signed(negative: bool, x: int) -> int {
    if negative { -x } else { x }
}

/// The product of `a` and `b`: the exterior product where `exterior_only`
/// holds, else the geometric product.
spec fn product(a: Seq<int>, b: Seq<int>, exterior_only: bool) -> Seq<int> {
    if exterior_only { exterior_product(a, b) } else { geometric_product(a, b) }
}

/// What blade `i` of `a` adds to coefficient `k` of that product.
spec fn term(a: Seq<int>, b: Seq<int>, k: int, i: int, exterior_only: bool) -> int {
    if exterior_only { exterior_term(a, b, k, i) } else { geometric_term(a, b, k, i) }
}

/// Whether a term in which blades `i` and `j` meet belongs to that product.
spec fn kept(i: int, j: int, exterior_only: bool) -> bool {
    !exterior_only || disjoint(i, j)
}

/// The part of coefficient `m` of `(a * b) * c` in which blade `i` of `a`
/// adds to coefficient `p` of `a * b`.
#[verifier::opaque]
spec fn left_part(a: Seq<int>, b: Seq<int>, c: Seq<int>, m: int, p: int, i: int, e: bool) -> int {
    let j = product_index(i, p);
    let q = product_index(p, m);
    if kept(i, j, e) && kept(p, q, e) {
        signed(product_negative(i, j) != product_negative(p, q), (a[i] * b[j]) * c[q])
    } else {
        0
    }
}

/// The part of coefficient `m` of `a * (b * c)` in which blade `i` of `a`
/// meets what blade `j` of `b` adds to `b * c`.
#[verifier::opaque]
spec fn right_part(a: Seq<int>, b: Seq<int>, c: Seq<int>, m: int, i: int, j: int, e: bool) -> int {
    let r = product_index(i, m);
    let q = product_index(j, r);
    if kept(i, r, e) && kept(j, q, e) {
        signed(product_negative(i, r) != product_negative(j, q), a[i] * (b[j] * c[q]))
    } else {
        0
    }
}

/// A sum of eight times a number is the sum of the eight products.
proof fn sum_times(t: Seq<int>, z: int)
    requires
        t.len() == 8,
    ensures
        (t[0] + t[1] + t[2] + t[3] + t[4] + t[5] + t[6] + t[7]) * z == t[0] * z + t[1] * z + t[2] * z
            + t[3] * z + t[4] * z + t[5] * z + t[6] * z + t[7] * z,
        z * (t[0] + t[1] + t[2] + t[3] + t[4] + t[5] + t[6] + t[7]) == z * t[0] + z * t[1] + z * t[2]
            + z * t[3] + z * t[4] + z * t[5] + z * t[6] + z * t[7],
{
    let (t0, t1, t2, t3, t4, t5, t6, t7) = (t[0], t[1], t[2], t[3], t[4], t[5], t[6], t[7]);
    assert((t0 + t1 + t2 + t3 + t4 + t5 + t6 + t7) * z == t0 * z + t1 * z + t2 * z + t3 * z + t4 * z
        + t5 * z + t6 * z + t7 * z) by (nonlinear_arith);
    assert(z * (t0 + t1 + t2 + t3 + t4 + t5 + t6 + t7) == z * t0 + z * t1 + z * t2 + z * t3 + z * t4
        + z * t5 + z * t6 + z * t7) by (nonlinear_arith);
}

/// A term of `a * b`, multiplied by a coefficient of `c` and given the sign
/// of a term of `(a * b) * c`, is a part of the left side.
proof fn left_piece(a: Seq<int>, b: Seq<int>, c: Seq<int>, m: int, p: int, i: int, e: bool)
    requires
        0 <= m < 8,
        0 <= p < 8,
        0 <= i < 8,
    ensures
        ({
            let q = product_index(p, m);
            if kept(p, q, e) {
                signed(product_negative(p, q), term(a, b, p, i, e) * c[q])
            } else {
                0
            }
        }) == left_part(a, b, c, m, p, i, e),
{
    reveal(geometric_term);
    reveal(exterior_term);
    reveal(left_part);
    let j = product_index(i, p);
    let q = product_index(p, m);
    let x = a[i] * b[j];
    let z = c[q];
    assert((-x) * z == -(x * z)) by (nonlinear_arith);
    assert(0 * z == 0) by (nonlinear_arith);
}

/// A coefficient of `a` times a term of `b * c`, given the sign of a term of
/// `a * (b * c)`, is a part of the right side.
proof fn right_piece(a: Seq<int>, b: Seq<int>, c: Seq<int>, m: int, i: int, j: int, e: bool)
    requires
        0 <= m < 8,
        0 <= i < 8,
        0 <= j < 8,
    ensures
        ({
            let r = product_index(i, m);
            if kept(i, r, e) {
                signed(product_negative(i, r), a[i] * term(b, c, r, j, e))
            } else {
                0
            }
        }) == right_part(a, b, c, m, i, j, e),
{
    reveal(geometric_term);
    reveal(exterior_term);
    reveal(right_part);
    let r = product_index(i, m);
    let q = product_index(j, r);
    let x = a[i];
    let y = b[j] * c[q];
    assert(x * (-y) == -(x * y)) by (nonlinear_arith);
    assert(x * 0 == 0) by (nonlinear_arith);
}

/// Every part of the right side is a part of the left side: the one in which
/// blade `i` of `a` adds to the coefficient of `a * b` at the product of
/// blades `i` and `j`.
proof fn parts_match(a: Seq<int>, b: Seq<int>, c: Seq<int>, m: int, i: int, j: int, e: bool)
    requires
        0 <= m < 8,
        0 <= i < 8,
        0 <= j < 8,
    ensures
        right_part(a, b, c, m, i, j, e) == left_part(a, b, c, m, product_index(i, j), i, e),
{
    reveal(left_part);
    reveal(right_part);
    let p = product_index(i, j);
    let q = product_index(p, m);
    let r = product_index(i, m);
    assert(product_index(i, p) == j);
    assert(product_index(j, r) == q);
    assert((product_negative(i, j) != product_negative(p, q)) == (product_negative(i, r)
        != product_negative(j, q)));
    assert((kept(i, j, e) && kept(p, q, e)) == (kept(i, r, e) && kept(j, q, e)));
    let (x, y, z) = (a[i], b[j], c[q]);
    assert((x * y) * z == x * (y * z)) by (nonlinear_arith);
}

/// What blade `p` of `a * b` adds to coefficient `m` of `(a * b) * c` is the
/// sum of its eight parts.
proof fn left_term_is_sum_of_parts(a: Seq<int>, b: Seq<int>, c: Seq<int>, m: int, p: int, e: bool)
    requires
        is_multivector(a),
        is_multivector(b),
        is_multivector(c),
        0 <= m < 8,
        0 <= p < 8,
    ensures
        term(product(a, b, e), c, m, p, e) == left_part(a, b, c, m, p, 0, e) + left_part(
            a,
            b,
            c,
            m,
            p,
            1,
            e,
        ) + left_part(a, b, c, m, p, 2, e) + left_part(a, b, c, m, p, 3, e) + left_part(
            a,
            b,
            c,
            m,
            p,
            4,
            e,
        ) + left_part(a, b, c, m, p, 5, e) + left_part(a, b, c, m, p, 6, e) + left_part(
            a,
            b,
            c,
            m,
            p,
            7,
            e,
        ),
{
    let q = product_index(p, m);
    let t = Seq::new(8, |i: int| term(a, b, p, i, e));
    assert(product(a, b, e)[p] == t[0] + t[1] + t[2] + t[3] + t[4] + t[5] + t[6] + t[7]);
    sum_times(t, c[q]);
    left_piece(a, b, c, m, p, 0, e);
    left_piece(a, b, c, m, p, 1, e);
    left_piece(a, b, c, m, p, 2, e);
    left_piece(a, b, c, m, p, 3, e);
    left_piece(a, b, c, m, p, 4, e);
    left_piece(a, b, c, m, p, 5, e);
    left_piece(a, b, c, m, p, 6, e);
    left_piece(a, b, c, m, p, 7, e);
    assert(term(product(a, b, e), c, m, p, e) == if kept(p, q, e) {
        signed(product_negative(p, q), product(a, b, e)[p] * c[q])
    } else {
        0
    }) by {
        reveal(geometric_term);
        reveal(exterior_term);
    }
}

/// What blade `i` of `a` adds to coefficient `m` of `a * (b * c)` is the sum
/// of its eight parts.
proof fn right_term_is_sum_of_parts(a: Seq<int>, b: Seq<int>, c: Seq<int>, m: int, i: int, e: bool)
    requires
        is_multivector(a),
        is_multivector(b),
        is_multivector(c),
        0 <= m < 8,
        0 <= i < 8,
    ensures
        term(a, product(b, c, e), m, i, e) == right_part(a, b, c, m, i, 0, e) + right_part(
            a,
            b,
            c,
            m,
            i,
            1,
            e,
        ) + right_part(a, b, c, m, i, 2, e) + right_part(a, b, c, m, i, 3, e) + right_part(
            a,
            b,
            c,
            m,
            i,
            4,
            e,
        ) + right_part(a, b, c, m, i, 5, e) + right_part(a, b, c, m, i, 6, e) + right_part(
            a,
            b,
            c,
            m,
            i,
            7,
            e,
        ),
{
    let r = product_index(i, m);
    let t = Seq::new(8, |j: int| term(b, c, r, j, e));
    assert(product(b, c, e)[r] == t[0] + t[1] + t[2] + t[3] + t[4] + t[5] + t[6] + t[7]);
    sum_times(t, a[i]);
    right_piece(a, b, c, m, i, 0, e);
    right_piece(a, b, c, m, i, 1, e);
    right_piece(a, b, c, m, i, 2, e);
    right_piece(a, b, c, m, i, 3, e);
    right_piece(a, b, c, m, i, 4, e);
    right_piece(a, b, c, m, i, 5, e);
    right_piece(a, b, c, m, i, 6, e);
    right_piece(a, b, c, m, i, 7, e);
    assert(term(a, product(b, c, e), m, i, e) == if kept(i, r, e) {
        signed(product_negative(i, r), a[i] * product(b, c, e)[r])
    } else {
        0
    }) by {
        reveal(geometric_term);
        reveal(exterior_term);
    }
}

/// The parts of the right side in which blade `i` of `a` stands are the
/// parts of the left side in which it stands.
proof fn parts_of_a_blade_match(a: Seq<int>, b: Seq<int>, c: Seq<int>, m: int, i: int, e: bool)
    requires
        0 <= m < 8,
        0 <= i < 8,
    ensures
        right_part(a, b, c, m, i, 0, e) + right_part(a, b, c, m, i, 1, e) + right_part(
            a,
            b,
            c,
            m,
            i,
            2,
            e,
        ) + right_part(a, b, c, m, i, 3, e) + right_part(a, b, c, m, i, 4, e) + right_part(
            a,
            b,
            c,
            m,
            i,
            5,
            e,
        ) + right_part(a, b, c, m, i, 6, e) + right_part(a, b, c, m, i, 7, e) == left_part(
            a,
            b,
            c,
            m,
            0,
            i,
            e,
        ) + left_part(a, b, c, m, 1, i, e) + left_part(a, b, c, m, 2, i, e) + left_part(
            a,
            b,
            c,
            m,
            3,
            i,
            e,
        ) + left_part(a, b, c, m, 4, i, e) + left_part(a, b, c, m, 5, i, e) + left_part(
            a,
            b,
            c,
            m,
            6,
            i,
            e,
        ) + left_part(a, b, c, m, 7, i, e),
{
    parts_match(a, b, c, m, i, 0, e);
    parts_match(a, b, c, m, i, 1, e);
    parts_match(a, b, c, m, i, 2, e);
    parts_match(a, b, c, m, i, 3, e);
    parts_match(a, b, c, m, i, 4, e);
    parts_match(a, b, c, m, i, 5, e);
    parts_match(a, b, c, m, i, 6, e);
    parts_match(a, b, c, m, i, 7, e);
}

/// Coefficient `m` of `(a * b) * c` is coefficient `m` of `a * (b * c)`.
proof fn coefficients_match(a: Seq<int>, b: Seq<int>, c: Seq<int>, m: int, e: bool)
    requires
        is_multivector(a),
        is_multivector(b),
        is_multivector(c),
        0 <= m < 8,
    ensures
        product(product(a, b, e), c, e)[m] == product(a, product(b, c, e), e)[m],
{
    left_term_is_sum_of_parts(a, b, c, m, 0, e);
    left_term_is_sum_of_parts(a, b, c, m, 1, e);
    left_term_is_sum_of_parts(a, b, c, m, 2, e);
    left_term_is_sum_of_parts(a, b, c, m, 3, e);
    left_term_is_sum_of_parts(a, b, c, m, 4, e);
    left_term_is_sum_of_parts(a, b, c, m, 5, e);
    left_term_is_sum_of_parts(a, b, c, m, 6, e);
    left_term_is_sum_of_parts(a, b, c, m, 7, e);
    right_term_is_sum_of_parts(a, b, c, m, 0, e);
    right_term_is_sum_of_parts(a, b, c, m, 1, e);
    right_term_is_sum_of_parts(a, b, c, m, 2, e);
    right_term_is_sum_of_parts(a, b, c, m, 3, e);
    right_term_is_sum_of_parts(a, b, c, m, 4, e);
    right_term_is_sum_of_parts(a, b, c, m, 5, e);
    right_term_is_sum_of_parts(a, b, c, m, 6, e);
    right_term_is_sum_of_parts(a, b, c, m, 7, e);
    parts_of_a_blade_match(a, b, c, m, 0, e);
    parts_of_a_blade_match(a, b, c, m, 1, e);
    parts_of_a_blade_match(a, b, c, m, 2, e);
    parts_of_a_blade_match(a, b, c, m, 3, e);
    parts_of_a_blade_match(a, b, c, m, 4, e);
    parts_of_a_blade_match(a, b, c, m, 5, e);
    parts_of_a_blade_match(a, b, c, m, 6, e);
    parts_of_a_blade_match(a, b, c, m, 7, e);
}

/// The geometric product is associative: `(a * b) * c` is `a * (b * c)`.
pub proof fn geometric_product_is_associative(a: Seq<int>, b: Seq<int>, c: Seq<int>)
    requires
        is_multivector(a),
        is_multivector(b),
        is_multivector(c),
    ensures
        geometric_product(geometric_product(a, b), c) == geometric_product(a, geometric_product(b, c)),
{
    assert forall|m: int| 0 <= m < 8 implies geometric_product(geometric_product(a, b), c)[m]
        == geometric_product(a, geometric_product(b, c))[m] by {
        coefficients_match(a, b, c, m, false);
    }
    assert(geometric_product(geometric_product(a, b), c) =~= geometric_product(
        a,
        geometric_product(b, c),
    ));
}

/// The exterior product is associative: `(a ^ b) ^ c` is `a ^ (b ^ c)`.
pub proof fn exterior_product_is_associative(a: Seq<int>, b: Seq<int>, c: Seq<int>)
    requires
        is_multivector(a),
        is_multivector(b),
        is_multivector(c),
    ensures
        exterior_product(exterior_product(a, b), c) == exterior_product(a, exterior_product(b, c)),
{
    assert forall|m: int| 0 <= m < 8 implies exterior_product(exterior_product(a, b), c)[m]
        == exterior_product(a, exterior_product(b, c))[m] by {
        coefficients_match(a, b, c, m, true);
    }
    assert(exterior_product(exterior_product(a, b), c) =~= exterior_product(
        a,
        exterior_product(b, c),
    ));
}

} // verus!
