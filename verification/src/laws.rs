//! What holds of every multivector.
//!
//! The laws are stated over the exact algebra of the module `model`, through
//! which the operations of the machine type state their results.

use vstd::prelude::*;
use crate::blade::{disjoint, grade_of, grade_of_product, product_index, product_sign};
use vstd::std_specs::ops::{AddSpec, BitXorSpec, NegSpec};
use crate::multivector::{representable, Multivector};
use crate::model::{
    basis, complement, difference, exterior_coefficient, exterior_product, exterior_term,
    geometric_coefficient, geometric_product, geometric_term, is_multivector, is_pure, is_unit_of,
    negation, scaling, sum, zero,
};

verus! {

/// Addition is associative: `(a + b) + c` is `a + (b + c)`.
pub proof fn addition_is_associative(a: Seq<int>, b: Seq<int>, c: Seq<int>)
    ensures
        sum(sum(a, b), c) == sum(a, sum(b, c)),
{
    assert(sum(sum(a, b), c) =~= sum(a, sum(b, c)));
}

/// Addition is commutative: `a + b` is `b + a`.
pub proof fn addition_is_commutative(a: Seq<int>, b: Seq<int>)
    ensures
        sum(a, b) == sum(b, a),
{
    assert(sum(a, b) =~= sum(b, a));
}

/// A multivector and its negative add up to zero: `a + (-a)` is zero.
pub proof fn negative_cancels(a: Seq<int>)
    ensures
        sum(a, negation(a)) == zero(),
{
    assert(sum(a, negation(a)) =~= zero());
}

/// Zero added to a multivector leaves it as it is.
pub proof fn zero_is_neutral(a: Seq<int>)
    requires
        is_multivector(a),
    ensures
        sum(a, zero()) == a,
        sum(zero(), a) == a,
{
    assert(sum(a, zero()) =~= a);
    assert(sum(zero(), a) =~= a);
}

/// Subtracting is adding the negative, and the difference changes sign when
/// its operands change places.
pub proof fn difference_is_sum_with_negative(a: Seq<int>, b: Seq<int>)
    ensures
        difference(a, b) == sum(a, negation(b)),
        difference(a, b) == negation(difference(b, a)),
{
    assert(difference(a, b) =~= sum(a, negation(b)));
    assert(difference(a, b) =~= negation(difference(b, a)));
}

/// Scaling by one leaves a multivector as it is.
pub proof fn scaling_by_one(a: Seq<int>)
    requires
        is_multivector(a),
    ensures
        scaling(a, 1) == a,
{
    assert(scaling(a, 1) =~= a);
}

/// Scaling by zero gives zero.
pub proof fn scaling_by_zero(a: Seq<int>)
    ensures
        scaling(a, 0) == zero(),
{
    assert(scaling(a, 0) =~= zero());
}

/// The exterior product of two vectors changes sign when they change places:
/// `a ^ b` is `-(b ^ a)` where both are of grade one.
pub proof fn exterior_product_of_vectors_anticommutes(a: Seq<int>, b: Seq<int>)
    requires
        is_pure(a, 1),
        is_pure(b, 1),
    ensures
        exterior_product(a, b) == negation(exterior_product(b, a)),
{
    assert(a[0] == 0 && a[4] == 0 && a[5] == 0 && a[6] == 0 && a[7] == 0);
    assert(b[0] == 0 && b[4] == 0 && b[5] == 0 && b[6] == 0 && b[7] == 0);
    assert(exterior_product(a, b) =~= negation(exterior_product(b, a))) by (nonlinear_arith)
        requires
            a[0] == 0 && a[4] == 0 && a[5] == 0 && a[6] == 0 && a[7] == 0,
            b[0] == 0 && b[4] == 0 && b[5] == 0 && b[6] == 0 && b[7] == 0,
    {
        reveal(geometric_term);
        reveal(exterior_term);
    }
}

/// The complement of the complement is the negative.
pub proof fn complement_twice_is_negation(a: Seq<int>)
    requires
        is_multivector(a),
    ensures
        complement(complement(a)) == negation(a),
{
    assert(complement(complement(a)) =~= negation(a));
}

/// The complement is the geometric product with the trivector blade on the
/// right.
pub proof fn complement_is_product_with_trivector(a: Seq<int>)
    requires
        is_multivector(a),
    ensures
        complement(a) == geometric_product(a, basis(7)),
{
    let e = basis(7);
    assert(e[0] == 0 && e[1] == 0 && e[2] == 0 && e[3] == 0 && e[4] == 0 && e[5] == 0 && e[6] == 0
        && e[7] == 1);
    assert(complement(a) =~= geometric_product(a, e)) by (nonlinear_arith)
        requires
            is_multivector(a),
            e[0] == 0 && e[1] == 0 && e[2] == 0 && e[3] == 0 && e[4] == 0 && e[5] == 0 && e[6] == 0
                && e[7] == 1,
    {
        reveal(geometric_term);
    }
}

/// What one blade of a sum adds to a coefficient of a product is the sum of
/// what the same blade of each summand adds.
proof fn term_distributes(a: Seq<int>, b: Seq<int>, c: Seq<int>, k: int, i: int)
    requires
        is_multivector(a),
        is_multivector(b),
        is_multivector(c),
        0 <= k < 8,
        0 <= i < 8,
    ensures
        geometric_term(sum(a, b), c, k, i) == geometric_term(a, c, k, i) + geometric_term(b, c, k, i),
        geometric_term(c, sum(a, b), k, i) == geometric_term(c, a, k, i) + geometric_term(c, b, k, i),
        exterior_term(sum(a, b), c, k, i) == exterior_term(a, c, k, i) + exterior_term(b, c, k, i),
        exterior_term(c, sum(a, b), k, i) == exterior_term(c, a, k, i) + exterior_term(c, b, k, i),
{
    reveal(geometric_term);
    reveal(exterior_term);
    let j = product_index(i, k);
    assert(0 <= j < 8);
    assert(sum(a, b)[i] == a[i] + b[i]);
    assert(sum(a, b)[j] == a[j] + b[j]);
    assert((a[i] + b[i]) * c[j] == a[i] * c[j] + b[i] * c[j]) by (nonlinear_arith);
    assert(c[i] * (a[j] + b[j]) == c[i] * a[j] + c[i] * b[j]) by (nonlinear_arith);
}

/// Both products distribute over addition, in both factors.
pub proof fn products_distribute(a: Seq<int>, b: Seq<int>, c: Seq<int>)
    requires
        is_multivector(a),
        is_multivector(b),
        is_multivector(c),
    ensures
        geometric_product(sum(a, b), c) == sum(geometric_product(a, c), geometric_product(b, c)),
        geometric_product(c, sum(a, b)) == sum(geometric_product(c, a), geometric_product(c, b)),
        exterior_product(sum(a, b), c) == sum(exterior_product(a, c), exterior_product(b, c)),
        exterior_product(c, sum(a, b)) == sum(exterior_product(c, a), exterior_product(c, b)),
{
    assert forall|k: int| 0 <= k < 8 implies {
        &&& geometric_coefficient(sum(a, b), c, k) == geometric_coefficient(a, c, k)
            + geometric_coefficient(b, c, k)
        &&& geometric_coefficient(c, sum(a, b), k) == geometric_coefficient(c, a, k)
            + geometric_coefficient(c, b, k)
        &&& exterior_coefficient(sum(a, b), c, k) == exterior_coefficient(a, c, k)
            + exterior_coefficient(b, c, k)
        &&& exterior_coefficient(c, sum(a, b), k) == exterior_coefficient(c, a, k)
            + exterior_coefficient(c, b, k)
    } by {
        term_distributes(a, b, c, k, 0);
        term_distributes(a, b, c, k, 1);
        term_distributes(a, b, c, k, 2);
        term_distributes(a, b, c, k, 3);
        term_distributes(a, b, c, k, 4);
        term_distributes(a, b, c, k, 5);
        term_distributes(a, b, c, k, 6);
        term_distributes(a, b, c, k, 7);
    }
    assert(geometric_product(sum(a, b), c) =~= sum(geometric_product(a, c), geometric_product(b, c)));
    assert(geometric_product(c, sum(a, b)) =~= sum(geometric_product(c, a), geometric_product(c, b)));
    assert(exterior_product(sum(a, b), c) =~= sum(exterior_product(a, c), exterior_product(b, c)));
    assert(exterior_product(c, sum(a, b)) =~= sum(exterior_product(c, a), exterior_product(c, b)));
}

/// The geometric product written out: every coefficient as the sum of its
/// eight signed products. The scalar coefficient adds the products of the
/// scalars and of the vectors and takes off those of the bivectors and of the
/// trivectors.
pub proof fn geometric_product_written_out(a: Seq<int>, b: Seq<int>)
    requires
        is_multivector(a),
        is_multivector(b),
    ensures
        geometric_product(a, b) == seq![
            a[0] * b[0] + a[1] * b[1] + a[2] * b[2] + a[3] * b[3] - a[4] * b[4] - a[5] * b[5] - a[6]
                * b[6] - a[7] * b[7],
            a[1] * b[0] + a[0] * b[1] + a[4] * b[2] - a[2] * b[4] + a[5] * b[3] - a[3] * b[5] - a[7]
                * b[6] - a[6] * b[7],
            a[2] * b[0] + a[0] * b[2] - a[4] * b[1] + a[1] * b[4] + a[6] * b[3] - a[3] * b[6] + a[7]
                * b[5] + a[5] * b[7],
            a[3] * b[0] + a[0] * b[3] - a[5] * b[1] + a[1] * b[5] - a[6] * b[2] + a[2] * b[6] - a[7]
                * b[4] - a[4] * b[7],
            a[4] * b[0] + a[0] * b[4] - a[2] * b[1] + a[1] * b[2] + a[7] * b[3] + a[3] * b[7] + a[6]
                * b[5] - a[5] * b[6],
            a[5] * b[0] + a[0] * b[5] - a[3] * b[1] + a[1] * b[3] - a[7] * b[2] - a[2] * b[7] - a[6]
                * b[4] + a[4] * b[6],
            a[6] * b[0] + a[0] * b[6] + a[7] * b[1] + a[1] * b[7] - a[3] * b[2] + a[2] * b[3] + a[5]
                * b[4] - a[4] * b[5],
            a[7] * b[0] + a[0] * b[7] + a[6] * b[1] + a[1] * b[6] - a[5] * b[2] - a[2] * b[5] + a[4]
                * b[3] + a[3] * b[4],
        ],
{
    reveal(geometric_term);
    let written = seq![
        a[0] * b[0] + a[1] * b[1] + a[2] * b[2] + a[3] * b[3] - a[4] * b[4] - a[5] * b[5] - a[6]
            * b[6] - a[7] * b[7],
        a[1] * b[0] + a[0] * b[1] + a[4] * b[2] - a[2] * b[4] + a[5] * b[3] - a[3] * b[5] - a[7]
            * b[6] - a[6] * b[7],
        a[2] * b[0] + a[0] * b[2] - a[4] * b[1] + a[1] * b[4] + a[6] * b[3] - a[3] * b[6] + a[7]
            * b[5] + a[5] * b[7],
        a[3] * b[0] + a[0] * b[3] - a[5] * b[1] + a[1] * b[5] - a[6] * b[2] + a[2] * b[6] - a[7]
            * b[4] - a[4] * b[7],
        a[4] * b[0] + a[0] * b[4] - a[2] * b[1] + a[1] * b[2] + a[7] * b[3] + a[3] * b[7] + a[6]
            * b[5] - a[5] * b[6],
        a[5] * b[0] + a[0] * b[5] - a[3] * b[1] + a[1] * b[3] - a[7] * b[2] - a[2] * b[7] - a[6]
            * b[4] + a[4] * b[6],
        a[6] * b[0] + a[0] * b[6] + a[7] * b[1] + a[1] * b[7] - a[3] * b[2] + a[2] * b[3] + a[5]
            * b[4] - a[4] * b[5],
        a[7] * b[0] + a[0] * b[7] + a[6] * b[1] + a[1] * b[6] - a[5] * b[2] - a[2] * b[5] + a[4]
            * b[3] + a[3] * b[4],
    ];
    assert(geometric_coefficient(a, b, 0) == written[0]);
    assert(geometric_coefficient(a, b, 1) == written[1]);
    assert(geometric_coefficient(a, b, 2) == written[2]);
    assert(geometric_coefficient(a, b, 3) == written[3]);
    assert(geometric_coefficient(a, b, 4) == written[4]);
    assert(geometric_coefficient(a, b, 5) == written[5]);
    assert(geometric_coefficient(a, b, 6) == written[6]);
    assert(geometric_coefficient(a, b, 7) == written[7]);
    assert(geometric_product(a, b) =~= written);
}

/// The exterior product written out: of the terms of the geometric product
/// it keeps those in which the grades of the two blades add up.
pub proof fn exterior_product_written_out(a: Seq<int>, b: Seq<int>)
    requires
        is_multivector(a),
        is_multivector(b),
    ensures
        exterior_product(a, b) == seq![
            a[0] * b[0],
            a[1] * b[0] + a[0] * b[1],
            a[2] * b[0] + a[0] * b[2],
            a[3] * b[0] + a[0] * b[3],
            a[4] * b[0] + a[0] * b[4] - a[2] * b[1] + a[1] * b[2],
            a[5] * b[0] + a[0] * b[5] - a[3] * b[1] + a[1] * b[3],
            a[6] * b[0] + a[0] * b[6] - a[3] * b[2] + a[2] * b[3],
            a[7] * b[0] + a[0] * b[7] + a[6] * b[1] + a[1] * b[6] - a[5] * b[2] - a[2] * b[5] + a[4]
                * b[3] + a[3] * b[4],
        ],
{
    reveal(geometric_term);
    reveal(exterior_term);
    let written = seq![
        a[0] * b[0],
        a[1] * b[0] + a[0] * b[1],
        a[2] * b[0] + a[0] * b[2],
        a[3] * b[0] + a[0] * b[3],
        a[4] * b[0] + a[0] * b[4] - a[2] * b[1] + a[1] * b[2],
        a[5] * b[0] + a[0] * b[5] - a[3] * b[1] + a[1] * b[3],
        a[6] * b[0] + a[0] * b[6] - a[3] * b[2] + a[2] * b[3],
        a[7] * b[0] + a[0] * b[7] + a[6] * b[1] + a[1] * b[6] - a[5] * b[2] - a[2] * b[5] + a[4]
            * b[3] + a[3] * b[4],
    ];
    assert(exterior_coefficient(a, b, 0) == written[0]);
    assert(exterior_coefficient(a, b, 1) == written[1]);
    assert(exterior_coefficient(a, b, 2) == written[2]);
    assert(exterior_coefficient(a, b, 3) == written[3]);
    assert(exterior_coefficient(a, b, 4) == written[4]);
    assert(exterior_coefficient(a, b, 5) == written[5]);
    assert(exterior_coefficient(a, b, 6) == written[6]);
    assert(exterior_coefficient(a, b, 7) == written[7]);
    assert(exterior_product(a, b) =~= written);
}

/// What blade `l` of the blade `i` adds to coefficient `k` of its product
/// with the blade `j`: the sign of the product of blades where `l` is `i` and
/// `k` is the blade of that product, and nothing elsewhere.
proof fn term_of_blades(i: int, j: int, k: int, l: int)
    requires
        0 <= i < 8,
        0 <= j < 8,
        0 <= k < 8,
        0 <= l < 8,
    ensures
        geometric_term(basis(i), basis(j), k, l) == if l == i && k == product_index(i, j) {
            product_sign(i, j)
        } else {
            0
        },
{
    reveal(geometric_term);
    let x = basis(i)[l];
    let y = basis(j)[product_index(l, k)];
    assert(x * y == if x == 1 && y == 1 { 1int } else { 0int }) by (nonlinear_arith)
        requires
            x == 0 || x == 1,
            y == 0 || y == 1,
    ;
}

/// The geometric product of two blades is their product as blades: the blade
/// of `product_index`, with the sign of `product_sign`.
pub proof fn product_of_blades(i: int, j: int)
    requires
        0 <= i < 8,
        0 <= j < 8,
    ensures
        geometric_product(basis(i), basis(j)) == scaling(
            basis(product_index(i, j)),
            product_sign(i, j),
        ),
{
    let found = geometric_product(basis(i), basis(j));
    let expected = scaling(basis(product_index(i, j)), product_sign(i, j));
    assert forall|k: int| 0 <= k < 8 implies found[k] == expected[k] by {
        term_of_blades(i, j, k, 0);
        term_of_blades(i, j, k, 1);
        term_of_blades(i, j, k, 2);
        term_of_blades(i, j, k, 3);
        term_of_blades(i, j, k, 4);
        term_of_blades(i, j, k, 5);
        term_of_blades(i, j, k, 6);
        term_of_blades(i, j, k, 7);
    }
    assert(found =~= expected);
}

/// A term of the exterior product of a multivector of grade `p` and one of
/// grade `q` is zero wherever it would add to a blade of another grade than
/// `p + q`.
proof fn exterior_term_adds_grades(a: Seq<int>, b: Seq<int>, p: int, q: int, k: int, i: int)
    requires
        is_pure(a, p),
        is_pure(b, q),
        0 <= k < 8,
        0 <= i < 8,
        grade_of(k) != p + q,
    ensures
        exterior_term(a, b, k, i) == 0,
{
    reveal(geometric_term);
    reveal(exterior_term);
    let j = product_index(i, k);
    grade_of_product(i, j);
    assert(product_index(i, j) == k);
    if disjoint(i, j) {
        if grade_of(i) != p {
            assert(a[i] == 0);
            assert(a[i] * b[j] == 0) by (nonlinear_arith)
                requires
                    a[i] == 0,
            ;
        } else {
            assert(b[j] == 0);
            assert(a[i] * b[j] == 0) by (nonlinear_arith)
                requires
                    b[j] == 0,
            ;
        }
    }
}

/// In the exterior product grades add: the product of a multivector of
/// grade `p` and one of grade `q` is of grade `p + q`, and it is zero where
/// `p + q` is above three, since no blade has such a grade.
pub proof fn exterior_product_adds_grades(a: Seq<int>, b: Seq<int>, p: int, q: int)
    requires
        is_pure(a, p),
        is_pure(b, q),
    ensures
        is_pure(exterior_product(a, b), p + q),
        p + q > 3 ==> exterior_product(a, b) == zero(),
{
    let product = exterior_product(a, b);
    assert forall|k: int| 0 <= k < 8 && grade_of(k) != p + q implies #[trigger] product[k] == 0 by {
        exterior_term_adds_grades(a, b, p, q, k, 0);
        exterior_term_adds_grades(a, b, p, q, k, 1);
        exterior_term_adds_grades(a, b, p, q, k, 2);
        exterior_term_adds_grades(a, b, p, q, k, 3);
        exterior_term_adds_grades(a, b, p, q, k, 4);
        exterior_term_adds_grades(a, b, p, q, k, 5);
        exterior_term_adds_grades(a, b, p, q, k, 6);
        exterior_term_adds_grades(a, b, p, q, k, 7);
    }
    if p + q > 3 {
        assert forall|k: int| 0 <= k < 8 implies #[trigger] product[k] == 0 by {
            assert(grade_of(k) <= 3);
        }
        assert(product =~= zero());
    }
}

/// Sums of multivectors of the machine type, where they are representable,
/// do not depend on how the summands are grouped or ordered.
pub proof fn sums_of_values(a: Multivector, b: Multivector, c: Multivector)
    requires
        representable(sum(a@, b@)),
        representable(sum(b@, c@)),
        representable(sum(sum(a@, b@), c@)),
    ensures
        a.add_spec(b).add_spec(c) == a.add_spec(b.add_spec(c)),
        a.add_spec(b) == b.add_spec(a),
{
    Multivector::of_has_view(sum(a@, b@));
    Multivector::of_has_view(sum(b@, c@));
    addition_is_associative(a@, b@, c@);
    addition_is_commutative(a@, b@);
}

/// A multivector of the machine type and its negative, where it has one, add
/// up to zero.
pub proof fn negative_of_value_cancels(a: Multivector)
    requires
        representable(negation(a@)),
    ensures
        a.add_spec(a.neg_spec())@ == zero(),
{
    Multivector::of_has_view(negation(a@));
    negative_cancels(a@);
    Multivector::of_has_view(zero());
}

/// Scaling a multivector of the machine type by one leaves it as it is, and
/// scaling it by zero gives zero; both results are representable.
pub proof fn scaled_value(a: Multivector)
    ensures
        representable(scaling(a@, 1)),
        representable(scaling(a@, 0)),
        Multivector::of(scaling(a@, 1)) == a,
        Multivector::of(scaling(a@, 0))@ == zero(),
{
    a.view_is_representable();
    scaling_by_one(a@);
    scaling_by_zero(a@);
    Multivector::of_has_view(zero());
}

/// The exterior product of two vectors of the machine type, where it is
/// representable, changes sign when they change places.
pub proof fn exterior_product_of_vector_values_anticommutes(a: Multivector, b: Multivector)
    requires
        is_pure(a@, 1),
        is_pure(b@, 1),
        representable(exterior_product(a@, b@)),
        representable(exterior_product(b@, a@)),
    ensures
        representable(negation(exterior_product(b@, a@))),
        a.bitxor_spec(b) == b.bitxor_spec(a).neg_spec(),
{
    exterior_product_of_vectors_anticommutes(a@, b@);
    Multivector::of_has_view(exterior_product(b@, a@));
}

/// A multivector that has a unit with whole coefficients is a multiple of
/// one blade: all its coefficients but one are zero.
pub proof fn unit_has_one_blade(u: Seq<int>, a: Seq<int>)
    requires
        is_unit_of(u, a),
    ensures
        exists|k: int| 0 <= k < 8 && a[k] != 0 && forall|j: int| 0 <= j < 8 && j != k ==> #[trigger] a[j] == 0,
{
    let n = choose|n: int| n > 0 && a == #[trigger] scaling(u, n);
    assert forall|j: int| 0 <= j < 8 implies {
        &&& #[trigger] a[j] == n * u[j]
        &&& u[j] * u[j] >= 0
        &&& u[j] != 0 ==> u[j] * u[j] >= 1
        &&& (a[j] == 0 <==> u[j] == 0)
    } by {
        let x = u[j];
        assert(x * x >= 0 && (x != 0 ==> x * x >= 1) && (n * x == 0 <==> x == 0)) by (nonlinear_arith)
            requires
                n > 0,
        ;
    }
    assert(a[0] == n * u[0] && a[1] == n * u[1] && a[2] == n * u[2] && a[3] == n * u[3]);
    assert(a[4] == n * u[4] && a[5] == n * u[5] && a[6] == n * u[6] && a[7] == n * u[7]);
    let k = if u[0] != 0 {
        0int
    } else if u[1] != 0 {
        1
    } else if u[2] != 0 {
        2
    } else if u[3] != 0 {
        3
    } else if u[4] != 0 {
        4
    } else if u[5] != 0 {
        5
    } else if u[6] != 0 {
        6
    } else {
        7
    };
    assert(a[k] != 0);
    assert forall|j: int| 0 <= j < 8 && j != k implies #[trigger] a[j] == 0 by {}
}

/// A multivector has at most one unit: what it is divided by its magnitude
/// is settled by the multivector.
pub proof fn unit_is_unique(u: Seq<int>, v: Seq<int>, a: Seq<int>)
    requires
        is_unit_of(u, a),
        is_unit_of(v, a),
    ensures
        u == v,
{
    let n = choose|n: int| n > 0 && a == #[trigger] scaling(u, n);
    let m = choose|m: int| m > 0 && a == #[trigger] scaling(v, m);
    unit_has_one_blade(u, a);
    let k = choose|k: int|
        0 <= k < 8 && a[k] != 0 && forall|j: int| 0 <= j < 8 && j != k ==> #[trigger] a[j] == 0;
    assert forall|j: int| 0 <= j < 8 implies u[j] == v[j] by {
        let (x, y) = (u[j], v[j]);
        assert(scaling(u, n)[j] == n * x);
        assert(scaling(v, m)[j] == m * y);
        if j == k {
            assert forall|i: int| 0 <= i < 8 && i != k implies u[i] * u[i] == 0 && v[i] * v[i] == 0 by {
                let (p, q) = (u[i], v[i]);
                assert(a[i] == 0);
                assert(scaling(u, n)[i] == n * p);
                assert(scaling(v, m)[i] == m * q);
                assert(p * p == 0 && q * q == 0) by (nonlinear_arith)
                    requires
                        n > 0,
                        m > 0,
                        n * p == 0,
                        m * q == 0,
                ;
            }
            assert(x * x == 1 && y * y == 1);
            assert(x == y) by (nonlinear_arith)
                requires
                    x * x == 1,
                    y * y == 1,
                    n > 0,
                    m > 0,
                    n * x == m * y,
            ;
        } else {
            assert(a[j] == 0);
            assert(x == 0 && y == 0) by (nonlinear_arith)
                requires
                    n > 0,
                    m > 0,
                    n * x == 0,
                    m * y == 0,
            ;
        }
    }
    assert(u =~= v);
}

} // verus!
