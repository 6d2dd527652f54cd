//! The algebra over mathematical integers.
//!
//! A multivector is modelled by the sequence of its eight coefficients, one for
//! each basis blade, in the numbering of the module `blade`. The operations
//! here are total and exact; the machine type states its results through them.

use vstd::prelude::*;
use crate::blade::{disjoint, grade_of, product_index, product_negative};

verus! {

/// Whether `m` has one coefficient for each basis blade.
pub open spec fn is_multivector(m: Seq<int>) -> bool {
    m.len() == 8
}

/// The multivector with every coefficient zero.
pub open spec fn zero() -> Seq<int> {
    Seq::new(8, |k: int| 0int)
}

/// The basis blade `i` as a multivector: coefficient 1 at `i`, zero elsewhere.
pub open spec fn basis(i: int) -> Seq<int> {
    Seq::new(8, |k: int| if k == i { 1int } else { 0int })
}

/// Whether every coefficient of `m` outside grade `g` is zero.
pub open spec fn is_pure(m: Seq<int>, g: int) -> bool {
    is_multivector(m) && forall|k: int| 0 <= k < 8 && grade_of(k) != g ==> #[trigger] m[k] == 0
}

/// The sum, coefficient by coefficient.
pub open spec fn sum(a: Seq<int>, b: Seq<int>) -> Seq<int> {
    Seq::new(8, |k: int| a[k] + b[k])
}

/// The difference, coefficient by coefficient.
pub open spec fn difference(a: Seq<int>, b: Seq<int>) -> Seq<int> {
    Seq::new(8, |k: int| a[k] - b[k])
}

/// Every coefficient with its sign changed.
pub open spec fn negation(a: Seq<int>) -> Seq<int> {
    Seq::new(8, |k: int| -a[k])
}

/// Every coefficient multiplied by `s`.
pub open spec fn scaling(a: Seq<int>, s: int) -> Seq<int> {
    Seq::new(8, |k: int| s * a[k])
}

/// What blade `i` of `a` adds to coefficient `k` of the geometric product of
/// `a` and `b`: it meets the one blade `j` of `b` for which blade `i` times
/// blade `j` is plus or minus blade `k`.
#[verifier::opaque]
pub open spec fn geometric_term(a: Seq<int>, b: Seq<int>, k: int, i: int) -> int {
    let j = product_index(i, k);
    if product_negative(i, j) {
        -(a[i] * b[j])
    } else {
        a[i] * b[j]
    }
}

/// Coefficient `k` of the geometric product of `a` and `b`.
pub open spec fn geometric_coefficient(a: Seq<int>, b: Seq<int>, k: int) -> int {
    geometric_term(a, b, k, 0) + geometric_term(a, b, k, 1) + geometric_term(a, b, k, 2)
        + geometric_term(a, b, k, 3) + geometric_term(a, b, k, 4) + geometric_term(a, b, k, 5)
        + geometric_term(a, b, k, 6) + geometric_term(a, b, k, 7)
}

/// The geometric product: the product of blades, extended to sums of blades
/// by distributing over both factors.
pub open spec fn geometric_product(a: Seq<int>, b: Seq<int>) -> Seq<int> {
    Seq::new(8, |k: int| geometric_coefficient(a, b, k))
}

/// What blade `i` of `a` adds to coefficient `k` of the exterior product: its
/// term of the geometric product where the two blades that meet share no
/// basis vector, and nothing where they do.
#[verifier::opaque]
pub open spec fn exterior_term(a: Seq<int>, b: Seq<int>, k: int, i: int) -> int {
    if disjoint(i, product_index(i, k)) {
        geometric_term(a, b, k, i)
    } else {
        0
    }
}

/// Coefficient `k` of the exterior product of `a` and `b`.
pub open spec fn exterior_coefficient(a: Seq<int>, b: Seq<int>, k: int) -> int {
    exterior_term(a, b, k, 0) + exterior_term(a, b, k, 1) + exterior_term(a, b, k, 2)
        + exterior_term(a, b, k, 3) + exterior_term(a, b, k, 4) + exterior_term(a, b, k, 5)
        + exterior_term(a, b, k, 6) + exterior_term(a, b, k, 7)
}

/// The exterior product: the part of the geometric product in which grades add.
pub open spec fn exterior_product(a: Seq<int>, b: Seq<int>) -> Seq<int> {
    Seq::new(8, |k: int| exterior_coefficient(a, b, k))
}

/// The orthogonal complement: each blade goes to the blade of the basis
/// vectors it lacks, with the sign that the orientation x, y, z gives.
pub open spec fn complement(a: Seq<int>) -> Seq<int> {
    seq![-a[7], -a[6], a[5], -a[4], a[3], -a[2], a[1], a[0]]
}

/// The part of `a` of grade `g`: its coefficients at the blades of that
/// grade, and zero elsewhere.
pub open spec fn grade_part(a: Seq<int>, g: int) -> Seq<int> {
    Seq::new(8, |k: int| if grade_of(k) == g { a[k] } else { 0int })
}

/// The square of the magnitude of `a`: the sum of the squares of its
/// coefficients.
pub open spec fn square_sum(a: Seq<int>) -> int {
    a[0] * a[0] + a[1] * a[1] + a[2] * a[2] + a[3] * a[3] + a[4] * a[4] + a[5] * a[5] + a[6] * a[6]
        + a[7] * a[7]
}

/// Whether `u` is `a` divided by its magnitude: `u` has the magnitude one,
/// and `a` is `u` scaled by a number above zero, which is then the magnitude
/// of `a`.
pub open spec fn is_unit_of(u: Seq<int>, a: Seq<int>) -> bool {
    &&& is_multivector(u)
    &&& square_sum(u) == 1
    &&& exists|n: int| n > 0 && a == #[trigger] scaling(u, n)
}

} // verus!
