//! The products laid out as rows of terms.
//!
//! Coefficient `k` of a product of two multivectors is a sum of signed
//! products of one coefficient of each factor. A `Term` names the two
//! coefficients and the sign; a row holds the eight terms of one coefficient
//! in the order in which they are added. The exterior product adds only some
//! of them, and each term says whether it is one of those. Signs and partners
//! are not written down here: they are computed from the product of blades.

use vstd::prelude::*;
use crate::blade::{
    blade_product, blades_disjoint, disjoint, product_index, product_negative, SignedBlade, BLADES,
};
use crate::model::{
    exterior_coefficient, exterior_term, geometric_coefficient, geometric_term, is_multivector,
};

verus! {

/// One term of a coefficient of a product: the coefficient of blade `left` of
/// the left factor times the coefficient of blade `right` of the right
/// factor, subtracted where `negative` holds and added where it does not.
/// `exterior` says that the two blades share no basis vector, so that the
/// term belongs to the exterior product as well as to the geometric product.
#[derive(Clone, Copy, PartialEq, Eq, Structural, Debug)]
pub struct Term {
    pub negative: bool,
    pub left: usize,
    pub right: usize,
    pub exterior: bool,
}

/// The order in which the blades of the left factor are taken for
/// coefficient `k`. A sum of whole numbers does not depend on it; it is fixed
/// for the kinds of number whose sums do.
pub open spec fn row_order(k: int) -> Seq<int> {
    if k == 0 {
        seq![0, 1, 2, 3, 4, 5, 6, 7]
    } else if k == 1 {
        seq![1, 0, 4, 2, 5, 3, 7, 6]
    } else if k == 2 {
        seq![2, 0, 4, 1, 6, 3, 7, 5]
    } else if k == 3 {
        seq![3, 0, 5, 1, 6, 2, 7, 4]
    } else if k == 4 {
        seq![4, 0, 2, 1, 7, 3, 6, 5]
    } else if k == 5 {
        seq![5, 0, 3, 1, 7, 2, 6, 4]
    } else if k == 6 {
        seq![6, 0, 7, 1, 3, 2, 5, 4]
    } else {
        seq![7, 0, 6, 1, 5, 2, 4, 3]
    }
}

/// The term in which blade `left` of the left factor adds to coefficient `k`:
/// its partner is the blade that it must be multiplied by to give blade `k`,
/// and its sign is the sign of that product of blades.
#[verifier::opaque]
pub open spec fn term_of(left: int, k: int) -> Term {
    let right = product_index(left, k);
    Term {
        negative: product_negative(left, right),
        left: left as usize,
        right: right as usize,
        exterior: disjoint(left, right),
    }
}

/// The terms of coefficient `k` of a product, in the order in which they are
/// added.
#[verifier::opaque]
pub open spec fn product_row(k: int) -> Seq<Term> {
    Seq::new(8, |t: int| term_of(row_order(k)[t], k))
}

/// What `term` adds to a coefficient of the product of `a` and `b`: of the
/// exterior product where `exterior_only` holds, else of the geometric product.
pub open spec fn term_value(a: Seq<int>, b: Seq<int>, term: Term, exterior_only: bool) -> int {
    if exterior_only && !term.exterior {
        0
    } else if term.negative {
        -(a[term.left as int] * b[term.right as int])
    } else {
        a[term.left as int] * b[term.right as int]
    }
}

/// What the eight terms of `row` add up to.
pub open spec fn row_value(a: Seq<int>, b: Seq<int>, row: Seq<Term>, exterior_only: bool) -> int {
    term_value(a, b, row[0], exterior_only) + term_value(a, b, row[1], exterior_only)
        + term_value(a, b, row[2], exterior_only) + term_value(a, b, row[3], exterior_only)
        + term_value(a, b, row[4], exterior_only) + term_value(a, b, row[5], exterior_only)
        + term_value(a, b, row[6], exterior_only) + term_value(a, b, row[7], exterior_only)
}

/// The blades of the left factor in the order of `row_order(k)`.
fn left_blades(k: usize) -> (order: [usize; 8])
    requires
        k < BLADES,
    ensures
        forall|t: int| 0 <= t < 8 ==> #[trigger] order@[t] == row_order(k as int)[t],
        forall|t: int| 0 <= t < 8 ==> #[trigger] order@[t] < BLADES,
{
    if k == 0 {
        [0, 1, 2, 3, 4, 5, 6, 7]
    } else if k == 1 {
        [1, 0, 4, 2, 5, 3, 7, 6]
    } else if k == 2 {
        [2, 0, 4, 1, 6, 3, 7, 5]
    } else if k == 3 {
        [3, 0, 5, 1, 6, 2, 7, 4]
    } else if k == 4 {
        [4, 0, 2, 1, 7, 3, 6, 5]
    } else if k == 5 {
        [5, 0, 3, 1, 7, 2, 6, 4]
    } else if k == 6 {
        [6, 0, 7, 1, 3, 2, 5, 4]
    } else {
        [7, 0, 6, 1, 5, 2, 4, 3]
    }
}

/// The term in which blade `left` of the left factor adds to coefficient `k`.
fn term_for(left: usize, k: usize) -> (term: Term)
    requires
        left < BLADES,
        k < BLADES,
    ensures
        term == term_of(left as int, k as int),
        term.left < BLADES,
        term.right < BLADES,
{
    reveal(term_of);
    let partner = blade_product(left, k);
    let product = blade_product(left, partner.index);
    Term {
        negative: product.negative,
        left,
        right: partner.index,
        exterior: blades_disjoint(left, partner.index),
    }
}

/// The terms of coefficient `k` of a product, in the order in which they are
/// added.
pub fn product_terms(k: usize) -> (row: [Term; 8])
    requires
        k < BLADES,
    ensures
        row@ == product_row(k as int),
        forall|t: int| 0 <= t < 8 ==> (#[trigger] row@[t]).left < BLADES && row@[t].right < BLADES,
{
    reveal(product_row);
    let order = left_blades(k);
    let row = [
        term_for(order[0], k),
        term_for(order[1], k),
        term_for(order[2], k),
        term_for(order[3], k),
        term_for(order[4], k),
        term_for(order[5], k),
        term_for(order[6], k),
        term_for(order[7], k),
    ];
    assert(row@ =~= product_row(k as int));
    row
}

/// The blade whose coefficient the orthogonal complement puts at blade `k`,
/// with the sign it gets: the blade of the basis vectors that blade `k`
/// lacks, and the sign of its product with the trivector.
pub fn complement_term(k: usize) -> (source: SignedBlade)
    requires
        k < BLADES,
    ensures
        source.index == 7 - k,
        source.index == product_index(k as int, 7),
        source.negative == product_negative(source.index as int, 7),
{
    let partner = blade_product(k, 7);
    let product = blade_product(partner.index, 7);
    SignedBlade { negative: product.negative, index: partner.index }
}

/// In every row each blade of the left factor is taken: blade `i` stands in
/// some term of row `k`.
pub proof fn rows_take_every_blade(k: int, i: int)
    requires
        0 <= k < 8,
        0 <= i < 8,
    ensures
        exists|t: int| 0 <= t < 8 && (#[trigger] product_row(k)[t]).left == i,
{
    reveal(product_row);
    reveal(term_of);
    let row = product_row(k);
    let o = row_order(k);
    let t = if o[0] == i {
        0int
    } else if o[1] == i {
        1
    } else if o[2] == i {
        2
    } else if o[3] == i {
        3
    } else if o[4] == i {
        4
    } else if o[5] == i {
        5
    } else if o[6] == i {
        6
    } else {
        7
    };
    assert(row[t].left == i);
}

/// In every row no blade of the left factor is taken twice.
pub proof fn rows_take_no_blade_twice(k: int, t: int, u: int)
    requires
        0 <= k < 8,
        0 <= t < u < 8,
    ensures
        product_row(k)[t].left != product_row(k)[u].left,
{
    reveal(product_row);
    reveal(term_of);
}

/// The two blades of a term of row `k` are blades, and their product is plus
/// or minus blade `k`, with the sign that the term has.
pub proof fn terms_hold_products(k: int, t: int)
    requires
        0 <= k < 8,
        0 <= t < 8,
    ensures
        product_row(k)[t].left < 8,
        product_row(k)[t].right < 8,
        product_index(product_row(k)[t].left as int, product_row(k)[t].right as int) == k,
        product_row(k)[t].negative == product_negative(
            product_row(k)[t].left as int,
            product_row(k)[t].right as int,
        ),
        product_row(k)[t].exterior == disjoint(
            product_row(k)[t].left as int,
            product_row(k)[t].right as int,
        ),
{
    reveal(product_row);
    reveal(term_of);
}

/// The term of blade `i` in row `k` adds what the algebra says blade `i` of
/// the left factor adds to coefficient `k`.
proof fn term_is_exact(a: Seq<int>, b: Seq<int>, k: int, i: int)
    requires
        0 <= k < 8,
        0 <= i < 8,
    ensures
        term_value(a, b, term_of(i, k), false) == geometric_term(a, b, k, i),
        term_value(a, b, term_of(i, k), true) == exterior_term(a, b, k, i),
{
    reveal(geometric_term);
    reveal(exterior_term);
    reveal(term_of);
}

/// The rows say what the products are: the terms of row `k` add up to
/// coefficient `k` of the geometric product, and those among them that belong
/// to the exterior product add up to coefficient `k` of the exterior product.
pub proof fn row_is_coefficient(a: Seq<int>, b: Seq<int>, k: int)
    requires
        is_multivector(a),
        is_multivector(b),
        0 <= k < 8,
    ensures
        row_value(a, b, product_row(k), false) == geometric_coefficient(a, b, k),
        row_value(a, b, product_row(k), true) == exterior_coefficient(a, b, k),
{
    reveal(product_row);
    term_is_exact(a, b, k, 0);
    term_is_exact(a, b, k, 1);
    term_is_exact(a, b, k, 2);
    term_is_exact(a, b, k, 3);
    term_is_exact(a, b, k, 4);
    term_is_exact(a, b, k, 5);
    term_is_exact(a, b, k, 6);
    term_is_exact(a, b, k, 7);
    let row = product_row(k);
    let order = row_order(k);
    if k == 0 {
        assert(order =~= seq![0, 1, 2, 3, 4, 5, 6, 7]);
    } else if k == 1 {
        assert(order =~= seq![1, 0, 4, 2, 5, 3, 7, 6]);
    } else if k == 2 {
        assert(order =~= seq![2, 0, 4, 1, 6, 3, 7, 5]);
    } else if k == 3 {
        assert(order =~= seq![3, 0, 5, 1, 6, 2, 7, 4]);
    } else if k == 4 {
        assert(order =~= seq![4, 0, 2, 1, 7, 3, 6, 5]);
    } else if k == 5 {
        assert(order =~= seq![5, 0, 3, 1, 7, 2, 6, 4]);
    } else if k == 6 {
        assert(order =~= seq![6, 0, 7, 1, 3, 2, 5, 4]);
    } else {
        assert(order =~= seq![7, 0, 6, 1, 5, 2, 4, 3]);
    }
    assert(row[0] == term_of(order[0], k));
    assert(row[1] == term_of(order[1], k));
    assert(row[2] == term_of(order[2], k));
    assert(row[3] == term_of(order[3], k));
    assert(row[4] == term_of(order[4], k));
    assert(row[5] == term_of(order[5], k));
    assert(row[6] == term_of(order[6], k));
    assert(row[7] == term_of(order[7], k));
}

} // verus!
