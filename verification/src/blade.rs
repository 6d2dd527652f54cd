//! The eight basis blades and their products.
//!
//! A blade is a set of basis vectors, written in the order x, y, z. The blades
//! are numbered 0 to 7: the scalar, `e_x`, `e_y`, `e_z`, `e_x e_y`, `e_x e_z`,
//! `e_y e_z`, `e_x e_y e_z`. Everything here follows from two relations: a
//! basis vector times itself is 1, and two different basis vectors change sign
//! when they change places.

use vstd::prelude::*;

verus! {

/// The number of basis blades.
pub const BLADES: usize = 8;

/// Whether blade `i` holds the basis vector `e_x`.
pub open spec fn has_x(i: int) -> bool {
    i == 1 || i == 4 || i == 5 || i == 7
}

/// Whether blade `i` holds the basis vector `e_y`.
pub open spec fn has_y(i: int) -> bool {
    i == 2 || i == 4 || i == 6 || i == 7
}

/// Whether blade `i` holds the basis vector `e_z`.
pub open spec fn has_z(i: int) -> bool {
    i == 3 || i == 5 || i == 6 || i == 7
}

/// The number of the blade made of the given basis vectors.
pub open spec fn index_of(x: bool, y: bool, z: bool) -> int {
    if x {
        if y {
            if z { 7 } else { 4 }
        } else {
            if z { 5 } else { 1 }
        }
    } else {
        if y {
            if z { 6 } else { 2 }
        } else {
            if z { 3 } else { 0 }
        }
    }
}

/// One if the condition holds, else zero.
pub open spec fn count(b: bool) -> int {
    if b { 1 } else { 0 }
}

/// The grade of blade `i`: how many basis vectors it holds.
pub open spec fn grade_of(i: int) -> int {
    count(has_x(i)) + count(has_y(i)) + count(has_z(i))
}

/// Whether blades `i` and `j` share no basis vector.
pub open spec fn disjoint(i: int, j: int) -> bool {
    !(has_x(i) && has_x(j)) && !(has_y(i) && has_y(j)) && !(has_z(i) && has_z(j))
}

/// The blade that the product of blades `i` and `j` is a multiple of: a basis
/// vector that both hold squares to 1 and drops out.
pub open spec fn product_index(i: int, j: int) -> int {
    index_of(has_x(i) != has_x(j), has_y(i) != has_y(j), has_z(i) != has_z(j))
}

/// How many pairs of basis vectors stand in the wrong order when blade `j` is
/// written behind blade `i`. Each such pair costs one change of places.
pub open spec fn swaps(i: int, j: int) -> int {
    count(has_y(i) && has_x(j)) + count(has_z(i) && has_x(j)) + count(has_z(i) && has_y(j))
}

/// Whether the product of blades `i` and `j` is minus a blade.
pub open spec fn product_negative(i: int, j: int) -> bool {
    swaps(i, j) % 2 == 1
}

/// The sign of the product of blades `i` and `j`: 1 or -1.
pub open spec fn product_sign(i: int, j: int) -> int {
    if product_negative(i, j) { -1 } else { 1 }
}

/// A basis blade with a sign.
#[derive(Clone, Copy, PartialEq, Eq, Structural, Debug)]
pub struct SignedBlade {
    /// Whether the sign is minus.
    pub negative: bool,
    /// The number of the blade.
    pub index: usize,
}

/// The grade of blade `index`.
pub fn grade(index: usize) -> (g: usize)
    requires
        index < BLADES,
    ensures
        g == grade_of(index as int),
{
    if index == 0 {
        0
    } else if index <= 3 {
        1
    } else if index <= 6 {
        2
    } else {
        3
    }
}

/// Whether blade `i` holds `e_x`, `e_y` and `e_z`, in this order.
fn vectors_of(i: usize) -> (held: (bool, bool, bool))
    ensures
        held.0 == has_x(i as int),
        held.1 == has_y(i as int),
        held.2 == has_z(i as int),
{
    (
        i == 1 || i == 4 || i == 5 || i == 7,
        i == 2 || i == 4 || i == 6 || i == 7,
        i == 3 || i == 5 || i == 6 || i == 7,
    )
}

/// Whether blades `i` and `j` share no basis vector.
pub fn blades_disjoint(i: usize, j: usize) -> (apart: bool)
    ensures
        apart == disjoint(i as int, j as int),
{
    let (ix, iy, iz) = vectors_of(i);
    let (jx, jy, jz) = vectors_of(j);
    !(ix && jx) && !(iy && jy) && !(iz && jz)
}

/// The product of blade `left` and blade `right`, in this order.
pub fn blade_product(left: usize, right: usize) -> (p: SignedBlade)
    requires
        left < BLADES,
        right < BLADES,
    ensures
        p.index == product_index(left as int, right as int),
        p.negative == product_negative(left as int, right as int),
        p.index < BLADES,
{
    let (lx, ly, lz) = vectors_of(left);
    let (rx, ry, rz) = vectors_of(right);
    // One change of sign for each pair that stands in the wrong order.
    let negative = (ly && rx) != ((lz && rx) != (lz && ry));
    let index: usize = match (lx != rx, ly != ry, lz != rz) {
        (false, false, false) => 0,
        (true, false, false) => 1,
        (false, true, false) => 2,
        (false, false, true) => 3,
        (true, true, false) => 4,
        (true, false, true) => 5,
        (false, true, true) => 6,
        (true, true, true) => 7,
    };
    SignedBlade { negative, index }
}

/// Every blade is the blade of the basis vectors it holds.
pub proof fn blade_is_its_vectors(i: int)
    requires
        0 <= i < 8,
    ensures
        index_of(has_x(i), has_y(i), has_z(i)) == i,
{
}

/// The scalar blade is the unit: it leaves every blade as it is, from either side.
pub proof fn scalar_blade_is_unit(i: int)
    requires
        0 <= i < 8,
    ensures
        product_index(0, i) == i,
        product_index(i, 0) == i,
        product_sign(0, i) == 1,
        product_sign(i, 0) == 1,
{
}

/// A basis vector times itself is the scalar 1.
pub proof fn vector_squares_to_one(i: int)
    requires
        1 <= i <= 3,
    ensures
        product_index(i, i) == 0,
        product_sign(i, i) == 1,
{
}

/// Two different basis vectors change sign when they change places.
pub proof fn vectors_anticommute(i: int, j: int)
    requires
        1 <= i <= 3,
        1 <= j <= 3,
        i != j,
    ensures
        product_index(i, j) == product_index(j, i),
        product_sign(i, j) == -product_sign(j, i),
{
}

/// The blades of grade two and three are the products of their basis vectors
/// in the order x, y, z.
pub proof fn higher_blades_are_products()
    ensures
        product_index(1, 2) == 4 && product_sign(1, 2) == 1,
        product_index(1, 3) == 5 && product_sign(1, 3) == 1,
        product_index(2, 3) == 6 && product_sign(2, 3) == 1,
        product_index(4, 3) == 7 && product_sign(4, 3) == 1,
{
}

/// A bivector blade and the trivector blade square to -1.
pub proof fn higher_blades_square_to_minus_one(i: int)
    requires
        4 <= i <= 7,
    ensures
        product_index(i, i) == 0,
        product_sign(i, i) == -1,
{
}

/// The product of blades is associative, sign included.
pub proof fn blade_product_is_associative(i: int, j: int, k: int)
    requires
        0 <= i < 8,
        0 <= j < 8,
        0 <= k < 8,
    ensures
        product_index(product_index(i, j), k) == product_index(i, product_index(j, k)),
        product_sign(i, j) * product_sign(product_index(i, j), k) == product_sign(j, k)
            * product_sign(i, product_index(j, k)),
{
}

/// The product of two blades has the sum of their grades exactly when they
/// share no basis vector, and a lower grade otherwise.
pub proof fn grade_of_product(i: int, j: int)
    requires
        0 <= i < 8,
        0 <= j < 8,
    ensures
        0 <= product_index(i, j) < 8,
        disjoint(i, j) <==> grade_of(product_index(i, j)) == grade_of(i) + grade_of(j),
        grade_of(product_index(i, j)) <= grade_of(i) + grade_of(j),
{
}

} // verus!
