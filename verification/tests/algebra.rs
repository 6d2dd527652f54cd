use space_alg::Multivector;

const A: [i32; 8] = [-1, -2, 3, -5, 7, 11, 13, -4];
const B: [i32; 8] = [-35, 5, 80, -120, 465, -6, 11, 155];
const C: [i32; 8] = [2, -3, 5, 7, -11, 13, -17, 19];

#[test]
fn new_keeps_the_coefficients() {
    assert_eq!(Multivector::new(A).comps(), A);
    assert_eq!(Multivector::new([0; 8]).comps(), [0; 8]);
    assert_eq!(
        Multivector::new([i32::MIN, i32::MAX, 0, 1, -1, 2, -2, 3]).comps(),
        [i32::MIN, i32::MAX, 0, 1, -1, 2, -2, 3]
    );
}

#[test]
fn new_grade1_fills_the_vector_blades() {
    assert_eq!(Multivector::new_grade1([1, 2, 5]).comps(), [0, 1, 2, 5, 0, 0, 0, 0]);
}

#[test]
fn new_grade2_fills_the_bivector_blades() {
    assert_eq!(Multivector::new_grade2([1, 2, 5]).comps(), [0, 0, 0, 0, 1, 2, 5, 0]);
}

#[test]
fn equality_compares_every_coefficient() {
    assert_eq!(Multivector::new(A), Multivector::new(A));
    for k in 0..8 {
        let mut changed = A;
        changed[k] += 1;
        assert_ne!(Multivector::new(A), Multivector::new(changed));
    }
}

#[test]
fn add_is_coefficient_by_coefficient() {
    let sum = Multivector::new(A) + Multivector::new(B);
    assert_eq!(sum.comps(), [-36, 3, 83, -125, 472, 5, 24, 151]);
}

#[test]
fn sub_is_coefficient_by_coefficient() {
    let difference = Multivector::new(A) - Multivector::new(B);
    assert_eq!(difference.comps(), [34, -7, -77, 115, -458, 17, 2, -159]);
    let swapped = Multivector::new(B) - Multivector::new(A);
    assert_eq!(swapped, -difference);
}

#[test]
fn add_assign_replaces_by_the_sum() {
    let mut a = Multivector::new(A);
    a += Multivector::new(B);
    assert_eq!(a, Multivector::new(A) + Multivector::new(B));
    assert_eq!(a.comps(), [-36, 3, 83, -125, 472, 5, 24, 151]);
}

#[test]
fn neg_changes_every_sign() {
    assert_eq!((-Multivector::new(A)).comps(), [1, 2, -3, 5, -7, -11, -13, 4]);
    assert_eq!(-Multivector::new([0; 8]), Multivector::new([0; 8]));
}

#[test]
fn scaled_multiplies_every_coefficient() {
    assert_eq!(Multivector::new(A).scaled(3).comps(), [-3, -6, 9, -15, 21, 33, 39, -12]);
    assert_eq!(Multivector::new(A).scaled(-2).comps(), [2, 4, -6, 10, -14, -22, -26, 8]);
    assert_eq!(
        Multivector::new([65536, -65536, 0, 0, 0, 0, 0, 1]).scaled(32767).comps(),
        [2147418112, -2147418112, 0, 0, 0, 0, 0, 32767]
    );
}

#[test]
fn scaled_by_one_is_the_same_and_by_zero_is_zero() {
    assert_eq!(Multivector::new(A).scaled(1), Multivector::new(A));
    assert_eq!(Multivector::new(A).scaled(0), Multivector::new([0; 8]));
}

#[test]
fn addition_is_associative_and_commutative() {
    let (a, b, c) = (Multivector::new(A), Multivector::new(B), Multivector::new(C));
    assert_eq!((a + b) + c, a + (b + c));
    assert_eq!(a + b, b + a);
    assert_eq!(a + (-a), Multivector::new([0; 8]));
}

#[test]
fn geometric_product_of_the_example() {
    let product = Multivector::new(A) * Multivector::new(B);
    assert_eq!(product.comps(), [-1847, -4091, -926, 20, -1379, -6227, 4401, -3999]);
}

#[test]
fn exterior_product_of_the_example() {
    let product = Multivector::new(A) ^ Multivector::new(B);
    assert_eq!(product.comps(), [35, 65, -185, 295, -885, -114, -426, -3999]);
}

#[test]
fn geometric_product_is_not_commutative() {
    let x = Multivector::new_grade1([1, 0, 0]);
    let y = Multivector::new_grade1([0, 1, 0]);
    assert_eq!((x * y).comps(), [0, 0, 0, 0, 1, 0, 0, 0]);
    assert_eq!((y * x).comps(), [0, 0, 0, 0, -1, 0, 0, 0]);
    assert_ne!(x * y, y * x);
    let product = Multivector::new(B) * Multivector::new(A);
    assert_eq!(product.comps(), [-1847, 279, 4014, 2120, -631, 5179, -5993, -3999]);
    assert_ne!(product, Multivector::new(A) * Multivector::new(B));
}

#[test]
fn scalar_part_of_the_product_contracts_the_factors() {
    let a = Multivector::new([2, 3, 5, 7, 11, 13, 17, 19]);
    let square = a * a;
    assert_eq!(square.comps()[0], 4 + 9 + 25 + 49 - 121 - 169 - 289 - 361);
}

#[test]
fn basis_vectors_square_to_one_and_higher_blades_to_minus_one() {
    for k in 0..8 {
        let mut blade = [0; 8];
        blade[k] = 1;
        let blade = Multivector::new(blade);
        let sign = if k < 4 { 1 } else { -1 };
        assert_eq!((blade * blade).comps(), [sign, 0, 0, 0, 0, 0, 0, 0]);
    }
}

#[test]
fn geometric_product_is_associative_and_distributes() {
    let (a, b, c) = (Multivector::new(A), Multivector::new(B), Multivector::new(C));
    assert_eq!(
        ((a * b) * c).comps(),
        [220669, -215173, -109376, -108804, -81933, 44401, 54311, 46553]
    );
    assert_eq!((a * b) * c, a * (b * c));
    assert_eq!((a + b) * c, a * c + b * c);
    assert_eq!(c * (a + b), c * a + c * b);
}

#[test]
fn exterior_product_is_associative_and_distributes() {
    let (a, b, c) = (Multivector::new(A), Multivector::new(B), Multivector::new(C));
    assert_eq!(((a ^ b) ^ c).comps(), [70, 25, -195, 835, -2385, 1567, -4217, -13625]);
    assert_eq!((a ^ b) ^ c, a ^ (b ^ c));
    assert_eq!((a + b) ^ c, (a ^ c) + (b ^ c));
    assert_eq!(c ^ (a + b), (c ^ a) + (c ^ b));
}

#[test]
fn exterior_product_of_vectors_changes_sign_with_their_order() {
    let a = Multivector::new_grade1([1, 2, 5]);
    let b = Multivector::new_grade1([-3, 7, 4]);
    assert_eq!((a ^ b).comps(), [0, 0, 0, 0, 13, 19, -27, 0]);
    assert_eq!(a ^ b, -(b ^ a));
    assert_eq!(a ^ a, Multivector::new([0; 8]));
}

#[test]
fn exterior_product_of_three_vectors_is_their_determinant() {
    let a = Multivector::new_grade1([1, 2, 5]);
    let b = Multivector::new_grade1([-3, 7, 4]);
    let c = Multivector::new_grade1([2, -1, 6]);
    // 1*(7*6 + 4) - 2*(-18 - 8) + 5*(3 - 14)
    assert_eq!(((a ^ b) ^ c).comps(), [0, 0, 0, 0, 0, 0, 0, 43]);
}

#[test]
fn products_with_zero_are_zero() {
    let zero = Multivector::new([0; 8]);
    let a = Multivector::new(A);
    assert_eq!(a * zero, zero);
    assert_eq!(zero * a, zero);
    assert_eq!(a ^ zero, zero);
    assert_eq!(zero ^ a, zero);
}

#[test]
fn scalar_one_is_the_unit_of_both_products() {
    let one = Multivector::new([1, 0, 0, 0, 0, 0, 0, 0]);
    let a = Multivector::new(A);
    assert_eq!(one * a, a);
    assert_eq!(a * one, a);
    assert_eq!(one ^ a, a);
    assert_eq!(a ^ one, a);
}

#[test]
fn products_reach_the_ends_of_the_range() {
    let a = Multivector::new([-32768, 0, 0, 0, 0, 0, 0, 0]);
    let b = Multivector::new([65536, 0, 0, 0, 0, 0, 0, 0]);
    assert_eq!((a * b).comps(), [i32::MIN, 0, 0, 0, 0, 0, 0, 0]);
    let c = Multivector::new([46340, 46340, 0, 0, 0, 0, 0, 0]);
    let d = Multivector::new([46340, -46340, 0, 0, 0, 0, 0, 0]);
    assert_eq!((c * d).comps(), [0, 0, 0, 0, 0, 0, 0, 0]);
}

#[test]
fn complement_follows_the_table() {
    assert_eq!(Multivector::new(A).complement().comps(), [4, -13, 11, -7, -5, -3, -2, -1]);
    assert_eq!(
        Multivector::new([1, 0, 0, 0, 0, 0, 0, 0]).complement().comps(),
        [0, 0, 0, 0, 0, 0, 0, 1]
    );
    assert_eq!(
        Multivector::new([0, 0, 0, 0, 0, 0, 0, 1]).complement().comps(),
        [-1, 0, 0, 0, 0, 0, 0, 0]
    );
}

#[test]
fn complement_twice_is_the_negative() {
    let twice = Multivector::new(A).complement().complement();
    assert_eq!(twice.comps(), [1, 2, -3, 5, -7, -11, -13, 4]);
    assert_eq!(twice, -Multivector::new(A));
}

#[test]
fn complement_is_the_product_with_the_trivector() {
    let trivector = Multivector::new([0, 0, 0, 0, 0, 0, 0, 1]);
    assert_eq!(Multivector::new(A).complement(), Multivector::new(A) * trivector);
}
