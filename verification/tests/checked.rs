use space_alg::Multivector;

const A: [i32; 8] = [-1, -2, 3, -5, 7, 11, 13, -4];
const B: [i32; 8] = [-35, 5, 80, -120, 465, -6, 11, 155];

fn only(k: usize, c: i32) -> Multivector {
    let mut comps = [0; 8];
    comps[k] = c;
    Multivector::new(comps)
}

#[test]
fn checked_operations_agree_with_the_operators() {
    let (a, b) = (Multivector::new(A), Multivector::new(B));
    assert_eq!(a.checked_add(b), Some(a + b));
    assert_eq!(a.checked_sub(b), Some(a - b));
    assert_eq!(a.checked_neg(), Some(-a));
    assert_eq!(a.checked_scaled(-7), Some(a.scaled(-7)));
    assert_eq!(a.checked_mul(b), Some(a * b));
    assert_eq!(a.checked_bitxor(b), Some(a ^ b));
    assert_eq!(a.checked_complement(), Some(a.complement()));
}

#[test]
fn checked_add_ends_at_the_range() {
    for k in 0..8 {
        assert_eq!(only(k, i32::MAX).checked_add(only(k, 1)), None);
        assert_eq!(only(k, i32::MIN).checked_add(only(k, -1)), None);
        assert_eq!(only(k, i32::MAX - 1).checked_add(only(k, 1)), Some(only(k, i32::MAX)));
        assert_eq!(only(k, i32::MIN + 1).checked_add(only(k, -1)), Some(only(k, i32::MIN)));
    }
    assert_eq!(only(0, i32::MAX).checked_add(only(0, i32::MIN)), Some(only(0, -1)));
}

#[test]
fn checked_sub_ends_at_the_range() {
    for k in 0..8 {
        assert_eq!(only(k, i32::MIN).checked_sub(only(k, 1)), None);
        assert_eq!(only(k, 0).checked_sub(only(k, i32::MIN)), None);
        assert_eq!(only(k, -1).checked_sub(only(k, i32::MIN)), Some(only(k, i32::MAX)));
    }
}

#[test]
fn checked_neg_has_no_negative_of_the_lowest_integer() {
    for k in 0..8 {
        assert_eq!(only(k, i32::MIN).checked_neg(), None);
        assert_eq!(only(k, i32::MAX).checked_neg(), Some(only(k, i32::MIN + 1)));
    }
}

#[test]
fn checked_scaled_ends_at_the_range() {
    assert_eq!(only(3, 65536).checked_scaled(32768), None);
    assert_eq!(only(3, 65536).checked_scaled(-32768), Some(only(3, i32::MIN)));
    assert_eq!(only(3, 65536).checked_scaled(32767), Some(only(3, 2147418112)));
    assert_eq!(only(5, i32::MIN).checked_scaled(-1), None);
    assert_eq!(only(5, i32::MIN).checked_scaled(i32::MIN), None);
    assert_eq!(only(5, i32::MIN).checked_scaled(0), Some(only(5, 0)));
    assert_eq!(Multivector::new(A).checked_scaled(1), Some(Multivector::new(A)));
}

#[test]
fn checked_mul_ends_at_the_range() {
    assert_eq!(only(0, 46340).checked_mul(only(0, 46340)), Some(only(0, 2147395600)));
    assert_eq!(only(0, 46341).checked_mul(only(0, 46341)), None);
    assert_eq!(only(1, 65536).checked_mul(only(2, 32768)), None);
    assert_eq!(only(2, 65536).checked_mul(only(1, 32768)), Some(only(4, i32::MIN)));
    assert_eq!(only(7, 65536).checked_mul(only(7, 32768)), Some(only(0, i32::MIN)));
    assert_eq!(only(3, i32::MIN).checked_mul(only(3, i32::MIN)), None);
}

#[test]
fn checked_mul_adds_up_before_it_narrows() {
    // Each of the two products is too large; their difference is not.
    let a = Multivector::new([65536, 65536, 0, 0, 0, 0, 0, 0]);
    let b = Multivector::new([65536, -65536, 0, 0, 0, 0, 0, 0]);
    assert_eq!(a.checked_mul(b), Some(Multivector::new([0; 8])));
    let c = Multivector::new([i32::MIN, i32::MIN, i32::MIN, i32::MIN, 0, 0, 0, 0]);
    let d = Multivector::new([i32::MIN, i32::MIN, i32::MIN, i32::MIN, 0, 0, 0, 0]);
    assert_eq!(c.checked_mul(d), None);
}

#[test]
fn checked_bitxor_ends_at_the_range() {
    assert_eq!(only(1, 65536).checked_bitxor(only(2, 32768)), None);
    assert_eq!(only(2, 65536).checked_bitxor(only(1, 32768)), Some(only(4, i32::MIN)));
    assert_eq!(only(1, i32::MIN).checked_bitxor(only(1, i32::MIN)), Some(only(0, 0)));
    assert_eq!(only(0, i32::MIN).checked_bitxor(only(0, i32::MIN)), None);
}

#[test]
fn checked_complement_changes_no_sign_of_the_lowest_integer() {
    let changed = [7, 6, 4, 2];
    for k in 0..8 {
        let result = only(k, i32::MIN).checked_complement();
        if changed.contains(&k) {
            assert_eq!(result, None);
        } else {
            assert_eq!(result, Some(only(7 - k, i32::MIN)));
        }
        assert!(only(k, i32::MAX).checked_complement().is_some());
    }
}

#[test]
fn unit_vector_of_a_multiple_of_a_basis_vector() {
    assert_eq!(Multivector::new_grade1([0, 0, 5]).unit_vector(), Some(only(3, 1)));
    assert_eq!(Multivector::new_grade1([-3, 0, 0]).unit_vector(), Some(only(1, -1)));
    assert_eq!(Multivector::new_grade1([0, 1, 0]).unit_vector(), Some(only(2, 1)));
    assert_eq!(Multivector::new_grade1([0, i32::MIN, 0]).unit_vector(), Some(only(2, -1)));
}

#[test]
fn unit_vector_leaves_the_other_grades_out() {
    let a = Multivector::new([7, 0, -2, 0, 3, 4, 5, 9]);
    assert_eq!(a.unit_vector(), Some(only(2, -1)));
}

#[test]
fn unit_vector_has_whole_coefficients_along_the_axes_only() {
    assert_eq!(Multivector::new_grade1([1, 2, 5]).unit_vector(), None);
    assert_eq!(Multivector::new_grade1([3, 4, 0]).unit_vector(), None);
    assert_eq!(Multivector::new_grade1([1, 1, 1]).unit_vector(), None);
}

#[test]
fn unit_vector_of_no_vector_part_is_none() {
    assert_eq!(Multivector::new([0; 8]).unit_vector(), None);
    assert_eq!(Multivector::new_grade2([1, 0, 0]).unit_vector(), None);
    assert_eq!(Multivector::new([5, 0, 0, 0, 1, 2, 3, 4]).unit_vector(), None);
}

#[test]
fn unit_bivector_of_a_multiple_of_a_bivector_blade() {
    assert_eq!(Multivector::new_grade2([0, 0, 5]).unit_bivector(), Some(only(6, 1)));
    assert_eq!(Multivector::new_grade2([-3, 0, 0]).unit_bivector(), Some(only(4, -1)));
    assert_eq!(Multivector::new_grade2([0, 12, 0]).unit_bivector(), Some(only(5, 1)));
    let a = Multivector::new([7, 1, -2, 3, 0, 0, -8, 9]);
    assert_eq!(a.unit_bivector(), Some(only(6, -1)));
}

#[test]
fn unit_bivector_of_other_parts_is_none() {
    assert_eq!(Multivector::new_grade2([1, 2, 5]).unit_bivector(), None);
    assert_eq!(Multivector::new([0; 8]).unit_bivector(), None);
    assert_eq!(Multivector::new_grade1([1, 0, 0]).unit_bivector(), None);
}
