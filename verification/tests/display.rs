use space_alg::render::{blade_label, decimal_text, render, Coefficient};
use space_alg::Multivector;

fn shown(comps: [i32; 8]) -> String {
    Multivector::new(comps).to_string()
}

fn zeros() -> [Coefficient; 8] {
    [
        Coefficient::Zero,
        Coefficient::Zero,
        Coefficient::Zero,
        Coefficient::Zero,
        Coefficient::Zero,
        Coefficient::Zero,
        Coefficient::Zero,
        Coefficient::Zero,
    ]
}

#[test]
fn zero_renders_as_0() {
    assert_eq!(shown([0; 8]), "0");
    assert_eq!(render(&zeros()), "0");
}

#[test]
fn unit_vector_renders_as_its_label() {
    assert_eq!(Multivector::new_grade1([1, 0, 0]).to_string(), "e_x");
    assert_eq!(Multivector::new_grade1([0, 1, 0]).to_string(), "e_y");
    assert_eq!(Multivector::new_grade1([0, 0, 1]).to_string(), "e_z");
}

#[test]
fn negative_unit_vector_renders_with_a_bare_minus() {
    assert_eq!(Multivector::new_grade1([-1, 0, 0]).to_string(), "-e_x");
    assert_eq!(Multivector::new_grade2([0, 0, -1]).to_string(), "-e_ye_z");
}

#[test]
fn first_term_keeps_its_coefficient() {
    assert_eq!(Multivector::new_grade1([2, 0, 0]).to_string(), "2e_x");
    assert_eq!(Multivector::new_grade1([-2, 0, 0]).to_string(), "-2e_x");
    assert_eq!(Multivector::new_grade1([0, 0, 30]).to_string(), "30e_z");
    assert_eq!(shown([0, 0, 0, 0, 0, 0, 0, -12]), "-12e_xe_ye_z");
}

#[test]
fn scalar_renders_as_its_number() {
    assert_eq!(shown([1, 0, 0, 0, 0, 0, 0, 0]), "1");
    assert_eq!(shown([-1, 0, 0, 0, 0, 0, 0, 0]), "-1");
    assert_eq!(shown([7, 0, 0, 0, 0, 0, 0, 0]), "7");
    assert_eq!(shown([-105, 0, 0, 0, 0, 0, 0, 0]), "-105");
    assert_eq!(shown([i32::MAX, 0, 0, 0, 0, 0, 0, 0]), "2147483647");
    assert_eq!(shown([i32::MIN, 0, 0, 0, 0, 0, 0, 0]), "-2147483648");
}

#[test]
fn later_terms_are_joined_by_their_sign() {
    assert_eq!(Multivector::new_grade1([1, 2, 5]).to_string(), "e_x + 2e_y + 5e_z");
    assert_eq!(Multivector::new_grade1([1, -1, 1]).to_string(), "e_x - e_y + e_z");
    assert_eq!(Multivector::new_grade1([-3, -2, -1]).to_string(), "-3e_x - 2e_y - e_z");
    assert_eq!(shown([1, 1, 0, 0, 0, 0, 0, 0]), "1 + e_x");
    assert_eq!(shown([-1, -1, 0, 0, 0, 0, 0, 0]), "-1 - e_x");
    assert_eq!(shown([0, 0, 0, 0, 1, 0, -1, 1]), "e_xe_y - e_ye_z + e_xe_ye_z");
}

#[test]
fn every_blade_has_its_term() {
    assert_eq!(
        shown([-1, -2, 3, -5, 7, 11, 13, -4]),
        "-1 - 2e_x + 3e_y - 5e_z + 7e_xe_y + 11e_xe_z + 13e_ye_z - 4e_xe_ye_z"
    );
    assert_eq!(
        shown([-1847, -4091, -926, 20, -1379, -6227, 4401, -3999]),
        "-1847 - 4091e_x - 926e_y + 20e_z - 1379e_xe_y - 6227e_xe_z + 4401e_ye_z - 3999e_xe_ye_z"
    );
}

#[test]
fn extreme_coefficients_keep_all_their_digits() {
    assert_eq!(
        shown([0, i32::MIN, i32::MAX, 0, 0, 0, 0, i32::MIN]),
        "-2147483648e_x + 2147483647e_y - 2147483648e_xe_ye_z"
    );
}

#[test]
fn blade_labels_name_the_basis_vectors() {
    let labels: Vec<&str> = (0..8).map(blade_label).collect();
    assert_eq!(labels, vec!["", "e_x", "e_y", "e_z", "e_xe_y", "e_xe_z", "e_ye_z", "e_xe_ye_z"]);
}

#[test]
fn decimal_text_writes_the_digits() {
    assert_eq!(decimal_text(0), "0");
    assert_eq!(decimal_text(7), "7");
    assert_eq!(decimal_text(10), "10");
    assert_eq!(decimal_text(1234567890), "1234567890");
    assert_eq!(decimal_text(u32::MAX), "4294967295");
}

#[test]
fn of_integer_sorts_the_number() {
    assert!(matches!(Coefficient::of_integer(0), Coefficient::Zero));
    assert!(matches!(Coefficient::of_integer(1), Coefficient::One));
    assert!(matches!(Coefficient::of_integer(-1), Coefficient::MinusOne));
    assert!(matches!(Coefficient::of_integer(12), Coefficient::Positive(digits) if digits == "12"));
    assert!(matches!(Coefficient::of_integer(-12), Coefficient::Negative(digits) if digits == "12"));
    assert!(matches!(
        Coefficient::of_integer(i32::MIN),
        Coefficient::Negative(digits) if digits == "2147483648"
    ));
}

#[test]
fn render_takes_any_digits() {
    let mut coefficients = zeros();
    coefficients[0] = Coefficient::Negative(String::from("369.4"));
    coefficients[3] = Coefficient::Positive(String::from("4"));
    coefficients[5] = Coefficient::Negative(String::from("1245.4"));
    coefficients[7] = Coefficient::Positive(String::from("0.5"));
    assert_eq!(render(&coefficients), "-369.4 + 4e_z - 1245.4e_xe_z + 0.5e_xe_ye_z");
}

#[test]
fn render_writes_an_unordered_value_only_in_front() {
    let mut coefficients = zeros();
    coefficients[2] = Coefficient::Unordered(String::from("NaN"));
    coefficients[4] = Coefficient::Unordered(String::from("NaN"));
    coefficients[6] = Coefficient::One;
    assert_eq!(render(&coefficients), "NaNe_y + e_ye_z");
    let mut coefficients = zeros();
    coefficients[0] = Coefficient::Unordered(String::from("NaN"));
    assert_eq!(render(&coefficients), "NaN");
    let mut coefficients = zeros();
    coefficients[0] = Coefficient::MinusOne;
    coefficients[1] = Coefficient::Unordered(String::from("NaN"));
    assert_eq!(render(&coefficients), "-1");
}
