//! The machine type: a multivector whose coefficients are 32-bit integers.
//!
//! Every operation states its result through the exact algebra of the module
//! `model`. An operator asks of its operands that the coefficients of the
//! exact result are 32-bit integers again; beside it stands a checked
//! operation that takes any operands and returns `None` where they are not.

use vstd::prelude::*;
use vstd::std_specs::cmp::PartialEqSpecImpl;
use vstd::std_specs::ops::{AddSpecImpl, BitXorSpecImpl, MulSpecImpl, NegSpecImpl, SubSpecImpl};
use crate::blade::{grade_of, SignedBlade, BLADES};
use crate::laws::unit_has_one_blade;
use crate::model;
use crate::render::{integer_coefficients, models, render, rendered, Coefficient};
use crate::terms::{
    complement_term, product_row, product_terms, row_is_coefficient, row_value, term_value, Term,
};

verus! {

/// An element of the algebra: one coefficient for each of the eight basis
/// blades, in the order of their numbers. A blade that does not occur has the
/// coefficient zero.
#[derive(Clone, Copy, Debug)]
pub struct Multivector {
    comps: [i32; 8],
}

/// The numbers in `s` as mathematical integers.
pub open spec fn ints(s: Seq<i32>) -> Seq<int> {
    Seq::new(s.len(), |k: int| s[k] as int)
}

/// Whether `m` has eight coefficients that are all 32-bit integers.
pub open spec fn representable(m: Seq<int>) -> bool {
    &&& m.len() == 8
    &&& forall|k: int| 0 <= k < 8 ==> i32::MIN <= #[trigger] m[k] <= i32::MAX
}

/// What a checked operation returns where the exact result is `exact`: the
/// multivector with these coefficients where they are representable, and
/// `None` where they are not.
pub open spec fn is_checked(r: Option<Multivector>, exact: Seq<int>) -> bool {
    match r {
        Some(m) => representable(exact) && m@ == exact,
        None => !representable(exact),
    }
}

/// What a normalization returns for the part `part`: the multivector of
/// magnitude one of which `part` is a multiple above zero, and `None` where
/// there is none with whole coefficients.
pub open spec fn is_unit_or_none(r: Option<Multivector>, part: Seq<int>) -> bool {
    match r {
        Some(u) => model::is_unit_of(u@, part),
        None => forall|u: Seq<int>| !model::is_unit_of(u, part),
    }
}

/// The numbers in `s` as mathematical integers.
spec fn wide_ints(s: Seq<i128>) -> Seq<int> {
    Seq::new(s.len(), |k: int| s[k] as int)
}

impl View for Multivector {
    type V = Seq<int>;

    /// The eight coefficients.
    closed spec fn view(&self) -> Seq<int> {
        ints(self.comps@)
    }
}

impl Multivector {
    /// The multivector with the coefficients `m`, which must be representable.
    pub closed spec fn of(m: Seq<int>) -> Multivector {
        Multivector {
            comps: [
                m[0] as i32,
                m[1] as i32,
                m[2] as i32,
                m[3] as i32,
                m[4] as i32,
                m[5] as i32,
                m[6] as i32,
                m[7] as i32,
            ],
        }
    }

    /// The coefficients of a multivector are representable, and they are all
    /// there is to it: `of` gives back the multivector they came from.
    pub broadcast proof fn view_is_representable(self)
        ensures
            representable(#[trigger] self@),
            Multivector::of(self@) == self,
    {
        assert(Multivector::of(self@).comps =~= self.comps);
    }

    /// `of` makes the multivector with the given coefficients.
    pub broadcast proof fn of_has_view(m: Seq<int>)
        requires
            representable(m),
        ensures
            (#[trigger] Multivector::of(m))@ == m,
    {
        assert(Multivector::of(m)@ =~= m);
    }

    /// Two multivectors with the same coefficients are the same.
    pub proof fn same_view_is_equal(self, other: Multivector)
        requires
            self@ == other@,
        ensures
            self == other,
    {
        assert forall|k: int| 0 <= k < 8 implies self.comps[k] == other.comps[k] by {
            assert(self@[k] == self.comps@[k] as int);
            assert(other@[k] == other.comps@[k] as int);
        }
        assert(self.comps =~= other.comps);
    }

    /// The multivector with the coefficients `comps`, as they are.
    pub fn new(comps: [i32; 8]) -> (r: Multivector)
        ensures
            r@ == ints(comps@),
    {
        Multivector { comps }
    }

    /// The eight coefficients, in the order of the blades.
    pub fn comps(self) -> (comps: [i32; 8])
        ensures
            ints(comps@) == self@,
    {
        self.comps
    }

    /// The vector with the coefficients `comp` at `e_x`, `e_y`, `e_z`, and
    /// zero at every other blade.
    pub fn new_grade1(comp: [i32; 3]) -> (r: Multivector)
        ensures
            r@ == seq![0int, comp@[0] as int, comp@[1] as int, comp@[2] as int, 0int, 0int, 0int, 0int],
            model::is_pure(r@, 1),
    {
        let r = Multivector { comps: [0, comp[0], comp[1], comp[2], 0, 0, 0, 0] };
        assert(r@ =~= seq![0int, comp@[0] as int, comp@[1] as int, comp@[2] as int, 0int, 0int, 0int, 0int]);
        r
    }

    /// The bivector with the coefficients `comp` at `e_x e_y`, `e_x e_z`,
    /// `e_y e_z`, and zero at every other blade.
    pub fn new_grade2(comp: [i32; 3]) -> (r: Multivector)
        ensures
            r@ == seq![0int, 0int, 0int, 0int, comp@[0] as int, comp@[1] as int, comp@[2] as int, 0int],
            model::is_pure(r@, 2),
    {
        let r = Multivector { comps: [0, 0, 0, 0, comp[0], comp[1], comp[2], 0] };
        assert(r@ =~= seq![0int, 0int, 0int, 0int, comp@[0] as int, comp@[1] as int, comp@[2] as int, 0int]);
        r
    }

    /// Every coefficient multiplied by `scalar`. The products must be 32-bit
    /// integers.
    pub fn scaled(self, scalar: i32) -> (r: Multivector)
        requires
            representable(model::scaling(self@, scalar as int)),
        ensures
            r@ == model::scaling(self@, scalar as int),
    {
        fitted(&exact_scaling(&self.comps, scalar))
    }

    /// Every coefficient multiplied by `scalar`, or `None` where a product is
    /// no 32-bit integer.
    pub fn checked_scaled(self, scalar: i32) -> (r: Option<Multivector>)
        ensures
            is_checked(r, model::scaling(self@, scalar as int)),
    {
        narrow(&exact_scaling(&self.comps, scalar))
    }

    /// The orthogonal complement. No coefficient whose sign it changes may be
    /// the lowest 32-bit integer.
    pub fn complement(self) -> (r: Multivector)
        requires
            representable(model::complement(self@)),
        ensures
            r@ == model::complement(self@),
    {
        fitted(&exact_complement(&self.comps))
    }

    /// The orthogonal complement, or `None` where it changes the sign of the
    /// lowest 32-bit integer.
    pub fn checked_complement(self) -> (r: Option<Multivector>)
        ensures
            is_checked(r, model::complement(self@)),
    {
        narrow(&exact_complement(&self.comps))
    }

    /// The sum, or `None` where a coefficient of it is no 32-bit integer.
    pub fn checked_add(self, right: Multivector) -> (r: Option<Multivector>)
        ensures
            is_checked(r, model::sum(self@, right@)),
    {
        narrow(&exact_sum(&self.comps, &right.comps))
    }

    /// The difference, or `None` where a coefficient of it is no 32-bit
    /// integer.
    pub fn checked_sub(self, right: Multivector) -> (r: Option<Multivector>)
        ensures
            is_checked(r, model::difference(self@, right@)),
    {
        narrow(&exact_difference(&self.comps, &right.comps))
    }

    /// The negative, or `None` where a coefficient is the lowest 32-bit
    /// integer.
    pub fn checked_neg(self) -> (r: Option<Multivector>)
        ensures
            is_checked(r, model::negation(self@)),
    {
        narrow(&exact_negation(&self.comps))
    }

    /// The geometric product, `self` on the left, or `None` where a
    /// coefficient of it is no 32-bit integer.
    pub fn checked_mul(self, right: Multivector) -> (r: Option<Multivector>)
        ensures
            is_checked(r, model::geometric_product(self@, right@)),
    {
        narrow(&exact_product(&self.comps, &right.comps, false))
    }

    /// The exterior product, `self` on the left, or `None` where a
    /// coefficient of it is no 32-bit integer.
    pub fn checked_bitxor(self, right: Multivector) -> (r: Option<Multivector>)
        ensures
            is_checked(r, model::exterior_product(self@, right@)),
    {
        narrow(&exact_product(&self.comps, &right.comps, true))
    }

    /// The vector part divided by its length, every other coefficient zero.
    /// Over the integers the quotient exists only where the vector part is a
    /// multiple of one basis vector; it is `None` where it does not exist,
    /// as for a vector part that is zero and has no direction.
    pub fn unit_vector(self) -> (r: Option<Multivector>)
        ensures
            is_unit_or_none(r, model::grade_part(self@, 1)),
    {
        unit_of_part(&self.comps, 1)
    }

    /// The bivector part divided by its magnitude, every other coefficient
    /// zero. Over the integers the quotient exists only where the bivector
    /// part is a multiple of one bivector blade; it is `None` where it does
    /// not exist, as for a bivector part that is zero.
    pub fn unit_bivector(self) -> (r: Option<Multivector>)
        ensures
            is_unit_or_none(r, model::grade_part(self@, 2)),
    {
        unit_of_part(&self.comps, 4)
    }

    /// The text of the multivector: its terms in the order of the blades,
    /// with the coefficients in decimal digits, and `0` where it has no term.
    pub fn to_string(&self) -> (text: String)
        ensures
            text@ == rendered(integer_coefficients(self@)),
    {
        let c = &self.comps;
        let coefficients = [
            Coefficient::of_integer(c[0]),
            Coefficient::of_integer(c[1]),
            Coefficient::of_integer(c[2]),
            Coefficient::of_integer(c[3]),
            Coefficient::of_integer(c[4]),
            Coefficient::of_integer(c[5]),
            Coefficient::of_integer(c[6]),
            Coefficient::of_integer(c[7]),
        ];
        assert(models(coefficients) =~= integer_coefficients(self@));
        render(&coefficients)
    }
}

impl PartialEq for Multivector {
    /// Whether all eight coefficients are equal.
    fn eq(&self, other: &Multivector) -> (r: bool) {
        let a = &self.comps;
        let b = &other.comps;
        let r = a[0] == b[0] && a[1] == b[1] && a[2] == b[2] && a[3] == b[3] && a[4] == b[4]
            && a[5] == b[5] && a[6] == b[6] && a[7] == b[7];
        proof {
            if r {
                assert(self@ =~= other@);
            } else {
                assert(self@[0] == a[0] && self@[1] == a[1] && self@[2] == a[2] && self@[3] == a[3]);
                assert(self@[4] == a[4] && self@[5] == a[5] && self@[6] == a[6] && self@[7] == a[7]);
                assert(other@[0] == b[0] && other@[1] == b[1] && other@[2] == b[2] && other@[3] == b[3]);
                assert(other@[4] == b[4] && other@[5] == b[5] && other@[6] == b[6] && other@[7] == b[7]);
            }
        }
        r
    }
}

impl PartialEqSpecImpl for Multivector {
    open spec fn obeys_eq_spec() -> bool {
        true
    }

    open spec fn eq_spec(&self, other: &Multivector) -> bool {
        self@ == other@
    }
}

impl core::ops::Add for Multivector {
    type Output = Multivector;

    /// The sum, coefficient by coefficient.
    fn add(self, right: Multivector) -> (r: Multivector)
        ensures
            r@ == model::sum(self@, right@),
    {
        let r = fitted(&exact_sum(&self.comps, &right.comps));
        proof {
            Multivector::of_has_view(model::sum(self@, right@));
            r.same_view_is_equal(Multivector::of(model::sum(self@, right@)));
        }
        r
    }
}

impl AddSpecImpl for Multivector {
    open spec fn obeys_add_spec() -> bool {
        true
    }

    /// The sums must be 32-bit integers.
    open spec fn add_req(self, right: Multivector) -> bool {
        representable(model::sum(self@, right@))
    }

    open spec fn add_spec(self, right: Multivector) -> Multivector {
        Multivector::of(model::sum(self@, right@))
    }
}

impl core::ops::AddAssign for Multivector {
    /// Puts the sum of `self` and `right` in the place of `self`. The sums
    /// must be 32-bit integers.
    fn add_assign(&mut self, right: Multivector)
        requires
            representable(model::sum(old(self)@, right@)),
        ensures
            final(self)@ == model::sum(old(self)@, right@),
    {
        *self = *self + right;
    }
}

impl core::ops::Sub for Multivector {
    type Output = Multivector;

    /// The difference, coefficient by coefficient.
    fn sub(self, right: Multivector) -> (r: Multivector)
        ensures
            r@ == model::difference(self@, right@),
    {
        let r = fitted(&exact_difference(&self.comps, &right.comps));
        proof {
            Multivector::of_has_view(model::difference(self@, right@));
            r.same_view_is_equal(Multivector::of(model::difference(self@, right@)));
        }
        r
    }
}

impl SubSpecImpl for Multivector {
    open spec fn obeys_sub_spec() -> bool {
        true
    }

    /// The differences must be 32-bit integers.
    open spec fn sub_req(self, right: Multivector) -> bool {
        representable(model::difference(self@, right@))
    }

    open spec fn sub_spec(self, right: Multivector) -> Multivector {
        Multivector::of(model::difference(self@, right@))
    }
}

impl core::ops::Neg for Multivector {
    type Output = Multivector;

    /// Every coefficient with its sign changed.
    fn neg(self) -> (r: Multivector)
        ensures
            r@ == model::negation(self@),
    {
        let r = fitted(&exact_negation(&self.comps));
        proof {
            Multivector::of_has_view(model::negation(self@));
            r.same_view_is_equal(Multivector::of(model::negation(self@)));
        }
        r
    }
}

impl NegSpecImpl for Multivector {
    open spec fn obeys_neg_spec() -> bool {
        true
    }

    /// No coefficient may be the lowest 32-bit integer, which has no negative.
    open spec fn neg_req(self) -> bool {
        representable(model::negation(self@))
    }

    open spec fn neg_spec(self) -> Multivector {
        Multivector::of(model::negation(self@))
    }
}

impl core::ops::Mul for Multivector {
    type Output = Multivector;

    /// The geometric product, `self` on the left.
    fn mul(self, right: Multivector) -> (r: Multivector)
        ensures
            r@ == model::geometric_product(self@, right@),
    {
        let r = fitted(&exact_product(&self.comps, &right.comps, false));
        proof {
            Multivector::of_has_view(model::geometric_product(self@, right@));
            r.same_view_is_equal(Multivector::of(model::geometric_product(self@, right@)));
        }
        r
    }
}

impl MulSpecImpl for Multivector {
    open spec fn obeys_mul_spec() -> bool {
        true
    }

    /// The coefficients of the product must be 32-bit integers.
    open spec fn mul_req(self, right: Multivector) -> bool {
        representable(model::geometric_product(self@, right@))
    }

    open spec fn mul_spec(self, right: Multivector) -> Multivector {
        Multivector::of(model::geometric_product(self@, right@))
    }
}

impl core::ops::BitXor for Multivector {
    type Output = Multivector;

    /// The exterior product, `self` on the left.
    fn bitxor(self, right: Multivector) -> (r: Multivector)
        ensures
            r@ == model::exterior_product(self@, right@),
    {
        let r = fitted(&exact_product(&self.comps, &right.comps, true));
        proof {
            Multivector::of_has_view(model::exterior_product(self@, right@));
            r.same_view_is_equal(Multivector::of(model::exterior_product(self@, right@)));
        }
        r
    }
}

impl BitXorSpecImpl for Multivector {
    open spec fn obeys_bitxor_spec() -> bool {
        true
    }

    /// The coefficients of the product must be 32-bit integers.
    open spec fn bitxor_req(self, right: Multivector) -> bool {
        representable(model::exterior_product(self@, right@))
    }

    open spec fn bitxor_spec(self, right: Multivector) -> Multivector {
        Multivector::of(model::exterior_product(self@, right@))
    }
}

/// The multivector with the coefficients `exact`, which are 32-bit integers.
fn fitted(exact: &[i128; 8]) -> (r: Multivector)
    requires
        representable(wide_ints(exact@)),
    ensures
        r@ == wide_ints(exact@),
{
    let ghost m = wide_ints(exact@);
    assert(m[0] == exact[0] && m[1] == exact[1] && m[2] == exact[2] && m[3] == exact[3]);
    assert(m[4] == exact[4] && m[5] == exact[5] && m[6] == exact[6] && m[7] == exact[7]);
    let r = Multivector {
        comps: [
            exact[0] as i32,
            exact[1] as i32,
            exact[2] as i32,
            exact[3] as i32,
            exact[4] as i32,
            exact[5] as i32,
            exact[6] as i32,
            exact[7] as i32,
        ],
    };
    assert(r@ =~= m);
    r
}

/// Whether `x` is a 32-bit integer.
fn fits(x: i128) -> (r: bool)
    ensures
        r == (i32::MIN <= x <= i32::MAX),
{
    -0x8000_0000 <= x && x <= 0x7fff_ffff
}

/// The multivector with the coefficients `exact` where they are 32-bit
/// integers, and `None` where one of them is not.
fn narrow(exact: &[i128; 8]) -> (r: Option<Multivector>)
    ensures
        is_checked(r, wide_ints(exact@)),
{
    let ghost m = wide_ints(exact@);
    assert(m[0] == exact[0] && m[1] == exact[1] && m[2] == exact[2] && m[3] == exact[3]);
    assert(m[4] == exact[4] && m[5] == exact[5] && m[6] == exact[6] && m[7] == exact[7]);
    if fits(exact[0]) && fits(exact[1]) && fits(exact[2]) && fits(exact[3]) && fits(exact[4])
        && fits(exact[5]) && fits(exact[6]) && fits(exact[7]) {
        Some(fitted(exact))
    } else {
        None
    }
}

/// The product of `x` and `y`.
fn times(x: i32, y: i32) -> (p: i128)
    ensures
        p == x * y,
        -0x4000_0000_0000_0000 <= p <= 0x4000_0000_0000_0000,
{
    assert(-0x4000_0000_0000_0000 <= x * y <= 0x4000_0000_0000_0000) by (nonlinear_arith)
        requires
            -0x8000_0000 <= x <= 0x8000_0000,
            -0x8000_0000 <= y <= 0x8000_0000,
    ;
    (x as i128) * (y as i128)
}

/// The coefficients of the sum.
fn exact_sum(a: &[i32; 8], b: &[i32; 8]) -> (exact: [i128; 8])
    ensures
        wide_ints(exact@) == model::sum(ints(a@), ints(b@)),
{
    let exact = [
        a[0] as i128 + b[0] as i128,
        a[1] as i128 + b[1] as i128,
        a[2] as i128 + b[2] as i128,
        a[3] as i128 + b[3] as i128,
        a[4] as i128 + b[4] as i128,
        a[5] as i128 + b[5] as i128,
        a[6] as i128 + b[6] as i128,
        a[7] as i128 + b[7] as i128,
    ];
    assert(wide_ints(exact@) =~= model::sum(ints(a@), ints(b@)));
    exact
}

/// The coefficients of the difference.
fn exact_difference(a: &[i32; 8], b: &[i32; 8]) -> (exact: [i128; 8])
    ensures
        wide_ints(exact@) == model::difference(ints(a@), ints(b@)),
{
    let exact = [
        a[0] as i128 - b[0] as i128,
        a[1] as i128 - b[1] as i128,
        a[2] as i128 - b[2] as i128,
        a[3] as i128 - b[3] as i128,
        a[4] as i128 - b[4] as i128,
        a[5] as i128 - b[5] as i128,
        a[6] as i128 - b[6] as i128,
        a[7] as i128 - b[7] as i128,
    ];
    assert(wide_ints(exact@) =~= model::difference(ints(a@), ints(b@)));
    exact
}

/// The coefficients of the negative.
fn exact_negation(a: &[i32; 8]) -> (exact: [i128; 8])
    ensures
        wide_ints(exact@) == model::negation(ints(a@)),
{
    let exact = [
        -(a[0] as i128),
        -(a[1] as i128),
        -(a[2] as i128),
        -(a[3] as i128),
        -(a[4] as i128),
        -(a[5] as i128),
        -(a[6] as i128),
        -(a[7] as i128),
    ];
    assert(wide_ints(exact@) =~= model::negation(ints(a@)));
    exact
}

/// The coefficients of `a` scaled by `scalar`.
fn exact_scaling(a: &[i32; 8], scalar: i32) -> (exact: [i128; 8])
    ensures
        wide_ints(exact@) == model::scaling(ints(a@), scalar as int),
{
    let exact = [
        times(scalar, a[0]),
        times(scalar, a[1]),
        times(scalar, a[2]),
        times(scalar, a[3]),
        times(scalar, a[4]),
        times(scalar, a[5]),
        times(scalar, a[6]),
        times(scalar, a[7]),
    ];
    assert(wide_ints(exact@) =~= model::scaling(ints(a@), scalar as int));
    exact
}

/// The coefficient of `a` at the blade of `source`, with its sign.
fn taken(a: &[i32; 8], source: SignedBlade) -> (c: i128)
    requires
        source.index < BLADES,
    ensures
        c == if source.negative { -ints(a@)[source.index as int] } else { ints(a@)[source.index as int] },
{
    if source.negative {
        -(a[source.index] as i128)
    } else {
        a[source.index] as i128
    }
}

/// The coefficients of the orthogonal complement.
fn exact_complement(a: &[i32; 8]) -> (exact: [i128; 8])
    ensures
        wide_ints(exact@) == model::complement(ints(a@)),
{
    let exact = [
        taken(a, complement_term(0)),
        taken(a, complement_term(1)),
        taken(a, complement_term(2)),
        taken(a, complement_term(3)),
        taken(a, complement_term(4)),
        taken(a, complement_term(5)),
        taken(a, complement_term(6)),
        taken(a, complement_term(7)),
    ];
    assert(wide_ints(exact@) =~= model::complement(ints(a@)));
    exact
}

/// What `term` adds to a coefficient of the product of `a` and `b`.
fn term_total(a: &[i32; 8], b: &[i32; 8], term: Term, exterior_only: bool) -> (v: i128)
    requires
        term.left < BLADES,
        term.right < BLADES,
    ensures
        v == term_value(ints(a@), ints(b@), term, exterior_only),
        -0x4000_0000_0000_0000 <= v <= 0x4000_0000_0000_0000,
{
    if exterior_only && !term.exterior {
        0
    } else if term.negative {
        -times(a[term.left], b[term.right])
    } else {
        times(a[term.left], b[term.right])
    }
}

/// What the terms of row `k` add up to for `a` and `b`: all of them, or
/// only those of the exterior product where `exterior_only` holds.
fn row_total(a: &[i32; 8], b: &[i32; 8], k: usize, exterior_only: bool) -> (v: i128)
    requires
        k < BLADES,
    ensures
        v == row_value(ints(a@), ints(b@), product_row(k as int), exterior_only),
{
    let row = product_terms(k);
    term_total(a, b, row[0], exterior_only) + term_total(a, b, row[1], exterior_only)
        + term_total(a, b, row[2], exterior_only) + term_total(a, b, row[3], exterior_only)
        + term_total(a, b, row[4], exterior_only) + term_total(a, b, row[5], exterior_only)
        + term_total(a, b, row[6], exterior_only) + term_total(a, b, row[7], exterior_only)
}

/// The coefficients of the product of `a` and `b`: of the exterior product
/// where `exterior_only` holds, else of the geometric product.
fn exact_product(a: &[i32; 8], b: &[i32; 8], exterior_only: bool) -> (exact: [i128; 8])
    ensures
        !exterior_only ==> wide_ints(exact@) == model::geometric_product(ints(a@), ints(b@)),
        exterior_only ==> wide_ints(exact@) == model::exterior_product(ints(a@), ints(b@)),
{
    let exact = [
        row_total(a, b, 0, exterior_only),
        row_total(a, b, 1, exterior_only),
        row_total(a, b, 2, exterior_only),
        row_total(a, b, 3, exterior_only),
        row_total(a, b, 4, exterior_only),
        row_total(a, b, 5, exterior_only),
        row_total(a, b, 6, exterior_only),
        row_total(a, b, 7, exterior_only),
    ];
    proof {
        let (x, y) = (ints(a@), ints(b@));
        row_is_coefficient(x, y, 0);
        row_is_coefficient(x, y, 1);
        row_is_coefficient(x, y, 2);
        row_is_coefficient(x, y, 3);
        row_is_coefficient(x, y, 4);
        row_is_coefficient(x, y, 5);
        row_is_coefficient(x, y, 6);
        row_is_coefficient(x, y, 7);
        if exterior_only {
            assert(wide_ints(exact@) =~= model::exterior_product(x, y));
        } else {
            assert(wide_ints(exact@) =~= model::geometric_product(x, y));
        }
    }
    exact
}

/// The blade at `k` with the sign of `c`, which is the only coefficient of
/// its grade that is not zero: that part divided by its magnitude.
fn unit_blade(Ghost(part): Ghost<Seq<int>>, k: usize, c: i32) -> (u: Multivector)
    requires
        model::is_multivector(part),
        k < BLADES,
        c != 0,
        part[k as int] == c,
        forall|j: int| 0 <= j < 8 && j != k ==> #[trigger] part[j] == 0,
    ensures
        model::is_unit_of(u@, part),
{
    let one: i32 = if c > 0 { 1 } else { -1 };
    let mut comps = [0i32; 8];
    comps[k] = one;
    let u = Multivector { comps };
    proof {
        let n: int = if c > 0 { c as int } else { -c };
        assert forall|j: int| 0 <= j < 8 implies u@[j] == if j == k { one as int } else { 0int } by {
            assert(u@[j] == comps@[j]);
        }
        let x = u@[k as int];
        assert(x * x == 1 && n * x == c) by (nonlinear_arith)
            requires
                (x == 1 && n == c) || (x == -1 && n == -c),
        ;
        assert forall|j: int| 0 <= j < 8 && j != k implies #[trigger] u@[j] * u@[j] == 0 && n * u@[j]
            == 0 by {
            let z = u@[j];
            assert(z * z == 0 && n * z == 0) by (nonlinear_arith)
                requires
                    z == 0,
            ;
        }
        assert(model::square_sum(u@) == 1);
        assert(part =~= model::scaling(u@, n));
    }
    u
}

/// The three coefficients of `a` that begin at blade `first`, divided by
/// their magnitude, where the quotients are whole numbers.
fn unit_of_part(a: &[i32; 8], first: usize) -> (r: Option<Multivector>)
    requires
        first == 1 || first == 4,
    ensures
        is_unit_or_none(r, model::grade_part(ints(a@), grade_of(first as int))),
{
    let ghost part = model::grade_part(ints(a@), grade_of(first as int));
    let (x, y, z) = (a[first], a[first + 1], a[first + 2]);
    proof {
        assert(part[first as int] == x && part[first + 1] == y && part[first + 2] == z);
        assert forall|j: int| 0 <= j < 8 && !(first <= j <= first + 2) implies #[trigger] part[j]
            == 0 by {}
    }
    if x != 0 && y == 0 && z == 0 {
        Some(unit_blade(Ghost(part), first, x))
    } else if x == 0 && y != 0 && z == 0 {
        Some(unit_blade(Ghost(part), first + 1, y))
    } else if x == 0 && y == 0 && z != 0 {
        Some(unit_blade(Ghost(part), first + 2, z))
    } else {
        proof {
            assert forall|u: Seq<int>| !model::is_unit_of(u, part) by {
                if model::is_unit_of(u, part) {
                    unit_has_one_blade(u, part);
                }
            }
        }
        None
    }
}

} // verus!
