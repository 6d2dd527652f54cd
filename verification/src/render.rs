//! Writing a multivector as text.
//!
//! The text is a sum of signed terms, one for each coefficient that is not
//! zero, in the order of the blades. The first term carries a bare minus sign
//! where it is negative; every later term is joined by ` + ` or ` - `. A
//! magnitude of one is left out in front of a blade's label. The multivector
//! with no term at all is written `0`.
//!
//! The rules need to know of a coefficient only how it compares with zero and
//! one, and the digits of its magnitude. `Coefficient` holds just that, so that
//! the rules serve any kind of number whose digits the caller can write.

use vstd::prelude::*;
use vstd::string::StringExecFns;
use crate::blade::{has_x, has_y, has_z, BLADES};

verus! {

/// What the text of a term depends on.
pub enum Coefficient {
    /// Zero: the term is left out.
    Zero,
    /// Exactly one.
    One,
    /// Exactly minus one.
    MinusOne,
    /// Above zero and not one, with the digits of the number.
    Positive(String),
    /// Below zero and not minus one, with the digits of the number without its sign.
    Negative(String),
    /// Neither zero nor above nor below it, with the text that stands for the value.
    Unordered(String),
}

/// A `Coefficient` with its texts as sequences of characters.
pub ghost enum CoefficientModel {
    Zero,
    One,
    MinusOne,
    Positive(Seq<char>),
    Negative(Seq<char>),
    Unordered(Seq<char>),
}

impl View for Coefficient {
    type V = CoefficientModel;

    open spec fn view(&self) -> CoefficientModel {
        match self {
            Coefficient::Zero => CoefficientModel::Zero,
            Coefficient::One => CoefficientModel::One,
            Coefficient::MinusOne => CoefficientModel::MinusOne,
            Coefficient::Positive(m) => CoefficientModel::Positive(m@),
            Coefficient::Negative(m) => CoefficientModel::Negative(m@),
            Coefficient::Unordered(t) => CoefficientModel::Unordered(t@),
        }
    }
}

/// The label of blade `k`: the names of its basis vectors in the order x, y,
/// z, and nothing for the scalar.
pub open spec fn label(k: int) -> Seq<char> {
    (if has_x(k) { "e_x"@ } else { Seq::empty() })
    + (if has_y(k) { "e_y"@ } else { Seq::empty() })
    + (if has_z(k) { "e_z"@ } else { Seq::empty() })
}

/// The digit `d` as a character.
pub open spec fn digit(d: int) -> char {
    if d == 0 { '0' }
    else if d == 1 { '1' }
    else if d == 2 { '2' }
    else if d == 3 { '3' }
    else if d == 4 { '4' }
    else if d == 5 { '5' }
    else if d == 6 { '6' }
    else if d == 7 { '7' }
    else if d == 8 { '8' }
    else { '9' }
}

/// The decimal digits of `n`, highest first, without leading zeros.
pub open spec fn decimal(n: nat) -> Seq<char>
    decreases n,
{
    if n < 10 {
        seq![digit(n as int)]
    } else {
        decimal(n / 10) + seq![digit((n % 10) as int)]
    }
}

/// How a whole number is described to the rules.
pub open spec fn integer_coefficient(c: int) -> CoefficientModel {
    if c == 0 {
        CoefficientModel::Zero
    } else if c == 1 {
        CoefficientModel::One
    } else if c == -1 {
        CoefficientModel::MinusOne
    } else if c > 0 {
        CoefficientModel::Positive(decimal(c as nat))
    } else {
        CoefficientModel::Negative(decimal((-c) as nat))
    }
}

/// How the eight coefficients `m` are described to the rules.
pub open spec fn integer_coefficients(m: Seq<int>) -> Seq<CoefficientModel> {
    Seq::new(8, |k: int| integer_coefficient(m[k]))
}

/// What stands in front of a term in place of a plus sign.
pub open spec fn plus(first: bool) -> Seq<char> {
    if first { Seq::empty() } else { " + "@ }
}

/// What stands in front of a term in place of a minus sign.
pub open spec fn minus(first: bool) -> Seq<char> {
    if first { "-"@ } else { " - "@ }
}

/// What stands for a magnitude of one in front of the label of blade `k`:
/// nothing, but for the scalar, which has no label.
pub open spec fn one(k: int) -> Seq<char> {
    if k == 0 { "1"@ } else { Seq::empty() }
}

/// The text of the term of blade `k` with coefficient `c`. `first` says that no
/// term stands before it. A value that is neither zero nor above nor below it
/// has no sign to join it by: it is written only as the first term.
pub open spec fn term_text(c: CoefficientModel, k: int, first: bool) -> Seq<char> {
    match c {
        CoefficientModel::Zero => Seq::empty(),
        CoefficientModel::One => plus(first) + one(k) + label(k),
        CoefficientModel::MinusOne => minus(first) + one(k) + label(k),
        CoefficientModel::Positive(m) => plus(first) + m + label(k),
        CoefficientModel::Negative(m) => minus(first) + m + label(k),
        CoefficientModel::Unordered(t) => if first { t + label(k) } else { Seq::empty() },
    }
}

/// Whether the first `n` coefficients are all zero, so that no term has been
/// written before blade `n`.
pub open spec fn nothing_before(cs: Seq<CoefficientModel>, n: int) -> bool {
    forall|j: int| 0 <= j < n ==> cs[j] is Zero
}

/// The text of the terms of the first `n` blades.
pub open spec fn terms_text(cs: Seq<CoefficientModel>, n: int) -> Seq<char>
    decreases n,
{
    if n <= 0 {
        Seq::empty()
    } else {
        terms_text(cs, n - 1) + term_text(cs[n - 1], n - 1, nothing_before(cs, n - 1))
    }
}

/// The text of the multivector with the eight coefficients `cs`.
pub open spec fn rendered(cs: Seq<CoefficientModel>) -> Seq<char> {
    if nothing_before(cs, 8) {
        "0"@
    } else {
        terms_text(cs, 8)
    }
}

/// The descriptions of eight coefficients as a sequence.
pub open spec fn models(coefficients: [Coefficient; 8]) -> Seq<CoefficientModel> {
    Seq::new(8, |k: int| coefficients[k]@)
}

/// The label of blade `k`.
pub fn blade_label(k: usize) -> (text: &'static str)
    requires
        k < BLADES,
    ensures
        text@ == label(k as int),
{
    proof {
        reveal_strlit("e_x");
        reveal_strlit("e_y");
        reveal_strlit("e_z");
    }
    if k == 0 {
        proof {
            reveal_strlit("");
        }
        assert(""@ =~= label(0));
        ""
    } else if k == 1 {
        assert("e_x"@ =~= label(1));
        "e_x"
    } else if k == 2 {
        assert("e_y"@ =~= label(2));
        "e_y"
    } else if k == 3 {
        assert("e_z"@ =~= label(3));
        "e_z"
    } else if k == 4 {
        proof {
            reveal_strlit("e_xe_y");
        }
        assert("e_xe_y"@ =~= label(4));
        "e_xe_y"
    } else if k == 5 {
        proof {
            reveal_strlit("e_xe_z");
        }
        assert("e_xe_z"@ =~= label(5));
        "e_xe_z"
    } else if k == 6 {
        proof {
            reveal_strlit("e_ye_z");
        }
        assert("e_ye_z"@ =~= label(6));
        "e_ye_z"
    } else {
        proof {
            reveal_strlit("e_xe_ye_z");
        }
        assert("e_xe_ye_z"@ =~= label(7));
        "e_xe_ye_z"
    }
}

/// The digit `d` as text.
fn digit_text(d: u32) -> (text: &'static str)
    requires
        d < 10,
    ensures
        text@ == seq![digit(d as int)],
{
    let text = if d == 0 { "0" }
        else if d == 1 { "1" }
        else if d == 2 { "2" }
        else if d == 3 { "3" }
        else if d == 4 { "4" }
        else if d == 5 { "5" }
        else if d == 6 { "6" }
        else if d == 7 { "7" }
        else if d == 8 { "8" }
        else { "9" };
    proof {
        reveal_strlit("0");
        reveal_strlit("1");
        reveal_strlit("2");
        reveal_strlit("3");
        reveal_strlit("4");
        reveal_strlit("5");
        reveal_strlit("6");
        reveal_strlit("7");
        reveal_strlit("8");
        reveal_strlit("9");
        assert(text@ =~= seq![digit(d as int)]);
    }
    text
}

/// Writes the decimal digits of `n` behind `out`.
fn push_decimal(out: &mut String, n: u32)
    ensures
        final(out)@ == old(out)@ + decimal(n as nat),
    decreases n,
{
    if n >= 10 {
        push_decimal(out, n / 10);
    }
    out.append(digit_text(n % 10));
    proof {
        assert(final(out)@ =~= old(out)@ + decimal(n as nat));
    }
}

/// The decimal digits of `n`.
pub fn decimal_text(n: u32) -> (text: String)
    ensures
        text@ == decimal(n as nat),
{
    let mut text = String::new();
    push_decimal(&mut text, n);
    assert(text@ =~= decimal(n as nat));
    text
}

impl Coefficient {
    /// Describes the whole number `c`.
    pub fn of_integer(c: i32) -> (r: Coefficient)
        ensures
            r@ == integer_coefficient(c as int),
    {
        if c == 0 {
            Coefficient::Zero
        } else if c == 1 {
            Coefficient::One
        } else if c == -1 {
            Coefficient::MinusOne
        } else if c > 0 {
            Coefficient::Positive(decimal_text(c as u32))
        } else {
            Coefficient::Negative(decimal_text((-(c as i64)) as u32))
        }
    }
}

/// Writes the multivector whose eight coefficients are described by
/// `coefficients`, in the order of the blades.
pub fn render(coefficients: &[Coefficient; 8]) -> (text: String)
    ensures
        text@ == rendered(models(*coefficients)),
{
    let ghost cs = models(*coefficients);
    let mut text = String::new();
    let mut first = true;
    let mut k: usize = 0;
    while k < 8
        invariant
            k <= 8,
            cs == models(*coefficients),
            first == nothing_before(cs, k as int),
            text@ == terms_text(cs, k as int),
        decreases 8 - k,
    {
        let ghost before = text@;
        assert(cs[k as int] == coefficients[k as int]@);
        proof {
            reveal_strlit(" + ");
            reveal_strlit(" - ");
            reveal_strlit("-");
            reveal_strlit("1");
        }
        match &coefficients[k] {
            Coefficient::Zero => {},
            Coefficient::One => {
                if !first {
                    text.append(" + ");
                }
                if k == 0 {
                    text.append("1");
                }
                text.append(blade_label(k));
                first = false;
            },
            Coefficient::MinusOne => {
                if first {
                    text.append("-");
                } else {
                    text.append(" - ");
                }
                if k == 0 {
                    text.append("1");
                }
                text.append(blade_label(k));
                first = false;
            },
            Coefficient::Positive(m) => {
                if !first {
                    text.append(" + ");
                }
                text.append(m.as_str());
                text.append(blade_label(k));
                first = false;
            },
            Coefficient::Negative(m) => {
                if first {
                    text.append("-");
                } else {
                    text.append(" - ");
                }
                text.append(m.as_str());
                text.append(blade_label(k));
                first = false;
            },
            Coefficient::Unordered(t) => {
                if first {
                    text.append(t.as_str());
                    text.append(blade_label(k));
                    first = false;
                }
            },
        }
        proof {
            assert(text@ =~= before + term_text(cs[k as int], k as int, nothing_before(cs, k as int)));
        }
        k += 1;
    }
    if first {
        String::from_str("0")
    } else {
        text
    }
}

} // verus!
