//! The field-element boundary: the base field and its degree-3 extension are
//! consumed from the `twenty_first` crate. Verified code sees both element
//! types as opaque values and reasons about them through named results of the
//! deterministic field operations.

use vstd::prelude::*;

use rand::RngExt;
use rand::distr::StandardUniform;
use rayon::iter::IntoParallelRefIterator;
use rayon::iter::ParallelIterator;
use twenty_first::math::b_field_element::BFieldElement;
use twenty_first::math::polynomial::Polynomial;
use twenty_first::math::traits::FiniteField;
use twenty_first::math::traits::ModPowU32;
use twenty_first::math::x_field_element::XFieldElement;

verus! {

#[verifier::external_type_specification]
#[verifier::external_body]
pub struct ExBFieldElement(BFieldElement);

#[verifier::external_type_specification]
#[verifier::external_body]
pub struct ExXFieldElement(XFieldElement);

/// A univariate base-field polynomial, carried opaquely: Verus refuses the
/// declaration of `twenty_first`'s lifetime- and trait-bounded `Polynomial`
/// type, so the value lives in a hidden field instead.
#[verifier::external_body]
pub struct BfePolynomial {
    inner: Polynomial<'static, BFieldElement>,
}

/// A univariate extension-field polynomial, carried opaquely like
/// [`BfePolynomial`].
#[verifier::external_body]
pub struct XfePolynomial {
    inner: Polynomial<'static, XFieldElement>,
}

/// The base-field element that `BFieldElement::new` returns for a small
/// canonical representative.
pub uninterp spec fn bfe_from_nat(n: nat) -> BFieldElement;

/// The extension-field element that `XFieldElement::from` returns for a small
/// canonical representative.
pub uninterp spec fn xfe_from_nat(n: nat) -> XFieldElement;

/// The result of `BFieldElement::mod_pow_u32`.
pub uninterp spec fn bfe_pow_of(base: BFieldElement, e: nat) -> BFieldElement;

/// The result of `XFieldElement::mod_pow_u32`.
pub uninterp spec fn xfe_pow_of(base: XFieldElement, e: nat) -> XFieldElement;

/// The result of `XFieldElement::sub`.
pub uninterp spec fn xfe_sub_of(a: XFieldElement, b: XFieldElement) -> XFieldElement;

/// The result of `XFieldElement::mul`.
pub uninterp spec fn xfe_mul_of(a: XFieldElement, b: XFieldElement) -> XFieldElement;

/// The result of `XFieldElement::inverse`.
pub uninterp spec fn xfe_inverse_of(x: XFieldElement) -> XFieldElement;

/// The coefficient decomposition of an extension-field element into its three
/// base-field coefficients, as stored in `XFieldElement::coefficients`.
pub uninterp spec fn xfe_coeffs_of(x: XFieldElement) -> Seq<BFieldElement>;

/// The degree that `Polynomial::degree` reports for a base-field polynomial
/// (`-1` for the zero polynomial).
pub uninterp spec fn bfe_poly_degree(p: BfePolynomial) -> int;

/// The degree that `Polynomial::degree` reports for an extension-field
/// polynomial (`-1` for the zero polynomial).
pub uninterp spec fn xfe_poly_degree(p: XfePolynomial) -> int;

/// The value that `Polynomial::evaluate_in_same_field` returns for a
/// base-field polynomial at a point.
pub uninterp spec fn bfe_poly_eval_of(p: BfePolynomial, x: BFieldElement) -> BFieldElement;

/// The value that `Polynomial::evaluate_in_same_field` returns for an
/// extension-field polynomial at a point.
pub uninterp spec fn xfe_poly_eval_of(p: XfePolynomial, x: XFieldElement) -> XFieldElement;

/// The `j`-th point of the evaluation coset that
/// `Polynomial::fast_coset_evaluate` uses for a base-field offset and order:
/// a deterministic function of the offset, the order and the position.
pub uninterp spec fn bfe_coset_point_of(offset: BFieldElement, order: nat, j: nat) -> BFieldElement;

/// The `j`-th point of the evaluation coset that
/// `Polynomial::fast_coset_evaluate` uses for an extension-field offset and
/// order.
pub uninterp spec fn xfe_coset_point_of(offset: XFieldElement, order: nat, j: nat) -> XFieldElement;

/// Relies on `BFieldElement::new`: a value below 2^32 is canonical (the field
/// has more than 2^32 elements), so distinct small representatives give
/// distinct field elements.
#[verifier::external_body]
pub(crate) fn bfe_from_u32(n: u32) -> (r: BFieldElement)
    ensures
        r == bfe_from_nat(n as nat),
        forall|m: nat| m < 4294967296 && m != n as nat ==> r != bfe_from_nat(m),
{
    BFieldElement::new(n as u64)
}

/// Relies on `XFieldElement::from`: the constant polynomial with the given
/// canonical representative as degree-0 coefficient; distinct small
/// representatives give distinct elements.
#[verifier::external_body]
pub(crate) fn xfe_from_u32(n: u32) -> (r: XFieldElement)
    ensures
        r == xfe_from_nat(n as nat),
        forall|m: nat| m < 4294967296 && m != n as nat ==> r != xfe_from_nat(m),
{
    XFieldElement::from(BFieldElement::new(n as u64))
}

/// Relies on `BFieldElement::eq`: elements are stored in a canonical-per-value
/// form, so derived equality decides equality of field elements.
#[verifier::external_body]
pub(crate) fn bfe_eq(a: &BFieldElement, b: &BFieldElement) -> (r: bool)
    ensures
        r == (*a == *b),
{
    *a == *b
}

/// Relies on `XFieldElement::eq`: componentwise equality of the coefficient
/// arrays decides equality of extension-field elements.
#[verifier::external_body]
pub(crate) fn xfe_eq(a: &XFieldElement, b: &XFieldElement) -> (r: bool)
    ensures
        r == (*a == *b),
{
    *a == *b
}

/// Relies on `BFieldElement::mod_pow_u32`: deterministic modular
/// exponentiation.
#[verifier::external_body]
pub(crate) fn bfe_mod_pow_u32(base: &BFieldElement, exp: u32) -> (r: BFieldElement)
    ensures
        r == bfe_pow_of(*base, exp as nat),
{
    ModPowU32::mod_pow_u32(base, exp)
}

/// Relies on `XFieldElement::mod_pow_u32`: deterministic modular
/// exponentiation.
#[verifier::external_body]
pub(crate) fn xfe_mod_pow_u32(base: &XFieldElement, exp: u32) -> (r: XFieldElement)
    ensures
        r == xfe_pow_of(*base, exp as nat),
{
    ModPowU32::mod_pow_u32(base, exp)
}

/// Relies on `XFieldElement::sub`.
#[verifier::external_body]
pub(crate) fn xfe_sub(a: XFieldElement, b: XFieldElement) -> (r: XFieldElement)
    ensures
        r == xfe_sub_of(a, b),
{
    a - b
}

/// Relies on `XFieldElement::mul`.
#[verifier::external_body]
pub(crate) fn xfe_mul(a: XFieldElement, b: XFieldElement) -> (r: XFieldElement)
    ensures
        r == xfe_mul_of(a, b),
{
    a * b
}

/// Relies on `XFieldElement::batch_inversion` (a Montgomery batch inversion):
/// the result holds the multiplicative inverse of each input element, in
/// order. The callee asserts that no input element is zero.
#[verifier::external_body]
pub(crate) fn xfe_batch_inversion(input: Vec<XFieldElement>) -> (r: Vec<XFieldElement>)
    requires
        forall|i: int| 0 <= i < input@.len() ==> input@[i] != xfe_from_nat(0),
    ensures
        r@.len() == input@.len(),
        forall|i: int| 0 <= i < r@.len() ==> r@[i] == xfe_inverse_of(input@[i]),
{
    XFieldElement::batch_inversion(input)
}

/// Relies on the public `coefficients` field of `XFieldElement`: an array of
/// exactly three base-field coefficients.
#[verifier::external_body]
pub(crate) fn xfe_coefficients(x: &XFieldElement) -> (r: Vec<BFieldElement>)
    ensures
        r@ == xfe_coeffs_of(*x),
        r@.len() == 3,
{
    x.coefficients.to_vec()
}

/// Relies on `Polynomial::new` with no coefficients: the zero polynomial,
/// whose reported degree is `-1` and whose value is zero at every point.
#[verifier::external_body]
pub(crate) fn bfe_zero_polynomial() -> (r: BfePolynomial)
    ensures
        bfe_poly_degree(r) == -1,
        forall|x: BFieldElement| #[trigger] bfe_poly_eval_of(r, x) == bfe_from_nat(0),
{
    BfePolynomial { inner: Polynomial::new(Vec::new()) }
}

/// Relies on `Polynomial::new` with no coefficients: the zero polynomial,
/// whose reported degree is `-1` and whose value is zero at every point.
#[verifier::external_body]
pub(crate) fn xfe_zero_polynomial() -> (r: XfePolynomial)
    ensures
        xfe_poly_degree(r) == -1,
        forall|x: XFieldElement| #[trigger] xfe_poly_eval_of(r, x) == xfe_from_nat(0),
{
    XfePolynomial { inner: Polynomial::new(Vec::new()) }
}

/// Relies on `rand::rng` and the `StandardUniform` distribution that
/// `twenty_first` implements for `BFieldElement`: `n` uniformly drawn
/// elements. The result depends on the thread-local generator, so nothing is
/// claimed beyond the count.
#[verifier::external_body]
pub(crate) fn bfe_random_elements(n: usize) -> (r: Vec<BFieldElement>)
    ensures
        r@.len() == n as nat,
{
    rand::rng().sample_iter(StandardUniform).take(n).collect()
}

/// Relies on `rand::rng` and the `StandardUniform` distribution that
/// `twenty_first` implements for `XFieldElement`: `n` uniformly drawn
/// elements. The result depends on the thread-local generator, so nothing is
/// claimed beyond the count.
#[verifier::external_body]
pub(crate) fn xfe_random_elements(n: usize) -> (r: Vec<XFieldElement>)
    ensures
        r@.len() == n as nat,
{
    rand::rng().sample_iter(StandardUniform).take(n).collect()
}

/// Relies on `Polynomial::interpolate` ("the lowest-degree polynomial
/// interpolating the given points", so its degree is below the point count;
/// the callee panics on an empty domain, on a length mismatch, and on a
/// repeated domain point), mapped over the columns with `rayon`'s parallel
/// iterator.
#[verifier::external_body]
pub(crate) fn bfe_interpolate_columns(
    domain: &Vec<BFieldElement>,
    traces: &Vec<Vec<BFieldElement>>,
) -> (r: Vec<BfePolynomial>)
    requires
        domain@.len() > 0,
        forall|i: int, j: int| 0 <= i < j < domain@.len() ==> domain@[i] != domain@[j],
        forall|i: int| 0 <= i < traces@.len() ==> #[trigger] traces@[i]@.len() == domain@.len(),
    ensures
        r@.len() == traces@.len(),
        forall|i: int| 0 <= i < r@.len() ==> #[trigger] bfe_poly_degree(r@[i]) < domain@.len(),
        forall|i: int, j: int|
            0 <= i < r@.len() && 0 <= j < domain@.len() ==> #[trigger] bfe_poly_eval_of(
                r@[i],
                domain@[j],
            ) == traces@[i]@[j],
{
    traces.par_iter().map(|t| BfePolynomial { inner: Polynomial::interpolate(domain, t) }).collect()
}

/// Relies on `Polynomial::interpolate` over the extension field, exactly as
/// the base-field version, mapped in parallel with `rayon`.
#[verifier::external_body]
pub(crate) fn xfe_interpolate_columns(
    domain: &Vec<XFieldElement>,
    traces: &Vec<Vec<XFieldElement>>,
) -> (r: Vec<XfePolynomial>)
    requires
        domain@.len() > 0,
        forall|i: int, j: int| 0 <= i < j < domain@.len() ==> domain@[i] != domain@[j],
        forall|i: int| 0 <= i < traces@.len() ==> #[trigger] traces@[i]@.len() == domain@.len(),
    ensures
        r@.len() == traces@.len(),
        forall|i: int| 0 <= i < r@.len() ==> #[trigger] xfe_poly_degree(r@[i]) < domain@.len(),
        forall|i: int, j: int|
            0 <= i < r@.len() && 0 <= j < domain@.len() ==> #[trigger] xfe_poly_eval_of(
                r@[i],
                domain@[j],
            ) == traces@[i]@[j],
{
    traces.par_iter().map(|t| XfePolynomial { inner: Polynomial::interpolate(domain, t) }).collect()
}

/// Relies on `Polynomial::fast_coset_evaluate` (one codeword of exactly
/// `order` values per polynomial; the callee asserts `order` to be a power of
/// two no larger than `u32::MAX` and above the polynomial's degree), mapped in
/// parallel with `rayon`.
#[verifier::external_body]
pub(crate) fn bfe_coset_evaluate_columns(
    polys: &Vec<BfePolynomial>,
    offset: BFieldElement,
    order: usize,
) -> (r: Vec<Vec<BFieldElement>>)
    requires
        order == 0 || is_pow2(order as nat),
        order <= u32::MAX,
        forall|i: int| 0 <= i < polys@.len() ==> #[trigger] bfe_poly_degree(polys@[i]) < order as int,
    ensures
        r@.len() == polys@.len(),
        forall|i: int| 0 <= i < r@.len() ==> #[trigger] r@[i]@.len() == order as nat,
        forall|i: int, j: int|
            0 <= i < r@.len() && 0 <= j < order ==> (#[trigger] r@[i]@[j]) == bfe_poly_eval_of(
                polys@[i],
                bfe_coset_point_of(offset, order as nat, j as nat),
            ),
{
    polys.par_iter().map(|p| p.inner.fast_coset_evaluate(offset, order)).collect()
}

/// Relies on `Polynomial::fast_coset_evaluate` over the extension field,
/// exactly as the base-field version, mapped in parallel with `rayon`.
#[verifier::external_body]
pub(crate) fn xfe_coset_evaluate_columns(
    polys: &Vec<XfePolynomial>,
    offset: XFieldElement,
    order: usize,
) -> (r: Vec<Vec<XFieldElement>>)
    requires
        order == 0 || is_pow2(order as nat),
        order <= u32::MAX,
        forall|i: int| 0 <= i < polys@.len() ==> #[trigger] xfe_poly_degree(polys@[i]) < order as int,
    ensures
        r@.len() == polys@.len(),
        forall|i: int| 0 <= i < r@.len() ==> #[trigger] r@[i]@.len() == order as nat,
        forall|i: int, j: int|
            0 <= i < r@.len() && 0 <= j < order ==> (#[trigger] r@[i]@[j]) == xfe_poly_eval_of(
                polys@[i],
                xfe_coset_point_of(offset, order as nat, j as nat),
            ),
{
    polys.par_iter().map(|p| p.inner.fast_coset_evaluate(offset, order)).collect()
}

/// Whether `n` is a power of two.
pub open spec fn is_pow2(n: nat) -> bool
    decreases n,
{
    if n == 0 {
        false
    } else if n == 1 {
        true
    } else {
        n % 2 == 0 && is_pow2(n / 2)
    }
}

/// The shared capability of the two field-element types: ring arithmetic,
/// sampling, and interpolation/evaluation of column polynomials. Table and
/// low-degree-extension code is generic over this capability instead of being
/// written once per field.
pub trait FieldElem: Sized + Copy {
    /// The column interpolant produced by `interpolate_columns`.
    type Interpolant;

    /// The element a small canonical representative maps to.
    spec fn from_spec(n: nat) -> Self;

    /// The result of raising an element to a power.
    spec fn pow_spec(self, e: nat) -> Self;

    /// The degree of a column interpolant (`-1` for the zero polynomial).
    spec fn interpolant_degree_spec(p: &Self::Interpolant) -> int;

    /// The value of a column interpolant at a point.
    spec fn interpolant_eval_spec(p: &Self::Interpolant, x: Self) -> Self;

    /// The `j`-th point of the evaluation coset for a given offset and order.
    spec fn coset_point_spec(offset: Self, order: nat, j: nat) -> Self;

    /// The zero polynomial as a column interpolant.
    fn zero_interpolant() -> (r: Self::Interpolant)
        ensures
            Self::interpolant_degree_spec(&r) == -1,
            forall|x: Self| #[trigger] Self::interpolant_eval_spec(&r, x) == Self::from_spec(0),
    ;

    /// Embed a small representative into the field. Distinct representatives
    /// below 2^32 give distinct elements.
    fn from_u32(n: u32) -> (r: Self)
        ensures
            r == Self::from_spec(n as nat),
            forall|m: nat| m < 4294967296 && m != n as nat ==> r != Self::from_spec(m),
    ;

    /// Decide equality of two elements.
    fn eq_el(&self, other: &Self) -> (r: bool)
        ensures
            r == (*self == *other),
    ;

    /// Modular exponentiation.
    fn mod_pow_u32(&self, exp: u32) -> (r: Self)
        ensures
            r == self.pow_spec(exp as nat),
    ;

    /// Draw `n` elements uniformly at random.
    fn random_elements(n: usize) -> (r: Vec<Self>)
        ensures
            r@.len() == n as nat,
    ;

    /// Interpolate one polynomial per trace column through the given domain.
    fn interpolate_columns(domain: &Vec<Self>, traces: &Vec<Vec<Self>>) -> (r: Vec<
        Self::Interpolant,
    >)
        requires
            domain@.len() > 0,
            forall|i: int, j: int| 0 <= i < j < domain@.len() ==> domain@[i] != domain@[j],
            forall|i: int| 0 <= i < traces@.len() ==> #[trigger] traces@[i]@.len()
                == domain@.len(),
        ensures
            r@.len() == traces@.len(),
            forall|i: int|
                0 <= i < r@.len() ==> #[trigger] Self::interpolant_degree_spec(&r@[i])
                    < domain@.len(),
            forall|i: int, j: int|
                0 <= i < r@.len() && 0 <= j < domain@.len()
                    ==> #[trigger] Self::interpolant_eval_spec(&r@[i], domain@[j])
                    == traces@[i]@[j],
    ;

    /// Evaluate each polynomial over the coset of the given order and offset.
    fn coset_evaluate_columns(polys: &Vec<Self::Interpolant>, offset: Self, order: usize) -> (r:
        Vec<Vec<Self>>)
        requires
            order == 0 || is_pow2(order as nat),
            order <= u32::MAX,
            forall|i: int|
                0 <= i < polys@.len() ==> #[trigger] Self::interpolant_degree_spec(&polys@[i])
                    < order as int,
        ensures
            r@.len() == polys@.len(),
            forall|i: int| 0 <= i < r@.len() ==> #[trigger] r@[i]@.len() == order as nat,
            forall|i: int, j: int|
                0 <= i < r@.len() && 0 <= j < order ==> (#[trigger] r@[i]@[j])
                    == Self::interpolant_eval_spec(
                    &polys@[i],
                    Self::coset_point_spec(offset, order as nat, j as nat),
                ),
    ;
}

impl FieldElem for BFieldElement {
    type Interpolant = BfePolynomial;

    open spec fn from_spec(n: nat) -> Self {
        bfe_from_nat(n)
    }

    open spec fn pow_spec(self, e: nat) -> Self {
        bfe_pow_of(self, e)
    }

    open spec fn interpolant_degree_spec(p: &Self::Interpolant) -> int {
        bfe_poly_degree(*p)
    }

    open spec fn interpolant_eval_spec(p: &Self::Interpolant, x: Self) -> Self {
        bfe_poly_eval_of(*p, x)
    }

    open spec fn coset_point_spec(offset: Self, order: nat, j: nat) -> Self {
        bfe_coset_point_of(offset, order, j)
    }

    fn zero_interpolant() -> Self::Interpolant {
        let r = bfe_zero_polynomial();
        proof {
            assert forall|x: Self| #[trigger] Self::interpolant_eval_spec(&r, x) == Self::from_spec(
                0,
            ) by {
                assert(bfe_poly_eval_of(r, x) == bfe_from_nat(0));
            }
        }
        r
    }

    fn from_u32(n: u32) -> Self {
        bfe_from_u32(n)
    }

    fn eq_el(&self, other: &Self) -> bool {
        bfe_eq(self, other)
    }

    fn mod_pow_u32(&self, exp: u32) -> Self {
        bfe_mod_pow_u32(self, exp)
    }

    fn random_elements(n: usize) -> Vec<Self> {
        bfe_random_elements(n)
    }

    fn interpolate_columns(domain: &Vec<Self>, traces: &Vec<Vec<Self>>) -> Vec<Self::Interpolant> {
        let r = bfe_interpolate_columns(domain, traces);
        proof {
            assert forall|i: int, j: int|
                0 <= i < r@.len() && 0 <= j < domain@.len() implies #[trigger] Self::interpolant_eval_spec(
                &r@[i],
                domain@[j],
            ) == traces@[i]@[j] by {
                assert(bfe_poly_eval_of(r@[i], domain@[j]) == traces@[i]@[j]);
            }
        }
        r
    }

    fn coset_evaluate_columns(polys: &Vec<Self::Interpolant>, offset: Self, order: usize) -> Vec<
        Vec<Self>,
    > {
        proof {
            assert forall|i: int|
                0 <= i < polys@.len() implies #[trigger] bfe_poly_degree(polys@[i])
                < order as int by {
                assert(Self::interpolant_degree_spec(&polys@[i]) < order as int);
            }
        }
        let r = bfe_coset_evaluate_columns(polys, offset, order);
        proof {
            assert forall|i: int, j: int|
                0 <= i < r@.len() && 0 <= j < order implies (#[trigger] r@[i]@[j])
                == Self::interpolant_eval_spec(
                &polys@[i],
                Self::coset_point_spec(offset, order as nat, j as nat),
            ) by {
                assert(r@[i]@[j] == bfe_poly_eval_of(
                    polys@[i],
                    bfe_coset_point_of(offset, order as nat, j as nat),
                ));
            }
        }
        r
    }
}

impl FieldElem for XFieldElement {
    type Interpolant = XfePolynomial;

    open spec fn from_spec(n: nat) -> Self {
        xfe_from_nat(n)
    }

    open spec fn pow_spec(self, e: nat) -> Self {
        xfe_pow_of(self, e)
    }

    open spec fn interpolant_degree_spec(p: &Self::Interpolant) -> int {
        xfe_poly_degree(*p)
    }

    open spec fn interpolant_eval_spec(p: &Self::Interpolant, x: Self) -> Self {
        xfe_poly_eval_of(*p, x)
    }

    open spec fn coset_point_spec(offset: Self, order: nat, j: nat) -> Self {
        xfe_coset_point_of(offset, order, j)
    }

    fn zero_interpolant() -> Self::Interpolant {
        let r = xfe_zero_polynomial();
        proof {
            assert forall|x: Self| #[trigger] Self::interpolant_eval_spec(&r, x) == Self::from_spec(
                0,
            ) by {
                assert(xfe_poly_eval_of(r, x) == xfe_from_nat(0));
            }
        }
        r
    }

    fn from_u32(n: u32) -> Self {
        xfe_from_u32(n)
    }

    fn eq_el(&self, other: &Self) -> bool {
        xfe_eq(self, other)
    }

    fn mod_pow_u32(&self, exp: u32) -> Self {
        xfe_mod_pow_u32(self, exp)
    }

    fn random_elements(n: usize) -> Vec<Self> {
        xfe_random_elements(n)
    }

    fn interpolate_columns(domain: &Vec<Self>, traces: &Vec<Vec<Self>>) -> Vec<Self::Interpolant> {
        let r = xfe_interpolate_columns(domain, traces);
        proof {
            assert forall|i: int, j: int|
                0 <= i < r@.len() && 0 <= j < domain@.len() implies #[trigger] Self::interpolant_eval_spec(
                &r@[i],
                domain@[j],
            ) == traces@[i]@[j] by {
                assert(xfe_poly_eval_of(r@[i], domain@[j]) == traces@[i]@[j]);
            }
        }
        r
    }

    fn coset_evaluate_columns(polys: &Vec<Self::Interpolant>, offset: Self, order: usize) -> Vec<
        Vec<Self>,
    > {
        proof {
            assert forall|i: int|
                0 <= i < polys@.len() implies #[trigger] xfe_poly_degree(polys@[i])
                < order as int by {
                assert(Self::interpolant_degree_spec(&polys@[i]) < order as int);
            }
        }
        let r = xfe_coset_evaluate_columns(polys, offset, order);
        proof {
            assert forall|i: int, j: int|
                0 <= i < r@.len() && 0 <= j < order implies (#[trigger] r@[i]@[j])
                == Self::interpolant_eval_spec(
                &polys@[i],
                Self::coset_point_spec(offset, order as nat, j as nat),
            ) by {
                assert(r@[i]@[j] == xfe_poly_eval_of(
                    polys@[i],
                    xfe_coset_point_of(offset, order as nat, j as nat),
                ));
            }
        }
        r
    }
}

} // verus!
