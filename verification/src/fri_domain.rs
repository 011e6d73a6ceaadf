//! The evaluation domain over which codewords are computed: the coset
//! `offset * omega^i` for `i` below the domain length. Codewords produced over
//! this domain are what the surrounding protocol commits to and low-degree
//! tests.

use vstd::prelude::*;

use twenty_first::math::x_field_element::XFieldElement;

use crate::field::FieldElem;
use crate::field::is_pow2;
use crate::field::xfe_mod_pow_u32;
use crate::field::xfe_mul;
use crate::field::xfe_mul_of;
use crate::field::xfe_pow_of;

verus! {

/// An ordered evaluation domain with a generator `omega` and a coset shift
/// `offset`.
pub struct FriDomain<F: FieldElem> {
    pub offset: F,
    pub omega: F,
    pub length: usize,
}

impl<F: FieldElem> FriDomain<F> {
    /// Whether full-length codewords can be produced over this domain: the
    /// length must be a power of two that a 32-bit transform size can hold.
    pub open spec fn wf(self) -> bool {
        &&& self.length == 0 || is_pow2(self.length as nat)
        &&& self.length <= u32::MAX
    }

    pub fn new(offset: F, omega: F, length: usize) -> (r: Self)
        ensures
            r.offset == offset,
            r.omega == omega,
            r.length == length,
    {
        FriDomain { offset, omega, length }
    }

    /// Evaluate each column interpolant over every point of this domain,
    /// producing one codeword of exactly `length` values per interpolant.
    pub fn evaluate(&self, polynomials: &Vec<F::Interpolant>) -> (r: Vec<Vec<F>>)
        requires
            self.wf(),
            forall|i: int|
                0 <= i < polynomials@.len() ==> #[trigger] F::interpolant_degree_spec(
                    &polynomials@[i],
                ) < self.length as int,
        ensures
            r@.len() == polynomials@.len(),
            forall|i: int| 0 <= i < r@.len() ==> #[trigger] r@[i]@.len() == self.length as nat,
            forall|i: int, j: int|
                0 <= i < r@.len() && 0 <= j < self.length ==> (#[trigger] r@[i]@[j])
                    == F::interpolant_eval_spec(
                    &polynomials@[i],
                    F::coset_point_spec(self.offset, self.length as nat, j as nat),
                ),
    {
        F::coset_evaluate_columns(polynomials, self.offset, self.length)
    }
}

impl FriDomain<XFieldElement> {
    /// The value of the `i`-th domain point, `omega^i * offset`.
    pub open spec fn domain_value_spec(self, i: nat) -> XFieldElement {
        xfe_mul_of(xfe_pow_of(self.omega, i), self.offset)
    }

    /// Enumerate the domain points in order.
    pub fn domain_values(&self) -> (r: Vec<XFieldElement>)
        requires
            self.length <= u32::MAX,
        ensures
            r@.len() == self.length as nat,
            forall|i: int| 0 <= i < r@.len() ==> r@[i] == self.domain_value_spec(i as nat),
    {
        let mut values: Vec<XFieldElement> = Vec::new();
        let mut i: usize = 0;
        while i < self.length
            invariant
                i <= self.length,
                self.length <= u32::MAX,
                values@.len() == i as nat,
                forall|k: int| 0 <= k < i ==> values@[k] == self.domain_value_spec(k as nat),
            decreases self.length - i,
        {
            let power = xfe_mod_pow_u32(&self.omega, i as u32);
            values.push(xfe_mul(power, self.offset));
            i += 1;
        }
        values
    }
}

} // verus!
