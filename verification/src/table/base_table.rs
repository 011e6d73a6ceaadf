//! The trace table aggregate: raw trace rows plus the AIR constraints and
//! quotient degree bounds attached on extension, padding to a shared height,
//! and the randomized low-degree extension of trace columns.

use vstd::prelude::*;

use core::ops::Range;

use crate::field::FieldElem;
use crate::field::is_pow2;
use crate::fri_domain::FriDomain;
use twenty_first::math::b_field_element::BFieldElement;
use twenty_first::math::x_field_element::XFieldElement;
use vstd::math::min;
use vstd::string::StringExecFns;

verus! {

/// An AIR constraint, modelled by what the degree-bound computation reads of
/// the multivariate constraint polynomial: the exponent vector of each of its
/// terms. The `i`-th entry of a term is the exponent of the `i`-th variable
/// in that term.
#[derive(Clone, Debug)]
pub struct AirConstraint {
    pub term_exponents: Vec<Vec<u32>>,
}

impl AirConstraint {
    /// The terms as a mathematical sequence of exponent sequences.
    pub open spec fn terms(self) -> Seq<Seq<u32>> {
        self.term_exponents@.map_values(|t: Vec<u32>| t@)
    }

    pub fn new(term_exponents: Vec<Vec<u32>>) -> (r: Self)
        ensures
            r.term_exponents == term_exponents,
    {
        AirConstraint { term_exponents }
    }
}

/// The weighted degree of the first `m` variables of one term: each variable
/// contributes its exponent times the per-variable maximum degree `d`.
pub open spec fn prefix_weight(term: Seq<u32>, d: int, m: int) -> int
    decreases m,
{
    if m <= 0 {
        0
    } else {
        prefix_weight(term, d, m - 1) + term[m - 1] * d
    }
}

/// The symbolic degree of one term over `w` variables each bounded by `d`.
/// Variables beyond the term's stored exponents have exponent zero.
pub open spec fn term_degree_spec(term: Seq<u32>, d: int, w: int) -> int {
    prefix_weight(term, d, min(term.len() as int, w))
}

/// The symbolic degree bound of a constraint over `w` variables each bounded
/// by `d`: the maximum of its terms' symbolic degrees, `-1` if the constraint
/// has no terms (the degree of the zero polynomial).
pub open spec fn symbolic_degree_bound_spec(terms: Seq<Seq<u32>>, d: int, w: int) -> int
    decreases terms.len(),
{
    if terms.len() == 0 {
        -1
    } else {
        let rest = symbolic_degree_bound_spec(terms.drop_last(), d, w);
        let t = term_degree_spec(terms.last(), d, w);
        if t >= rest {
            t
        } else {
            rest
        }
    }
}

pub proof fn lemma_prefix_weight_nonneg(term: Seq<u32>, d: int, m: int)
    requires
        d >= 0,
    ensures
        prefix_weight(term, d, m) >= 0,
    decreases m,
{
    if m > 0 {
        lemma_prefix_weight_nonneg(term, d, m - 1);
        vstd::arithmetic::mul::lemma_mul_nonnegative(term[m - 1] as int, d);
    }
}

pub proof fn lemma_prefix_weight_mono(term: Seq<u32>, d: int, m1: int, m2: int)
    requires
        d >= 0,
        m1 <= m2,
    ensures
        prefix_weight(term, d, m1) <= prefix_weight(term, d, m2),
    decreases m2,
{
    if m1 < m2 && m2 > 0 {
        lemma_prefix_weight_mono(term, d, m1, m2 - 1);
        vstd::arithmetic::mul::lemma_mul_nonnegative(term[m2 - 1] as int, d);
    }
}

/// Widening the variable set never shrinks a term's symbolic degree.
pub proof fn lemma_term_degree_mono(term: Seq<u32>, d: int, w1: int, w2: int)
    requires
        d >= 0,
        w1 <= w2,
    ensures
        term_degree_spec(term, d, w1) <= term_degree_spec(term, d, w2),
{
    lemma_prefix_weight_mono(term, d, min(term.len() as int, w1), min(term.len() as int, w2));
}

/// Widening the variable set never shrinks a constraint's symbolic degree
/// bound.
pub proof fn lemma_symbolic_degree_bound_mono(terms: Seq<Seq<u32>>, d: int, w1: int, w2: int)
    requires
        d >= 0,
        w1 <= w2,
    ensures
        symbolic_degree_bound_spec(terms, d, w1) <= symbolic_degree_bound_spec(terms, d, w2),
    decreases terms.len(),
{
    if terms.len() > 0 {
        lemma_symbolic_degree_bound_mono(terms.drop_last(), d, w1, w2);
        lemma_term_degree_mono(terms.last(), d, w1, w2);
    }
}

/// For a transition constraint the quotient degree bound is computed over
/// `2 * full_width` variables; for a boundary, consistency or terminal
/// constraint of the same polynomial shape it is computed over `full_width`
/// variables. The transition bound never comes out smaller.
pub proof fn lemma_transition_bound_dominates(
    terms: Seq<Seq<u32>>,
    interpolant_degree: int,
    full_width: int,
)
    requires
        interpolant_degree >= 0,
        full_width >= 0,
    ensures
        symbolic_degree_bound_spec(terms, interpolant_degree, 2 * full_width) - 1
            >= symbolic_degree_bound_spec(terms, interpolant_degree, full_width) - 1,
{
    lemma_symbolic_degree_bound_mono(terms, interpolant_degree, full_width, 2 * full_width);
}

impl AirConstraint {
    /// The symbolic degree bound of this constraint over `width` variables,
    /// each bounded by `interpolant_degree`.
    pub fn symbolic_degree_bound(&self, interpolant_degree: i64, width: usize) -> (r: i64)
        requires
            interpolant_degree >= 0,
            forall|t: int|
                0 <= t < self.terms().len() ==> term_degree_spec(
                    #[trigger] self.terms()[t],
                    interpolant_degree as int,
                    width as int,
                ) <= i64::MAX,
        ensures
            r == symbolic_degree_bound_spec(self.terms(), interpolant_degree as int, width as int),
    {
        let ghost d = interpolant_degree as int;
        let ghost w = width as int;
        let mut best: i64 = -1;
        let mut t: usize = 0;
        while t < self.term_exponents.len()
            invariant
                t <= self.term_exponents.len(),
                interpolant_degree >= 0,
                d == interpolant_degree as int,
                w == width as int,
                forall|k: int|
                    0 <= k < self.terms().len() ==> term_degree_spec(
                        #[trigger] self.terms()[k],
                        d,
                        w,
                    ) <= i64::MAX,
                best == symbolic_degree_bound_spec(self.terms().take(t as int), d, w),
            decreases self.term_exponents@.len() - t,
        {
            let term = &self.term_exponents[t];
            let ghost tv = term@;
            proof {
                assert(self.terms()[t as int] == tv);
            }
            let m: usize = if term.len() <= width {
                term.len()
            } else {
                width
            };
            proof {
                assert(m as int == min(tv.len() as int, w));
            }
            let mut acc: i64 = 0;
            let mut i: usize = 0;
            while i < m
                invariant
                    i <= m,
                    m as int == min(tv.len() as int, w),
                    m <= tv.len(),
                    interpolant_degree >= 0,
                    d == interpolant_degree as int,
                    term_degree_spec(tv, d, w) <= i64::MAX,
                    tv == term@,
                    acc == prefix_weight(tv, d, i as int),
                decreases m - i,
            {
                proof {
                    lemma_prefix_weight_nonneg(tv, d, i as int);
                    lemma_prefix_weight_nonneg(tv, d, i + 1);
                    lemma_prefix_weight_mono(tv, d, i + 1, m as int);
                    assert(prefix_weight(tv, d, i + 1) == acc + tv[i as int] * d);
                }
                let step: i64 = (term[i] as i64) * interpolant_degree;
                acc = acc + step;
                i = i + 1;
            }
            proof {
                assert(acc == term_degree_spec(tv, d, w));
                assert(self.terms().take(t + 1).drop_last() =~= self.terms().take(t as int));
                assert(self.terms().take(t + 1).last() == tv);
            }
            if acc > best {
                best = acc;
            }
            t = t + 1;
        }
        proof {
            assert(self.terms().take(self.terms().len() as int) =~= self.terms());
        }
        best
    }
}

/// A trace table, generic over the field its entries live in. Constraints and
/// quotient degree bounds are unset until [`BaseTable::extension`] attaches
/// them.
pub struct BaseTable<F: FieldElem> {
    /// The width of each data row in the base version of the table.
    pub base_width: usize,
    /// The width of each data row in the extended version of the table.
    pub full_width: usize,
    /// The trace data.
    pub matrix: Vec<Vec<F>>,
    /// The table's name, for traceability of derived tables.
    pub name: String,
    pub boundary_constraints: Option<Vec<AirConstraint>>,
    pub transition_constraints: Option<Vec<AirConstraint>>,
    pub consistency_constraints: Option<Vec<AirConstraint>>,
    pub terminal_constraints: Option<Vec<AirConstraint>>,
    pub boundary_quotient_degree_bounds: Option<Vec<i64>>,
    pub transition_quotient_degree_bounds: Option<Vec<i64>>,
    pub consistency_quotient_degree_bounds: Option<Vec<i64>>,
    pub terminal_quotient_degree_bounds: Option<Vec<i64>>,
}

/// The degree-bound requirement that the exact i64 computation needs: every
/// term degree of every constraint fits the machine integer.
pub open spec fn degree_bounds_fit(cs: Seq<AirConstraint>, d: int, w: int) -> bool {
    forall|ci: int, t: int|
        0 <= ci < cs.len() && 0 <= t < cs[ci].terms().len() ==> term_degree_spec(
            #[trigger] cs[ci].terms()[t],
            d,
            w,
        ) <= i64::MAX
}

impl<F: FieldElem> BaseTable<F> {
    /// Store raw trace rows. Nothing is validated here: malformed row widths
    /// surface later, at interpolation time.
    pub fn new(base_width: usize, full_width: usize, matrix: Vec<Vec<F>>, name: String) -> (r:
        Self)
        ensures
            r.base_width == base_width,
            r.full_width == full_width,
            r.matrix == matrix,
            r.name == name,
            r.boundary_constraints is None,
            r.transition_constraints is None,
            r.consistency_constraints is None,
            r.terminal_constraints is None,
            r.boundary_quotient_degree_bounds is None,
            r.transition_quotient_degree_bounds is None,
            r.consistency_quotient_degree_bounds is None,
            r.terminal_quotient_degree_bounds is None,
    {
        BaseTable {
            base_width,
            full_width,
            matrix,
            name,
            boundary_constraints: None,
            transition_constraints: None,
            consistency_constraints: None,
            terminal_constraints: None,
            boundary_quotient_degree_bounds: None,
            transition_quotient_degree_bounds: None,
            consistency_quotient_degree_bounds: None,
            terminal_quotient_degree_bounds: None,
        }
    }

    /// Compute the quotient degree bound of each constraint: its symbolic
    /// degree bound over `full_width` variables each bounded by the
    /// interpolant degree, minus one for the division by a degree-1 zerofier.
    fn compute_degree_bounds(
        air_constraints: &Vec<AirConstraint>,
        interpolant_degree: i64,
        full_width: usize,
    ) -> (r: Vec<i64>)
        requires
            interpolant_degree >= 0,
            degree_bounds_fit(air_constraints@, interpolant_degree as int, full_width as int),
        ensures
            r@.len() == air_constraints@.len(),
            forall|i: int|
                0 <= i < r@.len() ==> r@[i] == symbolic_degree_bound_spec(
                    #[trigger] air_constraints@[i].terms(),
                    interpolant_degree as int,
                    full_width as int,
                ) - 1,
    {
        let mut bounds: Vec<i64> = Vec::new();
        let mut i: usize = 0;
        while i < air_constraints.len()
            invariant
                i <= air_constraints@.len(),
                interpolant_degree >= 0,
                degree_bounds_fit(air_constraints@, interpolant_degree as int, full_width as int),
                bounds@.len() == i as nat,
                forall|k: int|
                    0 <= k < i ==> bounds@[k] == symbolic_degree_bound_spec(
                        #[trigger] air_constraints@[k].terms(),
                        interpolant_degree as int,
                        full_width as int,
                    ) - 1,
            decreases air_constraints@.len() - i,
        {
            let b = air_constraints[i].symbolic_degree_bound(interpolant_degree, full_width);
            proof {
                lemma_symbolic_degree_bound_nonneg_floor(
                    air_constraints@[i as int].terms(),
                    interpolant_degree as int,
                    full_width as int,
                );
            }
            bounds.push(b - 1);
            i = i + 1;
        }
        bounds
    }

    /// Consume a base table and attach the four constraint sets together with
    /// their quotient degree bounds. Boundary, consistency and terminal
    /// constraints range over `full_width` variables; transition constraints
    /// relate a row to its successor and range over `2 * full_width`
    /// variables.
    pub fn extension(
        base_table: BaseTable<F>,
        interpolant_degree: i64,
        boundary_constraints: Vec<AirConstraint>,
        transition_constraints: Vec<AirConstraint>,
        consistency_constraints: Vec<AirConstraint>,
        terminal_constraints: Vec<AirConstraint>,
    ) -> (r: Self)
        requires
            interpolant_degree >= 0,
            base_table.full_width * 2 <= usize::MAX,
            degree_bounds_fit(
                boundary_constraints@,
                interpolant_degree as int,
                base_table.full_width as int,
            ),
            degree_bounds_fit(
                transition_constraints@,
                interpolant_degree as int,
                2 * base_table.full_width as int,
            ),
            degree_bounds_fit(
                consistency_constraints@,
                interpolant_degree as int,
                base_table.full_width as int,
            ),
            degree_bounds_fit(
                terminal_constraints@,
                interpolant_degree as int,
                base_table.full_width as int,
            ),
        ensures
            r.base_width == base_table.base_width,
            r.full_width == base_table.full_width,
            r.matrix == base_table.matrix,
            r.name == base_table.name,
            r.boundary_constraints == Some(boundary_constraints),
            r.transition_constraints == Some(transition_constraints),
            r.consistency_constraints == Some(consistency_constraints),
            r.terminal_constraints == Some(terminal_constraints),
            r.boundary_quotient_degree_bounds matches Some(bs) && quotient_bounds_match(
                bs@,
                boundary_constraints@,
                interpolant_degree as int,
                base_table.full_width as int,
            ),
            r.transition_quotient_degree_bounds matches Some(bs) && quotient_bounds_match(
                bs@,
                transition_constraints@,
                interpolant_degree as int,
                2 * base_table.full_width as int,
            ),
            r.consistency_quotient_degree_bounds matches Some(bs) && quotient_bounds_match(
                bs@,
                consistency_constraints@,
                interpolant_degree as int,
                base_table.full_width as int,
            ),
            r.terminal_quotient_degree_bounds matches Some(bs) && quotient_bounds_match(
                bs@,
                terminal_constraints@,
                interpolant_degree as int,
                base_table.full_width as int,
            ),
    {
        let full_width = base_table.full_width;
        let boundary_quotient_degree_bounds = Self::compute_degree_bounds(
            &boundary_constraints,
            interpolant_degree,
            full_width,
        );
        let transition_quotient_degree_bounds = Self::compute_degree_bounds(
            &transition_constraints,
            interpolant_degree,
            2 * full_width,
        );
        let consistency_quotient_degree_bounds = Self::compute_degree_bounds(
            &consistency_constraints,
            interpolant_degree,
            full_width,
        );
        let terminal_quotient_degree_bounds = Self::compute_degree_bounds(
            &terminal_constraints,
            interpolant_degree,
            full_width,
        );
        BaseTable {
            boundary_constraints: Some(boundary_constraints),
            transition_constraints: Some(transition_constraints),
            consistency_constraints: Some(consistency_constraints),
            terminal_constraints: Some(terminal_constraints),
            boundary_quotient_degree_bounds: Some(boundary_quotient_degree_bounds),
            transition_quotient_degree_bounds: Some(transition_quotient_degree_bounds),
            consistency_quotient_degree_bounds: Some(consistency_quotient_degree_bounds),
            terminal_quotient_degree_bounds: Some(terminal_quotient_degree_bounds),
            ..base_table
        }
    }
}

/// Whether `bounds` is exactly the quotient degree bound of each constraint
/// in `cs`, in order.
pub open spec fn quotient_bounds_match(bounds: Seq<i64>, cs: Seq<AirConstraint>, d: int, w: int) -> bool {
    &&& bounds.len() == cs.len()
    &&& forall|i: int|
        0 <= i < bounds.len() ==> bounds[i] == symbolic_degree_bound_spec(
            #[trigger] cs[i].terms(),
            d,
            w,
        ) - 1
}

/// The symbolic degree bound is at least `-1`, so subtracting one stays above
/// the machine minimum.
proof fn lemma_symbolic_degree_bound_nonneg_floor(terms: Seq<Seq<u32>>, d: int, w: int)
    requires
        d >= 0,
    ensures
        symbolic_degree_bound_spec(terms, d, w) >= -1,
    decreases terms.len(),
{
    if terms.len() > 0 {
        lemma_symbolic_degree_bound_nonneg_floor(terms.drop_last(), d, w);
    }
}

fn copy_u32_vec(v: &Vec<u32>) -> (r: Vec<u32>)
    ensures
        r@ == v@,
{
    let mut out: Vec<u32> = Vec::new();
    let mut i: usize = 0;
    while i < v.len()
        invariant
            i <= v@.len(),
            out@ == v@.take(i as int),
        decreases v@.len() - i,
    {
        out.push(v[i]);
        proof {
            assert(out@ =~= v@.take(i + 1));
        }
        i = i + 1;
    }
    proof {
        assert(v@.take(v@.len() as int) =~= v@);
    }
    out
}

fn copy_i64_vec(v: &Vec<i64>) -> (r: Vec<i64>)
    ensures
        r@ == v@,
{
    let mut out: Vec<i64> = Vec::new();
    let mut i: usize = 0;
    while i < v.len()
        invariant
            i <= v@.len(),
            out@ == v@.take(i as int),
        decreases v@.len() - i,
    {
        out.push(v[i]);
        proof {
            assert(out@ =~= v@.take(i + 1));
        }
        i = i + 1;
    }
    proof {
        assert(v@.take(v@.len() as int) =~= v@);
    }
    out
}

fn copy_constraints(cs: &Vec<AirConstraint>) -> (r: Vec<AirConstraint>)
    ensures
        r@.len() == cs@.len(),
        forall|i: int| 0 <= i < r@.len() ==> (#[trigger] r@[i]).terms() == cs@[i].terms(),
{
    let mut out: Vec<AirConstraint> = Vec::new();
    let mut i: usize = 0;
    while i < cs.len()
        invariant
            i <= cs@.len(),
            out@.len() == i as nat,
            forall|k: int| 0 <= k < i ==> (#[trigger] out@[k]).terms() == cs@[k].terms(),
        decreases cs@.len() - i,
    {
        let c = &cs[i];
        let mut terms: Vec<Vec<u32>> = Vec::new();
        let mut t: usize = 0;
        while t < c.term_exponents.len()
            invariant
                t <= c.term_exponents@.len(),
                terms@.len() == t as nat,
                forall|k: int| 0 <= k < t ==> (#[trigger] terms@[k])@ == c.term_exponents@[k]@,
            decreases c.term_exponents@.len() - t,
        {
            terms.push(copy_u32_vec(&c.term_exponents[t]));
            t = t + 1;
        }
        let copied = AirConstraint { term_exponents: terms };
        proof {
            assert(copied.terms() =~= cs@[i as int].terms());
        }
        out.push(copied);
        i = i + 1;
    }
    out
}

/// Whether two optional constraint sets carry the same terms.
pub open spec fn same_constraints(a: Option<Vec<AirConstraint>>, b: Option<Vec<AirConstraint>>) -> bool {
    match (a, b) {
        (Option::None, Option::None) => true,
        (Option::Some(x), Option::Some(y)) => x@.len() == y@.len() && forall|i: int|
            0 <= i < x@.len() ==> (#[trigger] x@[i]).terms() == y@[i].terms(),
        _ => false,
    }
}

/// Whether two optional degree-bound sequences are equal.
pub open spec fn same_bounds(a: Option<Vec<i64>>, b: Option<Vec<i64>>) -> bool {
    match (a, b) {
        (Option::None, Option::None) => true,
        (Option::Some(x), Option::Some(y)) => x@ == y@,
        _ => false,
    }
}

fn copy_opt_constraints(o: &Option<Vec<AirConstraint>>) -> (r: Option<Vec<AirConstraint>>)
    ensures
        same_constraints(r, *o),
{
    match o {
        Option::None => Option::None,
        Option::Some(cs) => Option::Some(copy_constraints(cs)),
    }
}

fn copy_opt_bounds(o: &Option<Vec<i64>>) -> (r: Option<Vec<i64>>)
    ensures
        same_bounds(r, *o),
{
    match o {
        Option::None => Option::None,
        Option::Some(v) => Option::Some(copy_i64_vec(v)),
    }
}

impl<F: FieldElem> BaseTable<F> {
    /// A structural copy with all fields preserved except the trace data and
    /// a decorated name; used to produce derived tables without recomputing
    /// constraints.
    pub fn with_data(&self, matrix: Vec<Vec<F>>) -> (r: Self)
        ensures
            r.base_width == self.base_width,
            r.full_width == self.full_width,
            r.matrix == matrix,
            r.name@ == self.name@ + " with data"@,
            same_constraints(r.boundary_constraints, self.boundary_constraints),
            same_constraints(r.transition_constraints, self.transition_constraints),
            same_constraints(r.consistency_constraints, self.consistency_constraints),
            same_constraints(r.terminal_constraints, self.terminal_constraints),
            same_bounds(r.boundary_quotient_degree_bounds, self.boundary_quotient_degree_bounds),
            same_bounds(r.transition_quotient_degree_bounds, self.transition_quotient_degree_bounds),
            same_bounds(r.consistency_quotient_degree_bounds, self.consistency_quotient_degree_bounds),
            same_bounds(r.terminal_quotient_degree_bounds, self.terminal_quotient_degree_bounds),
    {
        let mut name = <String as StringExecFns>::from_str(self.name.as_str());
        name.append(" with data");
        BaseTable {
            base_width: self.base_width,
            full_width: self.full_width,
            matrix,
            name,
            boundary_constraints: copy_opt_constraints(&self.boundary_constraints),
            transition_constraints: copy_opt_constraints(&self.transition_constraints),
            consistency_constraints: copy_opt_constraints(&self.consistency_constraints),
            terminal_constraints: copy_opt_constraints(&self.terminal_constraints),
            boundary_quotient_degree_bounds: copy_opt_bounds(&self.boundary_quotient_degree_bounds),
            transition_quotient_degree_bounds: copy_opt_bounds(
                &self.transition_quotient_degree_bounds,
            ),
            consistency_quotient_degree_bounds: copy_opt_bounds(
                &self.consistency_quotient_degree_bounds,
            ),
            terminal_quotient_degree_bounds: copy_opt_bounds(&self.terminal_quotient_degree_bounds),
        }
    }
}

impl BaseTable<BFieldElement> {
    /// A base-field table's parameters carried over to an extension-field
    /// table with new trace data: the lifted variant interpolated during the
    /// extension phase. Constraints stay unset on the lifted table.
    pub fn with_lifted_data(&self, matrix: Vec<Vec<XFieldElement>>, num_trace_randomizers: usize) -> (r: BaseTable<XFieldElement>)
        ensures
            r.base_width == self.base_width,
            r.full_width == self.full_width,
            r.matrix == matrix,
            r.name@ == self.name@ + " with lifted data"@,
            r.boundary_constraints is None,
            r.transition_constraints is None,
            r.consistency_constraints is None,
            r.terminal_constraints is None,
            r.boundary_quotient_degree_bounds is None,
            r.transition_quotient_degree_bounds is None,
            r.consistency_quotient_degree_bounds is None,
            r.terminal_quotient_degree_bounds is None,
    {
        let mut name = <String as StringExecFns>::from_str(self.name.as_str());
        name.append(" with lifted data");
        BaseTable::new(self.base_width, self.full_width, matrix, name)
    }
}


/// Whether the first `count` powers of `base` are pairwise distinct: the
/// precondition of [`BaseTableTrait::interpolate_columns`] on its `omicron`
/// argument, decided by computing the powers and comparing them.
pub fn powers_pairwise_distinct<F: FieldElem>(base: &F, count: usize) -> (r: bool)
    requires
        count <= 4294967296,
    ensures
        r == (forall|i: nat, j: nat| #![trigger base.pow_spec(i), base.pow_spec(j)]
            i < j < count as nat ==> base.pow_spec(i) != base.pow_spec(j)),
{
    let mut powers: Vec<F> = Vec::new();
    let mut i: usize = 0;
    while i < count
        invariant
            i <= count,
            count <= 4294967296,
            powers@.len() == i as nat,
            forall|k: int| 0 <= k < i ==> (#[trigger] powers@[k]) == base.pow_spec(k as nat),
        decreases count - i,
    {
        powers.push(base.mod_pow_u32(i as u32));
        i = i + 1;
    }
    let mut a: usize = 0;
    while a < count
        invariant
            a <= count,
            powers@.len() == count as nat,
            forall|k: int| 0 <= k < count ==> (#[trigger] powers@[k]) == base.pow_spec(k as nat),
            forall|x: int, y: int| #![trigger powers@[x], powers@[y]]
                0 <= x < y < a ==> powers@[x] != powers@[y],
        decreases count - a,
    {
        let mut b: usize = 0;
        while b < a
            invariant
                b <= a,
                a < count,
                powers@.len() == count as nat,
                forall|k: int| 0 <= k < count ==> (#[trigger] powers@[k]) == base.pow_spec(k as nat),
                forall|x: int, y: int| #![trigger powers@[x], powers@[y]]
                    0 <= x < y < a ==> powers@[x] != powers@[y],
                forall|x: int| 0 <= x < b ==> powers@[x] != powers@[a as int],
            decreases a - b,
        {
            let power_b = powers[b];
            let power_a = powers[a];
            if power_b.eq_el(&power_a) {
                proof {
                    assert(powers@[b as int] == base.pow_spec(b as nat));
                    assert(powers@[a as int] == base.pow_spec(a as nat));
                    assert(base.pow_spec(b as nat) == base.pow_spec(a as nat));
                }
                return false;
            }
            b = b + 1;
        }
        a = a + 1;
    }
    proof {
        assert forall|i2: nat, j2: nat| #![trigger base.pow_spec(i2), base.pow_spec(j2)]
            i2 < j2 < count as nat implies base.pow_spec(i2) != base.pow_spec(j2) by {
            assert(powers@[i2 as int] == base.pow_spec(i2));
            assert(powers@[j2 as int] == base.pow_spec(j2));
        }
    }
    true
}

/// The `c`-th column of a trace matrix, as a mathematical sequence.
pub open spec fn trace_column<F: FieldElem>(matrix: Seq<Vec<F>>, c: int) -> Seq<F> {
    Seq::new(matrix.len(), |i: int| matrix[i]@[c])
}

/// What the low-degree extension promises of one column: an interpolant of
/// bounded degree that passes through the column's trace values on the
/// omicron powers, whose values over the evaluation coset form the codeword.
pub open spec fn lde_column_ok<F: FieldElem>(
    p: F::Interpolant,
    column: Seq<F>,
    omicron: F,
    num_trace_randomizers: nat,
    offset: F,
    order: nat,
    codeword: Seq<F>,
) -> bool {
    &&& F::interpolant_degree_spec(&p) < column.len() + num_trace_randomizers
    &&& forall|i: int|
        0 <= i < column.len() ==> #[trigger] F::interpolant_eval_spec(
            &p,
            omicron.pow_spec(i as nat),
        ) == column[i]
    &&& codeword.len() == order
    &&& forall|j: int|
        0 <= j < codeword.len() ==> (#[trigger] codeword[j]) == F::interpolant_eval_spec(
            &p,
            F::coset_point_spec(offset, order, j as nat),
        )
}

/// Whether `codeword` is a valid low-degree extension of column `c` of the
/// trace matrix: some interpolant satisfies [`lde_column_ok`] for it.
pub open spec fn lde_output_ok<F: FieldElem>(
    matrix: Seq<Vec<F>>,
    omicron: F,
    num_trace_randomizers: nat,
    offset: F,
    order: nat,
    c: int,
    codeword: Seq<F>,
) -> bool {
    exists|p: F::Interpolant|
        #[trigger] lde_column_ok::<F>(
            p,
            trace_column(matrix, c),
            omicron,
            num_trace_randomizers,
            offset,
            order,
            codeword,
        )
}

/// Everything that carries a [`BaseTable`] inside.
pub trait HasBaseTable<F: FieldElem>: Sized {
    /// The carried table, as a mathematical value.
    spec fn base_spec(&self) -> BaseTable<F>;

    fn to_base(&self) -> (r: &BaseTable<F>)
        ensures
            *r == self.base_spec(),
    ;

    /// Append one row to the trace data, leaving every other field alone.
    fn push_data_row(&mut self, row: Vec<F>)
        ensures
            final(self).base_spec().matrix@ == old(self).base_spec().matrix@.push(row),
            final(self).base_spec() == (BaseTable {
                matrix: final(self).base_spec().matrix,
                ..old(self).base_spec()
            }),
    ;

    fn base_width(&self) -> (r: usize)
        ensures
            r == self.base_spec().base_width,
    {
        self.to_base().base_width
    }

    fn full_width(&self) -> (r: usize)
        ensures
            r == self.base_spec().full_width,
    {
        self.to_base().full_width
    }

    fn data(&self) -> (r: &Vec<Vec<F>>)
        ensures
            *r == self.base_spec().matrix,
    {
        &self.to_base().matrix
    }
}

fn contains_el<F: FieldElem>(haystack: &Vec<F>, needle: &F) -> (r: bool)
    ensures
        r == haystack@.contains(*needle),
{
    let mut i: usize = 0;
    let mut found = false;
    while i < haystack.len()
        invariant
            i <= haystack@.len(),
            found == exists|k: int| 0 <= k < i && haystack@[k] == *needle,
        decreases haystack@.len() - i,
    {
        let h = haystack[i];
        if h.eq_el(needle) {
            found = true;
        }
        i = i + 1;
    }
    found
}

/// The first candidate index the `i`-th scanned element may carry: zero for
/// the first, one past the previous element's index afterwards.
pub open spec fn lower_scan_bound(idx: Seq<nat>, i: int) -> nat {
    if i == 0 {
        0
    } else {
        idx[i - 1] + 1
    }
}

/// The canonical scan that `disjoint_domain` performs: the `i`-th result is
/// the embedding of the `i`-th smallest candidate index whose embedding is
/// not excluded, and every candidate index skipped on the way embeds to an
/// excluded element.
pub open spec fn is_enumeration_scan<F: FieldElem>(r: Seq<F>, idx: Seq<nat>, excluded: Seq<F>) -> bool {
    &&& idx.len() == r.len()
    &&& forall|i: int| 0 <= i < idx.len() ==> #[trigger] idx[i] < 4294967296
    &&& forall|i: int| 0 <= i < idx.len() ==> r[i] == F::from_spec(#[trigger] idx[i])
    &&& forall|i: int, j: int| #![trigger idx[i], idx[j]] 0 <= i < j < idx.len() ==> idx[i] < idx[j]
    &&& forall|i: int, dd: nat| #![trigger idx[i], F::from_spec(dd)]
        0 <= i < idx.len() && lower_scan_bound(idx, i) <= dd < idx[i]
            ==> excluded.contains(F::from_spec(dd))
}

/// Collect `domain_length` elements disjoint from `excluded_domain`, scanning
/// the canonical enumeration of small field elements in increasing order and
/// skipping every element that already occurs in `excluded_domain`. The
/// result is therefore pairwise distinct, disjoint from the excluded set, and
/// canonical for the given inputs.
pub fn disjoint_domain<F: FieldElem>(
    domain_length: usize,
    excluded_domain: &Vec<F>,
    ring_one: F,
) -> (r: Vec<F>)
    requires
        domain_length + excluded_domain@.len() <= 4294967296,
    ensures
        r@.len() == domain_length as nat,
        forall|i: int| 0 <= i < r@.len() ==> !excluded_domain@.contains(#[trigger] r@[i]),
        forall|i: int, j: int| 0 <= i < j < r@.len() ==> r@[i] != r@[j],
        exists|idx: Seq<nat>| is_enumeration_scan(r@, idx, excluded_domain@),
{
    let _ = ring_one;
    let mut result: Vec<F> = Vec::new();
    let mut d: u64 = 0;
    let ghost mut gidx: Seq<nat> = Seq::empty();
    let ghost mut skipped: Set<F> = Set::empty();
    while result.len() < domain_length
        invariant
            domain_length + excluded_domain@.len() <= 4294967296,
            result@.len() == gidx.len(),
            result@.len() <= domain_length,
            is_enumeration_scan(result@, gidx, excluded_domain@),
            forall|i: int| 0 <= i < result@.len() ==> !excluded_domain@.contains(
                #[trigger] result@[i],
            ),
            forall|i: int| 0 <= i < gidx.len() ==> #[trigger] gidx[i] < d,
            skipped.finite(),
            skipped.subset_of(excluded_domain@.to_set()),
            skipped.len() + result@.len() == d,
            forall|x: F| #[trigger] skipped.contains(x) ==> exists|dd: nat| dd < d && x
                == F::from_spec(dd),
            forall|a: nat, b: nat| #![trigger F::from_spec(a), F::from_spec(b)]
                a < d && b < 4294967296 && a != b ==> F::from_spec(a) != F::from_spec(b),
            forall|dd: nat|
                (if gidx.len() == 0 { 0nat } else { (gidx.last() + 1) as nat }) <= dd < d
                    ==> excluded_domain@.contains(#[trigger] F::from_spec(dd)),
            d <= 4294967296,
        decreases 4294967296 - d,
    {
        proof {
            excluded_domain@.lemma_cardinality_of_set();
            vstd::seq_lib::seq_to_set_is_finite::<F>(excluded_domain@);
            vstd::set_lib::lemma_len_subset(skipped, excluded_domain@.to_set());
            assert(d < 4294967296);
        }
        let candidate = F::from_u32(d as u32);
        if contains_el(excluded_domain, &candidate) {
            proof {
                if skipped.contains(candidate) {
                    let dd = choose|dd: nat| dd < d && candidate == F::from_spec(dd);
                    assert(F::from_spec(dd) != F::from_spec(d as nat));
                    assert(false);
                }
                skipped = skipped.insert(candidate);
            }
        } else {
            proof {
                if excluded_domain@.to_set().contains(candidate) {
                    assert(excluded_domain@.contains(candidate));
                    assert(false);
                }
            }
            result.push(candidate);
            proof {
                gidx = gidx.push(d as nat);
                assert(gidx.last() == d as nat);
                assert forall|i: int, j: int| #![trigger gidx[i], gidx[j]]
                    0 <= i < j < gidx.len() implies gidx[i] < gidx[j] by {
                    if j < gidx.len() - 1 {
                        assert(gidx[i] == gidx.drop_last()[i]);
                    }
                }
                assert forall|i: int, dd: nat| #![trigger gidx[i], F::from_spec(dd)]
                    0 <= i < gidx.len() && lower_scan_bound(gidx, i) <= dd < gidx[i]
                        implies excluded_domain@.contains(F::from_spec(dd)) by {
                    if i < gidx.len() - 1 {
                        assert(gidx[i] == gidx.drop_last()[i]);
                    }
                }
            }
        }
        d = d + 1;
    }
    proof {
        assert forall|i: int, j: int| 0 <= i < j < result@.len() implies result@[i] != result@[j]
            by {
            assert(result@[i] == F::from_spec(gidx[i]));
            assert(result@[j] == F::from_spec(gidx[j]));
            assert(gidx[i] < gidx[j]);
        }
        assert(is_enumeration_scan(result@, gidx, excluded_domain@));
    }
    result
}

/// The capability every concrete table kind provides (its padding row)
/// together with the generic operations over the carried table: padding to a
/// shared height and the randomized low-degree extension of trace columns.
pub trait BaseTableTrait<F: FieldElem>: HasBaseTable<F> {
    /// The table-kind-specific padding row; one row of the table's base
    /// width.
    fn get_padding_row(&self) -> (r: Vec<F>)
        ensures
            r@.len() == self.base_spec().base_width as nat,
    ;

    fn name(&self) -> (r: String)
        ensures
            r@ == self.base_spec().name@,
    {
        <String as StringExecFns>::from_str(self.to_base().name.as_str())
    }

    /// Append padding rows until the height equals `shared_padded_height`.
    /// The existing rows stay unchanged and in their original order.
    fn pad(&mut self, shared_padded_height: usize)
        requires
            old(self).base_spec().matrix@.len() <= shared_padded_height,
        ensures
            final(self).base_spec().matrix@.len() == shared_padded_height as nat,
            forall|i: int|
                0 <= i < old(self).base_spec().matrix@.len() ==> final(self).base_spec().matrix@[i]
                    == old(self).base_spec().matrix@[i],
            forall|i: int|
                old(self).base_spec().matrix@.len() <= i < shared_padded_height ==> (
                #[trigger] final(self).base_spec().matrix@[i])@.len() == old(
                    self,
                ).base_spec().base_width as nat,
            final(self).base_spec() == (BaseTable {
                matrix: final(self).base_spec().matrix,
                ..old(self).base_spec()
            }),
            old(self).base_spec().matrix@.len() == shared_padded_height ==> final(self).base_spec().matrix@ == old(self).base_spec().matrix@,
    {
        while self.data().len() != shared_padded_height
            invariant
                self.base_spec().matrix@.len() <= shared_padded_height,
                old(self).base_spec().matrix@.len() <= self.base_spec().matrix@.len(),
                forall|i: int|
                    0 <= i < old(self).base_spec().matrix@.len() ==> self.base_spec().matrix@[i]
                        == old(self).base_spec().matrix@[i],
                forall|i: int|
                    old(self).base_spec().matrix@.len() <= i < self.base_spec().matrix@.len() ==> (
                    #[trigger] self.base_spec().matrix@[i])@.len() == old(
                        self,
                    ).base_spec().base_width as nat,
                self.base_spec() == (BaseTable {
                    matrix: self.base_spec().matrix,
                    ..old(self).base_spec()
                }),
            decreases shared_padded_height - self.base_spec().matrix@.len(),
        {
            let padding_row = self.get_padding_row();
            self.push_data_row(padding_row);
        }
        proof {
            if old(self).base_spec().matrix@.len() == shared_padded_height {
                assert(self.base_spec().matrix@ =~= old(self).base_spec().matrix@);
            }
        }
    }

    /// Interpolate the requested trace columns: the known trace values sit on
    /// the powers of `omicron`, `num_trace_randomizers` uniformly drawn
    /// blinding values sit on canonical points disjoint from those powers,
    /// and each column becomes the lowest-degree polynomial through all of
    /// them. Must be called with the table's complete column index set;
    /// degree accounting elsewhere in the protocol breaks on a proper
    /// subset.
    fn interpolate_columns(
        &self,
        fri_domain: &FriDomain<F>,
        omicron: F,
        shared_padded_height: usize,
        num_trace_randomizers: usize,
        columns: Range<usize>,
    ) -> (r: Vec<F::Interpolant>)
        requires
            self.base_spec().matrix@.len() == shared_padded_height as nat,
            columns.start <= columns.end,
            forall|ri: int|
                0 <= ri < self.base_spec().matrix@.len() ==> (
                #[trigger] self.base_spec().matrix@[ri])@.len() >= columns.end,
            shared_padded_height + num_trace_randomizers <= 4294967296,
            forall|i: nat, j: nat| #![trigger omicron.pow_spec(i), omicron.pow_spec(j)]
                i < j < shared_padded_height as nat ==> omicron.pow_spec(i) != omicron.pow_spec(j),
        ensures
            r@.len() == (columns.end - columns.start) as nat,
            forall|i: int|
                0 <= i < r@.len() ==> #[trigger] F::interpolant_degree_spec(&r@[i])
                    < shared_padded_height + num_trace_randomizers,
            forall|c: int, i: int|
                0 <= c < r@.len() && 0 <= i < shared_padded_height
                    ==> #[trigger] F::interpolant_eval_spec(&r@[c], omicron.pow_spec(i as nat))
                    == self.base_spec().matrix@[i]@[columns.start + c],
            shared_padded_height == 0 ==> forall|c: int|
                0 <= c < r@.len() ==> #[trigger] F::interpolant_degree_spec(&r@[c]) == -1,
            shared_padded_height == 0 ==> forall|c: int, x: F|
                0 <= c < r@.len() ==> #[trigger] F::interpolant_eval_spec(&r@[c], x)
                    == F::from_spec(0),
    {
        let _ = fri_domain;
        let col_start = columns.start;
        let col_end = columns.end;
        let n_columns = col_end - col_start;
        if shared_padded_height == 0 {
            let mut polys: Vec<F::Interpolant> = Vec::new();
            let mut c: usize = 0;
            while c < n_columns
                invariant
                    c <= n_columns,
                    polys@.len() == c as nat,
                    forall|i: int|
                        0 <= i < polys@.len() ==> #[trigger] F::interpolant_degree_spec(&polys@[i])
                            == -1,
                    forall|i: int, x: F|
                        0 <= i < polys@.len() ==> #[trigger] F::interpolant_eval_spec(&polys@[i], x)
                            == F::from_spec(0),
                decreases n_columns - c,
            {
                polys.push(F::zero_interpolant());
                c = c + 1;
            }
            return polys;
        }
        let mut omicron_domain: Vec<F> = Vec::new();
        let mut i: usize = 0;
        while i < shared_padded_height
            invariant
                i <= shared_padded_height,
                shared_padded_height + num_trace_randomizers <= 4294967296,
                omicron_domain@.len() == i as nat,
                forall|k: int|
                    0 <= k < i ==> omicron_domain@[k] == omicron.pow_spec(#[trigger] (k as nat)),
            decreases shared_padded_height - i,
        {
            omicron_domain.push(omicron.mod_pow_u32(i as u32));
            i = i + 1;
        }
        let randomizer_domain = disjoint_domain(
            num_trace_randomizers,
            &omicron_domain,
            F::from_u32(1),
        );
        let ghost od = omicron_domain@;
        let ghost rd = randomizer_domain@;
        let mut interpolation_domain = omicron_domain;
        let mut ri2: usize = 0;
        while ri2 < randomizer_domain.len()
            invariant
                ri2 <= rd.len(),
                rd == randomizer_domain@,
                interpolation_domain@ == od + rd.take(ri2 as int),
            decreases rd.len() - ri2,
        {
            interpolation_domain.push(randomizer_domain[ri2]);
            proof {
                assert(interpolation_domain@ =~= od + rd.take(ri2 + 1));
            }
            ri2 = ri2 + 1;
        }
        proof {
            assert(rd.take(rd.len() as int) =~= rd);
            assert(interpolation_domain@ == od + rd);
            assert forall|a: int, b: int|
                0 <= a < b < interpolation_domain@.len() implies interpolation_domain@[a]
                != interpolation_domain@[b] by {
                let h = od.len() as int;
                let dom = interpolation_domain@;
                if b < h {
                    assert(dom[a] == omicron.pow_spec(a as nat));
                    assert(dom[b] == omicron.pow_spec(b as nat));
                } else if a < h {
                    assert(dom[b] == rd[b - h]);
                    assert(!od.contains(rd[b - h]));
                    if dom[a] == dom[b] {
                        assert(od[a] == rd[b - h]);
                        assert(od.contains(rd[b - h]));
                        assert(false);
                    }
                } else {
                    assert(dom[a] == rd[a - h]);
                    assert(dom[b] == rd[b - h]);
                }
            }
        }
        let mut traces: Vec<Vec<F>> = Vec::new();
        let mut col: usize = col_start;
        while col < col_end
            invariant
                col_start <= col <= col_end,
                traces@.len() == (col - col_start) as nat,
                self.base_spec().matrix@.len() == shared_padded_height as nat,
                forall|ri: int|
                    0 <= ri < self.base_spec().matrix@.len() ==> (
                    #[trigger] self.base_spec().matrix@[ri])@.len() >= col_end,
                shared_padded_height + num_trace_randomizers <= 4294967296,
                forall|t: int|
                    0 <= t < traces@.len() ==> (#[trigger] traces@[t])@.len()
                        == shared_padded_height + num_trace_randomizers,
                forall|t: int, k2: int| #![trigger traces@[t]@[k2]]
                    0 <= t < traces@.len() && 0 <= k2 < shared_padded_height ==> traces@[t]@[k2]
                        == self.base_spec().matrix@[k2]@[col_start + t],
            decreases col_end - col,
        {
            let mut trace: Vec<F> = Vec::new();
            let mut row: usize = 0;
            while row < shared_padded_height
                invariant
                    row <= shared_padded_height,
                    col < col_end,
                    trace@.len() == row as nat,
                    self.base_spec().matrix@.len() == shared_padded_height as nat,
                    forall|ri: int|
                        0 <= ri < self.base_spec().matrix@.len() ==> (
                        #[trigger] self.base_spec().matrix@[ri])@.len() >= col_end,
                    forall|k2: int|
                        0 <= k2 < row ==> trace@[k2] == self.base_spec().matrix@[k2]@[col as int],
                decreases shared_padded_height - row,
            {
                let base = self.to_base();
                trace.push(base.matrix[row][col]);
                row = row + 1;
            }
            let randomizers = F::random_elements(num_trace_randomizers);
            let mut rj: usize = 0;
            while rj < randomizers.len()
                invariant
                    rj <= randomizers@.len(),
                    randomizers@.len() == num_trace_randomizers as nat,
                    trace@.len() == shared_padded_height + rj,
                    forall|k2: int|
                        0 <= k2 < shared_padded_height ==> trace@[k2]
                            == self.base_spec().matrix@[k2]@[col as int],
                decreases randomizers@.len() - rj,
            {
                trace.push(randomizers[rj]);
                rj = rj + 1;
            }
            traces.push(trace);
            col = col + 1;
        }
        let polys = F::interpolate_columns(&interpolation_domain, &traces);
        proof {
            assert forall|c: int, i: int|
                0 <= c < polys@.len() && 0 <= i < shared_padded_height
                    implies #[trigger] F::interpolant_eval_spec(
                &polys@[c],
                omicron.pow_spec(i as nat),
            ) == self.base_spec().matrix@[i]@[col_start + c] by {
                assert(interpolation_domain@[i] == od[i]);
                assert(od[i] == omicron.pow_spec(i as nat));
                assert(F::interpolant_eval_spec(&polys@[c], interpolation_domain@[i])
                    == traces@[c]@[i]);
                assert(traces@[c]@[i] == self.base_spec().matrix@[i]@[col_start + c]);
            }
        }
        polys
    }

    /// The blinded low-degree extension of the requested trace columns: the
    /// randomized column interpolants evaluated over every point of the
    /// evaluation domain, one codeword per column.
    fn low_degree_extension(
        &self,
        fri_domain: &FriDomain<F>,
        omicron: F,
        shared_padded_height: usize,
        num_trace_randomizers: usize,
        columns: Range<usize>,
    ) -> (r: Vec<Vec<F>>)
        requires
            self.base_spec().matrix@.len() == shared_padded_height as nat,
            columns.start <= columns.end,
            forall|ri: int|
                0 <= ri < self.base_spec().matrix@.len() ==> (
                #[trigger] self.base_spec().matrix@[ri])@.len() >= columns.end,
            shared_padded_height + num_trace_randomizers <= 4294967296,
            forall|i: nat, j: nat| #![trigger omicron.pow_spec(i), omicron.pow_spec(j)]
                i < j < shared_padded_height as nat ==> omicron.pow_spec(i) != omicron.pow_spec(j),
            fri_domain.length == 0 || is_pow2(fri_domain.length as nat),
            fri_domain.length <= u32::MAX,
            shared_padded_height + num_trace_randomizers <= fri_domain.length,
        ensures
            r@.len() == (columns.end - columns.start) as nat,
            forall|i: int|
                0 <= i < r@.len() ==> (#[trigger] r@[i])@.len() == fri_domain.length as nat,
            forall|c: int| #![trigger r@[c]]
                0 <= c < r@.len() ==> lde_output_ok::<F>(
                    self.base_spec().matrix@,
                    omicron,
                    num_trace_randomizers as nat,
                    fri_domain.offset,
                    fri_domain.length as nat,
                    columns.start + c,
                    r@[c]@,
                ),
    {
        let polynomials = self.interpolate_columns(
            fri_domain,
            omicron,
            shared_padded_height,
            num_trace_randomizers,
            columns,
        );
        let codewords = fri_domain.evaluate(&polynomials);
        proof {
            assert forall|c: int| #![trigger codewords@[c]]
                0 <= c < codewords@.len() implies lde_output_ok::<F>(
                self.base_spec().matrix@,
                omicron,
                num_trace_randomizers as nat,
                fri_domain.offset,
                fri_domain.length as nat,
                columns.start + c,
                codewords@[c]@,
            ) by {
                let p = polynomials@[c];
                let column = trace_column(self.base_spec().matrix@, columns.start + c);
                assert(column.len() == shared_padded_height as nat);
                assert forall|i: int|
                    0 <= i < column.len() implies #[trigger] F::interpolant_eval_spec(
                    &p,
                    omicron.pow_spec(i as nat),
                ) == column[i] by {
                    assert(F::interpolant_eval_spec(&polynomials@[c], omicron.pow_spec(i as nat))
                        == self.base_spec().matrix@[i]@[columns.start + c]);
                    assert(column[i] == self.base_spec().matrix@[i]@[columns.start + c]);
                }
                assert forall|j: int|
                    0 <= j < codewords@[c]@.len() implies (#[trigger] codewords@[c]@[j])
                    == F::interpolant_eval_spec(
                    &p,
                    F::coset_point_spec(fri_domain.offset, fri_domain.length as nat, j as nat),
                ) by {
                    assert(codewords@[c]@[j] == F::interpolant_eval_spec(
                        &polynomials@[c],
                        F::coset_point_spec(fri_domain.offset, fri_domain.length as nat, j as nat),
                    ));
                }
                assert(lde_column_ok::<F>(
                    p,
                    column,
                    omicron,
                    num_trace_randomizers as nat,
                    fri_domain.offset,
                    fri_domain.length as nat,
                    codewords@[c]@,
                ));
            }
        }
        codewords
    }
}

} // verus!
