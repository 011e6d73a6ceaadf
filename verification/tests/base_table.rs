use triton_vm::fri_domain::FriDomain;
use triton_vm::table::base_table::AirConstraint;
use triton_vm::table::base_table::BaseTable;
use triton_vm::table::base_table::BaseTableTrait;
use triton_vm::table::base_table::HasBaseTable;
use triton_vm::table::base_table::disjoint_domain;
use triton_vm::table::base_table::powers_pairwise_distinct;
use twenty_first::math::b_field_element::BFieldElement;
use twenty_first::math::traits::PrimitiveRootOfUnity;
use twenty_first::math::x_field_element::XFieldElement;

fn bfe(n: u64) -> BFieldElement {
    BFieldElement::new(n)
}

#[test]
fn disjoint_domain_test() {
    let one = bfe(1);
    let domain = vec![bfe(2), bfe(5), bfe(4)];
    let ddomain = disjoint_domain(5, &domain, one);
    assert_eq!(vec![bfe(0), one, bfe(3), bfe(6), bfe(7)], ddomain);
}

#[test]
fn disjoint_domain_skips_every_excluded_element_test() {
    let excluded = vec![bfe(0), bfe(1), bfe(2), bfe(3)];
    let ddomain = disjoint_domain(3, &excluded, bfe(1));
    assert_eq!(vec![bfe(4), bfe(5), bfe(6)], ddomain);
}

struct TestTable {
    base: BaseTable<BFieldElement>,
}

impl HasBaseTable<BFieldElement> for TestTable {
    // Ghost-only trait item; never called at runtime.
    fn base_spec(&self) -> BaseTable<BFieldElement> {
        unreachable!()
    }

    fn to_base(&self) -> &BaseTable<BFieldElement> {
        &self.base
    }

    fn push_data_row(&mut self, row: Vec<BFieldElement>) {
        self.base.matrix.push(row);
    }
}

impl BaseTableTrait<BFieldElement> for TestTable {
    fn get_padding_row(&self) -> Vec<BFieldElement> {
        let mut row = Vec::new();
        for _ in 0..self.base.base_width {
            row.push(bfe(0));
        }
        row
    }
}

fn small_table(matrix: Vec<Vec<BFieldElement>>) -> TestTable {
    let width = if matrix.is_empty() { 1 } else { matrix[0].len() };
    TestTable { base: BaseTable::new(width, width + 2, matrix, "test".to_string()) }
}

#[test]
fn pad_reaches_target_height_and_keeps_rows_test() {
    let rows = vec![vec![bfe(7), bfe(8)], vec![bfe(9), bfe(10)]];
    let mut table = small_table(rows.clone());
    table.pad(6);
    assert_eq!(6, table.data().len());
    assert_eq!(rows[0], table.data()[0]);
    assert_eq!(rows[1], table.data()[1]);
    for i in 2usize..6 {
        assert_eq!(vec![bfe(0), bfe(0)], table.data()[i]);
    }
}

#[test]
fn pad_to_current_height_is_a_no_op_test() {
    let rows = vec![vec![bfe(1)], vec![bfe(2)]];
    let mut table = small_table(rows.clone());
    table.pad(2);
    assert_eq!(2, table.data().len());
    assert_eq!(rows[0], table.data()[0]);
    assert_eq!(rows[1], table.data()[1]);
}

#[test]
fn new_leaves_constraints_unset_test() {
    let table: BaseTable<BFieldElement> = BaseTable::new(2, 4, Vec::new(), "t".to_string());
    assert_eq!(2, table.base_width);
    assert_eq!(4, table.full_width);
    assert!(table.boundary_constraints.is_none());
    assert!(table.transition_constraints.is_none());
    assert!(table.consistency_constraints.is_none());
    assert!(table.terminal_constraints.is_none());
    assert!(table.boundary_quotient_degree_bounds.is_none());
    assert!(table.transition_quotient_degree_bounds.is_none());
    assert!(table.consistency_quotient_degree_bounds.is_none());
    assert!(table.terminal_quotient_degree_bounds.is_none());
}

#[test]
fn extension_computes_quotient_degree_bounds_test() {
    let base: BaseTable<BFieldElement> = BaseTable::new(1, 2, Vec::new(), "t".to_string());
    // One constraint of two terms: x^2 * y and y^3. With interpolant degree 4
    // over full_width = 2 variables the symbolic degree bound is
    // max(2*4 + 1*4, 3*4) = 12, so the quotient degree bound is 11.
    let constraint = AirConstraint::new(vec![vec![2, 1], vec![0, 3]]);
    let extended = BaseTable::extension(
        base,
        4,
        vec![constraint],
        Vec::new(),
        Vec::new(),
        Vec::new(),
    );
    assert_eq!(Some(vec![11]), extended.boundary_quotient_degree_bounds);
    assert_eq!(Some(Vec::new()), extended.transition_quotient_degree_bounds);
    assert!(extended.boundary_constraints.is_some());
}

#[test]
fn transition_bound_never_smaller_than_boundary_bound_test() {
    // The same constraint shape is evaluated over full_width variables for a
    // boundary constraint and over 2 * full_width variables for a transition
    // constraint; the transition bound must dominate.
    let shape = vec![vec![1, 0, 1], vec![2]];
    let base: BaseTable<BFieldElement> = BaseTable::new(1, 2, Vec::new(), "t".to_string());
    let extended = BaseTable::extension(
        base,
        4,
        vec![AirConstraint::new(shape.clone())],
        vec![AirConstraint::new(shape)],
        Vec::new(),
        Vec::new(),
    );
    let boundary = extended.boundary_quotient_degree_bounds.unwrap()[0];
    let transition = extended.transition_quotient_degree_bounds.unwrap()[0];
    // Over 2 variables: max(1*4, 2*4) - 1 = 7. Over 4: max(1*4 + 1*4, 2*4) - 1 = 7.
    assert_eq!(7, boundary);
    assert_eq!(7, transition);
    assert!(transition >= boundary);

    let wide_shape = vec![vec![1, 1, 1, 1]];
    let base2: BaseTable<BFieldElement> = BaseTable::new(1, 2, Vec::new(), "t".to_string());
    let extended2 = BaseTable::extension(
        base2,
        4,
        vec![AirConstraint::new(wide_shape.clone())],
        vec![AirConstraint::new(wide_shape)],
        Vec::new(),
        Vec::new(),
    );
    let boundary2 = extended2.boundary_quotient_degree_bounds.unwrap()[0];
    let transition2 = extended2.transition_quotient_degree_bounds.unwrap()[0];
    // Over 2 of the 4 variables: 2*4 - 1 = 7; over all 4: 4*4 - 1 = 15.
    assert_eq!(7, boundary2);
    assert_eq!(15, transition2);
    assert!(transition2 >= boundary2);
}

#[test]
fn with_data_replaces_matrix_and_decorates_name_test() {
    let base: BaseTable<BFieldElement> = BaseTable::new(1, 3, vec![vec![bfe(1)]], "t".to_string());
    let derived = base.with_data(vec![vec![bfe(2)], vec![bfe(3)]]);
    assert_eq!("t with data", derived.name);
    assert_eq!(1, derived.base_width);
    assert_eq!(3, derived.full_width);
    assert_eq!(2, derived.matrix.len());
    assert_eq!(vec![bfe(2)], derived.matrix[0]);
    assert_eq!(vec![bfe(1)], base.matrix[0]);
}

#[test]
fn with_lifted_data_keeps_widths_test() {
    let base: BaseTable<BFieldElement> = BaseTable::new(2, 5, Vec::new(), "t".to_string());
    let lifted: BaseTable<XFieldElement> = base.with_lifted_data(
        vec![vec![XFieldElement::new_const(bfe(1))]],
        3,
    );
    assert_eq!("t with lifted data", lifted.name);
    assert_eq!(2, lifted.base_width);
    assert_eq!(5, lifted.full_width);
    assert_eq!(1, lifted.matrix.len());
    assert!(lifted.boundary_constraints.is_none());
}

#[test]
fn low_degree_extension_produces_full_length_codewords_test() {
    let omicron = BFieldElement::primitive_root_of_unity(4).unwrap();
    let omega = BFieldElement::primitive_root_of_unity(8).unwrap();
    let matrix = vec![
        vec![bfe(1), bfe(10)],
        vec![bfe(2), bfe(20)],
        vec![bfe(3), bfe(30)],
        vec![bfe(4), bfe(40)],
    ];
    let table = small_table(matrix);
    let fri_domain = FriDomain::new(BFieldElement::generator(), omega, 8);
    let codewords = table.low_degree_extension(&fri_domain, omicron, 4, 2, 0..2);
    assert_eq!(2, codewords.len());
    assert_eq!(8, codewords[0].len());
    assert_eq!(8, codewords[1].len());
}

#[test]
fn low_degree_extension_without_randomizers_reproduces_trace_test() {
    // With no trace randomizers and the evaluation domain equal to the
    // omicron domain, the codeword holds exactly the trace values.
    let omicron = BFieldElement::primitive_root_of_unity(4).unwrap();
    let trace = vec![bfe(5), bfe(17), bfe(23), bfe(42)];
    let matrix: Vec<Vec<BFieldElement>> = trace.iter().map(|&v| vec![v]).collect();
    let table = small_table(matrix);
    let fri_domain = FriDomain::new(bfe(1), omicron, 4);
    let codewords = table.low_degree_extension(&fri_domain, omicron, 4, 0, 0..1);
    assert_eq!(1, codewords.len());
    assert_eq!(4, codewords[0].len());
    for value in &trace {
        assert!(codewords[0].contains(value));
    }
}

#[test]
fn interpolate_columns_returns_one_interpolant_per_column_test() {
    let omicron = BFieldElement::primitive_root_of_unity(2).unwrap();
    let matrix = vec![vec![bfe(1), bfe(2)], vec![bfe(3), bfe(4)]];
    let table = small_table(matrix);
    let fri_domain = FriDomain::new(BFieldElement::generator(), omicron, 8);
    let interpolants = table.interpolate_columns(&fri_domain, omicron, 2, 1, 0..2);
    assert_eq!(2, interpolants.len());
}

#[test]
fn table_name_accessor_test() {
    let table = small_table(vec![vec![bfe(1)]]);
    assert_eq!("test", table.name());
    assert_eq!(1, table.base_width());
    assert_eq!(3, table.full_width());
}

#[test]
fn powers_pairwise_distinct_matches_the_root_order_test() {
    let omicron = BFieldElement::primitive_root_of_unity(4).unwrap();
    assert!(powers_pairwise_distinct(&omicron, 4));
    // The fifth power wraps around to omicron^0.
    assert!(!powers_pairwise_distinct(&omicron, 5));
    assert!(!powers_pairwise_distinct(&bfe(1), 2));
    assert!(powers_pairwise_distinct(&bfe(1), 1));
}
