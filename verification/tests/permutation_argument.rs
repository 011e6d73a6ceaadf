use triton_vm::arguments::permutation_argument::PermArg;
use triton_vm::fri_domain::FriDomain;
use triton_vm::table::table_collection::ExtTableCollection;
use triton_vm::table::table_collection::TableId;
use twenty_first::math::b_field_element::BFieldElement;
use twenty_first::math::x_field_element::XFieldElement;

fn xfe(n: u64) -> XFieldElement {
    XFieldElement::new_const(BFieldElement::new(n))
}

#[test]
fn all_permutation_arguments_link_from_processor_table_test() {
    for perm_arg in PermArg::all_permutation_arguments() {
        assert_eq!(TableId::ProcessorTable, perm_arg.from_table);
    }
}

#[test]
fn all_permutation_arguments_has_five_members_test() {
    assert_eq!(5, PermArg::all_permutation_arguments().len());
}

#[test]
fn perm_arg_constructors_name_their_tables_test() {
    let instruction = PermArg::processor_instruction_perm_arg();
    assert_eq!(TableId::ProcessorTable, instruction.from_table);
    assert_eq!(TableId::InstructionTable, instruction.to_table);

    let jump_stack = PermArg::processor_jump_stack_perm_arg();
    assert_eq!(TableId::ProcessorTable, jump_stack.from_table);
    assert_eq!(TableId::JumpStackTable, jump_stack.to_table);

    let op_stack = PermArg::processor_op_stack_perm_arg();
    assert_eq!(TableId::ProcessorTable, op_stack.from_table);
    assert_eq!(TableId::OpStackTable, op_stack.to_table);

    let ram = PermArg::processor_ram_perm_arg();
    assert_eq!(TableId::ProcessorTable, ram.from_table);
    assert_eq!(TableId::RamTable, ram.to_table);

    let u32_op = PermArg::processor_u32_perm_arg();
    assert_eq!(TableId::ProcessorTable, u32_op.from_table);
    assert_eq!(TableId::U32OpTable, u32_op.to_table);
}

#[test]
fn perm_arg_new_stores_endpoints_test() {
    let arg = PermArg::new(TableId::ProcessorTable, 3, TableId::RamTable, 1);
    assert_eq!(TableId::ProcessorTable, arg.from_table);
    assert_eq!(3, arg.from_column);
    assert_eq!(TableId::RamTable, arg.to_table);
    assert_eq!(1, arg.to_column);
}

fn collection_with_two_codewords(
    lhs: Vec<XFieldElement>,
    rhs: Vec<XFieldElement>,
) -> ExtTableCollection {
    let mut columns: Vec<Vec<Vec<XFieldElement>>> = Vec::new();
    for _ in 0..8 {
        columns.push(Vec::new());
    }
    columns[TableId::ProcessorTable.index()] = vec![lhs];
    columns[TableId::InstructionTable.index()] = vec![rhs];
    ExtTableCollection::new(columns, 9)
}

#[test]
fn quotient_divides_difference_by_zerofier_test() {
    // Domain of length 2 with omega = 1 and offset = 3: both domain points
    // are 3, so the zerofier value is 2 everywhere.
    let fri_domain = FriDomain::new(xfe(3), xfe(1), 2);
    let lhs = vec![xfe(11), xfe(20)];
    let rhs = vec![xfe(5), xfe(2)];
    let tables = collection_with_two_codewords(lhs.clone(), rhs.clone());
    let arg = PermArg::new(TableId::ProcessorTable, 0, TableId::InstructionTable, 0);

    let quotient = arg.quotient(&tables, &fri_domain);

    assert_eq!(2, quotient.len());
    let inverse_zerofier = xfe(2).inverse();
    for i in 0..2 {
        assert_eq!((lhs[i] - rhs[i]) * inverse_zerofier, quotient[i]);
    }
}

#[test]
fn quotient_degree_bound_is_one_less_than_interpolant_degree_test() {
    let tables = collection_with_two_codewords(Vec::new(), Vec::new());
    let arg = PermArg::processor_instruction_perm_arg();
    assert_eq!(8, arg.quotient_degree_bound(&tables));
}

#[test]
fn evaluate_difference_subtracts_endpoint_values_test() {
    let mut points: Vec<Vec<XFieldElement>> = Vec::new();
    for _ in 0..8 {
        points.push(vec![xfe(0)]);
    }
    points[TableId::ProcessorTable.index()] = vec![xfe(13)];
    points[TableId::InstructionTable.index()] = vec![xfe(4)];
    let arg = PermArg::new(TableId::ProcessorTable, 0, TableId::InstructionTable, 0);
    assert_eq!(xfe(13) - xfe(4), arg.evaluate_difference(&points));
}

#[test]
fn quotient_checked_returns_codeword_when_anchor_is_off_domain_test() {
    let fri_domain = FriDomain::new(xfe(3), xfe(1), 2);
    let lhs = vec![xfe(11), xfe(20)];
    let rhs = vec![xfe(5), xfe(2)];
    let tables = collection_with_two_codewords(lhs.clone(), rhs.clone());
    let arg = PermArg::new(TableId::ProcessorTable, 0, TableId::InstructionTable, 0);
    let quotient = arg.quotient_checked(&tables, &fri_domain).unwrap();
    assert_eq!(arg.quotient(&tables, &fri_domain), quotient);
}

#[test]
fn quotient_checked_refuses_domain_hitting_the_anchor_test() {
    // With offset 1 and omega 1 every domain value is 1, the anchor point of
    // the zerofier, so no quotient exists.
    let fri_domain = FriDomain::new(xfe(1), xfe(1), 2);
    let tables = collection_with_two_codewords(vec![xfe(1), xfe(2)], vec![xfe(3), xfe(4)]);
    let arg = PermArg::new(TableId::ProcessorTable, 0, TableId::InstructionTable, 0);
    assert!(arg.quotient_checked(&tables, &fri_domain).is_none());
}
