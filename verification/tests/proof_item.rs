use triton_vm::proof_item::Item;
use triton_vm::proof_item::ItemKind;
use triton_vm::proof_item::PartialAuthenticationPath;
use triton_vm::table::challenges_endpoints::AllEndpoints;
use twenty_first::math::b_field_element::BFieldElement;
use twenty_first::math::x_field_element::XFieldElement;

fn bfe(n: u64) -> BFieldElement {
    BFieldElement::new(n)
}

fn xfe3(a: u64, b: u64, c: u64) -> XFieldElement {
    XFieldElement::new([bfe(a), bfe(b), bfe(c)])
}

#[test]
fn merkle_root_flattens_to_itself_test() {
    let root = vec![bfe(1), bfe(2), bfe(3)];
    assert_eq!(root.clone(), Item::MerkleRoot(root).flatten());
}

#[test]
fn shared_padded_height_flattens_to_one_element_test() {
    assert_eq!(vec![bfe(42)], Item::SharedPaddedHeight(bfe(42)).flatten());
}

#[test]
fn transposed_base_elements_flatten_unchanged_test() {
    let bs = vec![bfe(9), bfe(8)];
    assert_eq!(bs.clone(), Item::TransposedBaseElements(bs).flatten());
}

#[test]
fn revealed_combination_element_flattens_to_three_coefficients_test() {
    let item = Item::RevealedCombinationElement(xfe3(7, 8, 9));
    assert_eq!(vec![bfe(7), bfe(8), bfe(9)], item.flatten());
}

#[test]
fn transposed_extension_elements_flatten_in_element_order_test() {
    let item = Item::TransposedExtensionElements(vec![xfe3(1, 2, 3), xfe3(4, 5, 6)]);
    let expected = vec![bfe(1), bfe(2), bfe(3), bfe(4), bfe(5), bfe(6)];
    assert_eq!(expected, item.flatten());
}

#[test]
fn fri_codeword_flattens_in_element_order_test() {
    let item = Item::FriCodeword(vec![xfe3(1, 0, 0), xfe3(0, 1, 0)]);
    let expected = vec![bfe(1), bfe(0), bfe(0), bfe(0), bfe(1), bfe(0)];
    assert_eq!(expected, item.flatten());
}

#[test]
fn authentication_path_flattens_rows_in_order_test() {
    let item = Item::AuthenticationPath(vec![vec![bfe(1), bfe(2)], vec![bfe(3)]]);
    assert_eq!(vec![bfe(1), bfe(2), bfe(3)], item.flatten());
}

#[test]
fn transposed_base_element_vectors_flatten_rows_in_order_test() {
    let item = Item::TransposedBaseElementVectors(vec![vec![bfe(5)], vec![bfe(6), bfe(7)]]);
    assert_eq!(vec![bfe(5), bfe(6), bfe(7)], item.flatten());
}

#[test]
fn transposed_extension_element_vectors_flatten_nested_test() {
    let item = Item::TransposedExtensionElementVectors(vec![
        vec![xfe3(1, 2, 3)],
        vec![xfe3(4, 5, 6)],
    ]);
    let expected = vec![bfe(1), bfe(2), bfe(3), bfe(4), bfe(5), bfe(6)];
    assert_eq!(expected, item.flatten());
}

#[test]
fn terminals_flatten_to_coefficients_test() {
    let endpoints = AllEndpoints::new(vec![xfe3(1, 2, 3)]);
    assert_eq!(vec![bfe(1), bfe(2), bfe(3)], Item::Terminals(endpoints).flatten());
}

#[test]
fn compressed_authentication_paths_skip_absent_nodes_test() {
    let path = PartialAuthenticationPath::new(vec![
        Some(vec![bfe(1), bfe(2)]),
        None,
        Some(vec![bfe(3)]),
    ]);
    let other = PartialAuthenticationPath::new(vec![None, Some(vec![bfe(4)])]);
    let item = Item::CompressedAuthenticationPaths(vec![path, other]);
    assert_eq!(vec![bfe(1), bfe(2), bfe(3), bfe(4)], item.flatten());
}

#[test]
fn fri_proof_flattens_path_then_value_test() {
    let path = PartialAuthenticationPath::new(vec![Some(vec![bfe(1)]), None]);
    let item = Item::FriProof(vec![(path, xfe3(2, 3, 4))]);
    assert_eq!(vec![bfe(1), bfe(2), bfe(3), bfe(4)], item.flatten());
}

#[test]
fn flattening_is_deterministic_per_payload_test() {
    let first = Item::TransposedExtensionElements(vec![xfe3(1, 2, 3)]).flatten();
    let second = Item::TransposedExtensionElements(vec![xfe3(1, 2, 3)]).flatten();
    assert_eq!(first, second);
}

#[test]
fn typed_accessors_succeed_on_their_own_variant_test() {
    let root = vec![bfe(1)];
    assert_eq!(root.clone(), Item::MerkleRoot(root.clone()).as_merkle_root().unwrap());

    let bs = vec![bfe(2)];
    assert_eq!(
        bs.clone(),
        Item::TransposedBaseElements(bs.clone()).as_transposed_base_elements().unwrap()
    );

    let xs = vec![xfe3(1, 2, 3)];
    assert_eq!(
        xs.clone(),
        Item::TransposedExtensionElements(xs.clone())
            .as_transposed_extension_elements()
            .unwrap()
    );
    assert_eq!(xs.clone(), Item::FriCodeword(xs.clone()).as_fri_codeword().unwrap());
    assert_eq!(
        xs.clone(),
        Item::RevealedCombinationElements(xs.clone())
            .as_revealed_combination_elements()
            .unwrap()
    );

    let x = xfe3(4, 5, 6);
    assert_eq!(
        x,
        Item::RevealedCombinationElement(x).as_revealed_combination_element().unwrap()
    );

    let bss = vec![vec![bfe(3)], vec![bfe(4)]];
    assert_eq!(
        bss.clone(),
        Item::AuthenticationPath(bss.clone()).as_authentication_path().unwrap()
    );
    assert_eq!(
        bss.clone(),
        Item::TransposedBaseElementVectors(bss.clone())
            .as_transposed_base_element_vectors()
            .unwrap()
    );

    let xss = vec![vec![xfe3(1, 1, 1)]];
    assert_eq!(
        xss.clone(),
        Item::TransposedExtensionElementVectors(xss.clone())
            .as_transposed_extension_element_vectors()
            .unwrap()
    );

    let terminals = AllEndpoints::new(vec![xfe3(9, 9, 9)]);
    let recovered = Item::Terminals(terminals).as_terminals().unwrap();
    assert_eq!(vec![xfe3(9, 9, 9)], recovered.terminals);

    assert_eq!(
        bfe(7),
        Item::SharedPaddedHeight(bfe(7)).as_shared_padded_height().unwrap()
    );

    let path = PartialAuthenticationPath::new(vec![Some(vec![bfe(1)])]);
    let caps = Item::CompressedAuthenticationPaths(vec![path]);
    let recovered_paths = caps.as_compressed_authentication_paths().unwrap();
    assert_eq!(1, recovered_paths.len());
    assert_eq!(vec![Some(vec![bfe(1)])], recovered_paths[0].nodes);

    let fri_path = PartialAuthenticationPath::new(vec![None]);
    let fri = Item::FriProof(vec![(fri_path, xfe3(1, 2, 3))]);
    let recovered_fri = fri.as_fri_proof().unwrap();
    assert_eq!(1, recovered_fri.len());
    assert_eq!(xfe3(1, 2, 3), recovered_fri[0].1);
}

#[test]
fn typed_accessors_fail_on_any_other_variant_test() {
    let item = Item::SharedPaddedHeight(bfe(1));
    let err = item.as_merkle_root().unwrap_err();
    assert_eq!(ItemKind::MerkleRoot, err.expected);
    assert_eq!(ItemKind::SharedPaddedHeight, err.found);

    let root_item = Item::MerkleRoot(vec![bfe(1)]);
    assert!(root_item.as_compressed_authentication_paths().is_err());
    assert!(root_item.as_transposed_base_element_vectors().is_err());
    assert!(root_item.as_transposed_extension_element_vectors().is_err());
    assert!(root_item.as_terminals().is_err());
    assert!(root_item.as_transposed_base_elements().is_err());
    assert!(root_item.as_transposed_extension_elements().is_err());
    assert!(root_item.as_authentication_path().is_err());
    assert!(root_item.as_revealed_combination_element().is_err());
    assert!(root_item.as_revealed_combination_elements().is_err());
    assert!(root_item.as_fri_codeword().is_err());
    assert!(root_item.as_fri_proof().is_err());
    assert!(root_item.as_shared_padded_height().is_err());

    let err2 = root_item.as_fri_codeword().unwrap_err();
    assert_eq!(ItemKind::FriCodeword, err2.expected);
    assert_eq!(ItemKind::MerkleRoot, err2.found);
}
