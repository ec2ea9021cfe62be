use ckboots::contract::InputOutputPair;
use ckboots::order::{sort_by_id, text_le};
use ckboots::registration::{
    register_sum, DefaultKind, DefaultMark, RegistrationError, SumLayout, VariantDecl,
};
use ckboots::samples::Person;
use ckboots::{Contract, Frog, OnChain};

#[test]
fn new_contract_has_gathered_nothing() {
    let result = Contract::new("travel").build();
    assert_eq!(result.contract_id, "travel");
    assert!(result.deps.is_empty());
    assert!(result.input_output_data.is_empty());
    assert!(result.user_input.is_none());
}

#[test]
fn built_contract_is_sorted_by_identifier() {
    let mut contract = Contract::new("c");
    contract.add_dep::<Person>();
    contract.add_dep::<Frog>();
    contract.add_dep::<Person>();
    contract.add_input_output(
        Person::onchain_new(1, String::from("a")),
        Person::onchain_new(2, String::from("b")),
    );
    contract.add_input_output(Frog::onchain_new(1, 0), Frog::onchain_new(0, 1));
    contract.add_input_output(Frog::onchain_new(9, 9), Frog::onchain_new(8, 10));
    contract.add_user_input(0x0102u16);
    let result = contract.build();
    assert_eq!(result.deps, vec!["frog", "person", "person"]);
    assert_eq!(result.user_input, Some(vec![2, 1]));
    let ids: Vec<&str> = result.input_output_data.iter().map(|e| e.0).collect();
    assert_eq!(ids, vec!["frog", "frog", "person"]);
    // cells of one identifier stay in the order in which they were noted
    assert_eq!(result.input_output_data[0].1, vec![1, 0]);
    assert_eq!(result.input_output_data[0].2, vec![0, 1]);
    assert_eq!(result.input_output_data[1].1, vec![9, 9]);
    assert_eq!(result.input_output_data[1].2, vec![8, 10]);
    assert_eq!(
        result.input_output_data[2].1,
        Person::onchain_new(1, String::from("a"))._to_bytes()
    );
}

#[test]
fn pair_holds_what_it_was_given() {
    let pair = InputOutputPair::new("frog", vec![1], vec![2, 3]);
    assert_eq!(pair.id, "frog");
    assert_eq!(pair.input, vec![1]);
    assert_eq!(pair.output, vec![2, 3]);
}

#[test]
fn identifiers_are_ordered_by_their_bytes() {
    assert!(text_le("", ""));
    assert!(text_le("", "a"));
    assert!(!text_le("a", ""));
    assert!(text_le("a", "a"));
    assert!(text_le("a", "ab"));
    assert!(!text_le("ab", "a"));
    assert!(text_le("ab", "b"));
    assert!(!text_le("b", "ab"));
    assert!(text_le("Z", "a"));
    assert!(text_le("z", "é"));
    for (a, b) in [("frog", "person"), ("c1", "c10"), ("é", "z"), ("x", "x")] {
        assert_eq!(text_le(a, b), a <= b);
        assert_eq!(text_le(b, a), b <= a);
    }
}

#[test]
fn sorting_identifiers_agrees_with_the_standard_sort() {
    let ids = vec!["c3", "c1", "c2", "", "c10", "b", "c1"];
    let mut expected = ids.clone();
    expected.sort();
    assert_eq!(sort_by_id(ids), expected);
    assert_eq!(sort_by_id(Vec::<&str>::new()), Vec::<&str>::new());
}

fn variant(fields: usize, mark: DefaultMark) -> VariantDecl {
    VariantDecl { fields, mark }
}

#[test]
fn one_marked_variant_registers() {
    let bare = vec![
        variant(0, DefaultMark::Unmarked),
        variant(0, DefaultMark::Marked),
        variant(0, DefaultMark::Unmarked),
    ];
    assert_eq!(
        register_sum(&bare),
        Ok(SumLayout { default_index: 1, kind: DefaultKind::Bare })
    );
    let explicit = vec![
        variant(1, DefaultMark::Unmarked),
        variant(1, DefaultMark::Literal),
        variant(0, DefaultMark::Unmarked),
    ];
    assert_eq!(
        register_sum(&explicit),
        Ok(SumLayout { default_index: 1, kind: DefaultKind::Explicit })
    );
    let field = vec![
        variant(1, DefaultMark::Unmarked),
        variant(1, DefaultMark::Marked),
        variant(0, DefaultMark::Unmarked),
    ];
    assert_eq!(
        register_sum(&field),
        Ok(SumLayout { default_index: 1, kind: DefaultKind::FieldDefault })
    );
    let last_of_256: Vec<VariantDecl> = (0..256)
        .map(|i| variant(0, if i == 255 { DefaultMark::Marked } else { DefaultMark::Unmarked }))
        .collect();
    assert_eq!(
        register_sum(&last_of_256),
        Ok(SumLayout { default_index: 255, kind: DefaultKind::Bare })
    );
}

#[test]
fn wrong_declarations_are_rejected() {
    assert_eq!(register_sum(&vec![]), Err(RegistrationError::NoVariants));
    let too_many: Vec<VariantDecl> = (0..257).map(|_| variant(0, DefaultMark::Marked)).collect();
    assert_eq!(register_sum(&too_many), Err(RegistrationError::TooManyVariants));
    assert_eq!(
        register_sum(&vec![variant(0, DefaultMark::Marked), variant(2, DefaultMark::Unmarked)]),
        Err(RegistrationError::TooManyFields)
    );
    assert_eq!(
        register_sum(&vec![variant(0, DefaultMark::Unmarked), variant(1, DefaultMark::Unmarked)]),
        Err(RegistrationError::NoDefault)
    );
    assert_eq!(
        register_sum(&vec![variant(0, DefaultMark::Marked), variant(1, DefaultMark::Marked)]),
        Err(RegistrationError::SeveralDefaults)
    );
    assert_eq!(
        register_sum(&vec![variant(1, DefaultMark::Literal), variant(1, DefaultMark::Literal)]),
        Err(RegistrationError::SeveralDefaults)
    );
    assert_eq!(
        register_sum(&vec![variant(0, DefaultMark::Literal), variant(0, DefaultMark::Marked)]),
        Err(RegistrationError::ExplicitWithoutField)
    );
    // the marks are read in the order of the variants
    assert_eq!(
        register_sum(&vec![
            variant(0, DefaultMark::Marked),
            variant(0, DefaultMark::Marked),
            variant(0, DefaultMark::Literal),
        ]),
        Err(RegistrationError::SeveralDefaults)
    );
    assert_eq!(
        register_sum(&vec![variant(0, DefaultMark::Marked), variant(0, DefaultMark::Literal)]),
        Err(RegistrationError::ExplicitWithoutField)
    );
}
