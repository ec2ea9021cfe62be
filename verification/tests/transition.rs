use ckboots::transition::{
    check_output, exit_code, from_sys_error, load_input, verify_transition, Error, SysErrorKind,
};
use ckboots::travel::{can_travel, travel, Travel};
use ckboots::{Frog, OnChain, OnChainWrapper};

fn cell(idx: u8, frog: &Frog) -> Vec<u8> {
    OnChainWrapper { idx, data: frog._to_bytes() }._to_bytes()
}

fn one_travel(mut frog: Frog) -> Frog {
    travel(&mut frog);
    frog
}

#[test]
fn matching_output_is_accepted() {
    let input = cell(7, &Frog::onchain_new(100, 0));
    let output = cell(7, &Frog::onchain_new(99, 1));
    assert_eq!(verify_transition::<Frog, _>(&input, one_travel, &output), Ok(()));
}

#[test]
fn other_output_tag_is_a_type_mismatch() {
    let input = cell(7, &Frog::onchain_new(100, 0));
    let output = cell(8, &Frog::onchain_new(99, 1));
    assert_eq!(
        verify_transition::<Frog, _>(&input, one_travel, &output),
        Err(Error::TypeMismatch)
    );
}

#[test]
fn corrupted_output_payload_is_an_equality_violation() {
    let input = cell(7, &Frog::onchain_new(100, 0));
    let mut output = cell(7, &Frog::onchain_new(99, 1));
    let last = output.len() - 1;
    output[last] ^= 1;
    assert_eq!(
        verify_transition::<Frog, _>(&input, one_travel, &output),
        Err(Error::EqualityViolation)
    );
}

#[test]
fn type_mismatch_comes_before_the_payload_is_read() {
    let input = cell(7, &Frog::onchain_new(100, 0));
    // tag 8 and a payload too short for a frog
    let output = OnChainWrapper { idx: 8, data: vec![1] }._to_bytes();
    assert_eq!(
        verify_transition::<Frog, _>(&input, one_travel, &output),
        Err(Error::TypeMismatch)
    );
}

#[test]
fn undecodable_cells_are_decode_errors() {
    let good = cell(7, &Frog::onchain_new(100, 0));
    let after = cell(7, &Frog::onchain_new(99, 1));
    assert_eq!(
        verify_transition::<Frog, _>(&good[..5], one_travel, &after),
        Err(Error::Decode)
    );
    assert_eq!(
        verify_transition::<Frog, _>(&good, one_travel, &after[..after.len() - 1]),
        Err(Error::Decode)
    );
    let short = OnChainWrapper { idx: 7, data: vec![1] }._to_bytes();
    assert_eq!(
        verify_transition::<Frog, _>(&short, one_travel, &after),
        Err(Error::Decode)
    );
    assert_eq!(
        verify_transition::<Frog, _>(&good, one_travel, &short),
        Err(Error::Decode)
    );
    assert_eq!(verify_transition::<Frog, _>(&[], one_travel, &after), Err(Error::Decode));
}

#[test]
fn input_is_loaded_with_its_tag() {
    let input = cell(7, &Frog::onchain_new(3, 4));
    let (id, frog) = load_input::<Frog>(&input).unwrap();
    assert_eq!(id, 7);
    assert_eq!(frog.physical, 3);
    assert_eq!(frog.traval_cnt, 4);
    assert!(matches!(load_input::<Frog>(&[1, 2, 3]), Err(Error::Decode)));
}

#[test]
fn output_is_checked_step_by_step() {
    let expected = Frog::onchain_new(99, 1);
    assert_eq!(check_output(7, &expected, &cell(7, &expected)), Ok(()));
    assert_eq!(
        check_output(7, &expected, &cell(6, &expected)),
        Err(Error::TypeMismatch)
    );
    assert_eq!(
        check_output(7, &expected, &cell(7, &Frog::onchain_new(99, 2))),
        Err(Error::EqualityViolation)
    );
    assert_eq!(check_output(7, &expected, &[0; 3]), Err(Error::Decode));
}

#[test]
fn exit_codes() {
    assert_eq!(exit_code(Ok(())), 0);
    assert_eq!(exit_code(Err(Error::IndexOutOfBound)), 1);
    assert_eq!(exit_code(Err(Error::ItemMissing)), 2);
    assert_eq!(exit_code(Err(Error::LengthNotEnough)), 3);
    assert_eq!(exit_code(Err(Error::TypeMismatch)), 4);
    assert_eq!(exit_code(Err(Error::Decode)), 5);
    assert_eq!(exit_code(Err(Error::EqualityViolation)), 6);
    assert_eq!(exit_code(Err(Error::MissingIdentifier)), 7);
    assert_eq!(exit_code(Err(Error::WrongContractId)), 8);
    assert_eq!(exit_code(Err(Error::ContractTypeScriptMissing)), 9);
}

#[test]
fn frog_travels_while_it_has_strength() {
    let mut frog = Frog::onchain_new(1, 0);
    assert!(can_travel(&frog));
    travel(&mut frog);
    assert_eq!(frog.physical, 0);
    assert_eq!(frog.traval_cnt, 1);
    assert!(!can_travel(&frog));
    assert!(!can_travel(&Frog::onchain_new(5, 255)));
}

#[test]
fn test_new_travel_entry() {
    let frog = Frog { physical: 1, traval_cnt: 0 };
    let bytes = frog._to_bytes();
    let entry = Travel::new(&vec![&bytes[..]]).unwrap();
    let result = entry.run();
    let (id, input, output) = result.input_output_data.iter().next().unwrap();
    assert_eq!(*id, "frog");
    assert_eq!(input, &bytes);
    let (new_frog, _) = ckboots::consume_and_decode::<Frog>(output).unwrap();
    assert_eq!(new_frog.physical, 0);
    assert_eq!(new_frog.traval_cnt, 1);
    assert_eq!(Travel::_get_args_ids(), vec!["frog"]);
    assert_eq!(Travel::_id(), "travel");
    assert_eq!(result.contract_id, "travel");
    assert!(result.deps.is_empty());
    assert!(result.user_input.is_none());
    assert_eq!(result.input_output_data.len(), 1);
}

#[test]
fn travel_entry_needs_a_frog() {
    assert!(Travel::new(&vec![]).is_none());
    assert!(Travel::new(&vec![&[1u8][..]]).is_none());
}

#[test]
fn failures_of_the_cell_source() {
    assert_eq!(from_sys_error(SysErrorKind::IndexOutOfBound), Error::IndexOutOfBound);
    assert_eq!(from_sys_error(SysErrorKind::ItemMissing), Error::ItemMissing);
    assert_eq!(from_sys_error(SysErrorKind::LengthNotEnough), Error::LengthNotEnough);
    assert_eq!(from_sys_error(SysErrorKind::Encoding), Error::Decode);
}
