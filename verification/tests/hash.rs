use ckboots::hash::{
    check_output_contract, digest_matches, get_onchain_type_args, get_type_script_hash,
    hash_with_name, HASH_TYPE_TYPE,
};
use ckboots::transition::Error;
use ckb_types::packed::Script;
use ckb_types::prelude::{Builder, Pack};
use molecule::prelude::Entity;

fn streamed(parts: &[&[u8]]) -> [u8; 32] {
    let mut blake2b = blake2b_rs::Blake2bBuilder::new(32)
        .personal(b"ckb-default-hash")
        .build();
    for part in parts {
        blake2b.update(part);
    }
    let mut result = [0; 32];
    blake2b.finalize(&mut result);
    result
}

#[test]
fn type_args_are_the_digest_of_hash_and_name() {
    let input_hash = [7u8; 32];
    let args = get_onchain_type_args(&input_hash, "app_name");
    assert_eq!(args, streamed(&[&input_hash, b"app_name"]));
    assert_ne!(args, input_hash);
    assert_ne!(args, get_onchain_type_args(&input_hash, "app_nam"));
    assert_ne!(args, get_onchain_type_args(&[8u8; 32], "app_name"));
}

#[test]
fn type_args_of_a_known_input() {
    // the digest of 32 zero bytes alone
    let args = get_onchain_type_args(&[0u8; 32], "");
    assert_eq!(args, ckb_hash::blake2b_256([0u8; 32]));
}

#[test]
fn type_script_hash_is_that_of_the_built_script() {
    let code_hash = [1u8; 32];
    let input_hash = [2u8; 32];
    let hash = get_type_script_hash(&code_hash, &input_hash, "app");
    let args = get_onchain_type_args(&input_hash, "app");
    let script = Script::new_builder()
        .code_hash(code_hash.pack())
        .args(args[..].pack())
        .hash_type(ckb_types::core::ScriptHashType::Type)
        .build();
    assert_eq!(&hash[..], script.calc_script_hash().as_slice());
    assert_ne!(hash, code_hash);
    assert_ne!(hash, args);
    assert_ne!(hash, get_type_script_hash(&[3u8; 32], &input_hash, "app"));
    // a script of another hash type has another hash
    let data_script = Script::new_builder()
        .code_hash(code_hash.pack())
        .args(args[..].pack())
        .hash_type(ckb_types::core::ScriptHashType::Data)
        .build();
    assert_ne!(&hash[..], data_script.calc_script_hash().as_slice());
    let hash_type: u8 = ckb_types::core::ScriptHashType::Type.into();
    assert_eq!(HASH_TYPE_TYPE, hash_type);
}

#[test]
fn digest_of_a_head_and_a_name() {
    assert_eq!(hash_with_name(b"ab", "cd"), ckb_hash::blake2b_256(b"abcd"));
    assert_eq!(hash_with_name(b"", ""), ckb_hash::BLANK_HASH);
    assert_ne!(hash_with_name(b"ab", "cd"), hash_with_name(b"ab", "ce"));
}

#[test]
fn contract_output_is_checked_against_its_identifier() {
    let app = [5u8; 32];
    let right = streamed(&[&app, b"c1"]);
    assert_eq!(check_output_contract(&app, "c1", &right), Ok(()));
    assert_eq!(
        check_output_contract(&app, "c2", &right),
        Err(Error::WrongContractId)
    );
    let mut wrong = right;
    wrong[31] ^= 1;
    assert_eq!(
        check_output_contract(&app, "c1", &wrong),
        Err(Error::WrongContractId)
    );
}

#[test]
fn digests_match_byte_by_byte() {
    let a = [9u8; 32];
    let mut b = a;
    assert_eq!(digest_matches(&a, &b), Ok(()));
    b[0] = 0;
    assert_eq!(digest_matches(&a, &b), Err(Error::WrongContractId));
}
