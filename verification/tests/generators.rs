use ckboots::generators::{
    decimal_text, generate_contract, get_capsule_toml, get_cargo_toml, get_contract_code,
    get_contract_cargo_toml, get_error_code, get_main_content, get_prelude, get_toolchain,
    get_types_cargo_toml, get_types_content, get_utils, load_cell_deps, load_input,
    load_output, load_user_input, ordered_names, trim_quotes,
};

fn pair(ident: &str, type_path: &str) -> (String, String) {
    (ident.to_string(), type_path.to_string())
}

#[test]
fn quotes_around_a_name_are_trimmed() {
    assert_eq!(trim_quotes("\"frog\""), "frog");
    assert_eq!(trim_quotes("frog"), "frog");
    assert_eq!(trim_quotes("\"\"fr\"og\"\"\""), "fr\"og");
    assert_eq!(trim_quotes("\"\"\""), "");
    assert_eq!(trim_quotes(""), "");
    assert_eq!(trim_quotes("\"é\""), "é");
    for s in ["\"a", "a\"", "\"", "a\"b", "\"\"a\"\""] {
        assert_eq!(trim_quotes(s), s.trim_matches('"'));
    }
}

#[test]
fn numbers_are_written_in_decimal() {
    assert_eq!(decimal_text(0), "0");
    assert_eq!(decimal_text(7), "7");
    assert_eq!(decimal_text(10), "10");
    assert_eq!(decimal_text(1234567890), "1234567890");
    assert_eq!(decimal_text(usize::MAX), usize::MAX.to_string());
}

#[test]
fn capsule_manifest_lists_the_contracts() {
    assert_eq!(
        get_capsule_toml(&[]),
        "version = \"0.9.0\"\ndeployment = \"deployment.toml\"\n\n[[contract]]\nname = \"_entry\"\ntemplate_type = \"Rust\"\n"
    );
    assert_eq!(
        get_capsule_toml(&["travel", "rest"]),
        "version = \"0.9.0\"\ndeployment = \"deployment.toml\"\n\n[[contract]]\nname = \"_entry\"\ntemplate_type = \"Rust\"\n[[contracts]]\nname = \"travel\"\ntemplate_type = \"Rust\"\n[[contracts]]\nname = \"rest\"\ntemplate_type = \"Rust\"\n"
    );
}

#[test]
fn workspace_manifest_lists_the_members() {
    assert_eq!(
        get_cargo_toml(&["travel"]),
        "\n[workspace]\nmembers = [\"contracts/types\", \"contracts/_entry\",\"contracts/travel\",]\n\n[profile.release]\noverflow-checks = true\nopt-level = 's'\nlto = false\ncodegen-units = 1\npanic = 'abort'\n"
    );
    assert_eq!(
        get_cargo_toml(&[]),
        "\n[workspace]\nmembers = [\"contracts/types\", \"contracts/_entry\",]\n\n[profile.release]\noverflow-checks = true\nopt-level = 's'\nlto = false\ncodegen-units = 1\npanic = 'abort'\n"
    );
}

#[test]
fn cell_deps_are_loaded_by_place() {
    assert_eq!(load_cell_deps(&[]), "");
    let text = load_cell_deps(&[pair("\"pond\"", "\"Pond\""), pair("sky", "weather::Sky")]);
    let expected = format!(
        "
let bytes = types::load_cell_deps_data({idx})?;
let wrapper = <types::OnChainWrapper as types::OnChain>::_from_bytes(&bytes).ok_or(crate::error::Error::Encoding)?;
let bytes = wrapper.data;
let {ident} = <types::{type_path} as types::OnChain>::_from_bytes(&bytes).ok_or(crate::error::Error::Encoding)?;
",
        idx = 0,
        ident = "pond",
        type_path = "Pond"
    ) + &format!(
        "
let bytes = types::load_cell_deps_data({idx})?;
let wrapper = <types::OnChainWrapper as types::OnChain>::_from_bytes(&bytes).ok_or(crate::error::Error::Encoding)?;
let bytes = wrapper.data;
let {ident} = <types::{type_path} as types::OnChain>::_from_bytes(&bytes).ok_or(crate::error::Error::Encoding)?;
",
        idx = 1,
        ident = "sky",
        type_path = "weather::Sky"
    );
    assert_eq!(text, expected);
}

#[test]
fn user_input_is_loaded_when_there_is_one() {
    assert_eq!(load_user_input(None), "");
    assert_eq!(
        load_user_input(Some(pair("\"steps\"", "u8"))),
        "\nlet bytes = types::load_user_input();\nlet steps = <types::u8 as types::OnChain>::_from_bytes(&bytes).ok_or(crate::error::Error::Encoding)?;\n"
    );
}

#[test]
fn inputs_are_loaded_and_outputs_checked() {
    assert_eq!(
        load_input(&[pair("frog", "Frog")]),
        "\nlet bytes = types::load_input_data(0)?;\nlet wrapper = <types::OnChainWrapper as types::OnChain>::_from_bytes(&bytes).ok_or(crate::error::Error::Encoding)?;\nlet input_id = wrapper.id;\nlet bytes = wrapper.data;\nlet mut frog = <types::Frog as types::OnChain>::_from_bytes(&bytes).ok_or(crate::error::Error::Encoding)?;\n"
    );
    assert_eq!(
        load_output(&[pair("frog", "Frog")]),
        "\nlet bytes = types::load_output_data(0)?;\nlet wrapper = <types::OnChainWrapper as types::OnChain>::_from_bytes(&bytes).ok_or(crate::error::Error::Encoding)?;\nlet output_id = wrapper.id;\nif input_id != output_id {\n    return Err(crate::error::Error::TypeError);\n}\nlet frog_output = <types::Frog as types::OnChain>::_from_bytes(&bytes).ok_or(crate::error::Error::Encoding)?;\nif !frog._eq(&frog_output) {\n    return Err(crate::error::Error::NotEqual);\n}\n"
    );
    assert_eq!(load_input(&[]), "");
    assert_eq!(load_output(&[]), "");
}

#[test]
fn contract_code_puts_the_pieces_around_the_body() {
    let cell_deps = [pair("pond", "Pond")];
    let inputs = [pair("\"frog\"", "\"Frog\"")];
    let user_input = Some(pair("steps", "u8"));
    let code = String::from("{ frog . physical -= 1 ; }");
    let text = get_contract_code(&cell_deps, &inputs, user_input.clone(), code.clone());
    let content = format!(
        "{}\n\n{}\n\n{}\n\n{}\n\n{}\n",
        load_cell_deps(&cell_deps),
        load_user_input(user_input),
        load_input(&inputs),
        code,
        load_output(&inputs)
    );
    let expected = format!(
        "
// Import from `core` instead of from `std` since we are in no-std mode
use core::result::Result;

// Import heap related library from `alloc`
// https://doc.rust-lang.org/alloc/index.html
use alloc::{{vec, vec::Vec}};
use crate::error::Error;
use types::OnChain;

pub fn main() -> Result<(), Error> {{
    {content}
    Ok(())
}}
"
    );
    assert_eq!(text, expected);
}

#[test]
fn contract_code_of_nothing() {
    assert_eq!(
        get_contract_code(&[], &[], None, String::new()),
        "\n// Import from `core` instead of from `std` since we are in no-std mode\nuse core::result::Result;\n\n// Import heap related library from `alloc`\n// https://doc.rust-lang.org/alloc/index.html\nuse alloc::{vec, vec::Vec};\nuse crate::error::Error;\nuse types::OnChain;\n\npub fn main() -> Result<(), Error> {\n    \n\n\n\n\n\n\n\n\n\n    Ok(())\n}\n"
    );
}

#[test]
fn utils_load_the_three_kinds_of_cells() {
    let text = get_utils();
    assert!(text.starts_with("\nuse ckb_std::ckb_constants::Source;\n"));
    assert!(text.contains("pub fn load_cell_deps_data(idx: usize) -> Result<Vec<u8>, SysError> {\n    load_cell_data(idx, Source::CellDep)\n}"));
    assert!(text.contains("pub fn load_input_data(idx: usize) -> Result<Vec<u8>, SysError> {\n    load_cell_data(idx, Source::Input)\n}"));
    assert!(text.ends_with("pub fn load_output_data(idx: usize) -> Result<Vec<u8>, SysError> {\n    load_cell_data(idx, Source::Output)\n}\n"));
    assert_eq!(text.len(), 443);
}

#[test]
fn names_follow_the_order_of_the_identifiers() {
    let names = vec![pair("p", "Pond"), pair("f", "Frog"), pair("q", "Pond")];
    let ids = vec![("pond", 0), ("frog", 1), ("pond", 2)];
    assert_eq!(
        ordered_names(ids, &names),
        vec![pair("f", "Frog"), pair("p", "Pond"), pair("q", "Pond")]
    );
    assert_eq!(ordered_names(vec![], &names), vec![]);
    assert_eq!(
        ordered_names(vec![("b", 2), ("a", 2)], &names),
        vec![pair("q", "Pond"), pair("q", "Pond")]
    );
}

#[test]
fn generated_contract_takes_its_arguments_by_identifier() {
    let deps_names = vec![pair("sky", "Sky"), pair("pond", "Pond")];
    let updates_names = vec![pair("frog", "Frog")];
    let code = String::from("{ }");
    let text = generate_contract(
        vec![("sky", 0), ("pond", 1)],
        &deps_names,
        vec![("frog", 0)],
        &updates_names,
        None,
        code.clone(),
    );
    let expected = get_contract_code(
        &[pair("pond", "Pond"), pair("sky", "Sky")],
        &[pair("frog", "Frog")],
        None,
        code,
    );
    assert_eq!(text, expected);
    assert!(text.contains("load_cell_deps_data(0)?;\nlet wrapper"));
    let pond = text.find("let pond = <types::Pond").unwrap();
    let sky = text.find("let sky = <types::Sky").unwrap();
    assert!(pond < sky);
}

#[test]
fn fixed_files_of_the_contract_project() {
    let error = get_error_code();
    assert!(error.starts_with("\nuse ckb_std::error::SysError;\n\n/// Error\n#[repr(i8)]\npub enum Error {\n    IndexOutOfBound = 1,\n    ItemMissing,\n    LengthNotEnough,\n    TypeError,\n    Encoding,\n    NotEqual,\n}\n"));
    assert!(error.ends_with("}\n\n    "));
    assert_eq!(error.len(), 592);
    let main = get_main_content();
    assert!(main.starts_with("\n#![no_std]\n#![no_main]\n"));
    assert!(main.contains("ckb_std::entry!(program_entry);\ndefault_alloc!();\n"));
    assert!(main.ends_with("        Err(err) => err as i8,\n    }\n}\n\n"));
    assert_eq!(main.len(), 433);
    let prelude = get_prelude();
    assert!(prelude.starts_with("#![no_std]\n#[allow(unused_imports)]\nuse core::option::Option::Some;\n"));
    assert!(prelude.ends_with("use alloc::vec;\nuse alloc::vec::Vec;\n\n#[macro_use]\nextern crate alloc;\n\n"));
    assert_eq!(prelude.len(), 377);
}

#[test]
fn manifests_of_the_crates() {
    assert_eq!(
        get_contract_cargo_toml("travel"),
        "[package]\nname = \"travel\"\nversion = \"0.1.0\"\nedition = \"2021\"\n\n[dependencies]\ntypes = {version = \"*\", path = \"../types\"}\nckb-std = \"0.10.0\"\n"
    );
    assert_eq!(
        get_toolchain(),
        "[toolchain]\nchannel = \"nightly-2022-08-01\"\n"
    );
    assert_eq!(
        get_types_cargo_toml(),
        "[package]\nname = \"types\"\nversion = \"0.1.0\"\nedition = \"2021\"\n\n[dependencies]\nckb-std = \"0.10.0\"\n"
    );
}

#[test]
fn types_library_is_head_codec_loaders_and_types() {
    let text = get_types_content("pub trait OnChain {}\n", &["pub struct A;", "pub struct B;"]);
    let expected = format!(
        "{}{}{}{}{}",
        get_prelude(),
        "pub trait OnChain {}\n",
        get_utils(),
        "pub struct A;",
        "pub struct B;"
    );
    assert_eq!(text, expected);
    assert_eq!(
        get_types_content("", &[]),
        format!("{}{}", get_prelude(), get_utils())
    );
}
