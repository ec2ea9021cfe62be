use ckboots::declaration::{
    check_signature, group_args, lit_to_default, parse_attrs, parse_sig_type, parse_signature,
    AppArg, AppEntry, ArgDecl, ArgPattern, ArgType, Argument, AttrArg, AttrName, Attrs, Container,
    DeclError, DefaultSource, ListName, LitKind, SigArg, SignatureDecl,
};

fn plain(ty: ArgType) -> ArgDecl {
    ArgDecl { pattern: ArgPattern::Ident { by_ref: false, mutable: false }, ty }
}

fn signature(args: Vec<ArgDecl>) -> SignatureDecl {
    SignatureDecl {
        has_return_type: false,
        is_async: false,
        generics: 0,
        has_abi: false,
        is_variadic: false,
        args,
    }
}

const SHARED: ArgType = ArgType::Reference { mutable: false, to_path: true };
const MUTABLE: ArgType = ArgType::Reference { mutable: true, to_path: true };

#[test]
fn travel_like_signature_is_taken() {
    let sig = signature(vec![plain(MUTABLE)]);
    assert_eq!(check_signature(&sig), Ok(()));
    assert_eq!(parse_signature(&sig), Ok(vec![SigArg::MutRef]));
    let sig = signature(vec![plain(SHARED), plain(ArgType::Path), plain(MUTABLE)]);
    assert_eq!(
        parse_signature(&sig),
        Ok(vec![SigArg::UnmutRef, SigArg::Value, SigArg::MutRef])
    );
    assert_eq!(parse_signature(&signature(vec![])), Ok(vec![]));
}

#[test]
fn signature_properties_are_checked_in_order() {
    let mut sig = signature(vec![]);
    sig.is_variadic = true;
    assert_eq!(check_signature(&sig), Err(DeclError::IsVariadic));
    sig.has_abi = true;
    assert_eq!(check_signature(&sig), Err(DeclError::HasAbi));
    sig.generics = 2;
    assert_eq!(check_signature(&sig), Err(DeclError::HasGenerics));
    sig.is_async = true;
    assert_eq!(check_signature(&sig), Err(DeclError::IsAsync));
    sig.has_return_type = true;
    assert_eq!(check_signature(&sig), Err(DeclError::HasReturnType));
    assert_eq!(parse_signature(&sig), Err(DeclError::HasReturnType));
}

#[test]
fn signature_comes_before_the_parameters() {
    let mut sig = signature(vec![ArgDecl { pattern: ArgPattern::Receiver, ty: ArgType::Path }]);
    assert_eq!(parse_signature(&sig), Err(DeclError::HasReceiver));
    sig.is_async = true;
    assert_eq!(parse_signature(&sig), Err(DeclError::IsAsync));
}

#[test]
fn first_bad_parameter_decides() {
    let by_ref = ArgDecl {
        pattern: ArgPattern::Ident { by_ref: true, mutable: true },
        ty: ArgType::Path,
    };
    let mutable = ArgDecl {
        pattern: ArgPattern::Ident { by_ref: false, mutable: true },
        ty: ArgType::Other,
    };
    let other = ArgDecl { pattern: ArgPattern::Other, ty: ArgType::Path };
    assert_eq!(parse_signature(&signature(vec![by_ref])), Err(DeclError::RefPattern));
    assert_eq!(parse_signature(&signature(vec![mutable])), Err(DeclError::MutPattern));
    assert_eq!(parse_signature(&signature(vec![other])), Err(DeclError::PatternNotIdent));
    assert_eq!(
        parse_signature(&signature(vec![plain(SHARED), mutable, by_ref])),
        Err(DeclError::MutPattern)
    );
    assert_eq!(
        parse_signature(&signature(vec![plain(ArgType::Other), other])),
        Err(DeclError::TypeUnsupported)
    );
}

#[test]
fn parameter_types() {
    assert_eq!(parse_sig_type(&ArgType::Path), Ok(SigArg::Value));
    assert_eq!(parse_sig_type(&SHARED), Ok(SigArg::UnmutRef));
    assert_eq!(parse_sig_type(&MUTABLE), Ok(SigArg::MutRef));
    assert_eq!(
        parse_sig_type(&ArgType::Reference { mutable: true, to_path: false }),
        Err(DeclError::TypePathExpected)
    );
    assert_eq!(
        parse_sig_type(&ArgType::Reference { mutable: false, to_path: false }),
        Err(DeclError::TypePathExpected)
    );
    assert_eq!(parse_sig_type(&ArgType::Other), Err(DeclError::TypeUnsupported));
}

#[test]
fn attributes_name_entry_and_identifier() {
    let id = AttrArg::NameValue { name: AttrName::Id, is_string: true };
    let entry = AttrArg::Path { single_ident: true };
    assert_eq!(parse_attrs(&vec![entry, id]), Ok(Attrs { entry: 0, id: 1 }));
    assert_eq!(parse_attrs(&vec![id, entry]), Ok(Attrs { entry: 1, id: 0 }));
    // the last of each counts, other names are passed over
    let other = AttrArg::NameValue { name: AttrName::Other, is_string: false };
    let named_entry = AttrArg::NameValue { name: AttrName::Entry, is_string: false };
    assert_eq!(
        parse_attrs(&vec![entry, id, other, named_entry, entry, id]),
        Ok(Attrs { entry: 4, id: 5 })
    );
}

#[test]
fn wrong_attributes_are_refused() {
    let id = AttrArg::NameValue { name: AttrName::Id, is_string: true };
    let entry = AttrArg::Path { single_ident: true };
    assert_eq!(parse_attrs(&vec![]), Err(DeclError::MissingEntry));
    assert_eq!(parse_attrs(&vec![id]), Err(DeclError::MissingEntry));
    assert_eq!(parse_attrs(&vec![entry]), Err(DeclError::MissingId));
    assert_eq!(
        parse_attrs(&vec![entry, AttrArg::NameValue { name: AttrName::Id, is_string: false }]),
        Err(DeclError::IdNotString)
    );
    assert_eq!(
        parse_attrs(&vec![AttrArg::Path { single_ident: false }, id]),
        Err(DeclError::IllegalPath)
    );
    assert_eq!(parse_attrs(&vec![entry, id, AttrArg::List]), Err(DeclError::UnexpectedAttr));
    assert_eq!(
        parse_attrs(&vec![AttrArg::Literal, AttrArg::List]),
        Err(DeclError::UnexpectedLiteral)
    );
}

#[test]
fn application_lists_its_contracts_and_types() {
    let attrs = vec![
        AppArg::List { name: ListName::Contracts, entries: vec![AppEntry::Path, AppEntry::Path] },
        AppArg::List { name: ListName::Other, entries: vec![AppEntry::Path] },
        AppArg::List { name: ListName::Types, entries: vec![AppEntry::Path] },
        AppArg::List { name: ListName::Contracts, entries: vec![AppEntry::Path] },
        AppArg::List { name: ListName::Types, entries: vec![] },
    ];
    let container = Container::from_attrs(&attrs).unwrap();
    assert_eq!(container.contracts, vec![(0, 0), (0, 1), (3, 0)]);
    assert_eq!(container.types, vec![(2, 0)]);
    let empty = Container::from_attrs(&vec![]).unwrap();
    assert!(empty.contracts.is_empty() && empty.types.is_empty());
}

#[test]
fn wrong_application_attributes_are_refused() {
    let good = AppArg::List { name: ListName::Contracts, entries: vec![AppEntry::Path] };
    assert!(matches!(
        Container::from_attrs(&vec![good, AppArg::Other]),
        Err(DeclError::ListExpected)
    ));
    assert!(matches!(
        Container::from_attrs(&vec![AppArg::List {
            name: ListName::Types,
            entries: vec![AppEntry::Path, AppEntry::Meta, AppEntry::Literal],
        }]),
        Err(DeclError::PathExpected)
    ));
    assert!(matches!(
        Container::from_attrs(&vec![
            AppArg::List { name: ListName::Other, entries: vec![AppEntry::Literal] },
            AppArg::Other,
        ]),
        Err(DeclError::UnexpectedLiteral)
    ));
}

#[test]
fn explicit_defaults_by_kind_of_literal() {
    assert_eq!(lit_to_default(LitKind::Str), Ok(DefaultSource::Expression));
    assert_eq!(lit_to_default(LitKind::Int), Ok(DefaultSource::Literal));
    assert_eq!(lit_to_default(LitKind::Float), Ok(DefaultSource::Literal));
    assert_eq!(lit_to_default(LitKind::Bool), Ok(DefaultSource::Literal));
    for kind in [LitKind::ByteStr, LitKind::Byte, LitKind::Char, LitKind::Verbatim] {
        assert_eq!(lit_to_default(kind), Err(DeclError::LiteralUnsupported));
    }
}

#[test]
fn parameters_are_grouped_by_the_way_they_are_taken() {
    let arg = |ident: &str, kind: SigArg, type_path: &str| Argument {
        ident: ident.to_string(),
        kind,
        type_path: type_path.to_string(),
    };
    let groups = group_args(&vec![
        arg("frog", SigArg::MutRef, "Frog"),
        arg("pond", SigArg::UnmutRef, "Pond"),
        arg("steps", SigArg::Value, "u8"),
        arg("sky", SigArg::UnmutRef, "Sky"),
        arg("speed", SigArg::Value, "u16"),
    ]);
    let pair = |a: &str, b: &str| (a.to_string(), b.to_string());
    assert_eq!(groups.updates, vec![pair("frog", "Frog")]);
    assert_eq!(groups.cell_deps, vec![pair("pond", "Pond"), pair("sky", "Sky")]);
    assert_eq!(groups.user_input, Some(pair("speed", "u16")));
    let none = group_args(&vec![]);
    assert!(none.updates.is_empty() && none.cell_deps.is_empty() && none.user_input.is_none());
}
