//! The declaration of a contract, checked before the contract is taken up:
//! what its signature may look like, how each of its parameters is taken,
//! and what its attributes must name.
//!
//! A contract is a function without a return type, not async, without
//! generics, without an ABI and not variadic. It has no receiver, and each
//! parameter is a plain name. A parameter taken by value is the input of
//! the user, one taken by shared reference is a cell that is read, one
//! taken by mutable reference is a cell that is rewritten.

use vstd::prelude::*;

verus! {

/// Why a declaration is refused.
#[derive(Debug, Clone, Copy, PartialEq, Eq)]
pub enum DeclError {
    /// The function has a return type.
    HasReturnType,
    /// The function is async.
    IsAsync,
    /// The function has generic parameters.
    HasGenerics,
    /// The function has an ABI.
    HasAbi,
    /// The function is variadic.
    IsVariadic,
    /// The function takes `self`.
    HasReceiver,
    /// A parameter is bound by reference.
    RefPattern,
    /// A parameter is bound mutably.
    MutPattern,
    /// A parameter is a pattern other than a name.
    PatternNotIdent,
    /// A reference does not point to a type named by a path.
    TypePathExpected,
    /// A parameter has a type that is neither a path nor a reference.
    TypeUnsupported,
    /// An attribute argument is a nested list.
    UnexpectedAttr,
    /// An attribute argument is a bare literal.
    UnexpectedLiteral,
    /// The identifier of the contract is not a string literal.
    IdNotString,
    /// The entry of the contract is not a single name.
    IllegalPath,
    /// An argument of the application's attribute is not a list.
    ListExpected,
    /// An entry of a list of the application's attribute is not a path.
    PathExpected,
    /// An explicit default is a literal of a kind that cannot be one.
    LiteralUnsupported,
    /// No entry is named.
    MissingEntry,
    /// No identifier is given.
    MissingId,
}

/// How a parameter is bound.
#[derive(Debug, Clone, Copy, PartialEq, Eq)]
pub enum ArgPattern {
    /// The receiver `self`.
    Receiver,
    /// A name, perhaps bound by reference or mutably.
    Ident { by_ref: bool, mutable: bool },
    /// Any other pattern.
    Other,
}

/// The shape of a parameter's type.
#[derive(Debug, Clone, Copy, PartialEq, Eq)]
pub enum ArgType {
    /// A type named by a path.
    Path,
    /// A reference, mutable or not, to a type named by a path or not.
    Reference { mutable: bool, to_path: bool },
    /// Any other type.
    Other,
}

/// How a contract takes a parameter.
#[derive(Debug, Clone, Copy, PartialEq, Eq)]
pub enum SigArg {
    /// A cell that the contract rewrites.
    MutRef,
    /// A cell that the contract reads.
    UnmutRef,
    /// The input of the user.
    Value,
}

/// One parameter of a declared function.
#[derive(Debug, Clone, Copy, PartialEq, Eq)]
pub struct ArgDecl {
    pub pattern: ArgPattern,
    pub ty: ArgType,
}

/// The signature of a declared function, as far as the rules look at it.
pub struct SignatureDecl {
    pub has_return_type: bool,
    pub is_async: bool,
    pub generics: usize,
    pub has_abi: bool,
    pub is_variadic: bool,
    pub args: Vec<ArgDecl>,
}

/// The name of a `name = value` attribute argument.
#[derive(Debug, Clone, Copy, PartialEq, Eq)]
pub enum AttrName {
    Id,
    Entry,
    Other,
}

/// One argument of the attribute that declares a contract.
#[derive(Debug, Clone, Copy, PartialEq, Eq)]
pub enum AttrArg {
    /// `name = value`, with a string literal as the value or not.
    NameValue { name: AttrName, is_string: bool },
    /// A path, made of a single name or not.
    Path { single_ident: bool },
    /// A nested list.
    List,
    /// A bare literal.
    Literal,
}

/// What the attributes of a contract name: the places of the arguments
/// that give its entry and its identifier.
#[derive(Debug, Clone, Copy, PartialEq, Eq)]
pub struct Attrs {
    pub entry: usize,
    pub id: usize,
}

/// The name of a list in the attribute that declares an application.
#[derive(Debug, Clone, Copy, PartialEq, Eq)]
pub enum ListName {
    Contracts,
    Types,
    Other,
}

/// One entry of a list in the attribute that declares an application.
#[derive(Debug, Clone, Copy, PartialEq, Eq)]
pub enum AppEntry {
    /// A path.
    Path,
    /// Any other attribute syntax.
    Meta,
    /// A bare literal.
    Literal,
}

/// One argument of the attribute that declares an application.
pub enum AppArg {
    /// A named list of entries.
    List { name: ListName, entries: Vec<AppEntry> },
    /// Anything else.
    Other,
}

/// One argument of the attribute that declares an application, as plain
/// values.
pub enum AppArgView {
    List { name: ListName, entries: Seq<AppEntry> },
    Other,
}

impl DeepView for AppArg {
    type V = AppArgView;

    open spec fn deep_view(&self) -> AppArgView {
        match self {
            AppArg::List { name, entries } => AppArgView::List { name: *name, entries: entries@ },
            AppArg::Other => AppArgView::Other,
        }
    }
}

/// The contracts and the types that an application declares: for each the
/// place of its list among the arguments and its place in the list.
pub struct Container {
    pub types: Vec<(usize, usize)>,
    pub contracts: Vec<(usize, usize)>,
}

/// Where the paths of an application's attribute stand, as plain values.
pub struct ContainerView {
    pub types: Seq<(usize, usize)>,
    pub contracts: Seq<(usize, usize)>,
}

impl View for Container {
    type V = ContainerView;

    open spec fn view(&self) -> ContainerView {
        ContainerView { types: self.types@, contracts: self.contracts@ }
    }
}

/// What one entry of a list adds to what was gathered so far: a path in
/// the list of contracts or in the list of types is noted, a path in
/// another list is passed over, anything but a path is refused.
pub open spec fn entry_step(
    so_far: ContainerView,
    name: ListName,
    list_at: usize,
    at: usize,
    entry: AppEntry,
) -> Result<ContainerView, DeclError> {
    match entry {
        AppEntry::Path => match name {
            ListName::Contracts => Ok(
                ContainerView { contracts: so_far.contracts.push((list_at, at)), ..so_far },
            ),
            ListName::Types => Ok(ContainerView { types: so_far.types.push((list_at, at)), ..so_far }),
            ListName::Other => Ok(so_far),
        },
        AppEntry::Meta => Err(DeclError::PathExpected),
        AppEntry::Literal => Err(DeclError::UnexpectedLiteral),
    }
}

/// What the entries of one list add, read in order.
pub open spec fn entries_scan(
    so_far: ContainerView,
    name: ListName,
    list_at: usize,
    entries: Seq<AppEntry>,
) -> Result<ContainerView, DeclError>
    decreases entries.len(),
{
    if entries.len() == 0 {
        Ok(so_far)
    } else {
        match entries_scan(so_far, name, list_at, entries.drop_last()) {
            Err(e) => Err(e),
            Ok(gathered) => entry_step(
                gathered,
                name,
                list_at,
                (entries.len() - 1) as usize,
                entries.last(),
            ),
        }
    }
}

/// What the arguments of an application's attribute declare, read in
/// order; the first argument or entry that breaks a rule decides the error.
pub open spec fn app_verdict(args: Seq<AppArgView>) -> Result<ContainerView, DeclError>
    decreases args.len(),
{
    if args.len() == 0 {
        Ok(ContainerView { types: Seq::empty(), contracts: Seq::empty() })
    } else {
        match app_verdict(args.drop_last()) {
            Err(e) => Err(e),
            Ok(gathered) => match args.last() {
                AppArgView::Other => Err(DeclError::ListExpected),
                AppArgView::List { name, entries } => entries_scan(
                    gathered,
                    name,
                    (args.len() - 1) as usize,
                    entries,
                ),
            },
        }
    }
}

/// The kind of a literal that is given as an explicit default.
#[derive(Debug, Clone, Copy, PartialEq, Eq)]
pub enum LitKind {
    Str,
    Int,
    Float,
    Bool,
    ByteStr,
    Byte,
    Char,
    Verbatim,
}

/// How an explicit default is read.
#[derive(Debug, Clone, Copy, PartialEq, Eq)]
pub enum DefaultSource {
    /// The text of a string literal is read as an expression.
    Expression,
    /// The literal itself is the default.
    Literal,
}

/// How an explicit default of the given kind is read: a string holds an
/// expression, a number or a truth value stands for itself, and no other
/// kind of literal can be a default.
pub open spec fn default_source(kind: LitKind) -> Result<DefaultSource, DeclError> {
    match kind {
        LitKind::Str => Ok(DefaultSource::Expression),
        LitKind::Int | LitKind::Float | LitKind::Bool => Ok(DefaultSource::Literal),
        _ => Err(DeclError::LiteralUnsupported),
    }
}

/// One parameter of a contract: its name, how it is taken, and the path of
/// its type.
pub struct Argument {
    pub ident: String,
    pub kind: SigArg,
    pub type_path: String,
}

impl DeepView for Argument {
    type V = (Seq<char>, SigArg, Seq<char>);

    open spec fn deep_view(&self) -> (Seq<char>, SigArg, Seq<char>) {
        (self.ident@, self.kind, self.type_path@)
    }
}

/// The parameters of a contract by the way they are taken, each with its
/// name and the path of its type.
pub struct ArgGroups {
    /// The cells that are read, in the order of the parameters.
    pub cell_deps: Vec<(String, String)>,
    /// The cells that are rewritten, in the order of the parameters.
    pub updates: Vec<(String, String)>,
    /// The input of the user: the last parameter taken by value.
    pub user_input: Option<(String, String)>,
}

/// The parameters of a contract by the way they are taken, as plain values.
pub struct GroupsView {
    pub cell_deps: Seq<(Seq<char>, Seq<char>)>,
    pub updates: Seq<(Seq<char>, Seq<char>)>,
    pub user_input: Option<(Seq<char>, Seq<char>)>,
}

impl DeepView for ArgGroups {
    type V = GroupsView;

    open spec fn deep_view(&self) -> GroupsView {
        GroupsView {
            cell_deps: self.cell_deps.deep_view(),
            updates: self.updates.deep_view(),
            user_input: self.user_input.deep_view(),
        }
    }
}

/// The parameters by the way they are taken.
pub open spec fn groups_of(args: Seq<(Seq<char>, SigArg, Seq<char>)>) -> GroupsView
    decreases args.len(),
{
    if args.len() == 0 {
        GroupsView { cell_deps: Seq::empty(), updates: Seq::empty(), user_input: None }
    } else {
        let so_far = groups_of(args.drop_last());
        let name = (args.last().0, args.last().2);
        match args.last().1 {
            SigArg::MutRef => GroupsView { updates: so_far.updates.push(name), ..so_far },
            SigArg::UnmutRef => GroupsView { cell_deps: so_far.cell_deps.push(name), ..so_far },
            SigArg::Value => GroupsView { user_input: Some(name), ..so_far },
        }
    }
}

/// The verdict on the properties of a signature, looked at in this order:
/// return type, async, generics, ABI, variadic.
pub open spec fn signature_verdict(
    has_return_type: bool,
    is_async: bool,
    generics: usize,
    has_abi: bool,
    is_variadic: bool,
) -> Result<(), DeclError> {
    if has_return_type {
        Err(DeclError::HasReturnType)
    } else if is_async {
        Err(DeclError::IsAsync)
    } else if generics > 0 {
        Err(DeclError::HasGenerics)
    } else if has_abi {
        Err(DeclError::HasAbi)
    } else if is_variadic {
        Err(DeclError::IsVariadic)
    } else {
        Ok(())
    }
}

/// How a parameter of the given type is taken.
pub open spec fn type_verdict(ty: ArgType) -> Result<SigArg, DeclError> {
    match ty {
        ArgType::Path => Ok(SigArg::Value),
        ArgType::Reference { mutable, to_path } => if !to_path {
            Err(DeclError::TypePathExpected)
        } else if mutable {
            Ok(SigArg::MutRef)
        } else {
            Ok(SigArg::UnmutRef)
        },
        ArgType::Other => Err(DeclError::TypeUnsupported),
    }
}

/// How a parameter is taken: its binding is looked at first, then its type.
pub open spec fn arg_verdict(arg: ArgDecl) -> Result<SigArg, DeclError> {
    match arg.pattern {
        ArgPattern::Receiver => Err(DeclError::HasReceiver),
        ArgPattern::Other => Err(DeclError::PatternNotIdent),
        ArgPattern::Ident { by_ref, mutable } => if by_ref {
            Err(DeclError::RefPattern)
        } else if mutable {
            Err(DeclError::MutPattern)
        } else {
            type_verdict(arg.ty)
        },
    }
}

/// How the parameters are taken, in order; the first parameter that breaks
/// a rule decides the error.
pub open spec fn args_verdict(args: Seq<ArgDecl>) -> Result<Seq<SigArg>, DeclError>
    decreases args.len(),
{
    if args.len() == 0 {
        Ok(Seq::empty())
    } else {
        match args_verdict(args.drop_last()) {
            Err(e) => Err(e),
            Ok(kinds) => match arg_verdict(args.last()) {
                Err(e) => Err(e),
                Ok(kind) => Ok(kinds.push(kind)),
            },
        }
    }
}

/// The verdict on a declared function: the properties of the signature
/// first, then the parameters.
pub open spec fn declaration_verdict(
    has_return_type: bool,
    is_async: bool,
    generics: usize,
    has_abi: bool,
    is_variadic: bool,
    args: Seq<ArgDecl>,
) -> Result<Seq<SigArg>, DeclError> {
    match signature_verdict(has_return_type, is_async, generics, has_abi, is_variadic) {
        Err(e) => Err(e),
        Ok(_) => args_verdict(args),
    }
}

/// What one attribute argument does to what was named so far.
pub open spec fn attr_step(so_far: (Option<usize>, Option<usize>), at: usize, arg: AttrArg) -> Result<
    (Option<usize>, Option<usize>),
    DeclError,
> {
    match arg {
        AttrArg::NameValue { name, is_string } => if name is Id {
            if is_string {
                Ok((so_far.0, Some(at)))
            } else {
                Err(DeclError::IdNotString)
            }
        } else {
            Ok(so_far)
        },
        AttrArg::Path { single_ident } => if single_ident {
            Ok((Some(at), so_far.1))
        } else {
            Err(DeclError::IllegalPath)
        },
        AttrArg::List => Err(DeclError::UnexpectedAttr),
        AttrArg::Literal => Err(DeclError::UnexpectedLiteral),
    }
}

/// What the attribute arguments name, read in order: the last entry and
/// the last identifier count, and the first argument that breaks a rule
/// decides the error.
pub open spec fn attrs_scan(attrs: Seq<AttrArg>) -> Result<(Option<usize>, Option<usize>), DeclError>
    decreases attrs.len(),
{
    if attrs.len() == 0 {
        Ok((None, None))
    } else {
        match attrs_scan(attrs.drop_last()) {
            Err(e) => Err(e),
            Ok(so_far) => attr_step(so_far, (attrs.len() - 1) as usize, attrs.last()),
        }
    }
}

/// The verdict on the attributes of a contract: both an entry and an
/// identifier must be named.
pub open spec fn attrs_verdict(attrs: Seq<AttrArg>) -> Result<Attrs, DeclError> {
    match attrs_scan(attrs) {
        Err(e) => Err(e),
        Ok((None, _)) => Err(DeclError::MissingEntry),
        Ok((Some(_), None)) => Err(DeclError::MissingId),
        Ok((Some(entry), Some(id))) => Ok(Attrs { entry, id }),
    }
}

/// Checks the properties of a signature.
pub fn check_signature(sig: &SignatureDecl) -> (r: Result<(), DeclError>)
    ensures
        r == signature_verdict(
            sig.has_return_type,
            sig.is_async,
            sig.generics,
            sig.has_abi,
            sig.is_variadic,
        ),
{
    if sig.has_return_type {
        return Err(DeclError::HasReturnType);
    }
    if sig.is_async {
        return Err(DeclError::IsAsync);
    }
    if sig.generics > 0 {
        return Err(DeclError::HasGenerics);
    }
    if sig.has_abi {
        return Err(DeclError::HasAbi);
    }
    if sig.is_variadic {
        return Err(DeclError::IsVariadic);
    }
    Ok(())
}

/// Says how a parameter of the given type is taken.
pub fn parse_sig_type(ty: &ArgType) -> (r: Result<SigArg, DeclError>)
    ensures
        r == type_verdict(*ty),
{
    match ty {
        ArgType::Path => Ok(SigArg::Value),
        ArgType::Reference { mutable, to_path } => {
            if !*to_path {
                Err(DeclError::TypePathExpected)
            } else if *mutable {
                Ok(SigArg::MutRef)
            } else {
                Ok(SigArg::UnmutRef)
            }
        },
        ArgType::Other => Err(DeclError::TypeUnsupported),
    }
}

/// Checks a declared function and says how each of its parameters is
/// taken.
pub fn parse_signature(sig: &SignatureDecl) -> (r: Result<Vec<SigArg>, DeclError>)
    ensures
        match r {
            Ok(kinds) => declaration_verdict(
                sig.has_return_type,
                sig.is_async,
                sig.generics,
                sig.has_abi,
                sig.is_variadic,
                sig.args@,
            ) == Ok::<Seq<SigArg>, DeclError>(kinds@),
            Err(e) => declaration_verdict(
                sig.has_return_type,
                sig.is_async,
                sig.generics,
                sig.has_abi,
                sig.is_variadic,
                sig.args@,
            ) == Err::<Seq<SigArg>, DeclError>(e),
        },
{
    match check_signature(sig) {
        Err(e) => {
            return Err(e);
        },
        Ok(_) => {},
    }
    let mut result: Vec<SigArg> = Vec::new();
    let mut i: usize = 0;
    proof {
        assert(sig.args@.take(0) =~= Seq::empty());
    }
    while i < sig.args.len()
        invariant
            i <= sig.args.len(),
            signature_verdict(
                sig.has_return_type,
                sig.is_async,
                sig.generics,
                sig.has_abi,
                sig.is_variadic,
            ) is Ok,
            args_verdict(sig.args@.take(i as int)) == Ok::<Seq<SigArg>, DeclError>(result@),
        decreases sig.args.len() - i,
    {
        let arg = sig.args[i];
        proof {
            assert(sig.args@.take(i + 1).drop_last() =~= sig.args@.take(i as int));
        }
        let verdict = match arg.pattern {
            ArgPattern::Receiver => Err(DeclError::HasReceiver),
            ArgPattern::Other => Err(DeclError::PatternNotIdent),
            ArgPattern::Ident { by_ref, mutable } => {
                if by_ref {
                    Err(DeclError::RefPattern)
                } else if mutable {
                    Err(DeclError::MutPattern)
                } else {
                    parse_sig_type(&arg.ty)
                }
            },
        };
        proof {
            assert(sig.args@.take(i + 1).last() == arg);
            assert(verdict == arg_verdict(arg));
        }
        match verdict {
            Ok(kind) => {
                result.push(kind);
            },
            Err(e) => {
                proof {
                    lemma_args_error(sig.args@, i + 1);
                }
                return Err(e);
            },
        }
        i = i + 1;
    }
    proof {
        assert(sig.args@.take(i as int) =~= sig.args@);
    }
    Ok(result)
}

/// An error among the first parameters is the error of all.
proof fn lemma_args_error(args: Seq<ArgDecl>, n: int)
    requires
        0 <= n <= args.len(),
        args_verdict(args.take(n)) is Err,
    ensures
        args_verdict(args) == args_verdict(args.take(n)),
    decreases args.len() - n,
{
    if n < args.len() {
        assert(args.take(n + 1).drop_last() =~= args.take(n));
        lemma_args_error(args, n + 1);
    } else {
        assert(args.take(n) =~= args);
    }
}

/// An error among the first attribute arguments is the error of all.
proof fn lemma_attrs_error(attrs: Seq<AttrArg>, n: int)
    requires
        0 <= n <= attrs.len(),
        attrs_scan(attrs.take(n)) is Err,
    ensures
        attrs_scan(attrs) == attrs_scan(attrs.take(n)),
    decreases attrs.len() - n,
{
    if n < attrs.len() {
        assert(attrs.take(n + 1).drop_last() =~= attrs.take(n));
        lemma_attrs_error(attrs, n + 1);
    } else {
        assert(attrs.take(n) =~= attrs);
    }
}

/// Reads the attributes of a contract: which argument names its entry, and
/// which gives its identifier.
pub fn parse_attrs(attrs: &Vec<AttrArg>) -> (r: Result<Attrs, DeclError>)
    ensures
        r == attrs_verdict(attrs@),
{
    let mut entry: Option<usize> = None;
    let mut id: Option<usize> = None;
    let mut i: usize = 0;
    proof {
        assert(attrs@.take(0) =~= Seq::empty());
    }
    while i < attrs.len()
        invariant
            i <= attrs.len(),
            attrs_scan(attrs@.take(i as int)) == Ok::<(Option<usize>, Option<usize>), DeclError>(
                (entry, id),
            ),
        decreases attrs.len() - i,
    {
        proof {
            assert(attrs@.take(i + 1).drop_last() =~= attrs@.take(i as int));
        }
        let step: Result<(Option<usize>, Option<usize>), DeclError> = match attrs[i] {
            AttrArg::NameValue { name, is_string } => match name {
                AttrName::Id => {
                    if is_string {
                        Ok((entry, Some(i)))
                    } else {
                        Err(DeclError::IdNotString)
                    }
                },
                _ => Ok((entry, id)),
            },
            AttrArg::Path { single_ident } => {
                if single_ident {
                    Ok((Some(i), id))
                } else {
                    Err(DeclError::IllegalPath)
                }
            },
            AttrArg::List => Err(DeclError::UnexpectedAttr),
            AttrArg::Literal => Err(DeclError::UnexpectedLiteral),
        };
        proof {
            assert(attrs@.take(i + 1).last() == attrs@[i as int]);
            assert(step == attr_step((entry, id), i, attrs@[i as int]));
        }
        match step {
            Ok((e, d)) => {
                entry = e;
                id = d;
            },
            Err(e) => {
                proof {
                    lemma_attrs_error(attrs@, i + 1);
                }
                return Err(e);
            },
        }
        i = i + 1;
    }
    proof {
        assert(attrs@.take(i as int) =~= attrs@);
    }
    match (entry, id) {
        (None, _) => Err(DeclError::MissingEntry),
        (Some(_), None) => Err(DeclError::MissingId),
        (Some(entry), Some(id)) => Ok(Attrs { entry, id }),
    }
}

/// Says how an explicit default of the given kind is read.
pub fn lit_to_default(kind: LitKind) -> (r: Result<DefaultSource, DeclError>)
    ensures
        r == default_source(kind),
{
    match kind {
        LitKind::Str => Ok(DefaultSource::Expression),
        LitKind::Int => Ok(DefaultSource::Literal),
        LitKind::Float => Ok(DefaultSource::Literal),
        LitKind::Bool => Ok(DefaultSource::Literal),
        _ => Err(DeclError::LiteralUnsupported),
    }
}

/// Sorts the parameters of a contract by the way they are taken.
pub fn group_args(args: &Vec<Argument>) -> (r: ArgGroups)
    ensures
        r.deep_view() == groups_of(args.deep_view()),
{
    let ghost all = args.deep_view();
    let mut cell_deps: Vec<(String, String)> = Vec::new();
    let mut updates: Vec<(String, String)> = Vec::new();
    let mut user_input: Option<(String, String)> = None;
    let mut i: usize = 0;
    proof {
        assert(all.take(0) =~= Seq::empty());
        assert(cell_deps.deep_view() =~= Seq::empty());
        assert(updates.deep_view() =~= Seq::empty());
    }
    while i < args.len()
        invariant
            i <= args.len(),
            all == args.deep_view(),
            groups_of(all.take(i as int)) == (GroupsView {
                cell_deps: cell_deps.deep_view(),
                updates: updates.deep_view(),
                user_input: user_input.deep_view(),
            }),
        decreases args.len() - i,
    {
        let ghost deps_before = cell_deps.deep_view();
        let ghost updates_before = updates.deep_view();
        let arg = &args[i];
        let name = (arg.ident.clone(), arg.type_path.clone());
        let ghost pair = (arg.ident@, arg.type_path@);
        proof {
            assert(all.take(i + 1).drop_last() =~= all.take(i as int));
            assert(all.take(i + 1).last() == arg.deep_view());
        }
        match arg.kind {
            SigArg::MutRef => {
                updates.push(name);
                proof {
                    assert(updates.deep_view() =~= updates_before.push(pair));
                }
            },
            SigArg::UnmutRef => {
                cell_deps.push(name);
                proof {
                    assert(cell_deps.deep_view() =~= deps_before.push(pair));
                }
            },
            SigArg::Value => {
                user_input = Some(name);
            },
        }
        i = i + 1;
    }
    proof {
        assert(all.take(i as int) =~= all);
    }
    ArgGroups { cell_deps, updates, user_input }
}

/// An error among the first entries of a list is the error of the list.
proof fn lemma_entries_error(
    so_far: ContainerView,
    name: ListName,
    list_at: usize,
    entries: Seq<AppEntry>,
    n: int,
)
    requires
        0 <= n <= entries.len(),
        entries_scan(so_far, name, list_at, entries.take(n)) is Err,
    ensures
        entries_scan(so_far, name, list_at, entries) == entries_scan(
            so_far,
            name,
            list_at,
            entries.take(n),
        ),
    decreases entries.len() - n,
{
    if n < entries.len() {
        assert(entries.take(n + 1).drop_last() =~= entries.take(n));
        lemma_entries_error(so_far, name, list_at, entries, n + 1);
    } else {
        assert(entries.take(n) =~= entries);
    }
}

/// An error among the first arguments is the error of all.
proof fn lemma_app_error(args: Seq<AppArgView>, n: int)
    requires
        0 <= n <= args.len(),
        app_verdict(args.take(n)) is Err,
    ensures
        app_verdict(args) == app_verdict(args.take(n)),
    decreases args.len() - n,
{
    if n < args.len() {
        assert(args.take(n + 1).drop_last() =~= args.take(n));
        lemma_app_error(args, n + 1);
    } else {
        assert(args.take(n) =~= args);
    }
}

impl Container {
    /// Reads the attribute that declares an application: the paths in its
    /// list of contracts and in its list of types.
    pub fn from_attrs(attrs: &Vec<AppArg>) -> (r: Result<Container, DeclError>)
        ensures
            match r {
                Ok(container) => app_verdict(attrs.deep_view()) == Ok::<ContainerView, DeclError>(
                    container@,
                ),
                Err(e) => app_verdict(attrs.deep_view()) == Err::<ContainerView, DeclError>(e),
            },
    {
        let ghost all = attrs.deep_view();
        let mut contracts: Vec<(usize, usize)> = Vec::new();
        let mut types: Vec<(usize, usize)> = Vec::new();
        let mut i: usize = 0;
        proof {
            assert(all.take(0) =~= Seq::empty());
        }
        while i < attrs.len()
            invariant
                i <= attrs.len(),
                all == attrs.deep_view(),
                app_verdict(all.take(i as int)) == Ok::<ContainerView, DeclError>(
                    ContainerView { types: types@, contracts: contracts@ },
                ),
            decreases attrs.len() - i,
        {
            proof {
                assert(all.take(i + 1).drop_last() =~= all.take(i as int));
                assert(all.take(i + 1).last() == attrs@[i as int].deep_view());
            }
            match &attrs[i] {
                AppArg::Other => {
                    proof {
                        lemma_app_error(all, i + 1);
                    }
                    return Err(DeclError::ListExpected);
                },
                AppArg::List { name, entries } => {
                    let ghost before = ContainerView { types: types@, contracts: contracts@ };
                    let mut k: usize = 0;
                    proof {
                        assert(entries@.take(0) =~= Seq::empty());
                    }
                    while k < entries.len()
                        invariant
                            k <= entries.len(),
                            i < attrs.len(),
                            all == attrs.deep_view(),
                            all.take(i + 1).last() == (AppArgView::List {
                                name: *name,
                                entries: entries@,
                            }),
                            app_verdict(all.take(i as int)) == Ok::<ContainerView, DeclError>(
                                before,
                            ),
                            entries_scan(before, *name, i, entries@.take(k as int)) == Ok::<
                                ContainerView,
                                DeclError,
                            >(ContainerView { types: types@, contracts: contracts@ }),
                        decreases entries.len() - k,
                    {
                        proof {
                            assert(entries@.take(k + 1).drop_last() =~= entries@.take(k as int));
                            assert(entries@.take(k + 1).last() == entries@[k as int]);
                            assert(all.take(i + 1).drop_last() =~= all.take(i as int));
                        }
                        match entries[k] {
                            AppEntry::Path => match name {
                                ListName::Contracts => {
                                    contracts.push((i, k));
                                },
                                ListName::Types => {
                                    types.push((i, k));
                                },
                                ListName::Other => {},
                            },
                            AppEntry::Meta => {
                                proof {
                                    lemma_entries_error(before, *name, i, entries@, k + 1);
                                    lemma_app_error(all, i + 1);
                                }
                                return Err(DeclError::PathExpected);
                            },
                            AppEntry::Literal => {
                                proof {
                                    lemma_entries_error(before, *name, i, entries@, k + 1);
                                    lemma_app_error(all, i + 1);
                                }
                                return Err(DeclError::UnexpectedLiteral);
                            },
                        }
                        k = k + 1;
                    }
                    proof {
                        assert(entries@.take(k as int) =~= entries@);
                    }
                },
            }
            i = i + 1;
        }
        proof {
            assert(all.take(i as int) =~= all);
        }
        Ok(Container { types, contracts })
    }
}

} // verus!
