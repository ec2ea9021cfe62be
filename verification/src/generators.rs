//! The text of a contract program: for each cell that a contract reads or
//! rewrites the statements that load and check it, around the body of the
//! contract; and the manifests of the project that holds the contracts.

use crate::order::{id_key, lemma_sorted_permutation, sort_by_id, sorted_by};
use vstd::prelude::*;
use vstd::string::{StrSliceExecFns, StringExecFns};

verus! {

/// `s` without the double quotes it starts with.
pub open spec fn trim_front(s: Seq<char>) -> Seq<char>
    decreases s.len(),
{
    if s.len() > 0 && s[0] == '"' {
        trim_front(s.drop_first())
    } else {
        s
    }
}

/// `s` without the double quotes it ends with.
pub open spec fn trim_back(s: Seq<char>) -> Seq<char>
    decreases s.len(),
{
    if s.len() > 0 && s.last() == '"' {
        trim_back(s.drop_last())
    } else {
        s
    }
}

/// `s` without the double quotes around it.
pub open spec fn trimmed(s: Seq<char>) -> Seq<char> {
    trim_back(trim_front(s))
}

/// The text of one decimal digit.
pub open spec fn digit(d: nat) -> Seq<char> {
    if d == 0 {
        "0"@
    } else if d == 1 {
        "1"@
    } else if d == 2 {
        "2"@
    } else if d == 3 {
        "3"@
    } else if d == 4 {
        "4"@
    } else if d == 5 {
        "5"@
    } else if d == 6 {
        "6"@
    } else if d == 7 {
        "7"@
    } else if d == 8 {
        "8"@
    } else {
        "9"@
    }
}

/// The decimal text of a number.
pub open spec fn decimal(n: nat) -> Seq<char>
    decreases n,
{
    if n < 10 {
        digit(n)
    } else {
        decimal(n / 10) + digit(n % 10)
    }
}

/// The statements that load the cell dependency at place `idx`.
pub open spec fn cell_dep_code(idx: nat, ident: Seq<char>, type_path: Seq<char>) -> Seq<char> {
    "\nlet bytes = types::load_cell_deps_data("@ + decimal(idx)
        + ")?;\nlet wrapper = <types::OnChainWrapper as types::OnChain>::_from_bytes(&bytes).ok_or(crate::error::Error::Encoding)?;\nlet bytes = wrapper.data;\nlet "@
        + trimmed(ident) + " = <types::"@ + trimmed(type_path)
        + " as types::OnChain>::_from_bytes(&bytes).ok_or(crate::error::Error::Encoding)?;\n"@
}

/// The statements that load the input cell at place `idx`.
pub open spec fn input_code(idx: nat, ident: Seq<char>, type_path: Seq<char>) -> Seq<char> {
    "\nlet bytes = types::load_input_data("@ + decimal(idx)
        + ")?;\nlet wrapper = <types::OnChainWrapper as types::OnChain>::_from_bytes(&bytes).ok_or(crate::error::Error::Encoding)?;\nlet input_id = wrapper.id;\nlet bytes = wrapper.data;\nlet mut "@
        + trimmed(ident) + " = <types::"@ + trimmed(type_path)
        + " as types::OnChain>::_from_bytes(&bytes).ok_or(crate::error::Error::Encoding)?;\n"@
}

/// The statements that load and check the output cell at place `idx`.
pub open spec fn output_code(idx: nat, ident: Seq<char>, type_path: Seq<char>) -> Seq<char> {
    "\nlet bytes = types::load_output_data("@ + decimal(idx)
        + ")?;\nlet wrapper = <types::OnChainWrapper as types::OnChain>::_from_bytes(&bytes).ok_or(crate::error::Error::Encoding)?;\nlet output_id = wrapper.id;\nif input_id != output_id {\n    return Err(crate::error::Error::TypeError);\n}\nlet "@
        + trimmed(ident) + "_output = <types::"@ + trimmed(type_path)
        + " as types::OnChain>::_from_bytes(&bytes).ok_or(crate::error::Error::Encoding)?;\nif !"@
        + trimmed(ident) + "._eq(&"@ + trimmed(ident)
        + "_output) {\n    return Err(crate::error::Error::NotEqual);\n}\n"@
}

/// The statements that load the input of the user, if the contract takes
/// one.
pub open spec fn user_input_code(data: Option<(Seq<char>, Seq<char>)>) -> Seq<char> {
    match data {
        None => Seq::empty(),
        Some((ident, type_path)) => "\nlet bytes = types::load_user_input();\nlet "@ + trimmed(
            ident,
        ) + " = <types::"@ + trimmed(type_path)
            + " as types::OnChain>::_from_bytes(&bytes).ok_or(crate::error::Error::Encoding)?;\n"@,
    }
}

/// The pieces of `piece` for each entry of `data`, in order, each with its
/// place.
pub open spec fn each_code(
    data: Seq<(Seq<char>, Seq<char>)>,
    piece: spec_fn(nat, Seq<char>, Seq<char>) -> Seq<char>,
) -> Seq<char>
    decreases data.len(),
{
    if data.len() == 0 {
        Seq::empty()
    } else {
        each_code(data.drop_last(), piece) + piece(
            (data.len() - 1) as nat,
            data.last().0,
            data.last().1,
        )
    }
}

/// The text of a contract program.
pub open spec fn contract_code(
    cell_deps: Seq<(Seq<char>, Seq<char>)>,
    inputs: Seq<(Seq<char>, Seq<char>)>,
    user_input: Option<(Seq<char>, Seq<char>)>,
    code: Seq<char>,
) -> Seq<char> {
    "\n// Import from `core` instead of from `std` since we are in no-std mode\nuse core::result::Result;\n\n// Import heap related library from `alloc`\n// https://doc.rust-lang.org/alloc/index.html\nuse alloc::{vec, vec::Vec};\nuse crate::error::Error;\nuse types::OnChain;\n\npub fn main() -> Result<(), Error> {\n    "@
        + each_code(
        cell_deps,
        |idx: nat, ident: Seq<char>, type_path: Seq<char>| cell_dep_code(idx, ident, type_path),
    ) + "\n\n"@ + user_input_code(user_input) + "\n\n"@ + each_code(
        inputs,
        |idx: nat, ident: Seq<char>, type_path: Seq<char>| input_code(idx, ident, type_path),
    ) + "\n\n"@ + code + "\n\n"@ + each_code(
        inputs,
        |idx: nat, ident: Seq<char>, type_path: Seq<char>| output_code(idx, ident, type_path),
    ) + "\n"@ + "\n    Ok(())\n}\n"@
}

/// The entries of the contracts in the manifest of the build tool.
pub open spec fn capsule_entries(contracts: Seq<Seq<char>>) -> Seq<char>
    decreases contracts.len(),
{
    if contracts.len() == 0 {
        Seq::empty()
    } else {
        capsule_entries(contracts.drop_last()) + "[[contracts]]\nname = \""@ + contracts.last()
            + "\"\ntemplate_type = \"Rust\"\n"@
    }
}

/// The manifest of the build tool for a project of the given contracts.
pub open spec fn capsule_toml(contracts: Seq<Seq<char>>) -> Seq<char> {
    "version = \"0.9.0\"\ndeployment = \"deployment.toml\"\n\n[[contract]]\nname = \"_entry\"\ntemplate_type = \"Rust\"\n"@
        + capsule_entries(contracts)
}

/// The members that the contracts add to the workspace.
pub open spec fn cargo_members(contracts: Seq<Seq<char>>) -> Seq<char>
    decreases contracts.len(),
{
    if contracts.len() == 0 {
        Seq::empty()
    } else {
        cargo_members(contracts.drop_last()) + "\"contracts/"@ + contracts.last() + "\","@
    }
}

/// The manifest of the workspace for a project of the given contracts.
pub open spec fn cargo_toml(contracts: Seq<Seq<char>>) -> Seq<char> {
    "\n[workspace]\nmembers = ["@ + "\"contracts/types\", \"contracts/_entry\","@ + cargo_members(
        contracts,
    )
        + "]\n\n[profile.release]\noverflow-checks = true\nopt-level = 's'\nlto = false\ncodegen-units = 1\npanic = 'abort'\n"@
}

/// The names that the places of `order` pick, in the order of `order`.
pub open spec fn picked(
    order: Seq<(Seq<char>, usize)>,
    names: Seq<(Seq<char>, Seq<char>)>,
) -> Seq<(Seq<char>, Seq<char>)> {
    Seq::new(order.len(), |i: int| names[order[i].1 as int])
}

/// The names of a contract's arguments in ascending order of the
/// identifiers of their cells.
pub open spec fn names_by_id(
    ids: Seq<(Seq<char>, usize)>,
    names: Seq<(Seq<char>, Seq<char>)>,
) -> Seq<(Seq<char>, Seq<char>)> {
    picked(sorted_by(ids, id_key::<(&'static str, usize)>()), names)
}

/// The texts of `types`, one after the other.
pub open spec fn joined_texts(types: Seq<Seq<char>>) -> Seq<char>
    decreases types.len(),
{
    if types.len() == 0 {
        Seq::empty()
    } else {
        joined_texts(types.drop_last()) + types.last()
    }
}

/// `s` without the double quotes around it.
pub fn trim_quotes(s: &str) -> (r: &str)
    ensures
        r@ == trimmed(s@),
{
    let n = s.unicode_len();
    let mut from: usize = 0;
    proof {
        assert(s@.subrange(0, n as int) =~= s@);
    }
    while from < n && s.get_char(from) == '"'
        invariant
            from <= n,
            n == s@.len(),
            trim_front(s@) == trim_front(s@.subrange(from as int, n as int)),
        decreases n - from,
    {
        proof {
            assert(s@.subrange(from as int, n as int).drop_first() =~= s@.subrange(
                from + 1,
                n as int,
            ));
        }
        from = from + 1;
    }
    let mut to: usize = n;
    while to > from && s.get_char(to - 1) == '"'
        invariant
            from <= to <= n,
            n == s@.len(),
            trimmed(s@) == trim_back(s@.subrange(from as int, to as int)),
        decreases to,
    {
        proof {
            assert(s@.subrange(from as int, to as int).drop_last() =~= s@.subrange(
                from as int,
                to - 1,
            ));
        }
        to = to - 1;
    }
    s.substring_char(from, to)
}

/// The text of one decimal digit.
fn digit_text(d: usize) -> (r: &'static str)
    requires
        d < 10,
    ensures
        r@ == digit(d as nat),
{
    if d == 0 {
        "0"
    } else if d == 1 {
        "1"
    } else if d == 2 {
        "2"
    } else if d == 3 {
        "3"
    } else if d == 4 {
        "4"
    } else if d == 5 {
        "5"
    } else if d == 6 {
        "6"
    } else if d == 7 {
        "7"
    } else if d == 8 {
        "8"
    } else {
        "9"
    }
}

/// The decimal text of a number.
pub fn decimal_text(n: usize) -> (r: String)
    ensures
        r@ == decimal(n as nat),
    decreases n,
{
    if n < 10 {
        String::from_str(digit_text(n))
    } else {
        let mut r = decimal_text(n / 10);
        r.append(digit_text(n % 10));
        r
    }
}

/// The statements that load the cell dependencies of a contract.
pub fn load_cell_deps(data: &[(String, String)]) -> (r: String)
    ensures
        r@ == each_code(
            data.deep_view(),
            |idx: nat, ident: Seq<char>, type_path: Seq<char>| cell_dep_code(idx, ident, type_path),
        ),
{
    let ghost all = data.deep_view();
    let ghost piece = |idx: nat, ident: Seq<char>, type_path: Seq<char>|
        cell_dep_code(idx, ident, type_path);
    let mut r = String::new();
    let mut idx: usize = 0;
    proof {
        assert(all.take(0) =~= Seq::empty());
    }
    while idx < data.len()
        invariant
            idx <= data.len(),
            all == data.deep_view(),
            piece == |idx: nat, ident: Seq<char>, type_path: Seq<char>|
                cell_dep_code(idx, ident, type_path),
            r@ == each_code(all.take(idx as int), piece),
        decreases data.len() - idx,
    {
        let ghost before = r@;
        let ident = trim_quotes(data[idx].0.as_str());
        let type_path = trim_quotes(data[idx].1.as_str());
        r.append("\nlet bytes = types::load_cell_deps_data(");
        r.append(decimal_text(idx).as_str());
        r.append(
            ")?;\nlet wrapper = <types::OnChainWrapper as types::OnChain>::_from_bytes(&bytes).ok_or(crate::error::Error::Encoding)?;\nlet bytes = wrapper.data;\nlet ",
        );
        r.append(ident);
        r.append(" = <types::");
        r.append(type_path);
        r.append(
            " as types::OnChain>::_from_bytes(&bytes).ok_or(crate::error::Error::Encoding)?;\n",
        );
        proof {
            let next = all.take(idx + 1);
            assert(next.drop_last() =~= all.take(idx as int));
            assert(next.last() == all[idx as int]);
            assert(r@ =~= before + piece(idx as nat, all[idx as int].0, all[idx as int].1));
        }
        idx = idx + 1;
    }
    proof {
        assert(all.take(idx as int) =~= all);
    }
    r
}

/// The statements that load the input of the user, if the contract takes
/// one.
pub fn load_user_input(data: Option<(String, String)>) -> (r: String)
    ensures
        r@ == user_input_code(data.deep_view()),
{
    match data {
        None => String::new(),
        Some(data) => {
            let ident = trim_quotes(data.0.as_str());
            let type_path = trim_quotes(data.1.as_str());
            let mut r = String::from_str("\nlet bytes = types::load_user_input();\nlet ");
            r.append(ident);
            r.append(" = <types::");
            r.append(type_path);
            r.append(
                " as types::OnChain>::_from_bytes(&bytes).ok_or(crate::error::Error::Encoding)?;\n",
            );
            r
        },
    }
}

/// The statements that load the input cells of a contract.
pub fn load_input(data: &[(String, String)]) -> (r: String)
    ensures
        r@ == each_code(
            data.deep_view(),
            |idx: nat, ident: Seq<char>, type_path: Seq<char>| input_code(idx, ident, type_path),
        ),
{
    let ghost all = data.deep_view();
    let ghost piece = |idx: nat, ident: Seq<char>, type_path: Seq<char>|
        input_code(idx, ident, type_path);
    let mut r = String::new();
    let mut idx: usize = 0;
    proof {
        assert(all.take(0) =~= Seq::empty());
    }
    while idx < data.len()
        invariant
            idx <= data.len(),
            all == data.deep_view(),
            piece == |idx: nat, ident: Seq<char>, type_path: Seq<char>|
                input_code(idx, ident, type_path),
            r@ == each_code(all.take(idx as int), piece),
        decreases data.len() - idx,
    {
        let ghost before = r@;
        let ident = trim_quotes(data[idx].0.as_str());
        let type_path = trim_quotes(data[idx].1.as_str());
        r.append("\nlet bytes = types::load_input_data(");
        r.append(decimal_text(idx).as_str());
        r.append(
            ")?;\nlet wrapper = <types::OnChainWrapper as types::OnChain>::_from_bytes(&bytes).ok_or(crate::error::Error::Encoding)?;\nlet input_id = wrapper.id;\nlet bytes = wrapper.data;\nlet mut ",
        );
        r.append(ident);
        r.append(" = <types::");
        r.append(type_path);
        r.append(
            " as types::OnChain>::_from_bytes(&bytes).ok_or(crate::error::Error::Encoding)?;\n",
        );
        proof {
            let next = all.take(idx + 1);
            assert(next.drop_last() =~= all.take(idx as int));
            assert(next.last() == all[idx as int]);
            assert(r@ =~= before + piece(idx as nat, all[idx as int].0, all[idx as int].1));
        }
        idx = idx + 1;
    }
    proof {
        assert(all.take(idx as int) =~= all);
    }
    r
}

/// The statements that load and check the output cells of a contract.
pub fn load_output(data: &[(String, String)]) -> (r: String)
    ensures
        r@ == each_code(
            data.deep_view(),
            |idx: nat, ident: Seq<char>, type_path: Seq<char>| output_code(idx, ident, type_path),
        ),
{
    let ghost all = data.deep_view();
    let ghost piece = |idx: nat, ident: Seq<char>, type_path: Seq<char>|
        output_code(idx, ident, type_path);
    let mut r = String::new();
    let mut idx: usize = 0;
    proof {
        assert(all.take(0) =~= Seq::empty());
    }
    while idx < data.len()
        invariant
            idx <= data.len(),
            all == data.deep_view(),
            piece == |idx: nat, ident: Seq<char>, type_path: Seq<char>|
                output_code(idx, ident, type_path),
            r@ == each_code(all.take(idx as int), piece),
        decreases data.len() - idx,
    {
        let ghost before = r@;
        let ident = trim_quotes(data[idx].0.as_str());
        let type_path = trim_quotes(data[idx].1.as_str());
        r.append("\nlet bytes = types::load_output_data(");
        r.append(decimal_text(idx).as_str());
        r.append(
            ")?;\nlet wrapper = <types::OnChainWrapper as types::OnChain>::_from_bytes(&bytes).ok_or(crate::error::Error::Encoding)?;\nlet output_id = wrapper.id;\nif input_id != output_id {\n    return Err(crate::error::Error::TypeError);\n}\nlet ",
        );
        r.append(ident);
        r.append("_output = <types::");
        r.append(type_path);
        r.append(
            " as types::OnChain>::_from_bytes(&bytes).ok_or(crate::error::Error::Encoding)?;\nif !",
        );
        r.append(ident);
        r.append("._eq(&");
        r.append(ident);
        r.append("_output) {\n    return Err(crate::error::Error::NotEqual);\n}\n");
        proof {
            let next = all.take(idx + 1);
            assert(next.drop_last() =~= all.take(idx as int));
            assert(next.last() == all[idx as int]);
            assert(r@ =~= before + piece(idx as nat, all[idx as int].0, all[idx as int].1));
        }
        idx = idx + 1;
    }
    proof {
        assert(all.take(idx as int) =~= all);
    }
    r
}

/// The text of a contract program: the statements that load the cell
/// dependencies, the input of the user and the input cells, then the body
/// of the contract, then the statements that check the output cells.
pub fn get_contract_code(
    cell_deps: &[(String, String)],
    inputs: &[(String, String)],
    user_input: Option<(String, String)>,
    code: String,
) -> (r: String)
    ensures
        r@ == contract_code(
            cell_deps.deep_view(),
            inputs.deep_view(),
            user_input.deep_view(),
            code@,
        ),
{
    let cell_deps = load_cell_deps(cell_deps);
    let input = load_input(inputs);
    let output = load_output(inputs);
    let user_input = load_user_input(user_input);
    let mut r = String::from_str(
        "\n// Import from `core` instead of from `std` since we are in no-std mode\nuse core::result::Result;\n\n// Import heap related library from `alloc`\n// https://doc.rust-lang.org/alloc/index.html\nuse alloc::{vec, vec::Vec};\nuse crate::error::Error;\nuse types::OnChain;\n\npub fn main() -> Result<(), Error> {\n    ",
    );
    r.append(cell_deps.as_str());
    r.append("\n\n");
    r.append(user_input.as_str());
    r.append("\n\n");
    r.append(input.as_str());
    r.append("\n\n");
    r.append(code.as_str());
    r.append("\n\n");
    r.append(output.as_str());
    r.append("\n");
    r.append("\n    Ok(())\n}\n");
    r
}

/// The names of a contract's arguments in ascending order of the
/// identifiers of their cells. Each entry of `ids` holds the identifier of
/// a cell and the place of its argument in `names`.
pub fn ordered_names(ids: Vec<(&'static str, usize)>, names: &Vec<(String, String)>) -> (out: Vec<
    (String, String),
>)
    requires
        forall|i: int| 0 <= i < ids.len() ==> (#[trigger] ids[i]).1 < names.len(),
    ensures
        out.deep_view() == names_by_id(ids.deep_view(), names.deep_view()),
{
    let ghost given = ids.deep_view();
    let order = sort_by_id(ids);
    let ghost sorted = order.deep_view();
    proof {
        broadcast use vstd::seq_lib::group_to_multiset_ensures;

        lemma_sorted_permutation(given, id_key::<(&'static str, usize)>());
        assert forall|i: int| 0 <= i < sorted.len() implies (#[trigger] sorted[i]).1
            < names.len() by {
            assert(sorted.contains(sorted[i]));
            assert(given.to_multiset().count(sorted[i]) > 0);
            assert(given.contains(sorted[i]));
            let j = choose|j: int| 0 <= j < given.len() && given[j] == sorted[i];
            assert(given[j] == ids.deep_view()[j]);
            assert(ids[j].1 == given[j].1);
        }
    }
    let mut out: Vec<(String, String)> = Vec::new();
    let mut i: usize = 0;
    proof {
        assert(out.deep_view() =~= picked(sorted.take(0), names.deep_view()));
    }
    while i < order.len()
        invariant
            i <= order.len(),
            sorted == order.deep_view(),
            forall|k: int| 0 <= k < sorted.len() ==> (#[trigger] sorted[k]).1 < names.len(),
            out.deep_view() == picked(sorted.take(i as int), names.deep_view()),
        decreases order.len() - i,
    {
        let ghost before = out.deep_view();
        let at = order[i].1;
        proof {
            assert(sorted[i as int].1 == at);
        }
        let name = (names[at].0.clone(), names[at].1.clone());
        out.push(name);
        proof {
            assert(out.deep_view() =~= before.push(names.deep_view()[at as int]));
            assert(out.deep_view() =~= picked(sorted.take(i + 1), names.deep_view()));
        }
        i = i + 1;
    }
    proof {
        assert(sorted.take(i as int) =~= sorted);
    }
    out
}

/// The text of the program of a contract, from the arguments of the
/// contract as they were declared: the cells it reads and the cells it
/// rewrites, each with its identifier and the place of its name, are put in
/// the order of their identifiers.
pub fn generate_contract(
    cell_deps: Vec<(&'static str, usize)>,
    cell_deps_names: &Vec<(String, String)>,
    updates: Vec<(&'static str, usize)>,
    updates_names: &Vec<(String, String)>,
    user_input: Option<(String, String)>,
    code: String,
) -> (r: String)
    requires
        forall|i: int|
            0 <= i < cell_deps.len() ==> (#[trigger] cell_deps[i]).1 < cell_deps_names.len(),
        forall|i: int| 0 <= i < updates.len() ==> (#[trigger] updates[i]).1 < updates_names.len(),
    ensures
        r@ == contract_code(
            names_by_id(cell_deps.deep_view(), cell_deps_names.deep_view()),
            names_by_id(updates.deep_view(), updates_names.deep_view()),
            user_input.deep_view(),
            code@,
        ),
{
    let cell_deps_data = ordered_names(cell_deps, cell_deps_names);
    let updates_data = ordered_names(updates, updates_names);
    get_contract_code(cell_deps_data.as_slice(), updates_data.as_slice(), user_input, code)
}

/// The manifest of the build tool for a project of the given contracts.
pub fn get_capsule_toml(contracts: &[&str]) -> (r: String)
    ensures
        r@ == capsule_toml(contracts.deep_view()),
{
    let ghost all = contracts.deep_view();
    let ghost head =
        "version = \"0.9.0\"\ndeployment = \"deployment.toml\"\n\n[[contract]]\nname = \"_entry\"\ntemplate_type = \"Rust\"\n"@;
    let mut r = String::from_str(
        "version = \"0.9.0\"\ndeployment = \"deployment.toml\"\n\n[[contract]]\nname = \"_entry\"\ntemplate_type = \"Rust\"\n",
    );
    let mut i: usize = 0;
    proof {
        assert(all.take(0) =~= Seq::empty());
        assert(r@ =~= head + Seq::<char>::empty());
    }
    while i < contracts.len()
        invariant
            i <= contracts.len(),
            all == contracts.deep_view(),
            r@ == head + capsule_entries(all.take(i as int)),
        decreases contracts.len() - i,
    {
        let ghost before = r@;
        r.append("[[contracts]]\nname = \"");
        r.append(contracts[i]);
        r.append("\"\ntemplate_type = \"Rust\"\n");
        proof {
            let next = all.take(i + 1);
            assert(next.drop_last() =~= all.take(i as int));
            assert(next.last() == all[i as int]);
            assert(r@ =~= head + capsule_entries(next));
        }
        i = i + 1;
    }
    proof {
        assert(all.take(i as int) =~= all);
    }
    r
}

/// The manifest of the workspace for a project of the given contracts.
pub fn get_cargo_toml(contracts: &[&str]) -> (r: String)
    ensures
        r@ == cargo_toml(contracts.deep_view()),
{
    let ghost all = contracts.deep_view();
    let ghost head = "\n[workspace]\nmembers = ["@ + "\"contracts/types\", \"contracts/_entry\","@;
    let mut r = String::from_str("\n[workspace]\nmembers = [");
    r.append("\"contracts/types\", \"contracts/_entry\",");
    let mut i: usize = 0;
    proof {
        assert(all.take(0) =~= Seq::empty());
        assert(r@ =~= head + Seq::<char>::empty());
    }
    while i < contracts.len()
        invariant
            i <= contracts.len(),
            all == contracts.deep_view(),
            r@ == head + cargo_members(all.take(i as int)),
        decreases contracts.len() - i,
    {
        let ghost before = r@;
        r.append("\"contracts/");
        r.append(contracts[i]);
        r.append("\",");
        proof {
            let next = all.take(i + 1);
            assert(next.drop_last() =~= all.take(i as int));
            assert(next.last() == all[i as int]);
            assert(r@ =~= head + cargo_members(next));
        }
        i = i + 1;
    }
    proof {
        assert(all.take(i as int) =~= all);
    }
    r.append(
        "]\n\n[profile.release]\noverflow-checks = true\nopt-level = 's'\nlto = false\ncodegen-units = 1\npanic = 'abort'\n",
    );
    r
}

/// The manifest of the crate of the contract `id`.
pub fn get_contract_cargo_toml(id: &str) -> (r: String)
    ensures
        r@ == "[package]\nname = \""@ + id@
            + "\"\nversion = \"0.1.0\"\nedition = \"2021\"\n\n[dependencies]\ntypes = {version = \"*\", path = \"../types\"}\nckb-std = \"0.10.0\"\n"@,
{
    let mut r = String::from_str("[package]\nname = \"");
    r.append(id);
    r.append(
        "\"\nversion = \"0.1.0\"\nedition = \"2021\"\n\n[dependencies]\ntypes = {version = \"*\", path = \"../types\"}\nckb-std = \"0.10.0\"\n",
    );
    r
}

/// The toolchain file of a contract crate.
pub fn get_toolchain() -> (r: &'static str)
    ensures
        r@ == "[toolchain]\nchannel = \"nightly-2022-08-01\"\n"@,
{
    "[toolchain]\nchannel = \"nightly-2022-08-01\"\n"
}

/// The manifest of the types crate.
pub fn get_types_cargo_toml() -> (r: &'static str)
    ensures
        r@
            == "[package]\nname = \"types\"\nversion = \"0.1.0\"\nedition = \"2021\"\n\n[dependencies]\nckb-std = \"0.10.0\"\n"@,
{
    "[package]\nname = \"types\"\nversion = \"0.1.0\"\nedition = \"2021\"\n\n[dependencies]\nckb-std = \"0.10.0\"\n"
}

/// The library file of the types crate: its head, the codec, the loading
/// functions, and the text of each type.
pub fn get_types_content(on_chain: &str, types: &[&str]) -> (r: String)
    ensures
        r@ == prelude_text() + on_chain@ + utils_text() + joined_texts(types.deep_view()),
{
    let ghost all = types.deep_view();
    let ghost head = prelude_text() + on_chain@ + utils_text();
    let mut r = String::from_str(get_prelude());
    r.append(on_chain);
    r.append(get_utils());
    let mut i: usize = 0;
    proof {
        assert(all.take(0) =~= Seq::empty());
        assert(r@ =~= head + Seq::<char>::empty());
    }
    while i < types.len()
        invariant
            i <= types.len(),
            all == types.deep_view(),
            r@ == head + joined_texts(all.take(i as int)),
        decreases types.len() - i,
    {
        r.append(types[i]);
        proof {
            let next = all.take(i + 1);
            assert(next.drop_last() =~= all.take(i as int));
            assert(next.last() == all[i as int]);
            assert(r@ =~= head + joined_texts(next));
        }
        i = i + 1;
    }
    proof {
        assert(all.take(i as int) =~= all);
    }
    r
}

/// The functions of the types crate that load the data of a cell.
pub open spec fn utils_text() -> Seq<char> {
    "\nuse ckb_std::ckb_constants::Source;\nuse ckb_std::high_level::load_cell_data;\nuse ckb_std::syscalls::SysError;\n\npub fn load_cell_deps_data(idx: usize) -> Result<Vec<u8>, SysError> {\n    load_cell_data(idx, Source::CellDep)\n}\n\npub fn load_input_data(idx: usize) -> Result<Vec<u8>, SysError> {\n    load_cell_data(idx, Source::Input)\n}\n\npub fn load_output_data(idx: usize) -> Result<Vec<u8>, SysError> {\n    load_cell_data(idx, Source::Output)\n}\n"@
}

/// The functions of the types crate that load the data of a cell.
pub fn get_utils() -> (r: &'static str)
    ensures
        r@ == utils_text(),
{
    "\nuse ckb_std::ckb_constants::Source;\nuse ckb_std::high_level::load_cell_data;\nuse ckb_std::syscalls::SysError;\n\npub fn load_cell_deps_data(idx: usize) -> Result<Vec<u8>, SysError> {\n    load_cell_data(idx, Source::CellDep)\n}\n\npub fn load_input_data(idx: usize) -> Result<Vec<u8>, SysError> {\n    load_cell_data(idx, Source::Input)\n}\n\npub fn load_output_data(idx: usize) -> Result<Vec<u8>, SysError> {\n    load_cell_data(idx, Source::Output)\n}\n"
}

/// The error file of a contract crate.
pub fn get_error_code() -> (r: &'static str)
    ensures
        r@
            == "\nuse ckb_std::error::SysError;\n\n/// Error\n#[repr(i8)]\npub enum Error {\n    IndexOutOfBound = 1,\n    ItemMissing,\n    LengthNotEnough,\n    TypeError,\n    Encoding,\n    NotEqual,\n}\n\nimpl From<SysError> for Error {\n    fn from(err: SysError) -> Self {\n        use SysError::*;\n        match err {\n            IndexOutOfBound => Self::IndexOutOfBound,\n            ItemMissing => Self::ItemMissing,\n            LengthNotEnough(_) => Self::LengthNotEnough,\n            Encoding => Self::Encoding,\n            Unknown(err_code) => panic!(\"unexpected sys error {}\", err_code),\n        }\n    }\n}\n\n    "@,
{
    "\nuse ckb_std::error::SysError;\n\n/// Error\n#[repr(i8)]\npub enum Error {\n    IndexOutOfBound = 1,\n    ItemMissing,\n    LengthNotEnough,\n    TypeError,\n    Encoding,\n    NotEqual,\n}\n\nimpl From<SysError> for Error {\n    fn from(err: SysError) -> Self {\n        use SysError::*;\n        match err {\n            IndexOutOfBound => Self::IndexOutOfBound,\n            ItemMissing => Self::ItemMissing,\n            LengthNotEnough(_) => Self::LengthNotEnough,\n            Encoding => Self::Encoding,\n            Unknown(err_code) => panic!(\"unexpected sys error {}\", err_code),\n        }\n    }\n}\n\n    "
}

/// The main file of a contract crate.
pub fn get_main_content() -> (r: &'static str)
    ensures
        r@
            == "\n#![no_std]\n#![no_main]\n#![feature(asm_sym)]\n#![feature(lang_items)]\n#![feature(alloc_error_handler)]\n#![feature(panic_info_message)]\n\n#[allow(unused_imports)]\n\nmod entry;\nmod error;\n\nuse ckb_std::default_alloc;\nuse core::arch::asm;\n\nckb_std::entry!(program_entry);\ndefault_alloc!();\n\nfn program_entry(_argc: u64, _argv: *const *const u8) -> i8 {\n    match entry::main() {\n        Ok(_) => 0,\n        Err(err) => err as i8,\n    }\n}\n\n"@,
{
    "\n#![no_std]\n#![no_main]\n#![feature(asm_sym)]\n#![feature(lang_items)]\n#![feature(alloc_error_handler)]\n#![feature(panic_info_message)]\n\n#[allow(unused_imports)]\n\nmod entry;\nmod error;\n\nuse ckb_std::default_alloc;\nuse core::arch::asm;\n\nckb_std::entry!(program_entry);\ndefault_alloc!();\n\nfn program_entry(_argc: u64, _argv: *const *const u8) -> i8 {\n    match entry::main() {\n        Ok(_) => 0,\n        Err(err) => err as i8,\n    }\n}\n\n"
}

/// The head of the types crate.
pub open spec fn prelude_text() -> Seq<char> {
    "#![no_std]\n#[allow(unused_imports)]\nuse core::option::Option::Some;\nuse core::result::Result;\nuse core::option::Option;\nuse core::option::Option::None;\nuse core::marker::Sized;\nuse core::convert::Into;\nuse core::convert::TryInto;\nuse core::clone::Clone;\nuse core::iter::Extend;\nuse core::iter::Iterator;\n\nuse alloc::vec;\nuse alloc::vec::Vec;\n\n#[macro_use]\nextern crate alloc;\n\n"@
}

/// The head of the types crate.
pub fn get_prelude() -> (r: &'static str)
    ensures
        r@ == prelude_text(),
{
    "#![no_std]\n#[allow(unused_imports)]\nuse core::option::Option::Some;\nuse core::result::Result;\nuse core::option::Option;\nuse core::option::Option::None;\nuse core::marker::Sized;\nuse core::convert::Into;\nuse core::convert::TryInto;\nuse core::clone::Clone;\nuse core::iter::Extend;\nuse core::iter::Iterator;\n\nuse alloc::vec;\nuse alloc::vec::Vec;\n\n#[macro_use]\nextern crate alloc;\n\n"
}

} // verus!
