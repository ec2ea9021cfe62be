//! What one contract execution read and rewrote, gathered piece by piece
//! and handed over in the order of the logical identifiers.

use crate::codec::{encoding, OnChain};
use crate::order::{id_key, sort_by_id, sorted_by, Keyed};
use vstd::prelude::*;

verus! {

/// The outcome of one contract execution.
pub struct ContractResult {
    /// The identifiers of the cells that were read and not rewritten.
    pub deps: Vec<&'static str>,
    /// For each cell that was rewritten its identifier, the bytes it held
    /// and the bytes it holds now.
    pub input_output_data: Vec<(&'static str, Vec<u8>, Vec<u8>)>,
    /// The identifier of the contract that ran.
    pub contract_id: &'static str,
    /// The input that the user handed to the contract, if any.
    pub user_input: Option<Vec<u8>>,
}

/// The outcome of one contract execution, as plain values.
pub struct ResultView {
    pub deps: Seq<Seq<char>>,
    pub input_output_data: Seq<(Seq<char>, Seq<u8>, Seq<u8>)>,
    pub contract_id: Seq<char>,
    pub user_input: Option<Seq<u8>>,
}

impl DeepView for ContractResult {
    type V = ResultView;

    open spec fn deep_view(&self) -> ResultView {
        ResultView {
            deps: self.deps.deep_view(),
            input_output_data: self.input_output_data.deep_view(),
            contract_id: self.contract_id@,
            user_input: self.user_input.deep_view(),
        }
    }
}

/// One rewritten cell: its identifier, the bytes it held and the bytes it
/// holds now.
#[derive(Debug)]
pub struct InputOutputPair {
    pub input: Vec<u8>,
    pub output: Vec<u8>,
    pub id: &'static str,
}

impl DeepView for InputOutputPair {
    type V = (Seq<char>, Seq<u8>, Seq<u8>);

    open spec fn deep_view(&self) -> (Seq<char>, Seq<u8>, Seq<u8>) {
        (self.id@, self.input@, self.output@)
    }
}

impl InputOutputPair {
    /// The pair of the given identifier and bytes.
    pub fn new(id: &'static str, input: Vec<u8>, output: Vec<u8>) -> (r: Self)
        ensures
            r.deep_view() == (id@, input@, output@),
    {
        InputOutputPair { input, output, id }
    }
}

impl Keyed for InputOutputPair {
    open spec fn key_of(v: (Seq<char>, Seq<u8>, Seq<u8>)) -> Seq<char> {
        v.0
    }

    fn id(&self) -> (id: &str) {
        self.id
    }
}

/// The pieces of a contract execution while they are gathered.
pub struct Contract {
    deps: Vec<&'static str>,
    input_output_data: Vec<InputOutputPair>,
    contract_id: &'static str,
    user_input: Option<Vec<u8>>,
}

impl DeepView for Contract {
    type V = ResultView;

    closed spec fn deep_view(&self) -> ResultView {
        ResultView {
            deps: self.deps.deep_view(),
            input_output_data: self.input_output_data.deep_view(),
            contract_id: self.contract_id@,
            user_input: self.user_input.deep_view(),
        }
    }
}

/// The rewritten cells as triples, in the order in which they stand.
fn into_triples(pairs: Vec<InputOutputPair>) -> (out: Vec<(&'static str, Vec<u8>, Vec<u8>)>)
    ensures
        out.deep_view() == pairs.deep_view(),
{
    let ghost all = pairs.deep_view();
    let mut pairs = pairs;
    let mut out: Vec<(&'static str, Vec<u8>, Vec<u8>)> = Vec::new();
    proof {
        assert(all.skip(all.len() as int) =~= Seq::empty());
        assert(out.deep_view() =~= Seq::empty());
    }
    while pairs.len() > 0
        invariant
            pairs.len() <= all.len(),
            pairs.deep_view() == all.take(pairs.len() as int),
            out.deep_view() == all.skip(pairs.len() as int),
        decreases pairs.len(),
    {
        let ghost left = pairs.deep_view();
        let ghost before = out.deep_view();
        match pairs.pop() {
            Some(pair) => {
                let ghost e = pair.deep_view();
                proof {
                    let n = pairs.len() as int;
                    assert(left[n] == e);
                    assert(pairs.deep_view() =~= all.take(n));
                    assert(pair.input.deep_view() =~= pair.input@);
                    assert(pair.output.deep_view() =~= pair.output@);
                }
                out.insert(0, (pair.id, pair.input, pair.output));
                proof {
                    assert(out.deep_view() =~= before.insert(0, e));
                    assert(before.insert(0, e) =~= all.skip(pairs.len() as int));
                }
            },
            None => {},
        }
    }
    proof {
        assert(all.skip(0) =~= all);
    }
    out
}

impl Contract {
    /// The execution of the contract `contract_id`, with nothing gathered
    /// yet.
    pub fn new(contract_id: &'static str) -> (r: Self)
        ensures
            r.deep_view() == (ResultView {
                deps: Seq::empty(),
                input_output_data: Seq::empty(),
                contract_id: contract_id@,
                user_input: None,
            }),
    {
        let r = Contract {
            contract_id,
            deps: Vec::new(),
            input_output_data: Vec::new(),
            user_input: None,
        };
        proof {
            assert(r.deps.deep_view() =~= Seq::empty());
            assert(r.input_output_data.deep_view() =~= Seq::empty());
        }
        r
    }

    /// Notes that a cell of type `T` was read.
    pub fn add_dep<T: OnChain>(&mut self)
        requires
            T::logical_id() is Some,
        ensures
            final(self).deep_view() == (ResultView {
                deps: old(self).deep_view().deps.push(T::logical_id().unwrap()),
                ..old(self).deep_view()
            }),
    {
        let ghost before = self.deps.deep_view();
        match T::_id() {
            Some(id) => {
                self.deps.push(id);
                proof {
                    assert(self.deps.deep_view() =~= before.push(id@));
                }
            },
            None => {},
        }
    }

    /// Notes that a cell of type `T` was rewritten from `input` to `output`.
    pub fn add_input_output<T: OnChain>(&mut self, input: T, output: T)
        requires
            T::logical_id() is Some,
        ensures
            final(self).deep_view() == (ResultView {
                input_output_data: old(self).deep_view().input_output_data.push(
                    (
                        T::logical_id().unwrap(),
                        encoding::<T>(input.deep_view()),
                        encoding::<T>(output.deep_view()),
                    ),
                ),
                ..old(self).deep_view()
            }),
    {
        let ghost before = self.input_output_data.deep_view();
        match T::_id() {
            Some(id) => {
                let value = InputOutputPair::new(id, input._to_bytes(), output._to_bytes());
                self.input_output_data.push(value);
                proof {
                    assert(self.input_output_data.deep_view() =~= before.push(value.deep_view()));
                }
            },
            None => {},
        }
    }

    /// Notes the input that the user handed to the contract.
    pub fn add_user_input<T: OnChain>(&mut self, user_input: T)
        ensures
            final(self).deep_view() == (ResultView {
                user_input: Some(encoding::<T>(user_input.deep_view())),
                ..old(self).deep_view()
            }),
    {
        let bytes = user_input._to_bytes();
        proof {
            assert(bytes.deep_view() =~= bytes@);
        }
        self.user_input = Some(bytes);
    }

    /// The outcome of the execution: what was gathered, the cells that were
    /// read and those that were rewritten each in ascending order of their
    /// identifiers, cells of one identifier in the order in which they were
    /// noted.
    pub fn build(self) -> (r: ContractResult)
        ensures
            r.deep_view() == (ResultView {
                deps: sorted_by(self.deep_view().deps, id_key::<&'static str>()),
                input_output_data: sorted_by(
                    self.deep_view().input_output_data,
                    id_key::<InputOutputPair>(),
                ),
                ..self.deep_view()
            }),
    {
        let deps = sort_by_id(self.deps);
        let input_output_data = into_triples(sort_by_id(self.input_output_data));
        ContractResult {
            deps,
            input_output_data,
            contract_id: self.contract_id,
            user_input: self.user_input,
        }
    }
}

} // verus!
