//! The travel contract of the travelling-frog application: a frog spends
//! one unit of strength and has made one more travel.

use crate::codec::{consume_and_decode, encoding, front, OnChain};
use crate::contract::{Contract, ContractResult, InputOutputPair, ResultView};
use crate::order::{id_key, sorted_by};
use crate::types::Frog;
use vstd::prelude::*;

verus! {

/// Whether the frog has the strength for one more travel, and room to
/// count it.
pub open spec fn fit_to_travel(frog: (u8, u8)) -> bool {
    frog.0 >= 1 && frog.1 < 255
}

/// The frog after one travel.
pub open spec fn travelled(frog: (u8, u8)) -> (u8, u8) {
    ((frog.0 - 1) as u8, (frog.1 + 1) as u8)
}

/// Whether the frog has the strength for one more travel, and room to
/// count it.
pub fn can_travel(frog: &Frog) -> (r: bool)
    ensures
        r == fit_to_travel(frog.deep_view()),
{
    frog.physical >= 1 && frog.traval_cnt < 255
}

/// One travel: the frog spends one unit of strength and counts the travel.
pub fn travel(frog: &mut Frog)
    requires
        fit_to_travel(old(frog).deep_view()),
    ensures
        final(frog).deep_view() == travelled(old(frog).deep_view()),
{
    frog.physical -= 1;
    frog.traval_cnt += 1;
}

/// One execution of the travel contract, on the frog it was handed.
pub struct Travel {
    frog: Frog,
}

impl DeepView for Travel {
    type V = (u8, u8);

    closed spec fn deep_view(&self) -> (u8, u8) {
        self.frog.deep_view()
    }
}

impl Travel {
    /// The execution on the frog that the first argument encodes; nothing
    /// where there is no argument or it does not decode.
    pub fn new(bytes: &Vec<&[u8]>) -> (r: Option<Self>)
        ensures
            match r {
                Some(entry) => {
                    &&& bytes.len() >= 1
                    &&& front::<Frog>(bytes[0]@) matches Some((frog, _))
                    &&& entry.deep_view() == frog
                },
                None => bytes.len() == 0 || front::<Frog>(bytes[0]@) is None,
            },
    {
        if bytes.len() == 0 {
            return None;
        }
        match consume_and_decode::<Frog>(bytes[0]) {
            Some((frog, _)) => Some(Travel { frog }),
            None => None,
        }
    }

    /// Whether the frog that was handed over can travel, that is whether
    /// the contract can run.
    pub fn ready(&self) -> (r: bool)
        ensures
            r == fit_to_travel(self.deep_view()),
    {
        can_travel(&self.frog)
    }

    /// The identifiers of the cells that the contract takes, in the order
    /// of its arguments.
    pub fn _get_args_ids() -> (ids: Vec<&'static str>)
        ensures
            ids.deep_view() == seq!["frog"@],
    {
        let mut ids: Vec<&'static str> = Vec::new();
        match Frog::_id() {
            Some(id) => ids.push(id),
            None => ids.push("user_input"),
        }
        proof {
            assert(ids.deep_view() =~= seq!["frog"@]);
        }
        ids
    }

    /// The identifier of the contract.
    pub fn _id() -> (id: &'static str)
        ensures
            id@ == "travel"@,
    {
        "travel"
    }

    /// Runs the contract: the frog travels once, and the outcome holds the
    /// frog's cell as it was and as it is now.
    pub fn run(self) -> (r: ContractResult)
        requires
            fit_to_travel(self.deep_view()),
        ensures
            r.deep_view() == (ResultView {
                deps: Seq::empty(),
                input_output_data: seq![
                    (
                        "frog"@,
                        encoding::<Frog>(self.deep_view()),
                        encoding::<Frog>(travelled(self.deep_view())),
                    ),
                ],
                contract_id: "travel"@,
                user_input: None,
            }),
    {
        let before = Frog::onchain_new(self.frog.physical, self.frog.traval_cnt);
        let mut frog = self.frog;
        travel(&mut frog);
        let mut contract = Contract::new(Travel::_id());
        contract.add_input_output::<Frog>(before, frog);
        let ghost gathered = contract.deep_view();
        let r = contract.build();
        proof {
            let entry = gathered.input_output_data[0];
            assert(gathered.input_output_data =~= seq![entry]);
            assert(gathered.input_output_data.drop_first() =~= Seq::empty());
            assert(gathered.deps =~= Seq::empty());
            reveal_with_fuel(sorted_by, 2);
            assert(sorted_by(gathered.input_output_data, id_key::<InputOutputPair>()) =~= seq![entry]);
            assert(sorted_by(gathered.deps, id_key::<&'static str>()) =~= Seq::empty());
        }
        r
    }
}

} // verus!
