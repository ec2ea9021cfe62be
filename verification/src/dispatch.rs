//! Resolving the arguments of a contract: each identifier that the
//! contract names is looked up in the cell store, except the one that
//! stands for the input of the user.

use crate::cell_manager::{CellManager, StoreView};
use crate::text::same_text;
use crate::transition::Error;
use vstd::prelude::*;

verus! {

/// The bytes that an argument named `id` is given: the user's input for the
/// name `user_input`, else the committed payload of `id`, if it has one.
pub open spec fn resolved(store: StoreView, id: Seq<char>, user_input: Seq<u8>) -> Option<
    Seq<u8>,
> {
    if id == "user_input"@ {
        Some(user_input)
    } else {
        store.lookup(id)
    }
}

/// The bytes of each argument of a contract, in the order of `ids`. An
/// identifier without a committed payload fails the resolution.
pub fn resolve_args<'a>(
    manager: &'a CellManager,
    ids: &Vec<&'static str>,
    user_input: &'a [u8],
) -> (r: Result<Vec<&'a [u8]>, Error>)
    ensures
        match r {
            Ok(args) => args.len() == ids.len() && forall|i: int|
                0 <= i < ids.len() ==> resolved(manager@, ids[i]@, user_input@) == Some(
                    (#[trigger] args[i])@,
                ),
            Err(e) => e == Error::MissingIdentifier && exists|i: int|
                0 <= i < ids.len() && resolved(manager@, (#[trigger] ids[i])@, user_input@)
                    is None,
        },
{
    let mut args: Vec<&'a [u8]> = Vec::new();
    let mut i: usize = 0;
    while i < ids.len()
        invariant
            i <= ids.len(),
            args.len() == i,
            forall|j: int|
                0 <= j < i ==> resolved(manager@, ids[j]@, user_input@) == Some(
                    (#[trigger] args[j])@,
                ),
        decreases ids.len() - i,
    {
        let id = ids[i];
        if same_text(id, "user_input") {
            args.push(user_input);
        } else {
            match manager.get_by_id(id) {
                Some(payload) => args.push(payload),
                None => {
                    return Err(Error::MissingIdentifier);
                },
            }
        }
        i = i + 1;
    }
    Ok(args)
}

} // verus!
