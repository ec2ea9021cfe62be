//! Verifying a transition: one pass over an input cell and an output cell
//! that accepts the transition or rejects it with the first check that
//! fails.
//!
//! The input cell is read: its discriminant, and the value it carries. The
//! mutation is applied to the value. The output cell is read: its
//! discriminant must be that of the input, and the value it carries must be
//! structurally equal to the mutated value.

use crate::codec::{consume_and_decode, encoding, front, lemma_front_of_encoding, Format, OnChain};
use crate::wrapper::OnChainWrapper;
use vstd::prelude::*;

verus! {

/// Why a cell could not be had, or why a transition is rejected.
#[derive(Debug, Clone, Copy, PartialEq, Eq)]
pub enum Error {
    /// The cell source has no cell at the index asked for.
    IndexOutOfBound,
    /// The cell source has no such item.
    ItemMissing,
    /// The cell source was handed too short a buffer.
    LengthNotEnough,
    /// The output cell does not carry the discriminant of the input cell.
    TypeMismatch,
    /// Bytes that are too short, no valid text, or an unknown variant.
    Decode,
    /// The output cell does not carry the mutated value.
    EqualityViolation,
    /// The store has no payload for a logical identifier.
    MissingIdentifier,
    /// The output of a contract does not carry the digest of its identifier.
    WrongContractId,
    /// The output of a contract has no type script.
    ContractTypeScriptMissing,
}

/// What went wrong in the cell source.
#[derive(Debug, Clone, Copy, PartialEq, Eq)]
pub enum SysErrorKind {
    /// There is no cell at the index.
    IndexOutOfBound,
    /// The cell has no such item.
    ItemMissing,
    /// The buffer handed to the source was too short.
    LengthNotEnough,
    /// What the source holds is not laid out as it should be.
    Encoding,
    /// An error number that the source does not document.
    Unknown,
}

/// The error that a failure of the cell source stands for; an undocumented
/// failure stands for none.
pub open spec fn sys_error(kind: SysErrorKind) -> Option<Error> {
    match kind {
        SysErrorKind::IndexOutOfBound => Some(Error::IndexOutOfBound),
        SysErrorKind::ItemMissing => Some(Error::ItemMissing),
        SysErrorKind::LengthNotEnough => Some(Error::LengthNotEnough),
        SysErrorKind::Encoding => Some(Error::Decode),
        SysErrorKind::Unknown => None,
    }
}

/// The discriminant of a cell and the bytes it carries.
pub open spec fn read_tagged(cell: Seq<u8>) -> Option<(u8, Seq<u8>)> {
    match front::<OnChainWrapper>(cell) {
        Some((tagged, _)) => Some(tagged),
        None => None,
    }
}

/// The value of type `T` that the bytes carried by a cell encode.
pub open spec fn read_value<T: Format>(data: Seq<u8>) -> Option<T::V> {
    match front::<T>(data) {
        Some((v, _)) => Some(v),
        None => None,
    }
}

/// The cell that carries `data` under the discriminant `id`.
pub open spec fn tagged_cell(id: u8, data: Seq<u8>) -> Seq<u8> {
    encoding::<OnChainWrapper>((id, data))
}

/// What loading the input cell gives: its discriminant and its value, or a
/// decode failure.
pub open spec fn input_of<T: Format>(cell: Seq<u8>) -> Result<(u8, T::V), Error> {
    match read_tagged(cell) {
        None => Err(Error::Decode),
        Some((id, data)) => match read_value::<T>(data) {
            None => Err(Error::Decode),
            Some(v) => Ok((id, v)),
        },
    }
}

/// The verdict on an output cell, given the discriminant of the input cell
/// and the value that the mutation produced. The checks come in this order:
/// the cell decodes, the discriminants agree, the carried value decodes, the
/// values agree.
pub open spec fn output_verdict<T: Format>(input_id: u8, expected: T::V, cell: Seq<u8>) -> Result<
    (),
    Error,
> {
    match read_tagged(cell) {
        None => Err(Error::Decode),
        Some((id, data)) => if id != input_id {
            Err(Error::TypeMismatch)
        } else {
            match read_value::<T>(data) {
                None => Err(Error::Decode),
                Some(v) => if v == expected {
                    Ok(())
                } else {
                    Err(Error::EqualityViolation)
                },
            }
        },
    }
}

/// The verdict on a transition from `input` to `output` under `mutation`.
pub open spec fn transition_verdict<T: Format>(
    input: Seq<u8>,
    mutation: spec_fn(T::V) -> T::V,
    output: Seq<u8>,
) -> Result<(), Error> {
    match input_of::<T>(input) {
        Err(e) => Err(e),
        Ok((id, v)) => output_verdict::<T>(id, mutation(v), output),
    }
}

/// The exit code of a contract run: 0 for an accepted transition, else the
/// number of the error.
pub open spec fn code_of(outcome: Result<(), Error>) -> i8 {
    match outcome {
        Ok(_) => 0,
        Err(Error::IndexOutOfBound) => 1,
        Err(Error::ItemMissing) => 2,
        Err(Error::LengthNotEnough) => 3,
        Err(Error::TypeMismatch) => 4,
        Err(Error::Decode) => 5,
        Err(Error::EqualityViolation) => 6,
        Err(Error::MissingIdentifier) => 7,
        Err(Error::WrongContractId) => 8,
        Err(Error::ContractTypeScriptMissing) => 9,
    }
}

/// A cell written for `id` and `data` is read back as `id` and `data`.
pub proof fn lemma_read_tagged_cell(id: u8, data: Seq<u8>)
    requires
        OnChainWrapper::encodable((id, data)),
    ensures
        read_tagged(tagged_cell(id, data)) == Some((id, data)),
{
    lemma_front_of_encoding::<OnChainWrapper>((id, data), Seq::empty());
    assert(tagged_cell(id, data) + Seq::<u8>::empty() =~= tagged_cell(id, data));
}

/// A transition is accepted when the output cell carries the discriminant
/// of the input cell and the encoding of the mutated value.
pub proof fn lemma_transition_accepted<T: Format>(
    id: u8,
    data: Seq<u8>,
    mutation: spec_fn(T::V) -> T::V,
)
    requires
        OnChainWrapper::encodable((id, data)),
        read_value::<T>(data) is Some,
        T::encodable(mutation(read_value::<T>(data).unwrap())),
        OnChainWrapper::encodable(
            (id, encoding::<T>(mutation(read_value::<T>(data).unwrap()))),
        ),
    ensures
        transition_verdict::<T>(
            tagged_cell(id, data),
            mutation,
            tagged_cell(id, encoding::<T>(mutation(read_value::<T>(data).unwrap()))),
        ) == Ok::<(), Error>(()),
{
    let after = mutation(read_value::<T>(data).unwrap());
    lemma_read_tagged_cell(id, data);
    lemma_read_tagged_cell(id, encoding::<T>(after));
    lemma_front_of_encoding::<T>(after, Seq::empty());
    assert(encoding::<T>(after) + Seq::<u8>::empty() =~= encoding::<T>(after));
}

/// A transition whose output cell carries another discriminant than its
/// input cell is rejected as a type mismatch, whatever the output carries.
pub proof fn lemma_transition_type_mismatch<T: Format>(
    id: u8,
    data: Seq<u8>,
    mutation: spec_fn(T::V) -> T::V,
    output_id: u8,
    output_data: Seq<u8>,
)
    requires
        OnChainWrapper::encodable((id, data)),
        OnChainWrapper::encodable((output_id, output_data)),
        read_value::<T>(data) is Some,
        output_id != id,
    ensures
        transition_verdict::<T>(
            tagged_cell(id, data),
            mutation,
            tagged_cell(output_id, output_data),
        ) == Err::<(), Error>(Error::TypeMismatch),
{
    lemma_read_tagged_cell(id, data);
    lemma_read_tagged_cell(output_id, output_data);
}

/// A transition whose output cell carries the right discriminant and a
/// value other than the mutated one is rejected as an equality violation.
pub proof fn lemma_transition_equality_violation<T: Format>(
    id: u8,
    data: Seq<u8>,
    mutation: spec_fn(T::V) -> T::V,
    output_data: Seq<u8>,
)
    requires
        OnChainWrapper::encodable((id, data)),
        OnChainWrapper::encodable((id, output_data)),
        read_value::<T>(data) is Some,
        read_value::<T>(output_data) is Some,
        read_value::<T>(output_data).unwrap() != mutation(read_value::<T>(data).unwrap()),
    ensures
        transition_verdict::<T>(tagged_cell(id, data), mutation, tagged_cell(id, output_data))
            == Err::<(), Error>(Error::EqualityViolation),
{
    lemma_read_tagged_cell(id, data);
    lemma_read_tagged_cell(id, output_data);
}

/// The error that a documented failure of the cell source stands for.
pub fn from_sys_error(kind: SysErrorKind) -> (e: Error)
    requires
        !(kind is Unknown),
    ensures
        sys_error(kind) == Some(e),
{
    match kind {
        SysErrorKind::IndexOutOfBound => Error::IndexOutOfBound,
        SysErrorKind::ItemMissing => Error::ItemMissing,
        SysErrorKind::LengthNotEnough => Error::LengthNotEnough,
        _ => Error::Decode,
    }
}

/// Reads the input cell: its discriminant and the value it carries.
pub fn load_input<T: OnChain>(cell: &[u8]) -> (r: Result<(u8, T), Error>)
    ensures
        match r {
            Ok((id, v)) => input_of::<T>(cell@) == Ok::<(u8, T::V), Error>((id, v.deep_view())),
            Err(e) => input_of::<T>(cell@) == Err::<(u8, T::V), Error>(e),
        },
{
    let wrapper = match consume_and_decode::<OnChainWrapper>(cell) {
        Some((wrapper, _)) => wrapper,
        None => {
            return Err(Error::Decode);
        },
    };
    match consume_and_decode::<T>(wrapper.data.as_slice()) {
        Some((v, _)) => Ok((wrapper.idx, v)),
        None => Err(Error::Decode),
    }
}

/// Checks the output cell against the discriminant of the input cell and
/// the value that the mutation produced.
pub fn check_output<T: OnChain>(input_id: u8, expected: &T, cell: &[u8]) -> (r: Result<(), Error>)
    ensures
        r == output_verdict::<T>(input_id, expected.deep_view(), cell@),
{
    let wrapper = match consume_and_decode::<OnChainWrapper>(cell) {
        Some((wrapper, _)) => wrapper,
        None => {
            return Err(Error::Decode);
        },
    };
    if input_id != wrapper.idx {
        return Err(Error::TypeMismatch);
    }
    match consume_and_decode::<T>(wrapper.data.as_slice()) {
        Some((v, _)) => {
            if expected._eq(&v) {
                Ok(())
            } else {
                Err(Error::EqualityViolation)
            }
        },
        None => Err(Error::Decode),
    }
}

/// Verifies one transition: reads the input cell, applies `mutation` to
/// its value, and checks the output cell against the result.
pub fn verify_transition<T: OnChain, F: FnOnce(T) -> T>(
    input: &[u8],
    mutation: F,
    output: &[u8],
) -> (r: Result<(), Error>)
    requires
        forall|v: T| call_requires(mutation, (v,)),
    ensures
        match input_of::<T>(input@) {
            Err(e) => r == Err::<(), Error>(e),
            Ok((id, before)) => exists|v: T, w: T|
                v.deep_view() == before && call_ensures(mutation, (v,), w) && r
                    == output_verdict::<T>(id, w.deep_view(), output@),
        },
{
    match load_input::<T>(input) {
        Err(e) => Err(e),
        Ok((id, v)) => {
            let ghost before = v;
            let w = mutation(v);
            let r = check_output::<T>(id, &w, output);
            assert(before.deep_view() == input_of::<T>(input@)->Ok_0.1 && call_ensures(
                mutation,
                (before,),
                w,
            ) && r == output_verdict::<T>(id, w.deep_view(), output@));
            r
        },
    }
}

/// The exit code of a contract run: 0 for an accepted transition, else the
/// number of the error.
pub fn exit_code(outcome: Result<(), Error>) -> (code: i8)
    ensures
        code == code_of(outcome),
{
    match outcome {
        Ok(_) => 0,
        Err(Error::IndexOutOfBound) => 1,
        Err(Error::ItemMissing) => 2,
        Err(Error::LengthNotEnough) => 3,
        Err(Error::TypeMismatch) => 4,
        Err(Error::Decode) => 5,
        Err(Error::EqualityViolation) => 6,
        Err(Error::MissingIdentifier) => 7,
        Err(Error::WrongContractId) => 8,
        Err(Error::ContractTypeScriptMissing) => 9,
    }
}

} // verus!
