//! The hashes that tie an application's cells and contracts to its name:
//! the arguments of the type script, the hash of the type script, and the
//! check of a contract's output against its identifier.
//!
//! The hash function itself and the layout of a script are CKB's; what
//! they give is named here and not unfolded.

use crate::transition::Error;
use ckb_types::packed::Script;
use ckb_types::prelude::{Builder, Entity, Pack, Unpack};
use vstd::array::array_as_slice;
use vstd::prelude::*;
use vstd::slice::slice_to_vec;
use vstd::utf8::encode_utf8;

verus! {

/// The digest that `ckb_hash::blake2b_256` gives for `data`: Blake2b with
/// a 32-byte output and CKB's personalization.
pub uninterp spec fn ckb_blake2b_256(data: Seq<u8>) -> Seq<u8>;

/// The hash that `Script::calc_script_hash` gives for the script with the
/// given code hash, hash type and arguments.
pub uninterp spec fn ckb_script_hash(code_hash: Seq<u8>, hash_type: u8, args: Seq<u8>) -> Seq<u8>;

/// The hash type of a script that is matched by the hash of a type script.
pub const HASH_TYPE_TYPE: u8 = 1;

/// `ckb_hash::blake2b_256`: the digest of `data`, which depends on `data`
/// alone.
#[verifier::external_body]
fn blake2b_256(data: &[u8]) -> (digest: [u8; 32])
    ensures
        digest@ == ckb_blake2b_256(data@),
{
    ckb_hash::blake2b_256(data)
}

/// `Script::calc_script_hash` on the script that `Script::new_builder`
/// builds from the code hash, the hash type and the arguments: the hash
/// depends on these three alone.
#[verifier::external_body]
fn script_hash(code_hash: &[u8; 32], hash_type: u8, args: &[u8]) -> (hash: [u8; 32])
    ensures
        hash@ == ckb_script_hash(code_hash@, hash_type, args@),
{
    Script::new_builder()
        .code_hash(code_hash.pack())
        .hash_type(hash_type)
        .args(args.pack())
        .build()
        .calc_script_hash()
        .unpack()
}

/// The bytes of `head` followed by the UTF-8 bytes of `name`.
fn joined(head: &[u8], name: &str) -> (out: Vec<u8>)
    ensures
        out@ == head@ + encode_utf8(name@),
{
    let mut out = slice_to_vec(head);
    let mut tail = slice_to_vec(name.as_bytes());
    out.append(&mut tail);
    out
}

/// The digest of `head` followed by the UTF-8 bytes of `name`.
pub fn hash_with_name(head: &[u8], name: &str) -> (digest: [u8; 32])
    ensures
        digest@ == ckb_blake2b_256(head@ + encode_utf8(name@)),
{
    let data = joined(head, name);
    blake2b_256(data.as_slice())
}

/// The arguments of an application's type script: the digest of the hash
/// of the first input followed by the application's name.
pub fn get_onchain_type_args(input_hash: &[u8; 32], app_name: &str) -> (args: [u8; 32])
    ensures
        args@ == ckb_blake2b_256(input_hash@ + encode_utf8(app_name@)),
{
    hash_with_name(array_as_slice(input_hash), app_name)
}

/// The hash of an application's type script: that of the script with the
/// given code hash, the hash type "type" and the application's arguments.
pub fn get_type_script_hash(code_hash: &[u8; 32], input_hash: &[u8; 32], app_name: &str) -> (hash:
    [u8; 32])
    ensures
        hash@ == ckb_script_hash(
            code_hash@,
            HASH_TYPE_TYPE,
            ckb_blake2b_256(input_hash@ + encode_utf8(app_name@)),
        ),
{
    let args = get_onchain_type_args(input_hash, app_name);
    script_hash(code_hash, HASH_TYPE_TYPE, array_as_slice(&args))
}

/// Whether a digest is the one that was claimed.
pub fn digest_matches(digest: &[u8; 32], actual: &[u8; 32]) -> (r: Result<(), Error>)
    ensures
        digest@ == actual@ ==> r == Ok::<(), Error>(()),
        digest@ != actual@ ==> r == Err::<(), Error>(Error::WrongContractId),
{
    let mut i: usize = 0;
    while i < 32
        invariant
            i <= 32,
            forall|j: int| 0 <= j < i ==> digest@[j] == actual@[j],
        decreases 32 - i,
    {
        if digest[i] != actual[i] {
            return Err(Error::WrongContractId);
        }
        i = i + 1;
    }
    assert(digest@ =~= actual@);
    Ok(())
}

/// Checks the type arguments of a contract's output: they must be the
/// digest of the application's hash followed by the contract's identifier.
pub fn check_output_contract(hash: &[u8], id: &str, actual: &[u8; 32]) -> (r: Result<(), Error>)
    ensures
        ckb_blake2b_256(hash@ + encode_utf8(id@)) == actual@ ==> r == Ok::<(), Error>(()),
        ckb_blake2b_256(hash@ + encode_utf8(id@)) != actual@ ==> r == Err::<(), Error>(
            Error::WrongContractId,
        ),
{
    let ret = hash_with_name(hash, id);
    digest_matches(&ret, actual)
}

} // verus!
