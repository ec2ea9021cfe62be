//! Tagged sums: a one-byte index of the variant, then the encoding of what
//! the variant carries, if it carries anything; the whole always behind an
//! 8-byte count. An index that names no variant does not decode.
//!
//! The pieces here are what a hand-written codec of a sum is made of.

use crate::codec::{
    consume_and_decode, encoding, frame, framed, front, lemma_front_of_encoding, Format, OnChain,
};
use crate::le::{lemma_digits_len, lemma_radix_pow_values};
use crate::record::put_field;
use vstd::prelude::*;

verus! {

/// The body of a variant: its index, then the bytes of what it carries.
pub open spec fn variant_body(tag: u8, carried: Seq<u8>) -> Seq<u8> {
    encoding::<u8>(tag) + carried
}

/// The index at the front of a body, with the bytes behind it.
pub open spec fn variant_tag(bytes: Seq<u8>) -> Option<(u8, Seq<u8>)> {
    front::<u8>(bytes)
}

/// The value that a variant carries, read off the bytes behind the index.
pub open spec fn carried<P: Format>(rest: Seq<u8>) -> Option<P::V> {
    match front::<P>(rest) {
        Some((v, _)) => Some(v),
        None => None,
    }
}

/// The index of a variant is preserved: it is read back from the body,
/// and so are the bytes that follow it.
pub proof fn lemma_variant_tag(tag: u8, rest: Seq<u8>)
    ensures
        variant_tag(variant_body(tag, rest)) == Some((tag, rest)),
        variant_body(tag, rest).len() == 1 + rest.len(),
{
    lemma_radix_pow_values();
    lemma_digits_len(tag as nat, 1);
    lemma_front_of_encoding::<u8>(tag, rest);
}

/// What a variant carries is read back from behind its index.
pub proof fn lemma_variant_carried<P: Format>(tag: u8, v: P::V)
    requires
        P::encodable(v),
    ensures
        variant_tag(variant_body(tag, encoding::<P>(v))) == Some((tag, encoding::<P>(v))),
        carried::<P>(encoding::<P>(v)) == Some(v),
{
    lemma_variant_tag(tag, encoding::<P>(v));
    lemma_front_of_encoding::<P>(v, Seq::empty());
    assert(encoding::<P>(v) + Seq::<u8>::empty() =~= encoding::<P>(v));
}

/// The encoding of a variant that carries nothing.
pub fn write_bare(tag: u8) -> (out: Vec<u8>)
    ensures
        out@ == framed(variant_body(tag, Seq::empty())),
{
    let mut body: Vec<u8> = Vec::new();
    put_field::<u8>(&mut body, &tag);
    assert(body@ =~= variant_body(tag, Seq::empty()));
    frame(body)
}

/// The encoding of a variant that carries `payload`.
pub fn write_carrying<P: OnChain>(tag: u8, payload: &P) -> (out: Vec<u8>)
    ensures
        out@ == framed(variant_body(tag, encoding::<P>(payload.deep_view()))),
{
    let mut body: Vec<u8> = Vec::new();
    put_field::<u8>(&mut body, &tag);
    put_field::<P>(&mut body, payload);
    frame(body)
}

/// Reads the index off the front of a body.
pub fn read_tag(bytes: &[u8]) -> (r: Option<(u8, &[u8])>)
    ensures
        match r {
            Some((tag, rest)) => variant_tag(bytes@) == Some((tag, rest@)),
            None => variant_tag(bytes@) is None,
        },
{
    consume_and_decode::<u8>(bytes)
}

/// Reads what a variant carries off the bytes behind the index.
pub fn read_carried<P: OnChain>(rest: &[u8]) -> (r: Option<P>)
    ensures
        match r {
            Some(v) => carried::<P>(rest@) == Some(v.deep_view()),
            None => carried::<P>(rest@) is None,
        },
{
    match consume_and_decode::<P>(rest) {
        Some((v, _)) => Some(v),
        None => None,
    }
}

} // verus!
