//! The codec capability: what every value type that can live in a cell
//! provides, the wire layout that ties the pieces together, and the cursor
//! that reads one value off the front of a buffer.
//!
//! A type is either fixed-size, and then every value of it is written as the
//! same number of bytes with nothing around them, or variable-size, and then
//! its bytes follow an 8-byte little-endian count of them. Either way an
//! encoding delimits itself, so encodings can stand back to back.

use crate::le::{
    le_digits, le_number, le_read, le_write, lemma_digits_len, lemma_number_of_digits,
    lemma_radix_pow_values,
};
use vstd::prelude::*;
use vstd::slice::slice_subrange;

verus! {

/// The wire layout of a type, over the mathematical view of its values.
pub trait Format: Sized + DeepView {
    /// The number of bytes of every encoding, for a fixed-size type.
    spec fn fixed_width() -> Option<u64>;

    /// The bytes that carry `v`, without the count that precedes them when
    /// the type is variable-size.
    spec fn body(v: Self::V) -> Seq<u8>;

    /// The value that `bytes` carry, if any: for a fixed-size type the bytes
    /// may go on after the value, for a variable-size type they hold exactly
    /// one body.
    spec fn parse(bytes: Seq<u8>) -> Option<Self::V>;

    /// The canonical default of the type.
    spec fn default_value() -> Self::V;

    /// The values that the layout can carry and give back: those in which
    /// every length fits the count that precedes it, and no sequence holds
    /// elements that take no bytes.
    spec fn encodable(v: Self::V) -> bool;

    /// The identifier under which values of the type stand alone in a cell.
    spec fn logical_id() -> Option<Seq<char>>;

    /// Whether the type carries the input that a user hands to a contract.
    spec fn user_input() -> bool;

    /// What is written is read back: the body of an encodable value parses
    /// to that value, its length fits the count, and for a fixed-size type
    /// it is the declared width.
    proof fn lemma_round_trip(v: Self::V)
        requires
            Self::encodable(v),
        ensures
            Self::parse(Self::body(v)) == Some(v),
            Self::body(v).len() <= u64::MAX,
            Self::fixed_width() matches Some(n) ==> Self::body(v).len() == n,
    ;
}

/// `body` behind its length as an 8-byte little-endian number.
pub open spec fn framed(body: Seq<u8>) -> Seq<u8> {
    le_digits(body.len(), 8) + body
}

/// The self-delimiting encoding of `v`: the body alone for a fixed-size
/// type, the body behind its length otherwise.
pub open spec fn encoding<T: Format>(v: T::V) -> Seq<u8> {
    if T::fixed_width() is Some {
        T::body(v)
    } else {
        framed(T::body(v))
    }
}

/// The value carried by `bytes[from..to]`, with what follows `to`.
pub open spec fn carve<T: Format>(bytes: Seq<u8>, from: int, to: int) -> Option<(T::V, Seq<u8>)> {
    match T::parse(bytes.subrange(from, to)) {
        Some(v) => Some((v, bytes.subrange(to, bytes.len() as int))),
        None => None,
    }
}

/// One value read off the front of `bytes`, with the bytes left behind it.
///
/// A fixed-size type takes its width from the front. A variable-size type
/// takes the 8-byte count and then that many bytes. A buffer too short for
/// either, or bytes that do not parse, give nothing.
pub open spec fn front<T: Format>(bytes: Seq<u8>) -> Option<(T::V, Seq<u8>)> {
    match T::fixed_width() {
        Some(n) => if n <= bytes.len() {
            carve::<T>(bytes, 0, n as int)
        } else {
            None
        },
        None => if 8 <= bytes.len() && 8 + le_number(bytes.subrange(0, 8)) <= bytes.len() {
            carve::<T>(bytes, 8, 8 + le_number(bytes.subrange(0, 8)) as int)
        } else {
            None
        },
    }
}

/// The codec capability of a value type.
pub trait OnChain: Format {
    /// The exact number of bytes of `_to_bytes`.
    fn _capacity(&self) -> (n: u64)
        requires
            encoding::<Self>(self.deep_view()).len() <= u64::MAX,
        ensures
            n == encoding::<Self>(self.deep_view()).len(),
    ;

    /// The identifier under which the type stands alone in a cell.
    fn _id() -> (id: Option<&'static str>)
        ensures
            match id {
                Some(s) => Self::logical_id() == Some(s@),
                None => Self::logical_id() is None,
            },
    ;

    /// The self-delimiting encoding of the value.
    fn _to_bytes(&self) -> (bytes: Vec<u8>)
        ensures
            bytes@ == encoding::<Self>(self.deep_view()),
    ;

    /// The value that the bytes carry; nothing where they are too short or
    /// malformed.
    fn _from_bytes(bytes: &[u8]) -> (r: Option<Self>)
        ensures
            match r {
                Some(v) => Self::parse(bytes@) == Some(v.deep_view()),
                None => Self::parse(bytes@) is None,
            },
    ;

    /// The statically known size of every encoding, if there is one.
    fn _fixed_size() -> (r: Option<u64>)
        ensures
            r == Self::fixed_width(),
    ;

    /// Structural equality: whether both values have one view.
    fn _eq(&self, other: &Self) -> (r: bool)
        ensures
            r == (self.deep_view() == other.deep_view()),
    ;

    /// The canonical default of the type.
    fn _default() -> (r: Self)
        ensures
            r.deep_view() == Self::default_value(),
    ;

    /// Whether the type carries the input that a user hands to a contract.
    fn _user_input() -> (r: bool)
        ensures
            r == Self::user_input(),
    ;
}

/// The exact number of bytes of the encoding of `value`, for any value
/// that can be held: it is counted on the encoding itself.
pub fn capacity<T: OnChain>(value: &T) -> (n: u64)
    ensures
        n == encoding::<T>(value.deep_view()).len(),
{
    value._to_bytes().len() as u64
}

/// Puts the 8-byte little-endian length of `body` in front of it.
pub fn frame(body: Vec<u8>) -> (out: Vec<u8>)
    ensures
        out@ == framed(body@),
{
    let mut body = body;
    let mut out = le_write(body.len() as u128, 8);
    out.append(&mut body);
    out
}

/// Reads one value of type `T` off the front of `bytes` and hands back the
/// bytes behind it.
pub fn consume_and_decode<T: OnChain>(bytes: &[u8]) -> (r: Option<(T, &[u8])>)
    ensures
        match r {
            Some((v, rest)) => front::<T>(bytes@) == Some((v.deep_view(), rest@)),
            None => front::<T>(bytes@) is None,
        },
{
    let len = bytes.len();
    let (from, to) = match T::_fixed_size() {
        Some(capacity) => {
            if capacity > len as u64 {
                return None;
            }
            (0, capacity as usize)
        },
        None => {
            if len < 8 {
                return None;
            }
            let size = le_read(bytes, 8);
            if size > (len - 8) as u128 {
                return None;
            }
            (8, size as usize + 8)
        },
    };
    match T::_from_bytes(slice_subrange(bytes, from, to)) {
        Some(item) => Some((item, slice_subrange(bytes, to, len))),
        None => None,
    }
}

/// How long an encoding is: the declared width, or the body and its count.
pub proof fn lemma_encoding_len<T: Format>(v: T::V)
    requires
        T::encodable(v),
    ensures
        T::fixed_width() matches Some(n) ==> encoding::<T>(v).len() == n,
        T::fixed_width() is None ==> encoding::<T>(v).len() == 8 + T::body(v).len(),
{
    T::lemma_round_trip(v);
    lemma_digits_len(T::body(v).len(), 8);
}

/// Reading the front of a buffer that starts with the encoding of `v` gives
/// `v` and leaves exactly what stood behind the encoding.
pub proof fn lemma_front_of_encoding<T: Format>(v: T::V, tail: Seq<u8>)
    requires
        T::encodable(v),
    ensures
        front::<T>(encoding::<T>(v) + tail) == Some((v, tail)),
{
    T::lemma_round_trip(v);
    let body = T::body(v);
    let bytes = encoding::<T>(v) + tail;
    match T::fixed_width() {
        Some(n) => {
            assert(bytes.subrange(0, n as int) =~= body);
            assert(bytes.subrange(n as int, bytes.len() as int) =~= tail);
        },
        None => {
            let count = le_digits(body.len(), 8);
            lemma_digits_len(body.len(), 8);
            lemma_radix_pow_values();
            lemma_number_of_digits(body.len(), 8);
            assert(bytes.subrange(0, 8) =~= count);
            assert(bytes.subrange(8, 8 + body.len() as int) =~= body);
            assert(bytes.subrange(8 + body.len() as int, bytes.len() as int) =~= tail);
        },
    }
}

/// Round trip: decoding the encoding of a value gives the value back and
/// leaves no byte over.
pub proof fn lemma_decode_encode<T: Format>(v: T::V)
    requires
        T::encodable(v),
    ensures
        front::<T>(encoding::<T>(v)) == Some((v, Seq::<u8>::empty())),
{
    lemma_front_of_encoding::<T>(v, Seq::empty());
    assert(encoding::<T>(v) + Seq::<u8>::empty() =~= encoding::<T>(v));
}

} // verus!
