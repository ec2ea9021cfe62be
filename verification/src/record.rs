//! Composite records: the encodings of the fields in declared order, behind
//! an 8-byte count of those bytes unless every field is fixed-size.
//!
//! The pieces here are what a hand-written codec of a record is made of:
//! writing a field behind what is already there, sealing the finished body,
//! reading two fields off a body, and choosing between an explicit default
//! and the field type's own.

use crate::codec::{
    consume_and_decode, encoding, frame, framed, front, lemma_encoding_len,
    lemma_front_of_encoding, Format, OnChain,
};
use vstd::prelude::*;

verus! {

/// The body of a record of two fields.
pub open spec fn pair_body<A: Format, B: Format>(a: A::V, b: B::V) -> Seq<u8> {
    encoding::<A>(a) + encoding::<B>(b)
}

/// The two fields read off a body one after the other; what follows the
/// second is not looked at.
pub open spec fn pair_parse<A: Format, B: Format>(bytes: Seq<u8>) -> Option<(A::V, B::V)> {
    match front::<A>(bytes) {
        Some((a, rest)) => match front::<B>(rest) {
            Some((b, _)) => Some((a, b)),
            None => None,
        },
        None => None,
    }
}

/// The fixed size of a record whose fields have the given fixed sizes, in
/// declared order: the sum of the sizes where every field is fixed-size and
/// the sum can be held, else none.
pub open spec fn record_width(sizes: Seq<Option<u64>>) -> Option<u64>
    decreases sizes.len(),
{
    if sizes.len() == 0 {
        Some(0)
    } else {
        match (record_width(sizes.drop_last()), sizes.last()) {
            (Some(a), Some(b)) => if a + b <= u64::MAX {
                Some((a + b) as u64)
            } else {
                None
            },
            _ => None,
        }
    }
}

/// The sum of the sizes of fields that are all fixed-size.
pub open spec fn total_width(sizes: Seq<Option<u64>>) -> nat
    decreases sizes.len(),
{
    if sizes.len() == 0 {
        0
    } else {
        total_width(sizes.drop_last()) + sizes.last().unwrap() as nat
    }
}

/// A record is fixed-size exactly if each of its fields is, as far as the
/// sum of their sizes can be held; its size is then that sum.
pub proof fn lemma_record_width(sizes: Seq<Option<u64>>)
    ensures
        record_width(sizes) is Some <==> (forall|i: int|
            0 <= i < sizes.len() ==> (#[trigger] sizes[i]) is Some) && total_width(sizes)
            <= u64::MAX,
        record_width(sizes) matches Some(n) ==> n == total_width(sizes),
    decreases sizes.len(),
{
    if sizes.len() > 0 {
        let front = sizes.drop_last();
        lemma_record_width(front);
        assert forall|i: int| 0 <= i < front.len() implies front[i] == sizes[i] by {}
        if forall|i: int| 0 <= i < sizes.len() ==> (#[trigger] sizes[i]) is Some {
            assert forall|i: int| 0 <= i < front.len() implies (#[trigger] front[i]) is Some by {
                assert(sizes[i] is Some);
            }
            assert(sizes[sizes.len() - 1] is Some);
        }
        if record_width(sizes) is Some {
            assert forall|i: int| 0 <= i < sizes.len() implies (#[trigger] sizes[i]) is Some by {
                if i < front.len() {
                    assert(front[i] is Some);
                }
            }
        }
    }
}

/// A record whose first fields have no fixed size together has none.
proof fn lemma_width_lost(sizes: Seq<Option<u64>>, n: int)
    requires
        0 <= n <= sizes.len(),
        record_width(sizes.take(n)) is None,
    ensures
        record_width(sizes) is None,
    decreases sizes.len() - n,
{
    if n < sizes.len() {
        assert(sizes.take(n + 1).drop_last() =~= sizes.take(n));
        lemma_width_lost(sizes, n + 1);
    } else {
        assert(sizes.take(n) =~= sizes);
    }
}

/// The fixed size of a record of two fields is that of the record of their
/// sizes.
pub proof fn lemma_pair_width<A: Format, B: Format>()
    ensures
        pair_width::<A, B>() == record_width(seq![A::fixed_width(), B::fixed_width()]),
{
    let sizes = seq![A::fixed_width(), B::fixed_width()];
    reveal_with_fuel(record_width, 3);
    assert(sizes.drop_last() =~= seq![A::fixed_width()]);
    assert(sizes.drop_last().drop_last() =~= Seq::<Option<u64>>::empty());
}

/// The fixed size of a record of two fields: the sum of the fields' sizes
/// where both are fixed-size and the sum can be held, else none.
pub open spec fn pair_width<A: Format, B: Format>() -> Option<u64> {
    match (A::fixed_width(), B::fixed_width()) {
        (Some(a), Some(b)) => if a + b <= u64::MAX {
            Some((a + b) as u64)
        } else {
            None
        },
        _ => None,
    }
}

/// A finished body as it goes on the wire for a type of the given fixed
/// size, if it has one.
pub open spec fn sealed(fixed_size: Option<u64>, body: Seq<u8>) -> Seq<u8> {
    if fixed_size is Some {
        body
    } else {
        framed(body)
    }
}

/// The default of a field: the explicit one where there is one, else the
/// default of the field's type.
pub open spec fn default_or<T: Format>(explicit: Option<T::V>) -> T::V {
    match explicit {
        Some(v) => v,
        None => T::default_value(),
    }
}

/// Two fields written one after the other are read back, and take as many
/// bytes as their encodings together.
pub proof fn lemma_pair_round_trip<A: Format, B: Format>(a: A::V, b: B::V)
    requires
        A::encodable(a),
        B::encodable(b),
    ensures
        pair_parse::<A, B>(pair_body::<A, B>(a, b)) == Some((a, b)),
        pair_body::<A, B>(a, b).len() == encoding::<A>(a).len() + encoding::<B>(b).len(),
        pair_width::<A, B>() matches Some(n) ==> pair_body::<A, B>(a, b).len() == n,
{
    lemma_encoding_len::<A>(a);
    lemma_encoding_len::<B>(b);
    lemma_front_of_encoding::<A>(a, encoding::<B>(b));
    lemma_front_of_encoding::<B>(b, Seq::empty());
    assert(encoding::<B>(b) + Seq::<u8>::empty() =~= encoding::<B>(b));
}

/// Defaults are determined: a field without an explicit default takes the
/// default of its type, and a field with one takes that one.
pub proof fn lemma_default_or<T: Format>(explicit: T::V)
    ensures
        default_or::<T>(None) == T::default_value(),
        default_or::<T>(Some(explicit)) == explicit,
{
}

/// Writes the encoding of `field` behind what `out` holds.
pub fn put_field<T: OnChain>(out: &mut Vec<u8>, field: &T)
    ensures
        final(out)@ == old(out)@ + encoding::<T>(field.deep_view()),
{
    let mut bytes = field._to_bytes();
    out.append(&mut bytes);
}

/// Puts the count in front of a finished body where the type has no fixed
/// size, and leaves the body as it is where it has one.
pub fn seal(fixed_size: Option<u64>, body: Vec<u8>) -> (out: Vec<u8>)
    ensures
        out@ == sealed(fixed_size, body@),
{
    match fixed_size {
        Some(_) => body,
        None => frame(body),
    }
}

/// The fixed size of a record whose fields have the given fixed sizes, if
/// it has one.
pub fn record_fixed_size(sizes: &[Option<u64>]) -> (r: Option<u64>)
    ensures
        r == record_width(sizes@),
{
    let mut total: u64 = 0;
    let mut i: usize = 0;
    proof {
        assert(sizes@.take(0) =~= Seq::<Option<u64>>::empty());
    }
    while i < sizes.len()
        invariant
            i <= sizes.len(),
            record_width(sizes@.take(i as int)) == Some(total),
        decreases sizes.len() - i,
    {
        let next = match sizes[i] {
            Some(size) => total.checked_add(size),
            None => None,
        };
        proof {
            assert(sizes@.take(i + 1).drop_last() =~= sizes@.take(i as int));
            assert(record_width(sizes@.take(i + 1)) == next);
        }
        match next {
            Some(sum) => {
                total = sum;
            },
            None => {
                proof {
                    lemma_width_lost(sizes@, i + 1);
                }
                return None;
            },
        }
        i = i + 1;
    }
    proof {
        assert(sizes@.take(i as int) =~= sizes@);
    }
    Some(total)
}

/// The fixed size of a record of two fields, if it has one.
pub fn pair_fixed_size<A: OnChain, B: OnChain>() -> (r: Option<u64>)
    ensures
        r == pair_width::<A, B>(),
{
    let sizes = [A::_fixed_size(), B::_fixed_size()];
    proof {
        lemma_pair_width::<A, B>();
        assert(sizes@ =~= seq![A::fixed_width(), B::fixed_width()]);
    }
    record_fixed_size(sizes.as_slice())
}

/// Reads two fields off the front of a body, one after the other.
pub fn read_pair<A: OnChain, B: OnChain>(bytes: &[u8]) -> (r: Option<(A, B)>)
    ensures
        match r {
            Some((a, b)) => pair_parse::<A, B>(bytes@) == Some((a.deep_view(), b.deep_view())),
            None => pair_parse::<A, B>(bytes@) is None,
        },
{
    match consume_and_decode::<A>(bytes) {
        Some((a, left)) => match consume_and_decode::<B>(left) {
            Some((b, _)) => Some((a, b)),
            None => None,
        },
        None => None,
    }
}

/// The default of a field: the explicit one where there is one, else the
/// default of the field's type.
pub fn field_default<T: OnChain>(explicit: Option<T>) -> (r: T)
    ensures
        r.deep_view() == default_or::<T>(
            match explicit {
                Some(v) => Some(v.deep_view()),
                None => None,
            },
        ),
{
    match explicit {
        Some(v) => v,
        None => T::_default(),
    }
}

} // verus!
