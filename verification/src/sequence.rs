//! Ordered sequences: an 8-byte count of the bytes that the elements take,
//! then the encodings of the elements back to back. A sequence defaults to
//! the empty one.

use crate::codec::{
    consume_and_decode, encoding, frame, front, lemma_decode_encode, lemma_encoding_len,
    lemma_front_of_encoding, Format, OnChain,
};
use crate::le::lemma_digits_len;
use vstd::prelude::*;

verus! {

/// The encodings of `items`, back to back.
pub open spec fn concat_encodings<T: Format>(items: Seq<T::V>) -> Seq<u8>
    decreases items.len(),
{
    if items.len() == 0 {
        Seq::empty()
    } else {
        encoding::<T>(items[0]) + concat_encodings::<T>(items.skip(1))
    }
}

/// The values read off `bytes` one after the other until no byte is left;
/// nothing if one of them cannot be read, or takes no bytes.
pub open spec fn parse_items<T: Format>(bytes: Seq<u8>) -> Option<Seq<T::V>>
    decreases bytes.len(),
{
    if bytes.len() == 0 {
        Some(Seq::empty())
    } else {
        match front::<T>(bytes) {
            Some((v, rest)) => if rest.len() < bytes.len() {
                match parse_items::<T>(rest) {
                    Some(more) => Some(seq![v] + more),
                    None => None,
                }
            } else {
                None
            },
            None => None,
        }
    }
}

/// The sequences that are read back from their encoding: every element is,
/// elements that take no bytes do not occur, and the bytes of the elements
/// can be counted in 8 bytes.
pub open spec fn items_encodable<T: Format>(items: Seq<T::V>) -> bool {
    &&& forall|i: int| 0 <= i < items.len() ==> T::encodable(#[trigger] items[i])
    &&& T::fixed_width() == Some(0u64) ==> items.len() == 0
    &&& concat_encodings::<T>(items).len() <= u64::MAX
}

/// One more element adds its encoding at the end.
pub proof fn lemma_concat_push<T: Format>(items: Seq<T::V>, last: T::V)
    ensures
        concat_encodings::<T>(items.push(last)) == concat_encodings::<T>(items) + encoding::<T>(
            last,
        ),
    decreases items.len(),
{
    let all = items.push(last);
    if items.len() == 0 {
        assert(all.skip(1) =~= Seq::<T::V>::empty());
        assert(concat_encodings::<T>(all.skip(1)) =~= Seq::<u8>::empty());
        assert(concat_encodings::<T>(all) =~= encoding::<T>(last));
    } else {
        assert(all.skip(1) =~= items.skip(1).push(last));
        lemma_concat_push::<T>(items.skip(1), last);
        assert(concat_encodings::<T>(all) =~= concat_encodings::<T>(items) + encoding::<T>(last));
    }
}

/// The encodings of the first `n` elements are no longer than those of all.
pub proof fn lemma_concat_prefix_len<T: Format>(items: Seq<T::V>, n: int)
    requires
        0 <= n <= items.len(),
    ensures
        concat_encodings::<T>(items.take(n)).len() <= concat_encodings::<T>(items).len(),
    decreases items.len() - n,
{
    if n == items.len() {
        assert(items.take(n) =~= items);
    } else {
        lemma_concat_prefix_len::<T>(items, n + 1);
        assert(items.take(n + 1) =~= items.take(n).push(items[n]));
        lemma_concat_push::<T>(items.take(n), items[n]);
    }
}

/// Concatenation decoding: values encoded back to back are recovered, in
/// order, by reading one after the other off the front.
pub proof fn lemma_concatenation_decodes<T: Format>(items: Seq<T::V>)
    requires
        items_encodable::<T>(items),
    ensures
        parse_items::<T>(concat_encodings::<T>(items)) == Some(items),
    decreases items.len(),
{
    if items.len() > 0 {
        let first = items[0];
        let others = items.skip(1);
        let tail = concat_encodings::<T>(others);
        lemma_encoding_len::<T>(first);
        lemma_front_of_encoding::<T>(first, tail);
        assert(items_encodable::<T>(others)) by {
            assert forall|i: int| 0 <= i < others.len() implies T::encodable(
                #[trigger] others[i],
            ) by {
                assert(others[i] == items[i + 1]);
            }
        }
        lemma_concatenation_decodes::<T>(others);
        assert(seq![first] + others =~= items);
    }
}

/// Nested containers: a sequence of sequences is read back from its
/// encoding, and no byte is left over.
pub proof fn lemma_nested_round_trip<T: Format>(items: Seq<Seq<T::V>>)
    requires
        items_encodable::<Vec<T>>(items),
    ensures
        front::<Vec<Vec<T>>>(encoding::<Vec<Vec<T>>>(items)) == Some((items, Seq::<u8>::empty())),
{
    lemma_decode_encode::<Vec<Vec<T>>>(items);
}

impl<T: Format> Format for Vec<T> {
    open spec fn fixed_width() -> Option<u64> {
        None
    }

    open spec fn body(v: Seq<T::V>) -> Seq<u8> {
        concat_encodings::<T>(v)
    }

    open spec fn parse(bytes: Seq<u8>) -> Option<Seq<T::V>> {
        parse_items::<T>(bytes)
    }

    open spec fn default_value() -> Seq<T::V> {
        Seq::empty()
    }

    open spec fn encodable(v: Seq<T::V>) -> bool {
        items_encodable::<T>(v)
    }

    open spec fn logical_id() -> Option<Seq<char>> {
        None
    }

    open spec fn user_input() -> bool {
        false
    }

    proof fn lemma_round_trip(v: Seq<T::V>) {
        lemma_concatenation_decodes::<T>(v);
    }
}

impl<T: OnChain> OnChain for Vec<T> {
    fn _capacity(&self) -> u64 {
        let ghost items = self.deep_view();
        let mut total: u64 = 8;
        let mut i: usize = 0;
        proof {
            lemma_digits_len(concat_encodings::<T>(items).len(), 8);
            assert(items.take(0) =~= Seq::<T::V>::empty());
        }
        while i < self.len()
            invariant
                i <= self.len(),
                items == self.deep_view(),
                8 + concat_encodings::<T>(items).len() <= u64::MAX,
                total == 8 + concat_encodings::<T>(items.take(i as int)).len(),
            decreases self.len() - i,
        {
            proof {
                lemma_concat_prefix_len::<T>(items, i + 1);
                assert(items.take(i + 1) =~= items.take(i as int).push(items[i as int]));
                lemma_concat_push::<T>(items.take(i as int), items[i as int]);
            }
            total = total + self[i]._capacity();
            i = i + 1;
        }
        proof {
            assert(items.take(i as int) =~= items);
        }
        total
    }

    fn _id() -> Option<&'static str> {
        None
    }

    fn _to_bytes(&self) -> Vec<u8> {
        let ghost items = self.deep_view();
        let mut body: Vec<u8> = Vec::new();
        let mut i: usize = 0;
        proof {
            assert(items.take(0) =~= Seq::<T::V>::empty());
        }
        while i < self.len()
            invariant
                i <= self.len(),
                items == self.deep_view(),
                body@ == concat_encodings::<T>(items.take(i as int)),
            decreases self.len() - i,
        {
            let mut bytes = self[i]._to_bytes();
            proof {
                assert(items.take(i + 1) =~= items.take(i as int).push(items[i as int]));
                lemma_concat_push::<T>(items.take(i as int), items[i as int]);
            }
            body.append(&mut bytes);
            i = i + 1;
        }
        proof {
            assert(items.take(i as int) =~= items);
        }
        frame(body)
    }

    fn _from_bytes(bytes: &[u8]) -> Option<Self> {
        let mut result: Vec<T> = Vec::new();
        let mut rest = bytes;
        proof {
            assert(result.deep_view() =~= Seq::<T::V>::empty());
            assert(forall|more: Seq<T::V>| Seq::<T::V>::empty() + more =~= more);
        }
        while rest.len() > 0
            invariant
                match parse_items::<T>(rest@) {
                    Some(more) => parse_items::<T>(bytes@) == Some(result.deep_view() + more),
                    None => parse_items::<T>(bytes@) is None,
                },
            decreases rest.len(),
        {
            match consume_and_decode::<T>(rest) {
                None => {
                    return None;
                },
                Some((item, left)) => {
                    if left.len() >= rest.len() {
                        return None;
                    }
                    let ghost before = result.deep_view();
                    let ghost value = item.deep_view();
                    result.push(item);
                    proof {
                        assert(result.deep_view() =~= before.push(value));
                        assert forall|more: Seq<T::V>|
                            before + (seq![value] + more) == #[trigger] (before.push(value)
                                + more) by {
                            assert(before + (seq![value] + more) =~= before.push(value) + more);
                        }
                    }
                    rest = left;
                },
            }
        }
        proof {
            assert(result.deep_view() + Seq::<T::V>::empty() =~= result.deep_view());
        }
        Some(result)
    }

    fn _fixed_size() -> Option<u64> {
        None
    }

    fn _eq(&self, other: &Self) -> bool {
        if self.len() != other.len() {
            return false;
        }
        let mut i: usize = 0;
        while i < self.len()
            invariant
                i <= self.len(),
                self.len() == other.len(),
                forall|j: int| 0 <= j < i ==> self@[j].deep_view() == other@[j].deep_view(),
            decreases self.len() - i,
        {
            if !self[i]._eq(&other[i]) {
                assert(self.deep_view()[i as int] != other.deep_view()[i as int]);
                return false;
            }
            i = i + 1;
        }
        assert(self.deep_view() =~= other.deep_view());
        true
    }

    fn _default() -> Self {
        let r: Vec<T> = Vec::new();
        assert(r.deep_view() =~= Seq::<T::V>::empty());
        r
    }

    fn _user_input() -> bool {
        false
    }
}

} // verus!
