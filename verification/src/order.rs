//! The order of logical identifiers, and sorting by it.
//!
//! Identifiers are ordered as their UTF-8 bytes are, lexicographically. A
//! sort is stable: of two items with one identifier the one that came first
//! stays first.

use vstd::prelude::*;
use vstd::utf8::encode_utf8;

verus! {

/// Whether `a` comes no later than `b` in lexicographic order.
pub open spec fn lex_le(a: Seq<u8>, b: Seq<u8>) -> bool
    decreases a.len(),
{
    if a.len() == 0 {
        true
    } else if b.len() == 0 {
        false
    } else if a[0] != b[0] {
        a[0] < b[0]
    } else {
        lex_le(a.skip(1), b.skip(1))
    }
}

/// Where an item of key `k` goes into `sorted`: before the first item that
/// it comes no later than, or at the end.
pub open spec fn place<E>(sorted: Seq<E>, k: Seq<u8>, key: spec_fn(E) -> Seq<u8>) -> int
    decreases sorted.len(),
{
    if sorted.len() == 0 {
        0
    } else if lex_le(k, key(sorted[0])) {
        0
    } else {
        1 + place(sorted.drop_first(), k, key)
    }
}

/// The items of `items` in ascending order of their keys, items of one key
/// in the order in which they came.
pub open spec fn sorted_by<E>(items: Seq<E>, key: spec_fn(E) -> Seq<u8>) -> Seq<E>
    decreases items.len(),
{
    if items.len() == 0 {
        Seq::empty()
    } else {
        let rest = sorted_by(items.drop_first(), key);
        rest.insert(place(rest, key(items[0]), key), items[0])
    }
}

/// Whether the keys of `items` ascend.
pub open spec fn ascending<E>(items: Seq<E>, key: spec_fn(E) -> Seq<u8>) -> bool {
    forall|i: int, j: int|
        0 <= i < j < items.len() ==> lex_le(#[trigger] key(items[i]), #[trigger] key(items[j]))
}

/// Of two byte strings one comes no later than the other.
pub proof fn lemma_lex_le_total(a: Seq<u8>, b: Seq<u8>)
    ensures
        lex_le(a, b) || lex_le(b, a),
    decreases a.len(),
{
    if a.len() > 0 && b.len() > 0 && a[0] == b[0] {
        lemma_lex_le_total(a.skip(1), b.skip(1));
    }
}

/// The lexicographic order is transitive.
pub proof fn lemma_lex_le_transitive(a: Seq<u8>, b: Seq<u8>, c: Seq<u8>)
    requires
        lex_le(a, b),
        lex_le(b, c),
    ensures
        lex_le(a, c),
    decreases a.len(),
{
    if a.len() > 0 && b.len() > 0 && c.len() > 0 && a[0] == b[0] && b[0] == c[0] {
        lemma_lex_le_transitive(a.skip(1), b.skip(1), c.skip(1));
    }
}

/// The place of an item is inside the sequence or at its end; the items
/// before it come strictly earlier, the item at it comes no earlier.
pub proof fn lemma_place<E>(sorted: Seq<E>, k: Seq<u8>, key: spec_fn(E) -> Seq<u8>)
    ensures
        0 <= place(sorted, k, key) <= sorted.len(),
        forall|i: int| 0 <= i < place(sorted, k, key) ==> !lex_le(k, #[trigger] key(sorted[i])),
        place(sorted, k, key) < sorted.len() ==> lex_le(k, key(sorted[place(sorted, k, key)])),
    decreases sorted.len(),
{
    if sorted.len() > 0 && !lex_le(k, key(sorted[0])) {
        let rest = sorted.drop_first();
        lemma_place(rest, k, key);
        assert forall|i: int| 0 <= i < place(sorted, k, key) implies !lex_le(
            k,
            #[trigger] key(sorted[i]),
        ) by {
            if i > 0 {
                assert(sorted[i] == rest[i - 1]);
            }
        }
    }
}

/// What is sorted ascends.
pub proof fn lemma_sorted_ascending<E>(items: Seq<E>, key: spec_fn(E) -> Seq<u8>)
    ensures
        ascending(sorted_by(items, key), key),
    decreases items.len(),
{
    if items.len() > 0 {
        let e = items[0];
        let rest = sorted_by(items.drop_first(), key);
        let p = place(rest, key(e), key);
        let out = rest.insert(p, e);
        lemma_sorted_ascending(items.drop_first(), key);
        lemma_place(rest, key(e), key);
        assert forall|i: int, j: int| 0 <= i < j < out.len() implies lex_le(
            #[trigger] key(out[i]),
            #[trigger] key(out[j]),
        ) by {
            if j < p {
                assert(out[i] == rest[i] && out[j] == rest[j]);
            } else if j == p {
                assert(out[i] == rest[i]);
                lemma_lex_le_total(key(e), key(rest[i]));
            } else if i < p {
                assert(out[i] == rest[i] && out[j] == rest[j - 1]);
                if j - 1 > i {
                    assert(lex_le(key(rest[i]), key(rest[j - 1])));
                }
            } else if i == p {
                assert(out[j] == rest[j - 1]);
                if j - 1 > p {
                    assert(lex_le(key(rest[p]), key(rest[j - 1])));
                    lemma_lex_le_transitive(key(e), key(rest[p]), key(rest[j - 1]));
                }
            } else {
                assert(out[i] == rest[i - 1] && out[j] == rest[j - 1]);
            }
        }
    }
}

/// What is sorted holds the items that were there, each as often as before.
pub proof fn lemma_sorted_permutation<E>(items: Seq<E>, key: spec_fn(E) -> Seq<u8>)
    ensures
        sorted_by(items, key).to_multiset() == items.to_multiset(),
    decreases items.len(),
{
    broadcast use vstd::seq_lib::group_to_multiset_ensures;

    if items.len() == 0 {
    } else {
        let e = items[0];
        let tail = items.drop_first();
        let rest = sorted_by(tail, key);
        let p = place(rest, key(e), key);
        let out = rest.insert(p, e);
        lemma_sorted_permutation(tail, key);
        lemma_place(rest, key(e), key);
        assert(out.remove(p) =~= rest);
        assert(out.remove(p).to_multiset() == out.to_multiset().remove(e));
        assert(out.to_multiset().count(e) > 0) by {
            assert(out[p] == e);
            assert(out.contains(e));
        }
        assert(out.to_multiset() =~= rest.to_multiset().insert(e));
        assert(items.remove(0) =~= tail);
        assert(items.remove(0).to_multiset() == items.to_multiset().remove(e));
        assert(items.to_multiset().count(e) > 0) by {
            assert(items.contains(e));
        }
        assert(items.to_multiset() =~= tail.to_multiset().insert(e));
    }
}

/// Whether `a` comes no later than `b` in the order of identifiers.
pub fn text_le(a: &str, b: &str) -> (r: bool)
    ensures
        r == lex_le(encode_utf8(a@), encode_utf8(b@)),
{
    let x = a.as_bytes();
    let y = b.as_bytes();
    let mut i: usize = 0;
    proof {
        assert(x@.skip(0) =~= x@);
        assert(y@.skip(0) =~= y@);
    }
    while i < x.len() && i < y.len()
        invariant
            i <= x.len(),
            i <= y.len(),
            x@ == encode_utf8(a@),
            y@ == encode_utf8(b@),
            lex_le(x@, y@) == lex_le(x@.skip(i as int), y@.skip(i as int)),
        decreases x.len() - i,
    {
        proof {
            assert(x@.skip(i as int).skip(1) =~= x@.skip(i + 1));
            assert(y@.skip(i as int).skip(1) =~= y@.skip(i + 1));
        }
        if x[i] != y[i] {
            return x[i] < y[i];
        }
        i = i + 1;
    }
    x.len() <= y.len()
}

/// An item that is filed under a logical identifier.
pub trait Keyed: DeepView {
    /// The identifier of an item.
    spec fn key_of(v: Self::V) -> Seq<char>;

    /// The identifier of the item.
    fn id(&self) -> (id: &str)
        ensures
            id@ == Self::key_of(self.deep_view()),
    ;
}

impl Keyed for &'static str {
    open spec fn key_of(v: Seq<char>) -> Seq<char> {
        v
    }

    fn id(&self) -> (id: &str) {
        *self
    }
}

impl Keyed for (&'static str, usize) {
    open spec fn key_of(v: (Seq<char>, usize)) -> Seq<char> {
        v.0
    }

    fn id(&self) -> (id: &str) {
        self.0
    }
}

/// The key of an item: the UTF-8 bytes of its identifier.
pub open spec fn id_key<E: Keyed>() -> spec_fn(E::V) -> Seq<u8> {
    |v: E::V| encode_utf8(E::key_of(v))
}

/// The place of an item of the identifier `id` among items that ascend.
fn place_of<E: Keyed>(sorted: &Vec<E>, id: &str) -> (p: usize)
    ensures
        p == place(sorted.deep_view(), encode_utf8(id@), id_key::<E>()),
{
    let ghost all = sorted.deep_view();
    let mut p: usize = 0;
    proof {
        assert(all.skip(0) =~= all);
    }
    while p < sorted.len() && !text_le(id, sorted[p].id())
        invariant
            p <= sorted.len(),
            all == sorted.deep_view(),
            place(all, encode_utf8(id@), id_key::<E>()) == p + place(
                all.skip(p as int),
                encode_utf8(id@),
                id_key::<E>(),
            ),
        decreases sorted.len() - p,
    {
        proof {
            assert(all.skip(p as int).drop_first() =~= all.skip(p + 1));
            assert(all.skip(p as int)[0] == all[p as int]);
        }
        p = p + 1;
    }
    p
}

/// Sorts items into ascending order of their identifiers; items of one
/// identifier stay in the order in which they came.
pub fn sort_by_id<E: Keyed>(items: Vec<E>) -> (out: Vec<E>)
    ensures
        out.deep_view() == sorted_by(items.deep_view(), id_key::<E>()),
{
    let ghost all = items.deep_view();
    let mut items = items;
    let mut out: Vec<E> = Vec::new();
    proof {
        assert(all.skip(all.len() as int) =~= Seq::empty());
        assert(out.deep_view() =~= Seq::empty());
    }
    while items.len() > 0
        invariant
            items.len() <= all.len(),
            items.deep_view() == all.take(items.len() as int),
            out.deep_view() == sorted_by(all.skip(items.len() as int), id_key::<E>()),
        decreases items.len(),
    {
        let ghost left = items.deep_view();
        let ghost before = out.deep_view();
        match items.pop() {
            Some(item) => {
                let ghost e = item.deep_view();
                let p = place_of(&out, item.id());
                proof {
                    let n = items.len() as int;
                    lemma_place(before, id_key::<E>()(e), id_key::<E>());
                    assert(left[n] == e);
                    assert(items.deep_view() =~= all.take(n));
                    assert(all.skip(n).drop_first() =~= all.skip(n + 1));
                }
                out.insert(p, item);
                proof {
                    assert(out.deep_view() =~= before.insert(p as int, e));
                }
            },
            None => {},
        }
    }
    proof {
        assert(all.skip(0) =~= all);
    }
    out
}

} // verus!
