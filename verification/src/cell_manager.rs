//! The cell store: the committed payload of each logical identifier, and
//! beside it the payloads that are staged for the next commit.
//!
//! Reads see only what is committed. A commit moves every staged payload
//! into the committed table in one step and empties the staging area; staged
//! payloads that are never committed are never seen.

use crate::text::same_text;
use vstd::prelude::*;

verus! {

/// The store as two maps from identifier to payload.
pub struct StoreView {
    pub committed: Map<Seq<char>, Seq<u8>>,
    pub staged: Map<Seq<char>, Seq<u8>>,
}

impl StoreView {
    /// The committed payload of `id`, if it has one.
    pub open spec fn lookup(self, id: Seq<char>) -> Option<Seq<u8>> {
        if self.committed.dom().contains(id) {
            Some(self.committed[id])
        } else {
            None
        }
    }

    /// The store with `payload` staged for `id`.
    pub open spec fn stage(self, id: Seq<char>, payload: Seq<u8>) -> StoreView {
        StoreView { committed: self.committed, staged: self.staged.insert(id, payload) }
    }

    /// The store with everything staged moved into the committed table.
    pub open spec fn commit(self) -> StoreView {
        StoreView {
            committed: self.committed.union_prefer_right(self.staged),
            staged: Map::empty(),
        }
    }
}

/// The table that a list of entries stands for at construction: of two
/// entries with one identifier the earlier one counts.
pub open spec fn snapshot(entries: Seq<(Seq<char>, Seq<u8>)>) -> Map<Seq<char>, Seq<u8>>
    decreases entries.len(),
{
    if entries.len() == 0 {
        Map::empty()
    } else {
        snapshot(entries.drop_first()).insert(entries[0].0, entries[0].1)
    }
}

/// Atomicity of the store: a staged payload is not seen by a lookup, of its
/// own identifier or of any other, until a commit; after the commit the
/// lookup of its identifier gives it, and nothing is left staged.
pub proof fn lemma_stage_then_commit(
    store: StoreView,
    id: Seq<char>,
    payload: Seq<u8>,
    other: Seq<char>,
)
    ensures
        store.stage(id, payload).lookup(other) == store.lookup(other),
        store.stage(id, payload).commit().lookup(id) == Some(payload),
        store.stage(id, payload).commit().staged == Map::<Seq<char>, Seq<u8>>::empty(),
{
}

/// Whether entry `i` of `list` is the entry of `id`.
spec fn entry_of(list: Seq<(&'static str, Vec<u8>)>, id: Seq<char>, i: int) -> bool {
    0 <= i < list.len() && list[i].0@ == id
}

/// Whether no identifier has two entries in `list`.
spec fn distinct(list: Seq<(&'static str, Vec<u8>)>) -> bool {
    forall|i: int, j: int| 0 <= i < j < list.len() ==> list[i].0@ != list[j].0@
}

/// The map that a list of entries with distinct identifiers holds.
spec fn table(list: Seq<(&'static str, Vec<u8>)>) -> Map<Seq<char>, Seq<u8>> {
    Map::new(
        |id: Seq<char>| exists|i: int| entry_of(list, id, i),
        |id: Seq<char>| list[choose|i: int| entry_of(list, id, i)].1@,
    )
}

/// The table holds each entry of a list with distinct identifiers.
proof fn lemma_table_at(list: Seq<(&'static str, Vec<u8>)>, i: int)
    requires
        distinct(list),
        0 <= i < list.len(),
    ensures
        table(list).dom().contains(list[i].0@),
        table(list)[list[i].0@] == list[i].1@,
{
    let id = list[i].0@;
    assert(entry_of(list, id, i));
    let j = choose|j: int| entry_of(list, id, j);
    assert(j == i);
}

/// The table holds an identifier exactly if the list has an entry of it.
proof fn lemma_table_dom(list: Seq<(&'static str, Vec<u8>)>, id: Seq<char>)
    ensures
        table(list).dom().contains(id) <==> exists|i: int| entry_of(list, id, i),
{
}

/// The place of the entry of `id` in `list`.
fn find(list: &Vec<(&'static str, Vec<u8>)>, id: &str) -> (r: Option<usize>)
    ensures
        match r {
            Some(i) => entry_of(list@, id@, i as int),
            None => forall|i: int| !entry_of(list@, id@, i),
        },
{
    let mut i: usize = 0;
    while i < list.len()
        invariant
            i <= list.len(),
            forall|j: int| 0 <= j < i ==> !entry_of(list@, id@, j),
        decreases list.len() - i,
    {
        if same_text(list[i].0, id) {
            return Some(i);
        }
        i = i + 1;
    }
    None
}

/// Gives `id` the payload `data` in `list`, in place of the one it had or
/// as a new entry.
fn upsert(list: &mut Vec<(&'static str, Vec<u8>)>, id: &'static str, data: Vec<u8>)
    requires
        distinct(old(list)@),
    ensures
        distinct(final(list)@),
        table(final(list)@) == table(old(list)@).insert(id@, data@),
{
    let ghost before = list@;
    let found = find(list, id);
    match found {
        Some(i) => {
            list.set(i, (id, data));
        },
        None => {
            list.push((id, data));
        },
    }
    proof {
        let after = list@;
        let at: int = match found {
            Some(i) => i as int,
            None => before.len() as int,
        };
        assert(after[at].0@ == id@ && after[at].1@ == data@);
        assert(forall|j: int| 0 <= j < after.len() && j != at ==> after[j] == before[j]);
        assert forall|j: int| 0 <= j < before.len() && j != at implies before[j].0@ != id@ by {
            if before[j].0@ == id@ {
                assert(entry_of(before, id@, j));
                if j < at {
                    assert(before[j].0@ != before[at].0@);
                } else {
                    assert(before[at].0@ != before[j].0@);
                }
            }
        }
        assert(distinct(after));
        let expected = table(before).insert(id@, data@);
        assert forall|k: Seq<char>| table(after).dom().contains(k) == expected.dom().contains(
            k,
        ) by {
            lemma_table_dom(after, k);
            lemma_table_dom(before, k);
            if exists|j: int| entry_of(after, k, j) {
                let j = choose|j: int| entry_of(after, k, j);
                if j != at {
                    assert(entry_of(before, k, j));
                }
            }
            if k != id@ && exists|j: int| entry_of(before, k, j) {
                let j = choose|j: int| entry_of(before, k, j);
                assert(entry_of(after, k, j));
            }
            if k == id@ {
                assert(entry_of(after, k, at));
            }
        }
        assert forall|k: Seq<char>| table(after).dom().contains(k) implies table(after)[k]
            == expected[k] by {
            lemma_table_dom(after, k);
            let j = choose|j: int| entry_of(after, k, j);
            lemma_table_at(after, j);
            if j != at {
                assert(entry_of(before, k, j));
                lemma_table_at(before, j);
            }
        }
        assert(table(after) =~= expected);
    }
}

/// The store of cell payloads by logical identifier.
pub struct CellManager {
    cells: Vec<(&'static str, Vec<u8>)>,
    pending: Vec<(&'static str, Vec<u8>)>,
}

impl View for CellManager {
    type V = StoreView;

    closed spec fn view(&self) -> StoreView {
        StoreView { committed: table(self.cells@), staged: table(self.pending@) }
    }
}

impl CellManager {
    #[verifier::type_invariant]
    spec fn well_formed(&self) -> bool {
        distinct(self.cells@) && distinct(self.pending@)
    }

    /// The committed payload of `id`; nothing if `id` is not registered.
    /// What is staged is not seen.
    pub fn get_by_id(&self, id: &str) -> (r: Option<&[u8]>)
        ensures
            match r {
                Some(payload) => self@.lookup(id@) == Some(payload@),
                None => self@.lookup(id@) is None,
            },
    {
        proof {
            use_type_invariant(self);
            lemma_table_dom(self.cells@, id@);
        }
        match find(&self.cells, id) {
            Some(i) => {
                proof {
                    lemma_table_at(self.cells@, i as int);
                }
                Some(self.cells[i].1.as_slice())
            },
            None => None,
        }
    }

    /// Stages `data` as the next payload of `id`. Lookups do not change.
    pub fn set_pending(&mut self, id: &'static str, data: Vec<u8>)
        ensures
            final(self)@ == old(self)@.stage(id@, data@),
    {
        proof {
            use_type_invariant(&*self);
        }
        let mut pending: Vec<(&'static str, Vec<u8>)> = Vec::new();
        core::mem::swap(&mut self.pending, &mut pending);
        upsert(&mut pending, id, data);
        core::mem::swap(&mut self.pending, &mut pending);
    }

    /// Moves every staged payload into the committed table and empties the
    /// staging area.
    pub fn commit(&mut self)
        ensures
            final(self)@ == old(self)@.commit(),
    {
        proof {
            use_type_invariant(&*self);
        }
        let ghost goal = old(self)@.commit().committed;
        let mut committed: Vec<(&'static str, Vec<u8>)> = Vec::new();
        let mut pending: Vec<(&'static str, Vec<u8>)> = Vec::new();
        core::mem::swap(&mut self.cells, &mut committed);
        core::mem::swap(&mut self.pending, &mut pending);
        while pending.len() > 0
            invariant
                distinct(committed@),
                distinct(pending@),
                table(committed@).union_prefer_right(table(pending@)) == goal,
            decreases pending.len(),
        {
            let ghost cells = committed@;
            let ghost staged = pending@;
            let entry = pending.pop();
            match entry {
                Some((id, data)) => {
                    upsert(&mut committed, id, data);
                    proof {
                        let last = staged.len() - 1;
                        let rest = pending@;
                        assert(forall|j: int| 0 <= j < rest.len() ==> rest[j] == staged[j]);
                        assert(distinct(rest));
                        lemma_table_at(staged, last);
                        assert forall|k: Seq<char>|
                            table(staged).dom().contains(k) == table(rest).insert(
                                id@,
                                data@,
                            ).dom().contains(k) by {
                            lemma_table_dom(staged, k);
                            lemma_table_dom(rest, k);
                            if exists|j: int| entry_of(staged, k, j) {
                                let j = choose|j: int| entry_of(staged, k, j);
                                if j != last {
                                    assert(entry_of(rest, k, j));
                                }
                            }
                            if exists|j: int| entry_of(rest, k, j) {
                                let j = choose|j: int| entry_of(rest, k, j);
                                assert(entry_of(staged, k, j));
                            }
                            if k == id@ {
                                assert(entry_of(staged, k, last));
                            }
                        }
                        assert forall|k: Seq<char>|
                            table(rest).dom().contains(k) implies k != id@ && table(rest)[k]
                            == table(staged)[k] by {
                            lemma_table_dom(rest, k);
                            let j = choose|j: int| entry_of(rest, k, j);
                            lemma_table_at(rest, j);
                            lemma_table_at(staged, j);
                        }
                        assert(table(committed@).union_prefer_right(table(rest)) =~= table(
                            cells,
                        ).union_prefer_right(table(staged)));
                    }
                },
                None => {},
            }
        }
        proof {
            assert(table(pending@) =~= Map::<Seq<char>, Seq<u8>>::empty()) by {
                assert forall|k: Seq<char>| !table(pending@).dom().contains(k) by {
                    lemma_table_dom(pending@, k);
                }
            }
            assert(table(committed@) =~= goal);
        }
        core::mem::swap(&mut self.cells, &mut committed);
        core::mem::swap(&mut self.pending, &mut pending);
    }

    /// A store that holds the given snapshot, with nothing staged. Of two
    /// entries with one identifier the earlier one counts.
    pub fn new(data: Vec<(&'static str, Vec<u8>)>) -> (r: Self)
        ensures
            r@ == (StoreView { committed: snapshot(data.deep_view()), staged: Map::empty() }),
    {
        let ghost all = data.deep_view();
        let mut data = data;
        let mut cells: Vec<(&'static str, Vec<u8>)> = Vec::new();
        let pending: Vec<(&'static str, Vec<u8>)> = Vec::new();
        proof {
            assert(all.skip(all.len() as int) =~= Seq::empty());
            assert(table(cells@) =~= Map::<Seq<char>, Seq<u8>>::empty()) by {
                assert forall|k: Seq<char>| !table(cells@).dom().contains(k) by {
                    lemma_table_dom(cells@, k);
                }
            }
            assert(table(pending@) =~= Map::<Seq<char>, Seq<u8>>::empty()) by {
                assert forall|k: Seq<char>| !table(pending@).dom().contains(k) by {
                    lemma_table_dom(pending@, k);
                }
            }
        }
        while data.len() > 0
            invariant
                data.len() <= all.len(),
                data.deep_view() == all.take(data.len() as int),
                distinct(cells@),
                table(cells@) == snapshot(all.skip(data.len() as int)),
            decreases data.len(),
        {
            let ghost left = data.deep_view();
            let entry = data.pop();
            match entry {
                Some((id, payload)) => {
                    proof {
                        let n = data.len() as int;
                        assert(left[n] == (id@, payload@));
                        assert(data.deep_view() =~= all.take(n));
                        assert(all.skip(n).drop_first() =~= all.skip(n + 1));
                    }
                    upsert(&mut cells, id, payload);
                },
                None => {},
            }
        }
        proof {
            assert(all.skip(0) =~= all);
        }
        CellManager { cells, pending }
    }
}

} // verus!
