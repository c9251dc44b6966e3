//! A map from objects of the sound server, held as a list of entries.

use super::common::EntryIdentifier;
use vstd::prelude::*;

verus! {

/// A map keyed by [`EntryIdentifier`].
#[derive(Debug)]
pub struct IdentMap<V> {
    pub entries: Vec<(EntryIdentifier, V)>,
}

/// Whether the entry at position `at` belongs to the identifier.
pub open spec fn entry_at<V>(entries: Seq<(EntryIdentifier, V)>, ident: EntryIdentifier, at: int) -> bool {
    0 <= at < entries.len() && entries[at].0 == ident
}

/// Whether no identifier has two entries.
pub open spec fn idents_differ<V>(entries: Seq<(EntryIdentifier, V)>) -> bool {
    forall|i: int, j: int|
        0 <= i < j < entries.len() ==> (#[trigger] entries[i]).0 != (#[trigger] entries[j]).0
}

/// The map that a list of entries stands for.
pub open spec fn as_map<V>(entries: Seq<(EntryIdentifier, V)>) -> Map<EntryIdentifier, V> {
    Map::new(
        |ident: EntryIdentifier| exists|at: int| entry_at(entries, ident, at),
        |ident: EntryIdentifier| entries[choose|at: int| entry_at(entries, ident, at)].1,
    )
}

/// The map that comes of giving identifiers their values one after the other, so
/// that of several for the same identifier the last one stays.
pub open spec fn inserted<V>(entries: Seq<(EntryIdentifier, V)>) -> Map<EntryIdentifier, V>
    decreases entries.len(),
{
    if entries.len() == 0 {
        Map::empty()
    } else {
        inserted(entries.drop_last()).insert(entries.last().0, entries.last().1)
    }
}

/// Every entry of a list without repeated identifiers is in its map.
pub proof fn lemma_entry_in_map<V>(entries: Seq<(EntryIdentifier, V)>, at: int)
    requires
        idents_differ(entries),
        0 <= at < entries.len(),
    ensures
        as_map(entries).contains_key(entries[at].0),
        as_map(entries)[entries[at].0] == entries[at].1,
{
    let ident = entries[at].0;
    assert(entry_at(entries, ident, at));
    let found = choose|i: int| entry_at(entries, ident, i);
    assert(entry_at(entries, ident, found));
    assert(found == at) by {
        if found < at {
            assert(entries[found].0 != entries[at].0);
        } else if at < found {
            assert(entries[at].0 != entries[found].0);
        }
    }
}

/// A list of entries without repeated identifiers stands for the map that holds
/// just these entries.
pub proof fn law_maps_hold_their_entries<V>(map: IdentMap<V>, ident: EntryIdentifier)
    requires
        forall|i: int, j: int|
            0 <= i < j < map.entries@.len() ==> (#[trigger] map.entries@[i]).0 != (
            #[trigger] map.entries@[j]).0,
    ensures
        map.wf(),
        map@.contains_key(ident) <==> exists|i: int|
            0 <= i < map.entries@.len() && (#[trigger] map.entries@[i]).0 == ident,
        forall|i: int|
            0 <= i < map.entries@.len() ==> map@[(#[trigger] map.entries@[i]).0]
                == map.entries@[i].1,
{
    let entries = map.entries@;
    assert forall|i: int| 0 <= i < entries.len() implies map@[(#[trigger] entries[i]).0]
        == entries[i].1 by {
        lemma_entry_in_map(entries, i);
    }
    if exists|i: int| 0 <= i < entries.len() && (#[trigger] entries[i]).0 == ident {
        let i = choose|i: int| 0 <= i < entries.len() && (#[trigger] entries[i]).0 == ident;
        assert(entry_at(entries, ident, i));
    }
    if map@.contains_key(ident) {
        let i = choose|i: int| entry_at(entries, ident, i);
        assert(entries[i].0 == ident);
    }
}

/// Of several values that an identifier is given one after the other, the last
/// one stays; and no identifier has a value that was given none.
pub proof fn law_last_values_stay<V>(entries: Seq<(EntryIdentifier, V)>, at: int)
    requires
        0 <= at < entries.len(),
        forall|i: int| at < i < entries.len() ==> (#[trigger] entries[i]).0 != entries[at].0,
    ensures
        inserted(entries).contains_key(entries[at].0),
        inserted(entries)[entries[at].0] == entries[at].1,
        forall|ident: EntryIdentifier| #[trigger]
            inserted(entries).contains_key(ident) ==> exists|i: int|
                0 <= i < entries.len() && (#[trigger] entries[i]).0 == ident,
    decreases entries.len(),
{
    let rest = entries.drop_last();
    let last = entries.len() - 1;
    if at < last {
        assert(entries[last].0 != entries[at].0);
        law_last_values_stay(rest, at);
    }
    lemma_inserted_come_from(entries);
}

proof fn lemma_inserted_come_from<V>(entries: Seq<(EntryIdentifier, V)>)
    ensures
        forall|ident: EntryIdentifier| #[trigger]
            inserted(entries).contains_key(ident) ==> exists|i: int|
                0 <= i < entries.len() && (#[trigger] entries[i]).0 == ident,
    decreases entries.len(),
{
    if entries.len() > 0 {
        let rest = entries.drop_last();
        lemma_inserted_come_from(rest);
        assert forall|ident: EntryIdentifier| #[trigger]
            inserted(entries).contains_key(ident) implies exists|i: int|
            0 <= i < entries.len() && (#[trigger] entries[i]).0 == ident by {
            if ident == entries.last().0 {
                assert(entries[entries.len() - 1].0 == ident);
            } else {
                assert(inserted(rest).contains_key(ident));
                let i = choose|i: int| 0 <= i < rest.len() && (#[trigger] rest[i]).0 == ident;
                assert(entries[i].0 == ident);
            }
        }
    }
}

impl<V> View for IdentMap<V> {
    type V = Map<EntryIdentifier, V>;

    open spec fn view(&self) -> Map<EntryIdentifier, V> {
        as_map(self.entries@)
    }
}

impl<V> IdentMap<V> {
    /// Whether no identifier has two entries.
    pub open spec fn wf(&self) -> bool {
        idents_differ(self.entries@)
    }

    /// Makes an empty map.
    pub fn new() -> (map: Self)
        ensures
            map.wf(),
            map.entries@ == Seq::<(EntryIdentifier, V)>::empty(),
            map@ == Map::<EntryIdentifier, V>::empty(),
    {
        let map = IdentMap { entries: Vec::new() };
        assert(map@ =~= Map::<EntryIdentifier, V>::empty());
        map
    }

    /// Makes a map of entries, in which an identifier may be repeated: of several
    /// values for it the last one stays.
    pub fn from_entries(entries: Vec<(EntryIdentifier, V)>) -> (map: Self)
        ensures
            map.wf(),
            map@ == inserted(entries@),
    {
        let ghost all = entries@;
        let ghost mut done: int = 0;
        let mut map: Self = IdentMap::new();
        let mut rest = entries;
        while rest.len() > 0
            invariant
                0 <= done <= all.len(),
                rest@ == all.skip(done),
                map.wf(),
                map@ == inserted(all.take(done)),
            decreases rest@.len(),
        {
            let (ident, value) = rest.remove(0);
            map.insert(ident, value);
            proof {
                assert(all.take(done + 1).drop_last() =~= all.take(done));
                assert(all.take(done + 1).last() == (ident, value));
                done = done + 1;
                assert(rest@ =~= all.skip(done));
            }
        }
        assert(all.take(done) =~= all);
        map
    }

    /// Looks for the entry of an identifier.
    pub fn position(&self, ident: &EntryIdentifier) -> (found: Option<usize>)
        ensures
            match found {
                Some(at) => entry_at(self.entries@, *ident, at as int) && self@.contains_key(*ident),
                None => !self@.contains_key(*ident),
            },
    {
        let mut i: usize = 0;
        while i < self.entries.len()
            invariant
                i <= self.entries@.len(),
                forall|j: int| 0 <= j < i ==> !entry_at(self.entries@, *ident, j),
            decreases self.entries@.len() - i,
        {
            if self.entries[i].0 == *ident {
                assert(entry_at(self.entries@, *ident, i as int));
                return Some(i);
            }
            i += 1;
        }
        None
    }

    /// Whether an identifier has an entry.
    pub fn contains_key(&self, ident: &EntryIdentifier) -> (present: bool)
        ensures
            present == self@.contains_key(*ident),
    {
        self.position(ident).is_some()
    }

    /// Returns the value of an identifier.
    pub fn get(&self, ident: &EntryIdentifier) -> (value: Option<&V>)
        requires
            self.wf(),
        ensures
            match value {
                Some(value) => self@.contains_key(*ident) && *value == self@[*ident],
                None => !self@.contains_key(*ident),
            },
    {
        match self.position(ident) {
            Some(at) => {
                proof {
                    lemma_entry_in_map(self.entries@, at as int);
                }
                Some(&self.entries[at].1)
            },
            None => None,
        }
    }

    /// Takes the entry of an identifier out, if it has one.
    pub fn remove(&mut self, ident: &EntryIdentifier) -> (value: Option<V>)
        requires
            old(self).wf(),
        ensures
            final(self).wf(),
            final(self)@ == old(self)@.remove(*ident),
            match value {
                Some(value) => old(self)@.contains_key(*ident) && value == old(self)@[*ident],
                None => !old(self)@.contains_key(*ident),
            },
    {
        match self.position(ident) {
            Some(at) => {
                let ghost before = self.entries@;
                let (_, value) = self.entries.remove(at);
                proof {
                    lemma_entry_in_map(before, at as int);
                    lemma_remove(before, at as int);
                }
                Some(value)
            },
            None => {
                assert(self@ =~= old(self)@.remove(*ident));
                None
            },
        }
    }

    /// Gives an identifier a value, in place of the one that it may have had.
    pub fn insert(&mut self, ident: EntryIdentifier, value: V)
        requires
            old(self).wf(),
        ensures
            final(self).wf(),
            final(self)@ == old(self)@.insert(ident, value),
    {
        self.remove(&ident);
        let ghost before = self.entries@;
        self.entries.push((ident, value));
        proof {
            lemma_push(before, ident, value);
            assert(self@ =~= old(self)@.insert(ident, value));
        }
    }
}

proof fn lemma_remove<V>(entries: Seq<(EntryIdentifier, V)>, at: int)
    requires
        idents_differ(entries),
        0 <= at < entries.len(),
    ensures
        idents_differ(entries.remove(at)),
        as_map(entries.remove(at)) == as_map(entries).remove(entries[at].0),
{
    let after = entries.remove(at);
    assert forall|i: int, j: int| 0 <= i < j < after.len() implies (#[trigger] after[i]).0 != (
    #[trigger] after[j]).0 by {
        let p = if i < at { i } else { i + 1 };
        let q = if j < at { j } else { j + 1 };
        assert(after[i] == entries[p] && after[j] == entries[q]);
    }
    let before_map = as_map(entries);
    let after_map = as_map(after);
    let gone = entries[at].0;
    assert forall|ident: EntryIdentifier|
        #![trigger after_map.contains_key(ident)]
        after_map.contains_key(ident) == before_map.remove(gone).contains_key(ident) && (
        after_map.contains_key(ident) ==> after_map[ident] == before_map[ident]) by {
        if after_map.contains_key(ident) {
            let i = choose|i: int| entry_at(after, ident, i);
            let p = if i < at { i } else { i + 1 };
            assert(entries[p] == after[i]);
            lemma_entry_in_map(entries, p);
            lemma_entry_in_map(after, i);
            lemma_entry_in_map(entries, at);
            if p < at {
                assert(entries[p].0 != entries[at].0);
            } else {
                assert(entries[at].0 != entries[p].0);
            }
        } else if before_map.contains_key(ident) && ident != gone {
            let p = choose|p: int| entry_at(entries, ident, p);
            let i = if p < at { p } else { p - 1 };
            assert(after[i] == entries[p]);
            assert(entry_at(after, ident, i));
        }
    }
    assert(after_map =~= before_map.remove(gone));
}

proof fn lemma_push<V>(entries: Seq<(EntryIdentifier, V)>, ident: EntryIdentifier, value: V)
    requires
        idents_differ(entries),
        !as_map(entries).contains_key(ident),
    ensures
        idents_differ(entries.push((ident, value))),
        as_map(entries.push((ident, value))) == as_map(entries).insert(ident, value),
{
    let after = entries.push((ident, value));
    assert forall|i: int, j: int| 0 <= i < j < after.len() implies (#[trigger] after[i]).0 != (
    #[trigger] after[j]).0 by {
        assert(after[i] == entries[i]);
        assert(!entry_at(entries, ident, i));
        if j < entries.len() {
            assert(after[j] == entries[j]);
        }
    }
    let before_map = as_map(entries);
    let after_map = as_map(after);
    lemma_entry_in_map(after, entries.len() as int);
    assert forall|id: EntryIdentifier|
        #![trigger after_map.contains_key(id)]
        after_map.contains_key(id) == (id == ident || before_map.contains_key(id)) && (id != ident
            && after_map.contains_key(id) ==> after_map[id] == before_map[id]) by {
        if after_map.contains_key(id) && id != ident {
            let i = choose|i: int| entry_at(after, id, i);
            assert(after[i] == entries[i]);
            assert(entry_at(entries, id, i));
            lemma_entry_in_map(after, i);
            lemma_entry_in_map(entries, i);
        } else if before_map.contains_key(id) {
            let i = choose|i: int| entry_at(entries, id, i);
            assert(after[i] == entries[i]);
            assert(entry_at(after, id, i));
        }
    }
    assert(after_map =~= before_map.insert(ident, value));
}

} // verus!
