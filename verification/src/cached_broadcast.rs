//! A list of keyed items whose changes are announced over channels.

use std::fmt::Debug;
use tokio::sync::mpsc;
use vstd::prelude::*;

verus! {

/// An item that can be found again by a key.
pub trait Cacheable: Debug + Clone + Send + Sync {
    type Key: Debug + Clone + Send + Sync + Eq;

    /// Returns the key of the item.
    fn get_key(&self) -> Self::Key;
}

/// A change to the list of items.
#[derive(Debug, Clone)]
pub enum Event<T> where T: Cacheable {
    /// The item joins the end of the list.
    Add(T),
    /// The first item with the key leaves the list.
    Remove(T::Key),
    /// The first item with the key makes way for the given one.
    Replace(T::Key, T),
}

/// The sending half of a bounded `tokio` channel. The value stands for the
/// channel that the handle leads to.
#[verifier::external_type_specification]
#[verifier::external_body]
#[verifier::reject_recursive_types(T)]
pub struct ExSender<T>(mpsc::Sender<T>);

/// The receiving half of a bounded `tokio` channel.
#[verifier::external_type_specification]
#[verifier::external_body]
#[verifier::reject_recursive_types(T)]
pub struct ExReceiver<T>(mpsc::Receiver<T>);

/// `tokio::sync::mpsc::Sender::max_capacity`: the bound that the sender's
/// channel was made with. What it returns is said where channels are made.
pub assume_specification<T>[ mpsc::Sender::<T>::max_capacity ](tx: &mpsc::Sender<T>) -> (bound:
    usize)
;

/// `tokio::sync::mpsc::channel`: makes a channel that buffers up to `buffer`
/// messages, and returns its two halves. It panics on a buffer of zero and on
/// one above `Semaphore::MAX_PERMITS`, which is `usize::MAX >> 3`.
pub assume_specification<T>[ mpsc::channel::<T> ](buffer: usize) -> (halves: (
    mpsc::Sender<T>,
    mpsc::Receiver<T>,
))
    requires
        0 < buffer <= usize::MAX / 8,
    ensures
        forall|bound: usize| #[trigger]
            call_ensures(mpsc::Sender::<T>::max_capacity, (&halves.0,), bound) ==> bound == buffer,
;

/// `Clone` of `tokio::sync::mpsc::Sender`: another handle to the same channel.
pub assume_specification<T>[ <mpsc::Sender<T> as Clone>::clone ](tx: &mpsc::Sender<T>) -> (copy:
    mpsc::Sender<T>)
    ensures
        copy == *tx,
;

/// Whether an item can give this key as its own.
pub open spec fn gives_key<T: Cacheable>(item: T, key: T::Key) -> bool {
    call_ensures(T::get_key, (&item,), key)
}

/// Whether two keys can compare as equal, or as different.
pub open spec fn compares<T: Cacheable>(own: T::Key, key: T::Key, equal: bool) -> bool {
    call_ensures(T::Key::eq, (&own, &key), equal)
}

/// Whether an item gives a key that compares as equal to this one.
pub open spec fn has_key<T: Cacheable>(item: T, key: T::Key) -> bool {
    exists|own: T::Key| #[trigger] gives_key(item, own) && compares::<T>(own, key, true)
}

/// Whether an item gives a key that compares as different from this one.
pub open spec fn lacks_key<T: Cacheable>(item: T, key: T::Key) -> bool {
    exists|own: T::Key| #[trigger] gives_key(item, own) && compares::<T>(own, key, false)
}

/// Whether no item both has and lacks a key, as it could if it did not give the
/// same key at all times, or if keys did not compare the same.
pub open spec fn keys_are_fixed<T: Cacheable>() -> bool {
    forall|item: T, key: T::Key| !(#[trigger] has_key(item, key) && #[trigger] lacks_key(item, key))
}

/// Whether none of the items both has and lacks the key.
pub open spec fn is_settled<T: Cacheable>(data: Seq<T>, key: T::Key) -> bool {
    forall|i: int|
        0 <= i < data.len() ==> !(has_key(#[trigger] data[i], key) && lacks_key(data[i], key))
}

/// Whether `at` is the position of the first item with the key.
pub open spec fn is_first<T: Cacheable>(data: Seq<T>, key: T::Key, at: int) -> bool {
    &&& 0 <= at < data.len()
    &&& has_key(data[at], key)
    &&& forall|i: int| 0 <= i < at ==> lacks_key(#[trigger] data[i], key)
}

/// Whether no item has the key.
pub open spec fn is_absent<T: Cacheable>(data: Seq<T>, key: T::Key) -> bool {
    forall|i: int| 0 <= i < data.len() ==> lacks_key(#[trigger] data[i], key)
}

/// Whether one item lacks every key that the other gives.
#[verifier::opaque]
pub open spec fn apart<T: Cacheable>(one: T, other: T) -> bool {
    forall|key: T::Key| #[trigger] gives_key(other, key) ==> lacks_key(one, key)
}

/// Whether two items give the same keys.
pub open spec fn same_keys<T: Cacheable>(one: T, other: T) -> bool {
    forall|key: T::Key| #[trigger] gives_key(one, key) == gives_key(other, key)
}

/// Whether no two items have the same key.
pub open spec fn keys_differ<T: Cacheable>(data: Seq<T>) -> bool {
    forall|i: int, j: int|
        0 <= i < data.len() && 0 <= j < data.len() && i != j ==> apart(
            #[trigger] data[i],
            #[trigger] data[j],
        )
}

/// What an event makes of the list, and whether the event is then announced.
/// An item that joins the list is a clone of the one in the event.
pub open spec fn changes<T: Cacheable>(
    before: Seq<T>,
    event: Event<T>,
    after: Seq<T>,
    announced: bool,
) -> bool {
    match event {
        Event::Add(item) => {
            &&& announced
            &&& after.len() == before.len() + 1
            &&& cloned(item, after.last())
            &&& after == before.push(after.last())
        },
        Event::Remove(key) => if announced {
            exists|at: int| #[trigger] is_first(before, key, at) && after == before.remove(at)
        } else {
            is_absent(before, key) && after == before
        },
        Event::Replace(key, item) => if announced {
            exists|at: int| #[trigger]
                is_first(before, key, at) && after.len() == before.len() && cloned(item, after[at])
                    && after == before.update(at, after[at])
        } else {
            is_absent(before, key) && after == before
        },
    }
}

/// Looks for the first item with the key.
fn position<T: Cacheable>(data: &Vec<T>, key: &T::Key) -> (found: Option<usize>)
    ensures
        match found {
            Some(at) => is_first(data@, *key, at as int),
            None => is_absent(data@, *key),
        },
{
    let mut i: usize = 0;
    while i < data.len()
        invariant
            i <= data@.len(),
            forall|j: int| 0 <= j < i ==> lacks_key(#[trigger] data@[j], *key),
        decreases data@.len() - i,
    {
        let own = data[i].get_key();
        proof {
            assert(gives_key(data@[i as int], own));
        }
        let equal: bool = own.eq(key);
        proof {
            assert(compares::<T>(own, *key, equal));
        }
        if equal {
            return Some(i);
        }
        i += 1;
    }
    None
}

/// A list of items together with the channels on which its changes are
/// announced.
#[verifier::reject_recursive_types(T)]
pub struct CachedBroadcastChannel<T> where T: Cacheable {
    capacity: usize,
    data: Vec<T>,
    channels: Vec<mpsc::Sender<Event<T>>>,
    base_tx: mpsc::Sender<Event<T>>,
}

impl<T> CachedBroadcastChannel<T> where T: Cacheable {
    /// The items, oldest first.
    pub closed spec fn items(&self) -> Seq<T> {
        self.data@
    }

    /// The bound of every channel that belongs to the list.
    pub closed spec fn bound(&self) -> usize {
        self.capacity
    }

    /// The channel on which changes are announced.
    pub closed spec fn base(&self) -> mpsc::Sender<Event<T>> {
        self.base_tx
    }

    /// The channels made for receivers, oldest first.
    pub closed spec fn receivers(&self) -> Seq<mpsc::Sender<Event<T>>> {
        self.channels@
    }

    /// Whether the bound is one that a channel can have, and the one that the
    /// channel for announcements has.
    pub closed spec fn wf(&self) -> bool {
        &&& 0 < self.capacity <= usize::MAX / 8
        &&& forall|bound: usize| #[trigger]
            call_ensures(mpsc::Sender::<Event<T>>::max_capacity, (&self.base_tx,), bound) ==> bound
                == self.capacity
    }

    /// Makes an empty list and the channel for its announcements, whose
    /// receiving half is handed back for a task to drain.
    pub fn new(capacity: usize) -> (made: (Self, mpsc::Receiver<Event<T>>))
        requires
            0 < capacity <= usize::MAX / 8,
        ensures
            made.0.wf(),
            made.0.items() == Seq::<T>::empty(),
            made.0.receivers() == Seq::<mpsc::Sender<Event<T>>>::empty(),
            made.0.bound() == capacity,
            call_ensures(mpsc::channel::<Event<T>>, (capacity,), (made.0.base(), made.1)),
    {
        let (tx, rx) = mpsc::channel::<Event<T>>(capacity);
        let channel = Self { capacity, data: Vec::new(), channels: Vec::new(), base_tx: tx };
        (channel, rx)
    }

    /// Applies an event to the list. The event comes back if it is to be
    /// announced on the channel that [`sender`](Self::sender) leads to; one that
    /// names a key that no item has is dropped.
    pub fn send(&mut self, event: Event<T>) -> (announced: Option<Event<T>>)
        requires
            old(self).wf(),
        ensures
            final(self).wf(),
            final(self).bound() == old(self).bound(),
            final(self).base() == old(self).base(),
            final(self).receivers() == old(self).receivers(),
            announced matches Some(same) ==> same == event,
            changes(old(self).items(), event, final(self).items(), announced is Some),
            event matches Event::Add(item) ==> {
                let before = old(self).items();
                let after = final(self).items();
                &&& announced is Some
                &&& after.len() == before.len() + 1
                &&& forall|i: int| 0 <= i < before.len() ==> #[trigger] after[i] == before[i]
                &&& cloned(item, after[before.len() as int])
            },
            event matches Event::Remove(key) ==> {
                let before = old(self).items();
                let after = final(self).items();
                if announced is Some {
                    exists|at: int|
                        #![trigger before[at]]
                        {
                            &&& 0 <= at < before.len()
                            &&& has_key(before[at], key)
                            &&& forall|i: int| 0 <= i < at ==> lacks_key(#[trigger] before[i], key)
                            &&& after.len() == before.len() - 1
                            &&& forall|i: int| 0 <= i < at ==> #[trigger] after[i] == before[i]
                            &&& forall|i: int|
                                at <= i < after.len() ==> #[trigger] after[i] == before[i + 1]
                        }
                } else {
                    &&& after == before
                    &&& forall|i: int|
                        0 <= i < before.len() ==> lacks_key(#[trigger] before[i], key)
                }
            },
            event matches Event::Replace(key, item) ==> {
                let before = old(self).items();
                let after = final(self).items();
                if announced is Some {
                    exists|at: int|
                        #![trigger before[at]]
                        {
                            &&& 0 <= at < before.len()
                            &&& has_key(before[at], key)
                            &&& forall|i: int| 0 <= i < at ==> lacks_key(#[trigger] before[i], key)
                            &&& after.len() == before.len()
                            &&& cloned(item, after[at])
                            &&& forall|i: int|
                                0 <= i < after.len() && i != at ==> #[trigger] after[i]
                                    == before[i]
                        }
                } else {
                    &&& after == before
                    &&& forall|i: int|
                        0 <= i < before.len() ==> lacks_key(#[trigger] before[i], key)
                }
            },
    {
        match &event {
            Event::Add(item) => {
                let copy = item.clone();
                self.data.push(copy);
                proof {
                    assert(self.data@.last() == copy);
                }
            },
            Event::Remove(key) => {
                let at: usize = match position(&self.data, key) {
                    Some(at) => at,
                    None => {
                        return None;
                    },
                };
                self.data.remove(at);
                proof {
                    assert(self.data@ == old(self).data@.remove(at as int));
                    assert(has_key(old(self).items()[at as int], *key));
                }
            },
            Event::Replace(key, item) => {
                let at: usize = match position(&self.data, key) {
                    Some(at) => at,
                    None => {
                        return None;
                    },
                };
                let copy = item.clone();
                self.data[at] = copy;
                proof {
                    assert(self.data@ == old(self).data@.update(at as int, copy));
                    assert(self.data@[at as int] == copy);
                }
                proof {
                    assert(has_key(old(self).items()[at as int], *key));
                }
            },
        }
        Some(event)
    }

    /// Returns a handle to the channel for announcements.
    pub fn sender(&self) -> (tx: mpsc::Sender<Event<T>>)
        ensures
            tx == self.base(),
    {
        self.base_tx.clone()
    }

    /// Makes a channel, keeps its sending half and returns the receiving one.
    pub fn receiver(&mut self) -> (rx: mpsc::Receiver<Event<T>>)
        requires
            old(self).wf(),
        ensures
            final(self).wf(),
            final(self).items() == old(self).items(),
            final(self).bound() == old(self).bound(),
            final(self).base() == old(self).base(),
            final(self).receivers().len() == old(self).receivers().len() + 1,
            final(self).receivers().drop_last() == old(self).receivers(),
            call_ensures(
                mpsc::channel::<Event<T>>,
                (old(self).bound(),),
                (final(self).receivers().last(), rx),
            ),
    {
        let (tx, rx) = mpsc::channel::<Event<T>>(self.capacity);
        self.channels.push(tx);
        proof {
            assert(self.channels@.drop_last() =~= old(self).channels@);
        }
        rx
    }

    /// Returns the items, oldest first.
    pub fn data(&self) -> (data: &Vec<T>)
        ensures
            data@ == self.items(),
    {
        &self.data
    }

    /// Returns the bound of the channel for announcements.
    pub fn capacity(&self) -> (bound: usize)
        requires
            self.wf(),
        ensures
            bound == self.bound(),
    {
        self.base_tx.max_capacity()
    }
}

/// An item has a key exactly if a key that it can give can compare as equal, and
/// lacks it exactly if one can compare as different. So an item whose one own key
/// compares as equal has the key and does not lack it, and the other way round.
pub proof fn law_items_have_the_keys_they_give<T: Cacheable>(item: T, key: T::Key)
    ensures
        has_key(item, key) <==> exists|own: T::Key| #[trigger]
            call_ensures(T::get_key, (&item,), own) && call_ensures(T::Key::eq, (&own, &key), true),
        lacks_key(item, key) <==> exists|own: T::Key| #[trigger]
            call_ensures(T::get_key, (&item,), own) && call_ensures(
                T::Key::eq,
                (&own, &key),
                false,
            ),
{
    if has_key(item, key) {
        let own = choose|own: T::Key| #[trigger]
            gives_key(item, own) && compares::<T>(own, key, true);
        assert(call_ensures(T::get_key, (&item,), own));
    }
    if lacks_key(item, key) {
        let own = choose|own: T::Key| #[trigger]
            gives_key(item, own) && compares::<T>(own, key, false);
        assert(call_ensures(T::get_key, (&item,), own));
    }
    assert forall|own: T::Key| #[trigger] call_ensures(T::get_key, (&item,), own) implies gives_key(
        item,
        own,
    ) by {}
}

/// An item that is added joins the list behind all others, which stay where they
/// are, and is always announced.
pub proof fn law_added_items_come_last<T: Cacheable>(
    before: Seq<T>,
    item: T,
    after: Seq<T>,
    announced: bool,
)
    requires
        changes(before, Event::Add(item), after, announced),
    ensures
        announced,
        after.len() == before.len() + 1,
        forall|i: int| 0 <= i < before.len() ==> #[trigger] after[i] == before[i],
        cloned(item, after[before.len() as int]),
{
}

/// A replacement takes the place of the first item with the key, wherever in the
/// list that is: there the list holds a clone of the given item, everywhere else
/// what it held before, and the event is announced. The first item with the key
/// is one that never gives a key that compares as different, while none before
/// it gives one that compares as equal.
pub proof fn law_replacements_take_the_place<T: Cacheable>(
    before: Seq<T>,
    key: T::Key,
    item: T,
    after: Seq<T>,
    announced: bool,
    at: int,
)
    requires
        changes(before, Event::Replace(key, item), after, announced),
        0 <= at < before.len(),
        forall|own: T::Key| #[trigger]
            call_ensures(T::get_key, (&before[at],), own) ==> !call_ensures(
                T::Key::eq,
                (&own, &key),
                false,
            ),
        forall|i: int, own: T::Key|
            0 <= i < at && #[trigger] call_ensures(T::get_key, (&before[i],), own)
                ==> !call_ensures(T::Key::eq, (&own, &key), true),
    ensures
        announced,
        after.len() == before.len(),
        cloned(item, after[at]),
        forall|i: int| 0 <= i < before.len() && i != at ==> #[trigger] after[i] == before[i],
{
    lemma_first_position(before, key, at);
    if announced {
        let found = choose|found: int| #[trigger]
            is_first(before, key, found) && after.len() == before.len() && cloned(
                item,
                after[found],
            ) && after == before.update(found, after[found]);
        assert(found == at);
    }
}

/// A removal takes out the first item with the key, wherever in the list that is:
/// what stood before it stays, what stood behind it moves up by one, and the event
/// is announced.
pub proof fn law_removals_close_the_gap<T: Cacheable>(
    before: Seq<T>,
    key: T::Key,
    after: Seq<T>,
    announced: bool,
    at: int,
)
    requires
        changes(before, Event::Remove(key), after, announced),
        0 <= at < before.len(),
        forall|own: T::Key| #[trigger]
            call_ensures(T::get_key, (&before[at],), own) ==> !call_ensures(
                T::Key::eq,
                (&own, &key),
                false,
            ),
        forall|i: int, own: T::Key|
            0 <= i < at && #[trigger] call_ensures(T::get_key, (&before[i],), own)
                ==> !call_ensures(T::Key::eq, (&own, &key), true),
    ensures
        announced,
        after.len() == before.len() - 1,
        forall|i: int| 0 <= i < at ==> #[trigger] after[i] == before[i],
        forall|i: int| at <= i < after.len() ==> #[trigger] after[i] == before[i + 1],
{
    lemma_first_position(before, key, at);
    if announced {
        let found = choose|found: int| #[trigger]
            is_first(before, key, found) && after == before.remove(found);
        assert(found == at);
    }
}

/// If no item gives a key that compares as equal, a removal and a replacement
/// leave the list as it was, and neither is announced.
pub proof fn law_unknown_keys_change_nothing<T: Cacheable>(
    before: Seq<T>,
    key: T::Key,
    item: T,
    after: Seq<T>,
    announced: bool,
)
    requires
        changes(before, Event::Remove(key), after, announced) || changes(
            before,
            Event::Replace(key, item),
            after,
            announced,
        ),
        forall|i: int, own: T::Key|
            0 <= i < before.len() && #[trigger] call_ensures(T::get_key, (&before[i],), own)
                ==> !call_ensures(T::Key::eq, (&own, &key), true),
    ensures
        !announced,
        after == before,
{
    if announced {
        let found = choose|found: int| is_first(before, key, found);
        assert(is_first(before, key, found));
        let own = choose|own: T::Key| #[trigger]
            gives_key(before[found], own) && compares::<T>(own, key, true);
        assert(call_ensures(T::get_key, (&before[found],), own));
    }
}

/// Where no other position can be the first with a key, a search finds that one.
proof fn lemma_first_position<T: Cacheable>(data: Seq<T>, key: T::Key, at: int)
    requires
        0 <= at < data.len(),
        forall|own: T::Key| #[trigger]
            call_ensures(T::get_key, (&data[at],), own) ==> !call_ensures(
                T::Key::eq,
                (&own, &key),
                false,
            ),
        forall|i: int, own: T::Key|
            0 <= i < at && #[trigger] call_ensures(T::get_key, (&data[i],), own)
                ==> !call_ensures(T::Key::eq, (&own, &key), true),
    ensures
        !is_absent(data, key),
        forall|found: int| #[trigger] is_first(data, key, found) ==> found == at,
{
    assert(!lacks_key(data[at], key));
    assert forall|found: int| #[trigger] is_first(data, key, found) implies found == at by {
        if found < at {
            let own = choose|own: T::Key| #[trigger]
                gives_key(data[found], own) && compares::<T>(own, key, true);
            assert(call_ensures(T::get_key, (&data[found],), own));
        }
    }
}

/// An event that names a key is announced exactly if some item has the key, and
/// one that is not announced leaves the list as it was.
pub proof fn law_announced_iff_key_present<T: Cacheable>(
    before: Seq<T>,
    event: Event<T>,
    after: Seq<T>,
    announced: bool,
)
    requires
        keys_are_fixed::<T>(),
        changes(before, event, after, announced),
    ensures
        event is Add ==> announced,
        event matches Event::Remove(key) ==> announced == !is_absent(before, key),
        event matches Event::Replace(key, item) ==> announced == !is_absent(before, key),
        !announced ==> after == before,
{
}

/// An event has one outcome: it is announced both times or neither, and if a
/// clone equals what it was made from, the lists agree.
pub proof fn law_one_outcome<T: Cacheable>(
    before: Seq<T>,
    event: Event<T>,
    after1: Seq<T>,
    announced1: bool,
    after2: Seq<T>,
    announced2: bool,
)
    requires
        keys_are_fixed::<T>(),
        changes(before, event, after1, announced1),
        changes(before, event, after2, announced2),
    ensures
        announced1 == announced2,
        after1.len() == after2.len(),
        (forall|a: T, b: T| #[trigger] cloned(a, b) ==> a == b) ==> after1 == after2,
{
    match event {
        Event::Add(item) => {},
        Event::Remove(key) => {
            if announced1 && announced2 {
                let at1 = choose|at: int| #[trigger]
                    is_first(before, key, at) && after1 == before.remove(at);
                let at2 = choose|at: int| #[trigger]
                    is_first(before, key, at) && after2 == before.remove(at);
                lemma_first_is_unique(before, key, at1, at2);
            }
        },
        Event::Replace(key, item) => {
            if announced1 && announced2 {
                let at1 = choose|at: int| #[trigger]
                    is_first(before, key, at) && after1.len() == before.len() && cloned(
                        item,
                        after1[at],
                    ) && after1 == before.update(at, after1[at]);
                let at2 = choose|at: int| #[trigger]
                    is_first(before, key, at) && after2.len() == before.len() && cloned(
                        item,
                        after2[at],
                    ) && after2 == before.update(at, after2[at]);
                lemma_first_is_unique(before, key, at1, at2);
            }
        },
    }
}

proof fn lemma_first_is_unique<T: Cacheable>(data: Seq<T>, key: T::Key, at1: int, at2: int)
    requires
        is_settled(data, key),
        is_first(data, key, at1),
        is_first(data, key, at2),
    ensures
        at1 == at2,
{
}

/// Adding an item under a key that was free, then removing that key, gives back
/// the list as it was. All it takes is that no item at once has the key and lacks
/// it.
pub proof fn law_remove_undoes_add<T: Cacheable>(
    before: Seq<T>,
    item: T,
    between: Seq<T>,
    key: T::Key,
    after: Seq<T>,
    announced: bool,
)
    requires
        is_settled(between, key),
        is_absent(before, key),
        changes(before, Event::Add(item), between, true),
        has_key(between.last(), key),
        changes(between, Event::Remove(key), after, announced),
    ensures
        announced,
        after == before,
{
    assert(is_first(between, key, between.len() - 1)) by {
        assert forall|i: int| 0 <= i < between.len() - 1 implies lacks_key(
            #[trigger] between[i],
            key,
        ) by {
            assert(between[i] == before[i]);
        }
    }
    let at = choose|at: int| #[trigger]
        is_first(between, key, at) && after == between.remove(at);
    lemma_first_is_unique(between, key, at, between.len() - 1);
    assert(after =~= before);
}

/// Keys that all differ go on to differ: a removal keeps them so, and so do an
/// added item whose key is new and a replacement that has the key of the item
/// it replaces.
pub proof fn law_keys_stay_different<T: Cacheable>(
    before: Seq<T>,
    event: Event<T>,
    after: Seq<T>,
    announced: bool,
)
    requires
        changes(before, event, after, announced),
        keys_differ(before),
        event is Add ==> forall|i: int|
            0 <= i < before.len() ==> apart(#[trigger] before[i], after.last()) && apart(
                after.last(),
                before[i],
            ),
        event is Replace ==> forall|i: int|
            0 <= i < before.len() ==> same_keys(#[trigger] after[i], before[i]),
    ensures
        keys_differ(after),
{
    match event {
        Event::Add(item) => {
            let added = before.len() as int;
            assert forall|i: int, j: int|
                0 <= i < after.len() && 0 <= j < after.len() && i != j implies apart(
                #[trigger] after[i],
                #[trigger] after[j],
            ) by {
                if i < added {
                    assert(after[i] == before[i]);
                }
                if j < added {
                    assert(after[j] == before[j]);
                }
            }
        },
        Event::Remove(key) => {
            if announced {
                let at = choose|at: int| #[trigger]
                    is_first(before, key, at) && after == before.remove(at);
                assert forall|i: int, j: int|
                    0 <= i < after.len() && 0 <= j < after.len() && i != j implies apart(
                    #[trigger] after[i],
                    #[trigger] after[j],
                ) by {
                    let p = if i < at { i } else { i + 1 };
                    let q = if j < at { j } else { j + 1 };
                    assert(after[i] == before[p] && after[j] == before[q]);
                }
            }
        },
        Event::Replace(key, item) => {
            assert forall|i: int, j: int|
                0 <= i < after.len() && 0 <= j < after.len() && i != j implies apart(
                #[trigger] after[i],
                #[trigger] after[j],
            ) by {
                lemma_same_keys_stay_apart(before[i], before[j], after[i], after[j]);
            }
        },
    }
}

proof fn lemma_same_keys_stay_apart<T: Cacheable>(one: T, other: T, one_after: T, other_after: T)
    requires
        apart(one, other),
        same_keys(one_after, one),
        same_keys(other_after, other),
    ensures
        apart(one_after, other_after),
{
    reveal(apart);
    assert forall|key: T::Key| #[trigger] gives_key(other_after, key) implies lacks_key(
        one_after,
        key,
    ) by {
        assert(gives_key(other, key));
        assert(lacks_key(one, key));
        let own = choose|own: T::Key| #[trigger]
            gives_key(one, own) && compares::<T>(own, key, false);
        assert(gives_key(one_after, own));
    }
}

/// Whether `lists[0]`, `lists[1]`, ... are the lists that `events` lead through,
/// `announced` saying which of the events were announced.
pub open spec fn is_history<T: Cacheable>(
    lists: Seq<Seq<T>>,
    events: Seq<Event<T>>,
    announced: Seq<bool>,
) -> bool {
    &&& lists.len() == events.len() + 1
    &&& announced.len() == events.len()
    &&& forall|i: int|
        0 <= i < events.len() ==> changes(
            #[trigger] lists[i],
            events[i],
            lists[i + 1],
            announced[i],
        )
}

/// Whether `lists` is what becomes of a list that is told of the announced
/// events alone.
pub open spec fn is_mirror<T: Cacheable>(
    lists: Seq<Seq<T>>,
    events: Seq<Event<T>>,
    announced: Seq<bool>,
) -> bool {
    &&& lists.len() == events.len() + 1
    &&& announced.len() == events.len()
    &&& forall|i: int|
        0 <= i < events.len() ==> if announced[i] {
            exists|again: bool| #[trigger]
                changes(#[trigger] lists[i], events[i], lists[i + 1], again)
        } else {
            lists[i + 1] == lists[i]
        }
}

/// Whoever starts from the cached list and follows the announcements has the
/// cached list at every later time, provided that a clone equals what it was
/// made from.
pub proof fn law_announcements_suffice<T: Cacheable>(
    cached: Seq<Seq<T>>,
    mirrored: Seq<Seq<T>>,
    events: Seq<Event<T>>,
    announced: Seq<bool>,
    time: int,
)
    requires
        keys_are_fixed::<T>(),
        forall|a: T, b: T| #[trigger] cloned(a, b) ==> a == b,
        is_history(cached, events, announced),
        is_mirror(mirrored, events, announced),
        cached[0] == mirrored[0],
        0 <= time <= events.len(),
    ensures
        mirrored[time] == cached[time],
    decreases time,
{
    if time > 0 {
        let i = time - 1;
        law_announcements_suffice(cached, mirrored, events, announced, i);
        assert(changes(cached[i], events[i], cached[i + 1], announced[i]));
        law_announced_iff_key_present(cached[i], events[i], cached[i + 1], announced[i]);
        if announced[i] {
            let again = choose|again: bool| #[trigger]
                changes(mirrored[i], events[i], mirrored[i + 1], again);
            law_one_outcome(
                cached[i],
                events[i],
                cached[i + 1],
                announced[i],
                mirrored[i + 1],
                again,
            );
        } else {
            assert(mirrored[i + 1] == mirrored[i]);
        }
    }
}

} // verus!
