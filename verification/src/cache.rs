//! A bounded cache from resource paths to the bodies last produced for
//! them. When it is full, the entry that was inserted first leaves.

use vstd::prelude::*;
use vstd::string::*;
use vstd::hash_map::StringHashMap;
use std::collections::VecDeque;
use bytes::Bytes;
use crate::exception::Exception;
use crate::payload::payload;

verus! {

/// One entry of the cache: the key and the bytes stored under it.
pub type Entry = (Seq<char>, Seq<u8>);

/// Whether some entry has the key `key`.
pub open spec fn holds(entries: Seq<Entry>, key: Seq<char>) -> bool {
    exists|i: int| 0 <= i < entries.len() && (#[trigger] entries[i]).0 == key
}

/// The index of an entry with the key `key`.
pub open spec fn position(entries: Seq<Entry>, key: Seq<char>) -> int {
    choose|i: int| 0 <= i < entries.len() && (#[trigger] entries[i]).0 == key
}

/// The bytes stored under `key`, if any.
pub open spec fn lookup(entries: Seq<Entry>, key: Seq<char>) -> Option<Seq<u8>> {
    if holds(entries, key) {
        Some(entries[position(entries, key)].1)
    } else {
        None
    }
}

/// Whether no key occurs twice.
pub open spec fn distinct_keys(entries: Seq<Entry>) -> bool {
    forall|i: int, j: int|
        0 <= i < j < entries.len() ==> (#[trigger] entries[i]).0 != (#[trigger] entries[j]).0
}

/// The entries after `key` has been inserted with `value` into a cache of
/// the given capacity, the entries being listed oldest first.
///
/// A full cache first loses its oldest entry. Then a key that is still
/// present gets the new value and keeps its place in the order; a key that
/// is not becomes the newest entry.
pub open spec fn inserted(entries: Seq<Entry>, capacity: nat, key: Seq<char>, value: Seq<u8>) -> Seq<
    Entry,
> {
    let kept = if entries.len() >= capacity && entries.len() > 0 {
        entries.drop_first()
    } else {
        entries
    };
    if holds(kept, key) {
        kept.update(position(kept, key), (key, value))
    } else {
        kept.push((key, value))
    }
}

/// The entries after each of `items` has been inserted in turn.
pub open spec fn inserted_all(entries: Seq<Entry>, capacity: nat, items: Seq<Entry>) -> Seq<Entry>
    decreases items.len(),
{
    if items.len() == 0 {
        entries
    } else {
        inserted(
            inserted_all(entries, capacity, items.drop_last()),
            capacity,
            items.last().0,
            items.last().1,
        )
    }
}

/// Whether `hit` is what a lookup of `key` among `entries` answers: the
/// stored bytes on a hit, nothing on a miss.
pub open spec fn answers(entries: Seq<Entry>, key: Seq<char>, hit: Option<&Bytes>) -> bool {
    match hit {
        Some(b) => lookup(entries, key) == Some(payload(*b)),
        None => lookup(entries, key) is None,
    }
}

/// The newest `capacity` of `items`, or all of them where there are fewer.
pub open spec fn newest(items: Seq<Entry>, capacity: nat) -> Seq<Entry> {
    if items.len() <= capacity {
        items
    } else {
        items.subrange(items.len() - capacity, items.len() as int)
    }
}

/// First in, first out: where a cache holds `entries` and then takes
/// `items`, no key occurring twice among all of them, it ends up with the
/// newest entries that it has room for, oldest first.
pub proof fn lemma_fifo_keeps_newest(entries: Seq<Entry>, capacity: nat, items: Seq<Entry>)
    requires
        capacity >= 1,
        entries.len() <= capacity,
        distinct_keys(entries + items),
    ensures
        inserted_all(entries, capacity, items) == newest(entries + items, capacity),
    decreases items.len(),
{
    let all = entries + items;
    if items.len() == 0 {
        assert(all =~= entries);
    } else {
        let earlier = items.drop_last();
        let last = items.last();
        let past = entries + earlier;
        assert(past =~= all.drop_last());
        assert forall|i: int, j: int| 0 <= i < j < past.len() implies (#[trigger] past[i]).0 != (
        #[trigger] past[j]).0 by {
            assert(all[i].0 != all[j].0);
        }
        lemma_fifo_keeps_newest(entries, capacity, earlier);
        let held = newest(past, capacity);
        let kept = if held.len() >= capacity && held.len() > 0 {
            held.drop_first()
        } else {
            held
        };
        assert(last == all[all.len() - 1]);
        assert(!holds(kept, last.0)) by {
            if holds(kept, last.0) {
                let p = position(kept, last.0);
                let at = p + (all.len() - 1 - kept.len());
                assert(kept[p] == all[at]);
                assert(all[at].0 != all[all.len() - 1].0);
            }
        }
        assert(kept.push((last.0, last.1)) =~= newest(all, capacity));
    }
}

/// Once more distinct keys have been inserted into an empty cache than it
/// has room for, it is exactly full, and every key but the newest
/// `capacity` is gone from it.
pub proof fn lemma_overflow_evicts_oldest(capacity: nat, items: Seq<Entry>)
    requires
        capacity >= 1,
        items.len() > capacity,
        distinct_keys(items),
    ensures
        inserted_all(Seq::empty(), capacity, items).len() == capacity,
        forall|i: int|
            0 <= i < items.len() - capacity ==> lookup(
                inserted_all(Seq::empty(), capacity, items),
                (#[trigger] items[i]).0,
            ) is None,
{
    assert(Seq::<Entry>::empty() + items =~= items);
    lemma_fifo_keeps_newest(Seq::empty(), capacity, items);
    let held = inserted_all(Seq::empty(), capacity, items);
    assert forall|i: int| 0 <= i < items.len() - capacity implies lookup(
        held,
        (#[trigger] items[i]).0,
    ) is None by {
        if holds(held, items[i].0) {
            let p = position(held, items[i].0);
            let at = p + (items.len() - capacity);
            assert(held[p] == items[at]);
            assert(items[i].0 != items[at].0);
        }
    }
}

/// Inserting never leaves more entries than there is room for, and never
/// leaves a key twice.
pub proof fn lemma_inserted_stays_bounded(
    entries: Seq<Entry>,
    capacity: nat,
    key: Seq<char>,
    value: Seq<u8>,
)
    requires
        capacity >= 1,
        entries.len() <= capacity,
        distinct_keys(entries),
    ensures
        inserted(entries, capacity, key, value).len() <= capacity,
        inserted(entries, capacity, key, value).len() + 1 >= entries.len(),
        distinct_keys(inserted(entries, capacity, key, value)),
        lookup(inserted(entries, capacity, key, value), key) == Some(value),
{
    let kept = if entries.len() >= capacity && entries.len() > 0 {
        entries.drop_first()
    } else {
        entries
    };
    let after = inserted(entries, capacity, key, value);
    assert forall|i: int, j: int| 0 <= i < j < kept.len() implies (#[trigger] kept[i]).0 != (
    #[trigger] kept[j]).0 by {
        if kept.len() < entries.len() {
            assert(entries[i + 1].0 != entries[j + 1].0);
        }
    }
    if holds(kept, key) {
        let p = position(kept, key);
        assert(after[p].0 == key);
        assert forall|i: int, j: int| 0 <= i < j < after.len() implies (#[trigger] after[i]).0 != (
        #[trigger] after[j]).0 by {
            assert(after[i].0 == kept[i].0);
            assert(after[j].0 == kept[j].0);
        }
        let q = position(after, key);
        if q != p {
            if q < p {
                assert(after[q].0 != after[p].0);
            } else {
                assert(after[p].0 != after[q].0);
            }
        }
    } else {
        assert(after[after.len() - 1].0 == key);
        assert forall|i: int, j: int| 0 <= i < j < after.len() implies (#[trigger] after[i]).0 != (
        #[trigger] after[j]).0 by {
            if j == after.len() - 1 {
                assert(kept[i].0 != key);
            } else {
                assert(after[i] == kept[i]);
                assert(after[j] == kept[j]);
            }
        }
        let q = position(after, key);
        if q != after.len() - 1 {
            assert(kept[q].0 == key);
        }
    }
}

/// Two lookups of one key among the same entries answer alike: both miss,
/// or both hit and hand out the same bytes.
pub proof fn lemma_find_is_repeatable(
    entries: Seq<Entry>,
    key: Seq<char>,
    first: Option<&Bytes>,
    second: Option<&Bytes>,
)
    requires
        answers(entries, key, first),
        answers(entries, key, second),
    ensures
        first is Some <==> second is Some,
        first is Some ==> payload(*first->0) == payload(*second->0),
{
}

/// A cache of at most `capacity` bodies, keyed by resource path.
pub struct FileCache {
    store: StringHashMap<Bytes>,
    order: VecDeque<String>,
    capacity: usize,
}

/// What a cache is, as mathematical values: its entries, oldest first, and
/// the number of entries that it has room for.
pub struct CacheView {
    pub entries: Seq<Entry>,
    pub capacity: nat,
}

impl View for FileCache {
    type V = CacheView;

    closed spec fn view(&self) -> CacheView {
        CacheView {
            entries: Seq::new(
                self.order@.len(),
                |i: int| (self.order@[i]@, payload(self.store@[self.order@[i]@])),
            ),
            capacity: self.capacity as nat,
        }
    }
}

impl FileCache {
    /// The invariant of the cache: it has room for at least one entry, holds
    /// no more than it has room for, and holds no key twice.
    pub closed spec fn wf(&self) -> bool {
        &&& self.capacity >= 1
        &&& self.order@.len() <= self.capacity
        &&& forall|i: int, j: int|
            0 <= i < j < self.order@.len() ==> (#[trigger] self.order@[i])@ != (
            #[trigger] self.order@[j])@
        &&& forall|k: Seq<char>|
            self.store@.contains_key(k) <==> exists|i: int|
                0 <= i < self.order@.len() && (#[trigger] self.order@[i])@ == k
    }

    /// What the invariant means for the entries.
    pub proof fn lemma_wf_entries(&self)
        requires
            self.wf(),
        ensures
            self@.capacity >= 1,
            self@.entries.len() <= self@.capacity,
            distinct_keys(self@.entries),
    {
    }

    /// Makes an empty cache with room for `capacity` entries. A capacity of
    /// zero is refused.
    pub fn from_capacity(capacity: usize) -> (res: Result<FileCache, Exception>)
        ensures
            capacity == 0 <==> res is Err,
            res matches Err(e) ==> e == Exception::ZeroCapacity,
            res matches Ok(c) ==> c.wf() && c@ == (CacheView {
                entries: Seq::empty(),
                capacity: capacity as nat,
            }),
    {
        if capacity == 0 {
            return Err(Exception::ZeroCapacity);
        }
        let c = FileCache { store: StringHashMap::new(), order: VecDeque::new(), capacity };
        assert(c@.entries =~= Seq::<Entry>::empty());
        Ok(c)
    }

    /// Stores `bytes` under `filename`. A full cache first drops its oldest
    /// entry, whatever the key; a key that is then still present keeps its
    /// place and gets the new bytes.
    pub fn push(&mut self, filename: &str, bytes: Bytes)
        requires
            old(self).wf(),
        ensures
            final(self).wf(),
            final(self)@ == (CacheView {
                entries: inserted(
                    old(self)@.entries,
                    old(self)@.capacity,
                    filename@,
                    payload(bytes),
                ),
                capacity: old(self)@.capacity,
            }),
    {
        let ghost before = self@.entries;
        let ghost order0 = self.order@;
        let ghost store0 = self.store@;
        if self.order.len() == self.capacity {
            let oldest = self.order.pop_front();
            match oldest {
                Some(key) => {
                    self.store.remove(key.as_str());
                    proof {
                        let order1 = self.order@;
                        assert forall|i: int| 0 <= i < order1.len() implies order1[i]
                            == order0[i + 1] by {}
                        assert forall|k: Seq<char>|
                            self.store@.contains_key(k) <==> exists|i: int|
                                0 <= i < order1.len() && (#[trigger] order1[i])@ == k by {
                            if self.store@.contains_key(k) {
                                let i = choose|i: int|
                                    0 <= i < order0.len() && (#[trigger] order0[i])@ == k;
                                assert(order1[i - 1]@ == k);
                            }
                            if exists|i: int| 0 <= i < order1.len() && (#[trigger] order1[i])@ == k {
                                let i = choose|i: int|
                                    0 <= i < order1.len() && (#[trigger] order1[i])@ == k;
                                assert(order0[i + 1]@ == k);
                            }
                        }
                    }
                },
                None => {},
            }
        }
        let ghost kept = self@.entries;
        let ghost order1 = self.order@;
        assert(kept =~= if before.len() >= self.capacity && before.len() > 0 {
            before.drop_first()
        } else {
            before
        });
        assert(self.wf());
        if self.store.contains_key(filename) {
            let ghost p = position(kept, filename@);
            assert(holds(kept, filename@)) by {
                let i = choose|i: int|
                    0 <= i < self.order@.len() && (#[trigger] self.order@[i])@ == filename@;
                assert(kept[i].0 == filename@);
            }
            self.store.insert(filename.to_owned(), bytes);
            assert(self@.entries =~= kept.update(p, (filename@, payload(bytes))));
            assert forall|k: Seq<char>|
                self.store@.contains_key(k) <==> exists|i: int|
                    0 <= i < self.order@.len() && (#[trigger] self.order@[i])@ == k by {
                if k == filename@ {
                    assert(self.order@[p]@ == k);
                }
            }
        } else {
            assert(!holds(kept, filename@)) by {
                if holds(kept, filename@) {
                    let i = position(kept, filename@);
                    assert(self.order@[i]@ == filename@);
                }
            }
            let key = filename.to_owned();
            self.store.insert(filename.to_owned(), bytes);
            self.order.push_back(key);
            assert(self@.entries =~= kept.push((filename@, payload(bytes))));
            assert forall|k: Seq<char>|
                self.store@.contains_key(k) <==> exists|i: int|
                    0 <= i < self.order@.len() && (#[trigger] self.order@[i])@ == k by {
                if k == filename@ {
                    assert(self.order@[self.order@.len() - 1]@ == k);
                } else {
                    if self.store@.contains_key(k) {
                        let i = choose|i: int|
                            0 <= i < order1.len() && (#[trigger] order1[i])@ == k;
                        assert(self.order@[i]@ == k);
                    }
                    if exists|i: int|
                        0 <= i < self.order@.len() && (#[trigger] self.order@[i])@ == k {
                        let i = choose|i: int|
                            0 <= i < self.order@.len() && (#[trigger] self.order@[i])@ == k;
                        assert(order1[i]@ == k);
                    }
                }
            }
            assert forall|i: int, j: int| 0 <= i < j < self.order@.len() implies (
            #[trigger] self.order@[i])@ != (#[trigger] self.order@[j])@ by {
                if j == self.order@.len() - 1 {
                    assert(order1[i]@ != filename@);
                } else {
                    assert(order1[i]@ != order1[j]@);
                }
            }
        }
    }

    /// Looks `filename` up. A hit hands out the stored bytes themselves, not
    /// a copy; the cache is left as it was.
    pub fn find(&self, filename: &str) -> (hit: Option<&Bytes>)
        requires
            self.wf(),
        ensures
            answers(self@.entries, filename@, hit),
    {
        let hit = self.store.get(filename);
        proof {
            if self.store@.contains_key(filename@) {
                let i = choose|i: int|
                    0 <= i < self.order@.len() && (#[trigger] self.order@[i])@ == filename@;
                assert(self@.entries[i].0 == filename@);
                let p = position(self@.entries, filename@);
                assert(self.order@[p]@ == filename@);
            } else {
                if holds(self@.entries, filename@) {
                    let p = position(self@.entries, filename@);
                    assert(self.order@[p]@ == filename@);
                }
            }
        }
        hit
    }

    /// The number of entries held.
    pub fn len(&self) -> (n: usize)
        requires
            self.wf(),
        ensures
            n == self@.entries.len(),
    {
        self.order.len()
    }
}

} // verus!
