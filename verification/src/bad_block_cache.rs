//! The cache of blocks that failed validation.

use crate::identifiers::Cid;
use vstd::prelude::*;

verus! {

/// What the cache holds of one block: its identifier and the reason why it is bad.
pub type Entry = (Seq<u8>, Seq<char>);

/// Declares `lru::LruCache`, of which nothing is known but what the functions below say.
#[verifier::external_type_specification]
#[verifier::external_body]
#[verifier::reject_recursive_types(K)]
#[verifier::reject_recursive_types(V)]
#[verifier::reject_recursive_types(S)]
pub struct ExLruCache<K, V, S>(lru::LruCache<K, V, S>);

/// Declares `lru::DefaultHasher`, with which such a cache hashes its keys.
#[verifier::external_type_specification]
#[verifier::external_body]
pub struct ExDefaultHasher(lru::DefaultHasher);

/// The entries of an `lru::LruCache`, the most recently used first.
pub uninterp spec fn lru_entries(cache: lru::LruCache<Vec<u8>, String>) -> Seq<
    (Seq<u8>, Seq<char>),
>;

/// The number of entries that an `lru::LruCache` holds at most.
pub uninterp spec fn lru_capacity(cache: lru::LruCache<Vec<u8>, String>) -> nat;

/// The reason stored for `key`.
pub open spec fn lookup(entries: Seq<Entry>, key: Seq<u8>) -> Option<Seq<char>>
    decreases entries.len(),
{
    if entries.len() == 0 {
        None
    } else if entries[0].0 == key {
        Some(entries[0].1)
    } else {
        lookup(entries.drop_first(), key)
    }
}

/// The entries for other keys than `key`, in their order.
pub open spec fn without(entries: Seq<Entry>, key: Seq<u8>) -> Seq<Entry>
    decreases entries.len(),
{
    if entries.len() == 0 {
        entries
    } else if entries[0].0 == key {
        without(entries.drop_first(), key)
    } else {
        seq![entries[0]] + without(entries.drop_first(), key)
    }
}

/// The entries once `key` has been read: its entry, if there is one, comes first.
pub open spec fn touched(entries: Seq<Entry>, key: Seq<u8>) -> Seq<Entry> {
    match lookup(entries, key) {
        Some(reason) => seq![(key, reason)] + without(entries, key),
        None => entries,
    }
}

/// The entries once `reason` has been stored for `key`: the new entry comes first, and where
/// there would be more than `capacity` of them the last one is gone.
pub open spec fn stored(
    entries: Seq<Entry>,
    capacity: nat,
    key: Seq<u8>,
    reason: Seq<char>,
) -> Seq<Entry> {
    let others = without(entries, key);
    seq![(key, reason)] + if others.len() < capacity {
        others
    } else {
        others.take(capacity - 1)
    }
}

/// Calls `lru::LruCache::new`, which makes an empty cache for `cap` entries. It allocates its
/// table at once: the bound leaves out the capacities for which the table's size overflows, which
/// panics. Where there is no memory for the table, the process is aborted.
#[verifier::external_body]
fn lru_new(cap: usize) -> (cache: lru::LruCache<Vec<u8>, String>)
    requires
        0 < cap,
        cap * 40 <= isize::MAX,
    ensures
        lru_entries(cache) == Seq::<Entry>::empty(),
        lru_capacity(cache) == cap,
{
    lru::LruCache::new(std::num::NonZeroUsize::new(cap).unwrap())
}

/// Calls `lru::LruCache::put`. It returns the value that the key had, puts the entry at the head
/// and, where the key is new and the cache is full, drops the entry at the tail.
#[verifier::external_body]
fn lru_put(
    cache: &mut lru::LruCache<Vec<u8>, String>,
    key: Vec<u8>,
    reason: String,
) -> (replaced: Option<String>)
    ensures
        lru_entries(*final(cache)) == stored(
            lru_entries(*old(cache)),
            lru_capacity(*old(cache)),
            key@,
            reason@,
        ),
        lru_capacity(*final(cache)) == lru_capacity(*old(cache)),
        match replaced {
            Some(reason) => lookup(lru_entries(*old(cache)), key@) == Some(reason@),
            None => lookup(lru_entries(*old(cache)), key@) is None,
        },
{
    cache.put(key, reason)
}

/// Calls `lru::LruCache::get` and clones what it refers to. It returns the value of the key, if
/// the key is there, and moves its entry to the head.
#[verifier::external_body]
fn lru_get(cache: &mut lru::LruCache<Vec<u8>, String>, key: &Vec<u8>) -> (found: Option<String>)
    ensures
        lru_entries(*final(cache)) == touched(lru_entries(*old(cache)), key@),
        lru_capacity(*final(cache)) == lru_capacity(*old(cache)),
        match found {
            Some(reason) => lookup(lru_entries(*old(cache)), key@) == Some(reason@),
            None => lookup(lru_entries(*old(cache)), key@) is None,
        },
{
    cache.get(key).cloned()
}

/// Calls `lru::LruCache::peek` and clones what it refers to. It returns the value of the key, if
/// the key is there.
#[verifier::external_body]
fn lru_peek(cache: &lru::LruCache<Vec<u8>, String>, key: &Vec<u8>) -> (found: Option<String>)
    ensures
        match found {
            Some(reason) => lookup(lru_entries(*cache), key@) == Some(reason@),
            None => lookup(lru_entries(*cache), key@) is None,
        },
{
    cache.peek(key).cloned()
}

/// The number of entries that a default cache holds.
pub const DEFAULT_CAPACITY: usize = 32768;

/// A cache for tracking bad blocks.
/// It is checked before validating a block, to ensure no duplicate work.
#[derive(Debug)]
pub struct BadBlockCache {
    cache: lru::LruCache<Vec<u8>, String>,
}

/// The contents of a `BadBlockCache`.
pub struct CacheView {
    /// Identifiers and reasons, the most recently used first.
    pub entries: Seq<Entry>,
    /// How many entries there can be.
    pub capacity: nat,
}

impl CacheView {
    /// There is room for at least one entry, no more entries than there is room for, and at most
    /// one entry for a block.
    pub open spec fn wf(self) -> bool {
        &&& 0 < self.capacity
        &&& self.entries.len() <= self.capacity
        &&& distinct_keys(self.entries)
    }

    /// The reason stored for `key`.
    pub open spec fn reason(self, key: Seq<u8>) -> Option<Seq<char>> {
        lookup(self.entries, key)
    }

    /// The cache once `reason` has been stored for `key`.
    pub open spec fn put(self, key: Seq<u8>, reason: Seq<char>) -> CacheView {
        CacheView { entries: stored(self.entries, self.capacity, key, reason), ..self }
    }

    /// The cache once `key` has been read.
    pub open spec fn get(self, key: Seq<u8>) -> CacheView {
        CacheView { entries: touched(self.entries, key), ..self }
    }
}

/// No two entries have the same key.
pub open spec fn distinct_keys(entries: Seq<Entry>) -> bool {
    forall|i: int, j: int|
        0 <= i < j < entries.len() ==> (#[trigger] entries[i]).0 != (#[trigger] entries[j]).0
}

impl View for BadBlockCache {
    type V = CacheView;

    closed spec fn view(&self) -> CacheView {
        CacheView { entries: lru_entries(self.cache), capacity: lru_capacity(self.cache) }
    }
}

impl BadBlockCache {
    /// An empty cache for `cap` blocks.
    pub fn new(cap: usize) -> (cache: BadBlockCache)
        requires
            0 < cap,
            cap * 40 <= isize::MAX,
        ensures
            cache@ == (CacheView { entries: Seq::empty(), capacity: cap as nat }),
            cache@.wf(),
    {
        BadBlockCache { cache: lru_new(cap) }
    }

    /// Puts a bad block `Cid` in the cache with a given reason. Returns the reason that was
    /// stored for it before.
    pub fn put(&mut self, c: Cid, reason: String) -> (replaced: Option<String>)
        ensures
            final(self)@ == old(self)@.put(c@, reason@),
            old(self)@.wf() ==> final(self)@.wf(),
            match replaced {
                Some(reason) => old(self)@.reason(c@) == Some(reason@),
                None => old(self)@.reason(c@) is None,
            },
    {
        proof {
            if self@.wf() {
                law_put_keeps_wf(self@, c@, reason@);
            }
        }
        lru_put(&mut self.cache, c.bytes, reason)
    }

    /// Returns `Some` with the reason if the block CID is in bad block cache.
    /// This also updates the key to the head of the cache.
    pub fn get(&mut self, c: &Cid) -> (found: Option<String>)
        ensures
            final(self)@ == old(self)@.get(c@),
            old(self)@.wf() ==> final(self)@.wf(),
            match found {
                Some(reason) => old(self)@.reason(c@) == Some(reason@),
                None => old(self)@.reason(c@) is None,
            },
    {
        proof {
            if self@.wf() {
                law_get_keeps_wf(self@, c@);
            }
        }
        lru_get(&mut self.cache, &c.bytes)
    }

    /// Returns `Some` with the reason if the block CID is in bad block cache.
    /// This function does not update the head position of the `Cid` key.
    pub fn peek(&self, c: &Cid) -> (found: Option<String>)
        ensures
            match found {
                Some(reason) => self@.reason(c@) == Some(reason@),
                None => self@.reason(c@) is None,
            },
    {
        lru_peek(&self.cache, &c.bytes)
    }
}

impl Default for BadBlockCache {
    fn default() -> (cache: BadBlockCache)
        ensures
            cache@ == (CacheView { entries: Seq::empty(), capacity: DEFAULT_CAPACITY as nat }),
            cache@.capacity == 0x8000,
            cache@.wf(),
    {
        BadBlockCache::new(DEFAULT_CAPACITY)
    }
}

/// `without` drops the entries of one key, and nothing else.
proof fn lemma_without(entries: Seq<Entry>, key: Seq<u8>)
    ensures
        without(entries, key).len() <= entries.len(),
        lookup(without(entries, key), key) is None,
        forall|other: Seq<u8>|
            other != key ==> lookup(without(entries, key), other) == #[trigger] lookup(
                entries,
                other,
            ),
        lookup(entries, key) is None ==> without(entries, key) == entries,
        lookup(entries, key) is Some ==> without(entries, key).len() < entries.len(),
        forall|e: Entry| #[trigger]
            without(entries, key).contains(e) ==> e.0 != key && entries.contains(e),
        distinct_keys(entries) ==> distinct_keys(without(entries, key)),
    decreases entries.len(),
{
    if entries.len() > 0 {
        let first = entries[0];
        let rest = entries.drop_first();
        lemma_without(rest, key);
        let kept = without(rest, key);
        assert(entries =~= seq![first] + rest);
        if first.0 != key {
            let all = seq![first] + kept;
            assert(all.drop_first() =~= kept);
            if lookup(entries, key) is None {
                assert(without(entries, key) =~= entries);
            }
        }
        assert forall|other: Seq<u8>| other != key implies lookup(without(entries, key), other)
            == #[trigger] lookup(entries, other) by {
            assert(lookup(kept, other) == lookup(rest, other));
        }
        assert forall|e: Entry| #[trigger]
            without(entries, key).contains(e) implies e.0 != key && entries.contains(e) by {
            if e != first || first.0 == key {
                assert(kept.contains(e));
                assert(rest.contains(e));
                let i = choose|i: int| 0 <= i < rest.len() && rest[i] == e;
                assert(entries[i + 1] == e);
            } else {
                assert(entries[0] == e);
            }
        }
        if distinct_keys(entries) {
            assert forall|i: int, j: int| 0 <= i < j < rest.len() implies (#[trigger] rest[i]).0
                != (#[trigger] rest[j]).0 by {
                assert(entries[i + 1].0 != entries[j + 1].0);
            }
            if first.0 != key {
                let all = without(entries, key);
                assert forall|i: int, j: int| 0 <= i < j < all.len() implies (#[trigger] all[i]).0
                    != (#[trigger] all[j]).0 by {
                    assert(all[j] == kept[j - 1]);
                    if i == 0 {
                        assert(kept.contains(kept[j - 1]));
                        assert(rest.contains(kept[j - 1]));
                        let k = choose|k: int| 0 <= k < rest.len() && rest[k] == kept[j - 1];
                        assert(entries[k + 1] == kept[j - 1]);
                        assert(entries[0].0 != entries[k + 1].0);
                    } else {
                        assert(all[i] == kept[i - 1]);
                    }
                }
            }
        }
    }
}

/// Putting a new entry before others with other keys keeps the keys distinct.
proof fn lemma_distinct_prepend(first: Entry, others: Seq<Entry>)
    requires
        distinct_keys(others),
        forall|e: Entry| #[trigger] others.contains(e) ==> e.0 != first.0,
    ensures
        distinct_keys(seq![first] + others),
{
    let all = seq![first] + others;
    assert forall|i: int, j: int| 0 <= i < j < all.len() implies (#[trigger] all[i]).0 != (
    #[trigger] all[j]).0 by {
        assert(all[j] == others[j - 1]);
        assert(others.contains(others[j - 1]));
        if i > 0 {
            assert(all[i] == others[i - 1]);
        }
    }
}

/// Storing a reason keeps the cache within its capacity and its keys distinct.
pub proof fn law_put_keeps_wf(cache: CacheView, key: Seq<u8>, reason: Seq<char>)
    requires
        cache.wf(),
    ensures
        cache.put(key, reason).wf(),
{
    lemma_without(cache.entries, key);
    let others = without(cache.entries, key);
    let kept = if others.len() < cache.capacity {
        others
    } else {
        others.take(cache.capacity - 1)
    };
    assert forall|e: Entry| #[trigger] kept.contains(e) implies e.0 != key by {
        let i = choose|i: int| 0 <= i < kept.len() && kept[i] == e;
        assert(others[i] == e);
        assert(others.contains(e));
    }
    assert forall|i: int, j: int| 0 <= i < j < kept.len() implies (#[trigger] kept[i]).0 != (
    #[trigger] kept[j]).0 by {
        assert(others[i].0 != others[j].0);
    }
    lemma_distinct_prepend((key, reason), kept);
}

/// Reading a key keeps the cache within its capacity and its keys distinct.
pub proof fn law_get_keeps_wf(cache: CacheView, key: Seq<u8>)
    requires
        cache.wf(),
    ensures
        cache.get(key).wf(),
{
    lemma_without(cache.entries, key);
    if let Some(reason) = lookup(cache.entries, key) {
        lemma_distinct_prepend((key, reason), without(cache.entries, key));
    }
}

/// How many entries come before the entry of `key`.
pub open spec fn position(entries: Seq<Entry>, key: Seq<u8>) -> nat
    decreases entries.len(),
{
    if entries.len() == 0 || entries[0].0 == key {
        0
    } else {
        1 + position(entries.drop_first(), key)
    }
}

/// Dropping the entries of another key brings no entry further back.
proof fn lemma_position_without(entries: Seq<Entry>, dropped: Seq<u8>, key: Seq<u8>)
    requires
        dropped != key,
    ensures
        position(without(entries, dropped), key) <= position(entries, key),
    decreases entries.len(),
{
    if entries.len() > 0 {
        let rest = entries.drop_first();
        lemma_position_without(rest, dropped, key);
        let all = seq![entries[0]] + without(rest, dropped);
        assert(all.drop_first() =~= without(rest, dropped));
    }
}

/// Cutting off the tail loses the entries in it, and no others.
proof fn lemma_lookup_take(entries: Seq<Entry>, count: nat, key: Seq<u8>)
    requires
        count <= entries.len(),
    ensures
        lookup(entries, key) is Some && position(entries, key) < count ==> lookup(
            entries.take(count as int),
            key,
        ) == lookup(entries, key) && position(entries.take(count as int), key) == position(
            entries,
            key,
        ),
        lookup(entries, key) is Some && position(entries, key) >= count ==> lookup(
            entries.take(count as int),
            key,
        ) is None,
        lookup(entries, key) is None ==> lookup(entries.take(count as int), key) is None,
    decreases entries.len(),
{
    if entries.len() > 0 && count > 0 {
        let rest = entries.drop_first();
        lemma_lookup_take(rest, (count - 1) as nat, key);
        assert(entries.take(count as int).drop_first() =~= rest.take(count - 1));
    }
}

/// Where a key is found, its position is that of its entry.
proof fn lemma_position(entries: Seq<Entry>, key: Seq<u8>)
    ensures
        lookup(entries, key) is Some ==> position(entries, key) < entries.len() && entries[position(
            entries,
            key,
        ) as int] == (key, lookup(entries, key).unwrap()),
    decreases entries.len(),
{
    if entries.len() > 0 {
        lemma_position(entries.drop_first(), key);
    }
}

/// A reason that was put in the cache is what a read of that block gives back.
pub proof fn law_put_is_read_back(cache: CacheView, key: Seq<u8>, reason: Seq<char>)
    ensures
        cache.put(key, reason).reason(key) == Some(reason),
        cache.put(key, reason).get(key).reason(key) == Some(reason),
{
    law_get_changes_no_reason(cache.put(key, reason), key, key);
}

/// Reading a block moves its entry to the head and changes what is stored for no block.
pub proof fn law_get_changes_no_reason(cache: CacheView, key: Seq<u8>, other: Seq<u8>)
    ensures
        cache.get(key).reason(other) == cache.reason(other),
        cache.reason(key) is Some ==> position(cache.get(key).entries, key) == 0,
{
    if let Some(reason) = cache.reason(key) {
        lemma_without(cache.entries, key);
        let others = without(cache.entries, key);
        let all = seq![(key, reason)] + others;
        assert(all.drop_first() =~= others);
        if other != key {
            assert(lookup(others, other) == lookup(cache.entries, other));
        }
    }
}

/// Putting a block in the cache changes what is stored for another block only by evicting it:
/// where the cache is full, the block that is put is new and the other is the least recently used.
pub proof fn law_put_evicts_only_the_last(
    cache: CacheView,
    key: Seq<u8>,
    reason: Seq<char>,
    other: Seq<u8>,
)
    requires
        cache.wf(),
        other != key,
    ensures
        cache.put(key, reason).reason(other) == if cache.reason(key) is None
            && cache.entries.len() == cache.capacity && cache.entries.last().0 == other {
            None
        } else {
            cache.reason(other)
        },
{
    let others = without(cache.entries, key);
    lemma_without(cache.entries, key);
    assert(lookup(others, other) == lookup(cache.entries, other));
    let kept = if others.len() < cache.capacity {
        others
    } else {
        others.take(cache.capacity - 1)
    };
    let all = seq![(key, reason)] + kept;
    assert(all.drop_first() =~= kept);
    if others.len() == cache.capacity {
        assert(others == cache.entries);
        lemma_lookup_take(others, (cache.capacity - 1) as nat, other);
        lemma_position(others, other);
        if others.last().0 == other {
            lemma_lookup_present(others, others.len() - 1);
        }
    }
}

/// The key of an entry is found, at that entry or before it.
proof fn lemma_lookup_present(entries: Seq<Entry>, i: int)
    requires
        0 <= i < entries.len(),
        distinct_keys(entries),
    ensures
        lookup(entries, entries[i].0) == Some(entries[i].1),
        position(entries, entries[i].0) == i,
    decreases entries.len(),
{
    if i > 0 {
        let rest = entries.drop_first();
        assert forall|a: int, b: int| 0 <= a < b < rest.len() implies (#[trigger] rest[a]).0 != (
        #[trigger] rest[b]).0 by {
            assert(entries[a + 1].0 != entries[b + 1].0);
        }
        assert(entries[0].0 != entries[i].0);
        assert(rest[i - 1] == entries[i]);
        lemma_lookup_present(rest, i - 1);
    }
}

/// The cache once each of `blocks` has been put in it, in their order.
pub open spec fn put_all(cache: CacheView, blocks: Seq<Entry>) -> CacheView
    decreases blocks.len(),
{
    if blocks.len() == 0 {
        cache
    } else {
        put_all(cache, blocks.drop_last()).put(blocks.last().0, blocks.last().1)
    }
}

/// A block that was just put or read stays, with its reason, while fewer others than the cache
/// has room for are put.
pub proof fn law_recent_block_stays(cache: CacheView, key: Seq<u8>, blocks: Seq<Entry>)
    requires
        cache.wf(),
        cache.reason(key) is Some,
        position(cache.entries, key) == 0,
        blocks.len() < cache.capacity,
        forall|i: int| 0 <= i < blocks.len() ==> (#[trigger] blocks[i]).0 != key,
    ensures
        put_all(cache, blocks).wf(),
        put_all(cache, blocks).capacity == cache.capacity,
        put_all(cache, blocks).reason(key) == cache.reason(key),
        position(put_all(cache, blocks).entries, key) <= blocks.len(),
    decreases blocks.len(),
{
    if blocks.len() > 0 {
        let earlier = blocks.drop_last();
        assert forall|i: int| 0 <= i < earlier.len() implies (#[trigger] earlier[i]).0 != key by {
            assert(blocks[i].0 != key);
        }
        law_recent_block_stays(cache, key, earlier);
        let before = put_all(cache, earlier);
        let (other, reason) = blocks.last();
        assert(blocks[blocks.len() - 1].0 != key);
        law_put_keeps_wf(before, other, reason);
        let others = without(before.entries, other);
        lemma_without(before.entries, other);
        assert(lookup(others, key) == lookup(before.entries, key));
        lemma_position_without(before.entries, other, key);
        let kept = if others.len() < before.capacity {
            others
        } else {
            others.take(before.capacity - 1)
        };
        if others.len() >= before.capacity {
            lemma_lookup_take(others, (before.capacity - 1) as nat, key);
        }
        let all = seq![(other, reason)] + kept;
        assert(all.drop_first() =~= kept);
    }
}

/// A key that is found stands in one of the entries, with what is found for it.
proof fn lemma_lookup_contains(entries: Seq<Entry>, key: Seq<u8>)
    ensures
        lookup(entries, key) matches Some(reason) ==> entries.contains((key, reason)),
{
    lemma_position(entries, key);
    if let Some(reason) = lookup(entries, key) {
        assert(entries[position(entries, key) as int] == (key, reason));
    }
}

/// What is stored for a block is what the block's entry says: a block has a reason exactly where it
/// has an entry.
pub proof fn law_reason_is_in_the_entry(cache: CacheView, key: Seq<u8>, reason: Seq<char>)
    requires
        cache.wf(),
    ensures
        cache.reason(key) == Some(reason) <==> cache.entries.contains((key, reason)),
{
    lemma_lookup_contains(cache.entries, key);
    if cache.entries.contains((key, reason)) {
        let i = choose|i: int| 0 <= i < cache.entries.len() && cache.entries[i] == (key, reason);
        lemma_lookup_present(cache.entries, i);
    }
}

/// Dropping the entries of another key keeps the order of the others.
proof fn lemma_order_without(entries: Seq<Entry>, dropped: Seq<u8>, one: Seq<u8>, other: Seq<u8>)
    requires
        one != dropped,
        other != dropped,
        lookup(entries, one) is Some,
        lookup(entries, other) is Some,
    ensures
        position(without(entries, dropped), one) < position(without(entries, dropped), other)
            <==> position(entries, one) < position(entries, other),
    decreases entries.len(),
{
    if entries.len() > 0 {
        let first = entries[0].0;
        let rest = entries.drop_first();
        let all = seq![entries[0]] + without(rest, dropped);
        assert(all.drop_first() =~= without(rest, dropped));
        if first != one && first != other {
            lemma_order_without(rest, dropped, one, other);
        }
    }
}

/// Behind an entry that is put before others, the others keep their places.
proof fn lemma_position_prepend(first: Entry, others: Seq<Entry>, key: Seq<u8>)
    ensures
        first.0 != key ==> position(seq![first] + others, key) == 1 + position(others, key),
        first.0 == key ==> position(seq![first] + others, key) == 0,
        first.0 != key ==> lookup(seq![first] + others, key) == lookup(others, key),
{
    assert((seq![first] + others).drop_first() =~= others);
}

/// Without one key's entry there is one entry less, if the key had one.
proof fn lemma_without_len(entries: Seq<Entry>, key: Seq<u8>)
    requires
        distinct_keys(entries),
    ensures
        without(entries, key).len() == entries.len() - if lookup(entries, key) is Some {
            1int
        } else {
            0int
        },
    decreases entries.len(),
{
    lemma_without(entries, key);
    if entries.len() > 0 {
        let rest = entries.drop_first();
        assert forall|i: int, j: int| 0 <= i < j < rest.len() implies (#[trigger] rest[i]).0 != (
        #[trigger] rest[j]).0 by {
            assert(entries[i + 1].0 != entries[j + 1].0);
        }
        lemma_without_len(rest, key);
        if entries[0].0 == key {
            if lookup(rest, key) is Some {
                lemma_position(rest, key);
                let i = position(rest, key) as int;
                assert(entries[i + 1].0 == entries[0].0);
            }
        }
    }
}

/// A block that is put comes first, with the reason, and the room of the cache stays what it was.
/// There is one entry more where the block is new and there is room. Of the others, those that
/// stay keep their order.
pub proof fn law_put_comes_first(
    cache: CacheView,
    key: Seq<u8>,
    reason: Seq<char>,
    one: Seq<u8>,
    other: Seq<u8>,
)
    requires
        cache.wf(),
    ensures
        ({
            let after = cache.put(key, reason);
            &&& after.capacity == cache.capacity
            &&& after.entries[0] == (key, reason)
            &&& after.entries.len() == if cache.reason(key) is None && cache.entries.len()
                < cache.capacity {
                cache.entries.len() + 1
            } else {
                cache.entries.len()
            }
            &&& one != key && other != key && after.reason(one) is Some && after.reason(other)
                is Some ==> (position(after.entries, one) < position(after.entries, other)
                <==> position(cache.entries, one) < position(cache.entries, other))
        }),
{
    let others = without(cache.entries, key);
    lemma_without(cache.entries, key);
    lemma_without_len(cache.entries, key);
    let kept = if others.len() < cache.capacity {
        others
    } else {
        others.take(cache.capacity - 1)
    };
    let after = cache.put(key, reason);
    assert(after.entries == seq![(key, reason)] + kept);
    if one != key && other != key && after.reason(one) is Some && after.reason(other) is Some {
        lemma_position_prepend((key, reason), kept, one);
        lemma_position_prepend((key, reason), kept, other);
        if others.len() >= cache.capacity {
            lemma_lookup_take(others, (cache.capacity - 1) as nat, one);
            lemma_lookup_take(others, (cache.capacity - 1) as nat, other);
        }
        assert(lookup(others, one) == lookup(cache.entries, one));
        assert(lookup(others, other) == lookup(cache.entries, other));
        lemma_order_without(cache.entries, key, one, other);
    }
}

/// A block that is read comes first, the others keep their order, and there are as many entries
/// and as much room as before. A read of a block that is not there changes nothing.
pub proof fn law_get_comes_first(cache: CacheView, key: Seq<u8>, one: Seq<u8>, other: Seq<u8>)
    requires
        cache.wf(),
    ensures
        ({
            let after = cache.get(key);
            &&& after.capacity == cache.capacity
            &&& after.entries.len() == cache.entries.len()
            &&& cache.reason(key) is None ==> after.entries == cache.entries
            &&& cache.reason(key) matches Some(reason) ==> after.entries[0] == (key, reason)
            &&& one != key && other != key && cache.reason(one) is Some && cache.reason(other)
                is Some ==> (position(after.entries, one) < position(after.entries, other)
                <==> position(cache.entries, one) < position(cache.entries, other))
        }),
{
    lemma_without_len(cache.entries, key);
    if let Some(reason) = cache.reason(key) {
        let others = without(cache.entries, key);
        lemma_without(cache.entries, key);
        if one != key && other != key && cache.reason(one) is Some && cache.reason(other)
            is Some {
            lemma_position_prepend((key, reason), others, one);
            lemma_position_prepend((key, reason), others, other);
            lemma_order_without(cache.entries, key, one, other);
        }
    }
}

} // verus!
