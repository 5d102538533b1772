//! A bounded cache of what was posted most recently.
//!
//! Entries are kept newest first. A push puts the new entry in front and,
//! where that makes the cache longer than its limit, drops the oldest one.
//! Nothing else changes the cache: a lookup neither moves nor removes entries.

use vstd::prelude::*;
use std::collections::VecDeque;

verus! {

/// The `limit` newest of `entries`, which are listed newest first.
pub open spec fn newest<T>(entries: Seq<T>, limit: nat) -> Seq<T> {
    if entries.len() > limit {
        entries.take(limit as int)
    } else {
        entries
    }
}

/// What a cache of `entries` holds after `item` was pushed.
pub open spec fn after_push<T>(entries: Seq<T>, item: T, limit: nat) -> Seq<T> {
    newest(seq![item] + entries, limit)
}

/// What a cache of `entries` holds after each of `items` was pushed in turn.
pub open spec fn after_pushes<T>(entries: Seq<T>, items: Seq<T>, limit: nat) -> Seq<T> {
    newest(items.reverse() + entries, limit)
}

/// Pushing one more item onto what `items` left is pushing `items` followed by that item.
pub proof fn lemma_after_pushes_step<T>(entries: Seq<T>, items: Seq<T>, item: T, limit: nat)
    ensures
        after_pushes(entries, items.push(item), limit) == after_push(
            after_pushes(entries, items, limit),
            item,
            limit,
        ),
{
}

/// Pushing nothing leaves a cache within its limit as it is.
pub proof fn lemma_after_no_pushes<T>(entries: Seq<T>, limit: nat)
    requires
        entries.len() <= limit,
    ensures
        after_pushes(entries, Seq::<T>::empty(), limit) == entries,
{
}

/// Whatever is pushed, and however often, the cache never holds more than
/// its limit: it holds as many entries as it was given, up to the limit.
pub proof fn lemma_len_after_pushes<T>(entries: Seq<T>, items: Seq<T>, limit: nat)
    requires
        entries.len() <= limit,
    ensures
        after_pushes(entries, items, limit).len() <= limit,
        after_pushes(entries, items, limit).len() == if entries.len() + items.len() <= limit {
            entries.len() + items.len()
        } else {
            limit
        },
{
}

/// A push into a full cache of distinct entries removes the oldest entry,
/// unless the pushed item is that entry again.
pub proof fn lemma_oldest_evicted<T>(entries: Seq<T>, item: T, limit: nat)
    requires
        entries.len() == limit,
        limit > 0,
        entries.no_duplicates(),
        item != entries.last(),
    ensures
        !after_push(entries, item, limit).contains(entries.last()),
{
}

/// Of distinct items pushed into an empty cache, all but the last `limit`
/// are gone.
pub proof fn lemma_only_newest_remain<T>(items: Seq<T>, limit: nat, i: int)
    requires
        items.no_duplicates(),
        0 <= i < items.len() - limit,
    ensures
        !after_pushes(Seq::<T>::empty(), items, limit).contains(items[i]),
{
}

/// A cache of at most `max_entries` entries, newest first.
pub struct RecencyCache<T> {
    entries: VecDeque<T>,
    max_entries: usize,
}

impl<T> View for RecencyCache<T> {
    type V = Seq<T>;

    /// The entries, newest first.
    closed spec fn view(&self) -> Seq<T> {
        self.entries@
    }
}

impl<T> RecencyCache<T> {
    /// The limit the cache was made with.
    pub closed spec fn limit(&self) -> nat {
        self.max_entries as nat
    }

    /// The cache holds no more than its limit.
    #[verifier::type_invariant]
    pub open spec fn within_limit(self) -> bool {
        self@.len() <= self.limit()
    }

    /// An empty cache that will hold up to `max_entries` entries.
    pub fn new(max_entries: usize) -> (cache: Self)
        ensures
            cache@ == Seq::<T>::empty(),
            cache.limit() == max_entries,
    {
        RecencyCache { entries: VecDeque::new(), max_entries }
    }

    /// The limit the cache was made with.
    pub fn max_entries(&self) -> (limit: usize)
        ensures
            limit == self.limit(),
    {
        self.max_entries
    }

    /// How many entries the cache holds: never more than its limit.
    pub fn len(&self) -> (len: usize)
        ensures
            len == self@.len(),
            len <= self.limit(),
    {
        proof {
            use_type_invariant(self);
        }
        self.entries.len()
    }

    /// The entry at `index`, counted from the newest.
    pub fn get(&self, index: usize) -> (entry: &T)
        requires
            index < self@.len(),
        ensures
            *entry == self@[index as int],
    {
        &self.entries[index]
    }

    /// The entries, newest first.
    pub fn newest_first(&self) -> (entries: Vec<&T>)
        ensures
            entries@.len() == self@.len(),
            forall|i: int| 0 <= i < entries@.len() ==> *entries@[i] == self@[i],
    {
        let mut entries: Vec<&T> = Vec::new();
        let mut i: usize = 0;
        while i < self.entries.len()
            invariant
                i <= self@.len(),
                entries@.len() == i,
                forall|j: int| 0 <= j < i ==> *entries@[j] == self@[j],
            decreases self@.len() - i,
        {
            entries.push(&self.entries[i]);
            i += 1;
        }
        entries
    }

    /// Puts `item` in front and, where the cache then exceeds its limit,
    /// drops the oldest entry.
    pub fn push_front(&mut self, item: T)
        ensures
            final(self).limit() == old(self).limit(),
            final(self)@ == after_push(old(self)@, item, old(self).limit()),
            final(self)@.len() <= final(self).limit(),
    {
        proof {
            use_type_invariant(&*self);
        }
        let mut entries = VecDeque::new();
        std::mem::swap(&mut entries, &mut self.entries);
        entries.push_front(item);
        if entries.len() > self.max_entries {
            entries.pop_back();
        }
        self.entries = entries;
    }
}

impl RecencyCache<String> {
    /// The cached strings, newest first, each as its characters.
    pub open spec fn texts(&self) -> Seq<Seq<char>> {
        self@.map_values(|entry: String| entry@)
    }

    /// Whether `item` is in the cache, compared character by character.
    pub fn contains_equal(&self, item: &String) -> (found: bool)
        ensures
            found == self.texts().contains(item@),
    {
        let mut i: usize = 0;
        while i < self.entries.len()
            invariant
                i <= self@.len(),
                forall|j: int| 0 <= j < i ==> self.texts()[j] != item@,
            decreases self@.len() - i,
        {
            if self.entries[i] == *item {
                assert(self.texts()[i as int] == item@);
                return true;
            }
            i += 1;
        }
        false
    }
}

} // verus!
