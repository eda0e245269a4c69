//! An index from a block to the entries that fall due at it. Both the dispute
//! deadlines and the deadlines of voting rounds are kept in one of these.
use bounded_collections::{BoundedVec, ConstU32};
use crate::bucket::{
    bucket_get, bucket_into_inner, bucket_items, bucket_len, bucket_new, bucket_remove,
    bucket_try_push, BUCKET_CEILING,
};
use crate::types::BlockNumber;
use std::collections::BTreeMap;
use vstd::prelude::*;

verus! {

/// The bucket of a block holds as many entries as the index allows.
#[derive(Clone, Copy, Debug, PartialEq, Eq, Structural)]
pub struct BucketFull;

/// Whether `index` gives every block a bucket of at most `capacity` entries.
pub open spec fn bounded(index: Map<BlockNumber, Seq<u128>>, capacity: nat) -> bool {
    forall|block: BlockNumber| #[trigger]
        index.contains_key(block) && index[block].len() <= capacity
}

/// Appending to a bucket with room keeps the index bounded.
pub proof fn lemma_bounded_push(
    index: Map<BlockNumber, Seq<u128>>,
    capacity: nat,
    block: BlockNumber,
    id: u128,
)
    requires
        bounded(index, capacity),
        index[block].len() < capacity,
    ensures
        bounded(index.insert(block, index[block].push(id)), capacity),
{
    let after = index.insert(block, index[block].push(id));
    assert forall|b: BlockNumber| #[trigger] after.contains_key(b) && after[b].len()
        <= capacity by {
        assert(index.contains_key(b));
    }
}

/// Taking an entry out of a bucket keeps the index bounded.
pub proof fn lemma_bounded_remove(
    index: Map<BlockNumber, Seq<u128>>,
    capacity: nat,
    block: BlockNumber,
    id: u128,
)
    requires
        bounded(index, capacity),
    ensures
        bounded(index.insert(block, index[block].remove_value(id)), capacity),
        index[block].remove_value(id).len() <= index[block].len(),
        index[block].contains(id) ==> index[block].remove_value(id).len() + 1
            == index[block].len(),
{
    index[block].index_of_first_ensures(id);
    let after = index.insert(block, index[block].remove_value(id));
    assert(index.contains_key(block));
    assert forall|b: BlockNumber| #[trigger] after.contains_key(b) && after[b].len()
        <= capacity by {
        assert(index.contains_key(b));
    }
}

/// Emptying a bucket keeps the index bounded.
pub proof fn lemma_bounded_drain(
    index: Map<BlockNumber, Seq<u128>>,
    capacity: nat,
    block: BlockNumber,
)
    requires
        bounded(index, capacity),
    ensures
        bounded(index.insert(block, Seq::<u128>::empty()), capacity),
{
    let after = index.insert(block, Seq::<u128>::empty());
    assert forall|b: BlockNumber| #[trigger] after.contains_key(b) && after[b].len()
        <= capacity by {
        assert(index.contains_key(b));
    }
}

/// An entry is in a bucket after a push if it was in it before or was pushed.
pub proof fn lemma_push_contains(bucket: Seq<u128>, pushed: u128, id: u128)
    ensures
        bucket.push(pushed).contains(id) <==> bucket.contains(id) || pushed == id,
{
    let after = bucket.push(pushed);
    if bucket.contains(id) {
        let i = choose|i: int| 0 <= i < bucket.len() && bucket[i] == id;
        assert(after[i] == id);
    }
    if pushed == id {
        assert(after[bucket.len() as int] == id);
    }
    if after.contains(id) {
        let i = choose|i: int| 0 <= i < after.len() && after[i] == id;
        if i < bucket.len() {
            assert(bucket[i] == id);
        }
    }
}

/// Taking one entry out of a bucket leaves every other entry in it.
pub proof fn lemma_remove_value_contains(bucket: Seq<u128>, removed: u128, id: u128)
    requires
        removed != id,
    ensures
        bucket.remove_value(removed).contains(id) <==> bucket.contains(id),
{
    bucket.index_of_first_ensures(removed);
    let after = bucket.remove_value(removed);
    match bucket.index_of_first(removed) {
        Some(at) => {
            if bucket.contains(id) {
                let i = choose|i: int| 0 <= i < bucket.len() && bucket[i] == id;
                if i < at {
                    assert(after[i] == id);
                } else {
                    assert(after[i - 1] == id);
                }
            }
            if after.contains(id) {
                let i = choose|i: int| 0 <= i < after.len() && after[i] == id;
                if i < at {
                    assert(bucket[i] == id);
                } else {
                    assert(bucket[i + 1] == id);
                }
            }
        },
        None => {},
    }
}

/// For each block, the entries that fall due at it, oldest first.
pub struct ExpiryIndex {
    buckets: BTreeMap<BlockNumber, BoundedVec<u128, ConstU32<1000>>>,
    capacity: usize,
}

impl View for ExpiryIndex {
    type V = Map<BlockNumber, Seq<u128>>;

    /// The entries due at each block; a block without entries maps to the
    /// empty sequence.
    open spec fn view(&self) -> Map<BlockNumber, Seq<u128>> {
        Map::total(|block: BlockNumber| self.due_at(block))
    }
}

impl ExpiryIndex {
    /// The number of entries that one block can hold.
    pub closed spec fn capacity(&self) -> nat {
        self.capacity as nat
    }

    /// The entries due at `block`, oldest first.
    pub closed spec fn due_at(&self, block: BlockNumber) -> Seq<u128> {
        if self.buckets@.contains_key(block) {
            bucket_items(self.buckets@[block])
        } else {
            Seq::empty()
        }
    }

    /// No block holds more than the capacity, and the capacity is within the
    /// ceiling of a bucket.
    pub closed spec fn wf(&self) -> bool {
        &&& self.capacity <= BUCKET_CEILING
        &&& forall|block: BlockNumber| #[trigger]
            self.buckets@.contains_key(block) ==> bucket_items(self.buckets@[block]).len()
                <= self.capacity
    }

    /// Every block of a well-formed index is within the capacity.
    pub proof fn lemma_within_capacity(&self, block: BlockNumber)
        requires
            self.wf(),
        ensures
            self@[block].len() <= self.capacity(),
            self.capacity() <= BUCKET_CEILING,
    {
    }

    /// A well-formed index is bounded by its capacity.
    pub proof fn lemma_bounded(&self)
        requires
            self.wf(),
        ensures
            bounded(self@, self.capacity()),
    {
        assert forall|block: BlockNumber| #[trigger] self@.contains_key(block) && self@[block].len()
            <= self.capacity() by {
            self.lemma_within_capacity(block);
        }
    }

    /// An empty index whose buckets hold up to `capacity` entries, and never
    /// more than the ceiling.
    pub fn new(capacity: u32) -> (index: ExpiryIndex)
        ensures
            index.wf(),
            index.capacity() == (if capacity <= BUCKET_CEILING {
                capacity as nat
            } else {
                BUCKET_CEILING as nat
            }),
            index@ == Map::<BlockNumber, Seq<u128>>::total(
                |block: BlockNumber| Seq::<u128>::empty(),
            ),
    {
        let capacity: usize = if capacity as usize <= BUCKET_CEILING {
            capacity as usize
        } else {
            BUCKET_CEILING
        };
        let index = ExpiryIndex { buckets: BTreeMap::new(), capacity };
        assert(index@ =~= Map::<BlockNumber, Seq<u128>>::total(
            |block: BlockNumber| Seq::<u128>::empty(),
        ));
        index
    }

    /// The number of entries due at `block`.
    pub fn len_at(&self, block: BlockNumber) -> (n: usize)
        requires
            self.wf(),
        ensures
            n == self@[block].len(),
    {
        match self.buckets.get(&block) {
            Some(bucket) => bucket_len(bucket),
            None => 0,
        }
    }

    /// Whether one more entry fits at `block`.
    pub fn has_room(&self, block: BlockNumber) -> (room: bool)
        requires
            self.wf(),
        ensures
            room == (self@[block].len() < self.capacity()),
    {
        self.len_at(block) < self.capacity
    }

    /// Whether `id` is among the entries due at `block`.
    pub fn contains(&self, id: u128, block: BlockNumber) -> (found: bool)
        requires
            self.wf(),
        ensures
            found == self@[block].contains(id),
    {
        match self.buckets.get(&block) {
            Some(bucket) => {
                let n = bucket_len(bucket);
                let mut i: usize = 0;
                while i < n
                    invariant
                        n == bucket_items(*bucket).len(),
                        bucket_items(*bucket) == self@[block],
                        i <= n,
                        forall|j: int| 0 <= j < i ==> bucket_items(*bucket)[j] != id,
                    decreases n - i,
                {
                    if bucket_get(bucket, i) == id {
                        assert(self@[block][i as int] == id);
                        return true;
                    }
                    i += 1;
                }
                false
            },
            None => false,
        }
    }

    /// Makes `id` fall due at `expires_at`. Fails, and changes nothing, when
    /// that block is at capacity.
    pub fn insert(&mut self, id: u128, expires_at: BlockNumber) -> (r: Result<(), BucketFull>)
        requires
            old(self).wf(),
        ensures
            final(self).wf(),
            final(self).capacity() == old(self).capacity(),
            r.is_ok() <==> old(self)@[expires_at].len() < old(self).capacity(),
            r.is_ok() ==> final(self)@ == old(self)@.insert(
                expires_at,
                old(self)@[expires_at].push(id),
            ),
            r.is_err() ==> final(self)@ == old(self)@,
    {
        if !self.has_room(expires_at) {
            return Err(BucketFull);
        }
        let mut bucket = match self.buckets.remove(&expires_at) {
            Some(bucket) => bucket,
            None => bucket_new(),
        };
        let pushed = bucket_try_push(&mut bucket, id);
        assert(pushed);
        self.buckets.insert(expires_at, bucket);
        assert(self@ =~= old(self)@.insert(expires_at, old(self)@[expires_at].push(id)));
        Ok(())
    }

    /// Takes the oldest entry equal to `id` out of the bucket of `expires_at`,
    /// if there is one, and says whether there was.
    pub fn remove(&mut self, id: u128, expires_at: BlockNumber) -> (found: bool)
        requires
            old(self).wf(),
        ensures
            final(self).wf(),
            final(self).capacity() == old(self).capacity(),
            found == old(self)@[expires_at].contains(id),
            final(self)@ == old(self)@.insert(expires_at, old(self)@[expires_at].remove_value(id)),
    {
        let ghost before = self.due_at(expires_at);
        proof {
            before.index_of_first_ensures(id);
        }
        let mut bucket = match self.buckets.remove(&expires_at) {
            Some(bucket) => bucket,
            None => {
                assert(self@ =~= old(self)@.insert(expires_at, before.remove_value(id)));
                return false;
            },
        };
        let n = bucket_len(&bucket);
        let mut i: usize = 0;
        let mut found = false;
        while i < n
            invariant_except_break
                bucket_items(bucket) == before,
                !found,
            invariant
                n == before.len(),
                i <= n,
                forall|j: int| 0 <= j < i ==> before[j] != id,
            ensures
                found ==> i < n && before[i as int] == id && bucket_items(bucket) == before.remove(
                    i as int,
                ),
                !found ==> i == n && bucket_items(bucket) == before,
            decreases n - i,
        {
            if bucket_get(&bucket, i) == id {
                bucket_remove(&mut bucket, i);
                found = true;
                break ;
            }
            i += 1;
        }
        proof {
            if found {
                assert(before.index_of_first(id) == Some(i as int));
            } else {
                assert(!before.contains(id));
            }
        }
        self.buckets.insert(expires_at, bucket);
        assert(self@ =~= old(self)@.insert(expires_at, before.remove_value(id)));
        found
    }

    /// Takes every entry due at `block` out of the index, oldest first.
    pub fn take(&mut self, block: BlockNumber) -> (ids: Vec<u128>)
        requires
            old(self).wf(),
        ensures
            final(self).wf(),
            final(self).capacity() == old(self).capacity(),
            ids@ == old(self)@[block],
            final(self)@ == old(self)@.insert(block, Seq::<u128>::empty()),
    {
        let ids = match self.buckets.remove(&block) {
            Some(bucket) => bucket_into_inner(bucket),
            None => Vec::new(),
        };
        assert(self@ =~= old(self)@.insert(block, Seq::<u128>::empty()));
        ids
    }
}

} // verus!
