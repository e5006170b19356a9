//! What the object store hands back for a hash, and a local snapshot of it.
//!
//! Entries are immutable and addressed by content, so a snapshot only ever
//! grows: storing under a hash that is already present changes nothing.

use crate::entries::EntryTypes;
use crate::hash::same_bytes;
use vstd::prelude::*;

verus! {

/// The metadata of one action: its own hash, its author and the author's
/// clock reading in microseconds. Clocks of different authors are not
/// synchronised.
#[derive(Debug, PartialEq, Eq)]
pub struct ActionInfo {
    pub action_hash: Vec<u8>,
    pub author: Vec<u8>,
    pub timestamp: i64,
}

/// What the store holds under an action hash: the record of that action.
/// `entry` is the record's content as one of the application's entry
/// types, or `None` where the content is withheld or decodes as none of them.
#[derive(Debug, PartialEq, Eq)]
pub struct RecordDetails {
    pub entry: Option<EntryTypes>,
}

/// What the store holds under an entry hash: the entry, decoded as for
/// `RecordDetails`, its hash, and the actions that created it.
#[derive(Debug, PartialEq, Eq)]
pub struct EntryDetails {
    pub entry: Option<EntryTypes>,
    pub entry_hash: Vec<u8>,
    pub actions: Vec<ActionInfo>,
}

/// The answer of the store to a lookup that found something.
#[derive(Debug, PartialEq, Eq)]
pub enum Details {
    Record(RecordDetails),
    Entry(EntryDetails),
}

/// One item of a snapshot: a hash and what the store holds under it.
#[derive(Debug, PartialEq, Eq)]
pub struct StoredRecord {
    pub hash: Vec<u8>,
    pub details: Details,
}

/// A snapshot of the object store: what the local replica could fetch.
/// Its view is the map from hash to details.
pub struct ObjectStore {
    records: Vec<StoredRecord>,
}

/// No hash occurs twice.
pub open spec fn distinct_hashes(records: Seq<StoredRecord>) -> bool {
    forall|i: int, j: int|
        0 <= i < records.len() && 0 <= j < records.len() && records[i].hash@ == records[j].hash@
            ==> i == j
}

/// Whether some item is stored under `hash`.
pub open spec fn holds(records: Seq<StoredRecord>, hash: Seq<u8>) -> bool {
    exists|i: int| 0 <= i < records.len() && #[trigger] records[i].hash@ == hash
}

/// The position of an item stored under `hash`.
pub open spec fn position(records: Seq<StoredRecord>, hash: Seq<u8>) -> int {
    choose|i: int| 0 <= i < records.len() && #[trigger] records[i].hash@ == hash
}

impl ObjectStore {
    #[verifier::type_invariant]
    spec fn well_formed(&self) -> bool {
        distinct_hashes(self.records@)
    }

    pub closed spec fn view(&self) -> Map<Seq<u8>, Details> {
        Map::new(
            |hash: Seq<u8>| holds(self.records@, hash),
            |hash: Seq<u8>| self.records@[position(self.records@, hash)].details,
        )
    }

    /// The empty snapshot.
    pub fn new() -> (store: Self)
        ensures
            store@ == Map::<Seq<u8>, Details>::empty(),
    {
        let store = ObjectStore { records: Vec::new() };
        assert(store@ =~= Map::<Seq<u8>, Details>::empty());
        store
    }

    /// Number of items held.
    pub fn len(&self) -> (n: usize)
        ensures
            n == self@.dom().len(),
            self@.dom().finite(),
    {
        proof {
            use_type_invariant(self);
            lemma_domain_size(self.records@);
            assert(self@.dom() =~= hashes_of(self.records@));
        }
        self.records.len()
    }

    /// What is held under `hash`, if anything.
    pub fn get(&self, hash: &Vec<u8>) -> (found: Option<&Details>)
        ensures
            self@.contains_key(hash@) ==> found == Some(&self@[hash@]),
            !self@.contains_key(hash@) ==> found is None,
    {
        proof {
            use_type_invariant(self);
        }
        let mut i: usize = 0;
        while i < self.records.len()
            invariant
                i <= self.records.len(),
                distinct_hashes(self.records@),
                forall|k: int| 0 <= k < i ==> self.records@[k].hash@ != hash@,
            decreases self.records.len() - i,
        {
            if same_bytes(&self.records[i].hash, hash) {
                proof {
                    assert(self.records@[i as int].hash@ == hash@);
                    assert(holds(self.records@, hash@));
                    assert(position(self.records@, hash@) == i);
                }
                return Some(&self.records[i].details);
            }
            i = i + 1;
        }
        None
    }

    /// Stores `details` under `hash` unless the hash is already present.
    /// What was held before stays as it was.
    pub fn put(&mut self, hash: Vec<u8>, details: Details)
        ensures
            old(self)@.contains_key(hash@) ==> final(self)@ == old(self)@,
            !old(self)@.contains_key(hash@) ==> final(self)@ == old(self)@.insert(hash@, details),
    {
        proof {
            use_type_invariant(&*self);
        }
        let present = self.get(&hash).is_some();
        if !present {
            let ghost before = self.records@;
            let ghost key = hash@;
            let mut taken = ObjectStore { records: Vec::new() };
            core::mem::swap(self, &mut taken);
            let mut records = taken.records;
            records.push(StoredRecord { hash, details });
            *self = ObjectStore { records };
            proof {
                let after = self.records@;
                assert(forall|k: int| 0 <= k < before.len() ==> after[k] == before[k]);
                assert(after[before.len() as int].hash@ == key);
                assert(distinct_hashes(after));
                assert forall|h: Seq<u8>| holds(after, h) <==> (holds(before, h) || h == key) by {
                    if holds(before, h) {
                        let k = position(before, h);
                        assert(after[k].hash@ == h);
                    }
                }
                assert forall|h: Seq<u8>| holds(before, h) implies after[position(after, h)].details
                    == before[position(before, h)].details by {
                    let k = position(before, h);
                    assert(after[k].hash@ == h);
                }
                assert(self@ =~= old(self)@.insert(key, details));
            }
        }
    }
}

/// The hashes under which a sequence of items is stored.
pub open spec fn hashes_of(records: Seq<StoredRecord>) -> Set<Seq<u8>> {
    Set::new(|hash: Seq<u8>| holds(records, hash))
}

/// With no hash twice, there are as many hashes as items.
pub proof fn lemma_domain_size(records: Seq<StoredRecord>)
    requires
        distinct_hashes(records),
    ensures
        hashes_of(records).finite(),
        hashes_of(records).len() == records.len(),
    decreases records.len(),
{
    if records.len() == 0 {
        assert(hashes_of(records) =~= Set::<Seq<u8>>::empty());
    } else {
        let front = records.drop_last();
        let last = records.last();
        assert(forall|k: int| 0 <= k < front.len() ==> front[k] == records[k]);
        lemma_domain_size(front);
        assert(!holds(front, last.hash@));
        assert forall|h: Seq<u8>| holds(records, h) <==> (holds(front, h) || h == last.hash@) by {
            if holds(front, h) {
                let k = position(front, h);
                assert(records[k].hash@ == h);
            }
            if h == last.hash@ {
                assert(records[records.len() - 1].hash@ == h);
            }
        }
        assert(hashes_of(records) =~= hashes_of(front).insert(last.hash@));
    }
}

} // verus!
