//! The entry index: every file of the image, found by its original offset.
//!
//! The index holds one update record per file. A record is stored under the
//! offset at which the source image holds the file, and that key never
//! changes: replacements change what the records say, never which records
//! there are.

use crate::error::{FstError, FstErrorView};
use crate::record::{Record, UpdateFST};
use std::collections::HashMap;
use vstd::prelude::*;
use vstd::std_specs::iter::IteratorSpec;

verus! {

broadcast use vstd::std_specs::hash::group_hash_axioms;

/// Whether every record of `m` is stored under its own original offset.
pub open spec fn keyed(m: Map<u32, Record>) -> bool {
    forall|k: u32| #[trigger] m.contains_key(k) ==> m[k].original_offset == k
}

/// The keys of `m` whose record is named `target`.
pub open spec fn matching(m: Map<u32, Record>, target: Seq<char>) -> Set<u32> {
    Set::new(|k: u32| m.contains_key(k) && m[k].name == target)
}

/// The record that a replacement of `target` is aimed at: the key of the one
/// record of that name, or the error that tells how many records there were
/// where one was required.
pub open spec fn resolve_spec(m: Map<u32, Record>, target: Seq<char>) -> Result<u32, FstErrorView> {
    let found = matching(m, target);
    if found.len() == 1 {
        Ok(found.choose())
    } else {
        Err(FstErrorView::AmbiguousOrMissingTarget { target, found: found.len() })
    }
}

/// A target that resolves names exactly one record, the one under the key
/// that it resolves to.
pub proof fn lemma_resolved_is_unique(m: Map<u32, Record>, target: Seq<char>, pivot: u32)
    requires
        m.dom().finite(),
        resolve_spec(m, target) == Ok::<u32, FstErrorView>(pivot),
    ensures
        m.contains_key(pivot),
        m[pivot].name == target,
        forall|k: u32| m.contains_key(k) && m[k].name == target ==> k == pivot,
{
    let found = matching(m, target);
    vstd::set_lib::lemma_set_subset_finite(m.dom(), found);
    Set::lemma_is_singleton(found);
    assert(found.contains(pivot));
    assert forall|k: u32| m.contains_key(k) && m[k].name == target implies k == pivot by {
        assert(found.contains(k));
    }
}

/// A set with one element is resolved to that element.
proof fn lemma_choose_of_singleton(found: Set<u32>, pivot: u32)
    requires
        found.finite(),
        found.len() == 1,
        found.contains(pivot),
    ensures
        found.choose() == pivot,
{
    Set::lemma_is_singleton(found);
    assert(found.contains(found.choose()));
}

/// The index of update records, keyed by original offset.
#[derive(Debug, PartialEq, Eq)]
pub struct FstIndex {
    records: HashMap<u32, UpdateFST>,
}

impl View for FstIndex {
    type V = Map<u32, Record>;

    closed spec fn view(&self) -> Map<u32, Record> {
        self.records@.map_values(|r: UpdateFST| r@)
    }
}

impl Clone for FstIndex {
    fn clone(&self) -> (copy: FstIndex)
        ensures
            copy@ == self@,
    {
        proof {
            use_type_invariant(self);
        }
        FstIndex { records: self.records.clone() }
    }
}

impl FstIndex {
    #[verifier::type_invariant]
    closed spec fn well_formed(self) -> bool {
        forall|k: u32| #[trigger]
            self.records@.contains_key(k) ==> self.records@[k].original_offset == k
    }

    /// An index without records.
    pub fn new() -> (index: FstIndex)
        ensures
            index@ == Map::<u32, Record>::empty(),
    {
        let index = FstIndex { records: HashMap::new() };
        assert(index@ =~= Map::<u32, Record>::empty());
        index
    }

    /// The index is finite and each record is stored under its own original
    /// offset.
    pub fn check_keys(&self)
        ensures
            keyed(self@),
            self@.dom().finite(),
    {
        proof {
            use_type_invariant(self);
            assert(self@.dom() =~= self.records@.dom());
        }
    }

    /// The number of records.
    pub fn len(&self) -> (n: usize)
        ensures
            n == self@.len(),
    {
        proof {
            assert(self@.dom() =~= self.records@.dom());
        }
        self.records.len()
    }

    /// Stores `record` under its original offset. A record that was stored
    /// under that offset before is replaced.
    pub fn insert(&mut self, record: UpdateFST)
        ensures
            final(self)@ == old(self)@.insert(record.original_offset, record@),
    {
        proof {
            use_type_invariant(&*self);
        }
        let mut records: HashMap<u32, UpdateFST> = HashMap::new();
        std::mem::swap(&mut self.records, &mut records);
        records.insert(record.original_offset, record);
        std::mem::swap(&mut self.records, &mut records);
        assert(self@ =~= old(self)@.insert(record.original_offset, record@));
    }

    /// The record stored under `offset`, if there is one.
    pub fn get(&self, offset: u32) -> (found: Option<&UpdateFST>)
        ensures
            match found {
                Some(record) => self@.contains_key(offset) && record@ == self@[offset]
                    && record.original_offset == offset,
                None => !self@.contains_key(offset),
            },
    {
        proof {
            use_type_invariant(self);
        }
        self.records.get(&offset)
    }

    /// Gives the record under `key` the updated offset `offset`.
    pub(crate) fn set_updated_offset(&mut self, key: u32, offset: u32)
        requires
            old(self)@.contains_key(key),
        ensures
            final(self)@ == old(self)@.insert(
                key,
                (Record { updated_offset: offset, ..old(self)@[key] }),
            ),
    {
        proof {
            use_type_invariant(&*self);
        }
        let mut records: HashMap<u32, UpdateFST> = HashMap::new();
        std::mem::swap(&mut self.records, &mut records);
        match records.remove(&key) {
            Some(record) => {
                let mut record = record;
                record.updated_offset = offset;
                records.insert(key, record);
            },
            None => {
                assert(false);
            },
        }
        std::mem::swap(&mut self.records, &mut records);
        assert(self@ =~= old(self)@.insert(
            key,
            (Record { updated_offset: offset, ..old(self)@[key] }),
        ));
    }

    /// Gives the record under `key` the payload `payload` and the updated
    /// size `size`.
    pub(crate) fn set_payload(&mut self, key: u32, size: u32, payload: Vec<u8>)
        requires
            old(self)@.contains_key(key),
        ensures
            final(self)@ == old(self)@.insert(
                key,
                (Record { updated_size: size, data: payload@, ..old(self)@[key] }),
            ),
    {
        proof {
            use_type_invariant(&*self);
        }
        let mut records: HashMap<u32, UpdateFST> = HashMap::new();
        std::mem::swap(&mut self.records, &mut records);
        match records.remove(&key) {
            Some(record) => {
                let mut record = record;
                record.updated_size = size;
                record.data = payload;
                records.insert(key, record);
            },
            None => {
                assert(false);
            },
        }
        std::mem::swap(&mut self.records, &mut records);
        assert(self@ =~= old(self)@.insert(
            key,
            (Record { updated_size: size, data: payload@, ..old(self)@[key] }),
        ));
    }

    /// The keys of the index, each once, in no particular order.
    pub(crate) fn keys(&self) -> (keys: Vec<u32>)
        ensures
            keys@.no_duplicates(),
            forall|k: u32| keys@.contains(k) <==> self@.contains_key(k),
    {
        let mut keys: Vec<u32> = Vec::new();
        for k in it: self.records.keys()
            invariant
                keys@.len() == it.index(),
                forall|i: int| 0 <= i < keys@.len() ==> keys@[i] == *it.seq()[i],
                it.seq() == vstd::std_specs::hash::spec_keys_iter(&self.records).remaining(),
        {
            keys.push(*k);
        }
        proof {
            let rem = vstd::std_specs::hash::spec_keys_iter(&self.records).remaining();
            assert(keys@ =~= rem.unref());
            assert forall|i: int, j: int|
                0 <= i < keys@.len() && 0 <= j < keys@.len() && i != j implies keys@[i]
                != keys@[j] by {
                assert(rem[i] != rem[j]);
            }
            assert forall|k: u32| keys@.contains(k) <==> self@.contains_key(k) by {
                assert(keys@.to_set().contains(k) <==> keys@.contains(k));
                assert(self@.contains_key(k) <==> self.records@.dom().contains(k));
            }
        }
        keys
    }

    /// Finds the one record named `target` and returns the key it is stored
    /// under.
    ///
    /// Fails with `AmbiguousOrMissingTarget` exactly when the number of
    /// records of that name is not one; the error carries that number.
    pub fn resolve(&self, target: &str) -> (result: Result<u32, FstError>)
        ensures
            match resolve_spec(self@, target@) {
                Ok(pivot) => result == Ok::<u32, FstError>(pivot),
                Err(error) => result matches Err(e) && e@ == error,
            },
    {
        let wanted: String = target.to_owned();
        let keys = self.keys();
        let mut found: usize = 0;
        let mut pivot: u32 = 0;
        let ghost mut seen: Set<u32> = Set::empty();
        let mut i: usize = 0;
        while i < keys.len()
            invariant
                i <= keys.len(),
                wanted@ == target@,
                keys@.no_duplicates(),
                forall|k: u32| keys@.contains(k) <==> self@.contains_key(k),
                seen.finite(),
                found == seen.len(),
                found <= i,
                found > 0 ==> seen.contains(pivot),
                forall|k: u32|
                    seen.contains(k) <==> matching(self@, target@).contains(k) && exists|j: int|
                        0 <= j < i && keys@[j] == k,
            decreases keys.len() - i,
        {
            let key = keys[i];
            assert(keys@.contains(key));
            let ghost before = seen;
            match self.records.get(&key) {
                Some(record) => {
                    if record.name == wanted {
                        proof {
                            assert(!seen.contains(key)) by {
                                if seen.contains(key) {
                                    let j = choose|j: int| 0 <= j < i && keys@[j] == key;
                                    assert(keys@[j] == keys@[i as int]);
                                }
                            }
                            seen = seen.insert(key);
                        }
                        found = found + 1;
                        pivot = key;
                    }
                },
                None => {
                    assert(false);
                },
            }
            proof {
                assert forall|k: u32|
                    seen.contains(k) <==> matching(self@, target@).contains(k) && exists|j: int|
                        0 <= j < i + 1 && keys@[j] == k by {
                    if seen.contains(k) {
                        if before.contains(k) {
                            let j = choose|j: int| 0 <= j < i && keys@[j] == k;
                            assert(0 <= j < i + 1 && keys@[j] == k);
                        } else {
                            assert(k == key);
                            assert(0 <= i < i + 1 && keys@[i as int] == k);
                        }
                    }
                    if matching(self@, target@).contains(k) && exists|j: int|
                        0 <= j < i + 1 && keys@[j] == k {
                        let j = choose|j: int| 0 <= j < i + 1 && keys@[j] == k;
                        if j < i {
                            assert(before.contains(k));
                        } else {
                            assert(k == key);
                        }
                    }
                }
            }
            i = i + 1;
        }
        proof {
            assert(seen =~= matching(self@, target@)) by {
                assert forall|k: u32| matching(self@, target@).contains(k) implies seen.contains(
                    k,
                ) by {
                    assert(keys@.contains(k));
                    let j = choose|j: int| 0 <= j < keys@.len() && keys@[j] == k;
                    assert(0 <= j < i && keys@[j] == k);
                }
            }
            if found == 1 {
                lemma_choose_of_singleton(seen, pivot);
            }
        }
        if found == 1 {
            Ok(pivot)
        } else {
            Err(FstError::AmbiguousOrMissingTarget { target: wanted, found })
        }
    }
}

} // verus!
