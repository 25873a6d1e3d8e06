//! A store that keeps its entries in memory.

use super::error::StorageError;
use super::SecureStorage;
use vstd::prelude::*;
use vstd::slice::*;
use vstd::string::*;

verus! {

/// A store that keeps its entries in memory, for as long as the value lives.
/// It never fails but to report that an id is absent.
pub struct MemoryStorage {
    slots: Vec<(String, Vec<u8>)>,
}

/// Slot `at` holds the entry for `id`.
spec fn holds(slots: Seq<(String, Vec<u8>)>, id: Seq<char>, at: int) -> bool {
    0 <= at < slots.len() && slots[at].0@ == id
}

/// No id occurs in two slots.
spec fn distinct(slots: Seq<(String, Vec<u8>)>) -> bool {
    forall|i: int, j: int| 0 <= i < j < slots.len() ==> slots[i].0@ != slots[j].0@
}

/// The entries that the slots stand for.
spec fn entries_of(slots: Seq<(String, Vec<u8>)>) -> Map<Seq<char>, Seq<u8>> {
    Map::new(
        |id: Seq<char>| exists|at: int| holds(slots, id, at),
        |id: Seq<char>| slots[choose|at: int| holds(slots, id, at)].1@,
    )
}

/// Where no id occurs twice, the slot that holds an id gives its entry.
proof fn lemma_entry_at(slots: Seq<(String, Vec<u8>)>, id: Seq<char>, at: int)
    requires
        distinct(slots),
        holds(slots, id, at),
    ensures
        entries_of(slots).contains_key(id),
        entries_of(slots)[id] == slots[at].1@,
{
    let chosen = choose|at: int| holds(slots, id, at);
    assert(holds(slots, id, chosen));
    assert(chosen == at);
}

/// The slot that holds `id`, if one does.
fn find(slots: &Vec<(String, Vec<u8>)>, id: &String) -> (found: Option<usize>)
    ensures
        match found {
            Some(at) => holds(slots@, id@, at as int),
            None => forall|at: int| !holds(slots@, id@, at),
        },
{
    let mut at: usize = 0;
    while at < slots.len()
        invariant
            at <= slots@.len(),
            forall|before: int| 0 <= before < at ==> !holds(slots@, id@, before),
        decreases slots@.len() - at,
    {
        if slots[at].0 == *id {
            return Some(at);
        }
        at += 1;
    }
    None
}

/// Puts `bytes` under `id`: in the slot that holds `id`, or in a new one.
fn put(slots: &mut Vec<(String, Vec<u8>)>, id: String, bytes: Vec<u8>)
    requires
        distinct(old(slots)@),
    ensures
        distinct(final(slots)@),
        entries_of(final(slots)@) == entries_of(old(slots)@).insert(id@, bytes@),
{
    let ghost before = slots@;
    let ghost key = id@;
    let ghost value = bytes@;
    match find(slots, &id) {
        Some(at) => {
            slots.set(at, (id, bytes));
            assert forall|i: int, j: int| 0 <= i < j < slots@.len() implies slots@[i].0@
                != slots@[j].0@ by {
                assert(before[i].0@ != before[j].0@);
            }
            proof {
                lemma_entry_at(slots@, key, at as int);
            }
        },
        None => {
            slots.push((id, bytes));
            assert forall|i: int, j: int| 0 <= i < j < slots@.len() implies slots@[i].0@
                != slots@[j].0@ by {
                if j < before.len() {
                    assert(before[i].0@ != before[j].0@);
                } else {
                    assert(!holds(before, key, i));
                }
            }
            proof {
                lemma_entry_at(slots@, key, before.len() as int);
            }
        },
    }
    proof {
        let after = slots@;
        let want = entries_of(before).insert(key, value);
        assert forall|k: Seq<char>| #[trigger]
            entries_of(after).contains_key(k) == want.contains_key(k) && (want.contains_key(k)
                ==> entries_of(after)[k] == want[k]) by {
            if k != key && entries_of(before).contains_key(k) {
                let at = choose|at: int| holds(before, k, at);
                assert(holds(after, k, at));
                lemma_entry_at(before, k, at);
                lemma_entry_at(after, k, at);
            }
            if k != key && entries_of(after).contains_key(k) {
                let at = choose|at: int| holds(after, k, at);
                assert(holds(before, k, at));
            }
        }
        assert(entries_of(after) =~= want);
    }
}

/// Takes out the slot at `at`.
fn take(slots: &mut Vec<(String, Vec<u8>)>, at: usize)
    requires
        distinct(old(slots)@),
        0 <= at < old(slots)@.len(),
    ensures
        distinct(final(slots)@),
        entries_of(final(slots)@) == entries_of(old(slots)@).remove(old(slots)@[at as int].0@),
{
    let ghost before = slots@;
    let ghost key = before[at as int].0@;
    let _ = slots.remove(at);
    proof {
        let after = slots@;
        assert forall|i: int, j: int| 0 <= i < j < after.len() implies after[i].0@
            != after[j].0@ by {
            let from_i = if i < at { i } else { i + 1 };
            let from_j = if j < at { j } else { j + 1 };
            assert(before[from_i].0@ != before[from_j].0@);
        }
        assert forall|now: int| !holds(after, key, now) by {
            if holds(after, key, now) {
                let from = if now < at { now } else { now + 1 };
                assert(before[from].0@ != before[at as int].0@);
            }
        }
        assert(holds(before, key, at as int));
        let want = entries_of(before).remove(key);
        assert forall|k: Seq<char>| #[trigger]
            entries_of(after).contains_key(k) == want.contains_key(k) && (want.contains_key(k)
                ==> entries_of(after)[k] == want[k]) by {
            if k != key && entries_of(before).contains_key(k) {
                let from = choose|at: int| holds(before, k, at);
                let to = if from < at { from } else { from - 1 };
                assert(holds(after, k, to));
                lemma_entry_at(before, k, from);
                lemma_entry_at(after, k, to);
            }
            if k != key && entries_of(after).contains_key(k) {
                let now = choose|at: int| holds(after, k, at);
                let from = if now < at { now } else { now + 1 };
                assert(holds(before, k, from));
            }
        }
        assert(entries_of(after) =~= want);
    }
}

impl MemoryStorage {
    #[verifier::type_invariant]
    spec fn wf(self) -> bool {
        distinct(self.slots@)
    }

    /// An empty store.
    pub fn new() -> (store: Self)
        ensures
            store.entries() == Some(Map::<Seq<char>, Seq<u8>>::empty()),
    {
        let store = MemoryStorage { slots: Vec::new() };
        assert(entries_of(store.slots@) =~= Map::<Seq<char>, Seq<u8>>::empty());
        store
    }
}

impl SecureStorage for MemoryStorage {
    closed spec fn entries(&self) -> Option<Map<Seq<char>, Seq<u8>>> {
        Some(entries_of(self.slots@))
    }

    open spec fn reliable(&self) -> bool {
        true
    }

    fn save(&mut self, id: &str, bytes: &[u8]) -> (res: Result<(), StorageError>)
        ensures
            res is Ok,
    {
        proof {
            use_type_invariant(&*self);
        }
        let mut slots: Vec<(String, Vec<u8>)> = Vec::new();
        std::mem::swap(&mut self.slots, &mut slots);
        put(&mut slots, String::from_str(id), slice_to_vec(bytes));
        self.slots = slots;
        Ok(())
    }

    fn load(&self, id: &str) -> (res: Result<Vec<u8>, StorageError>)
        ensures
            res is Ok <==> self.entries()->0.contains_key(id@),
            res matches Err(failure) ==> failure is NotFound,
    {
        proof {
            use_type_invariant(self);
        }
        let key = String::from_str(id);
        match find(&self.slots, &key) {
            Some(at) => {
                let bytes = self.slots[at].1.clone();
                proof {
                    lemma_entry_at(self.slots@, id@, at as int);
                    assert(bytes@ =~= self.slots@[at as int].1@);
                }
                Ok(bytes)
            },
            None => Err(StorageError::NotFound),
        }
    }

    fn delete(&mut self, id: &str) -> (res: Result<(), StorageError>)
        ensures
            res is Ok <==> old(self).entries()->0.contains_key(id@),
            res matches Err(failure) ==> failure is NotFound,
    {
        proof {
            use_type_invariant(&*self);
        }
        let key = String::from_str(id);
        match find(&self.slots, &key) {
            Some(at) => {
                let mut slots: Vec<(String, Vec<u8>)> = Vec::new();
                std::mem::swap(&mut self.slots, &mut slots);
                take(&mut slots, at);
                self.slots = slots;
                Ok(())
            },
            None => Err(StorageError::NotFound),
        }
    }
}

} // verus!
