//! The persistent storage of one contract: cells of bytes under 32-bit keys.

use vstd::prelude::*;
use crate::bytes::{copy_bytes, same_bytes};
use crate::lookup::{first_at, lemma_table_at, lemma_table_push, lemma_table_replace, table};

verus! {

/// The key of the cell in which a contract keeps its packed fields.
pub const ROOT_KEY: u32 = 0;

struct Cell {
    key: u32,
    value: Vec<u8>,
}

/// A contract's storage, seen as a finite map from keys to byte strings.
pub struct Storage {
    cells: Vec<Cell>,
}

impl View for Storage {
    type V = Map<u32, Seq<u8>>;

    closed spec fn view(&self) -> Map<u32, Seq<u8>> {
        table(self.keys(), self.values())
    }
}

impl Storage {
    spec fn keys(&self) -> Seq<u32> {
        Seq::new(self.cells@.len(), |i: int| self.cells@[i].key)
    }

    spec fn values(&self) -> Seq<Seq<u8>> {
        Seq::new(self.cells@.len(), |i: int| self.cells@[i].value@)
    }

    fn position(&self, key: u32) -> (found: Option<usize>)
        ensures
            match found {
                Some(i) => first_at(self.keys(), key, i as int),
                None => !self.keys().contains(key),
            },
    {
        let mut i: usize = 0;
        while i < self.cells.len()
            invariant
                i <= self.cells.len(),
                forall|j: int| 0 <= j < i ==> self.keys()[j] != key,
            decreases self.cells.len() - i,
        {
            if self.cells[i].key == key {
                return Some(i);
            }
            i += 1;
        }
        None
    }

    /// A storage without cells.
    pub fn new() -> (storage: Storage)
        ensures
            storage@ == Map::<u32, Seq<u8>>::empty(),
    {
        let storage = Storage { cells: Vec::new() };
        assert(storage@ =~= Map::<u32, Seq<u8>>::empty());
        storage
    }

    /// Whether a cell is kept under `key`.
    pub fn contains(&self, key: u32) -> (present: bool)
        ensures
            present == self@.contains_key(key),
    {
        self.position(key).is_some()
    }

    /// A copy of the cell under `key`, if there is one.
    pub fn get(&self, key: u32) -> (value: Option<Vec<u8>>)
        ensures
            match value {
                Some(bytes) => self@.contains_key(key) && bytes@ == self@[key],
                None => !self@.contains_key(key),
            },
    {
        match self.position(key) {
            Some(i) => {
                proof {
                    lemma_table_at(self.keys(), self.values(), key, i as int);
                }
                Some(copy_bytes(self.cells[i].value.as_slice()))
            },
            None => None,
        }
    }

    /// Puts `value` under `key`, in place of what was there.
    pub fn set(&mut self, key: u32, value: Vec<u8>)
        ensures
            final(self)@ == old(self)@.insert(key, value@),
    {
        match self.position(key) {
            Some(i) => {
                proof {
                    lemma_table_replace(self.keys(), self.values(), i as int, value@);
                }
                self.cells.set(i, Cell { key, value });
                assert(self.keys() =~= old(self).keys());
                assert(self.values() =~= old(self).values().update(i as int, value@));
            },
            None => {
                proof {
                    lemma_table_push(self.keys(), self.values(), key, value@);
                }
                self.cells.push(Cell { key, value });
                assert(self.keys() =~= old(self).keys().push(key));
                assert(self.values() =~= old(self).values().push(value@));
            },
        }
    }

    /// Writes every cell of `other` over this storage: where both hold a
    /// key, the value of `other` stays.
    pub fn overlay(&mut self, other: &Storage)
        ensures
            final(self)@ == old(self)@.union_prefer_right(other@),
    {
        let mut i: usize = 0;
        while i < other.cells.len()
            invariant
                i <= other.cells.len(),
                self@ == old(self)@.union_prefer_right(
                    other@.restrict(Set::new(|k: u32| other.keys().subrange(0, i as int).contains(k))),
                ),
            decreases other.cells.len() - i,
        {
            let key = other.cells[i].key;
            let ghost before = other.keys().subrange(0, i as int);
            let ghost after = other.keys().subrange(0, i + 1);
            assert(other.keys()[i as int] == key);
            assert(other.keys().contains(key));
            if let Some(value) = other.get(key) {
                self.set(key, value);
            }
            proof {
                assert(after[i as int] == key);
                assert forall|k: u32| after.contains(k) <==> (before.contains(k) || k == key) by {
                    if before.contains(k) {
                        let n = choose|n: int| 0 <= n < before.len() && before[n] == k;
                        assert(after[n] == k);
                    }
                    if after.contains(k) && k != key {
                        let n = choose|n: int| 0 <= n < after.len() && after[n] == k;
                        assert(before[n] == k);
                    }
                }
                assert(self@ =~= old(self)@.union_prefer_right(
                    other@.restrict(Set::new(|k: u32| after.contains(k))),
                ));
            }
            i += 1;
        }
        proof {
            assert(other.keys().subrange(0, i as int) =~= other.keys());
            assert(other@.restrict(Set::new(|k: u32| other.keys().contains(k))) =~= other@);
        }
    }

    /// Whether both storages hold the same cells.
    pub fn agrees_with(&self, other: &Storage) -> (same: bool)
        ensures
            same == (self@ == other@),
    {
        if !self.within(other) {
            return false;
        }
        if !other.within(self) {
            return false;
        }
        assert(self@ =~= other@);
        true
    }

    /// Whether every cell of this storage is a cell of `other`.
    fn within(&self, other: &Storage) -> (inside: bool)
        ensures
            inside == self@.submap_of(other@),
    {
        let mut i: usize = 0;
        while i < self.cells.len()
            invariant
                i <= self.cells.len(),
                forall|j: int|
                    0 <= j < i ==> other@.contains_key(#[trigger] self.keys()[j]) && other@[self.keys()[j]]
                        == self@[self.keys()[j]],
            decreases self.cells.len() - i,
        {
            let key = self.cells[i].key;
            assert(self.keys()[i as int] == key);
            assert(self.keys().contains(key));
            let mine = self.get(key);
            let theirs = other.get(key);
            match (mine, theirs) {
                (Some(left), Some(right)) => {
                    if !same_bytes(left.as_slice(), right.as_slice()) {
                        return false;
                    }
                },
                _ => {
                    return false;
                },
            }
            i += 1;
        }
        assert forall|k: u32| self@.contains_key(k) implies other@.contains_key(k) && self@[k]
            == other@[k] by {
            let n = choose|n: int| 0 <= n < self.keys().len() && self.keys()[n] == k;
            assert(other@.contains_key(self.keys()[n]));
        }
        true
    }
}

impl Clone for Storage {
    /// A storage with the same cells.
    fn clone(&self) -> (copy: Storage)
        ensures
            copy@ == self@,
    {
        let mut copy = Storage::new();
        copy.overlay(self);
        assert(copy@ =~= self@);
        copy
    }
}

} // verus!
