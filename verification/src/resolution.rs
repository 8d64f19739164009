//! The resolutions chosen so far, keyed by file index and hunk index.

use vstd::prelude::*;
use crate::conflict::{MergeResolution, ResolutionView};

verus! {

/// One choice: the hunk it is for and the resolution chosen.
struct ResolutionEntry {
    file_index: usize,
    hunk_index: usize,
    resolution: MergeResolution,
}

impl ResolutionEntry {
    /// The pair of indices that the entry is for.
    spec fn key(self) -> (int, int) {
        (self.file_index as int, self.hunk_index as int)
    }
}

/// A map from `(file_index, hunk_index)` to the resolution chosen for that
/// hunk. The indices are those of the conflict that was current when the
/// choice was made, so the map is emptied whenever that conflict is replaced.
pub struct ResolutionMap {
    entries: Vec<ResolutionEntry>,
}

impl ResolutionMap {
    /// No key occurs twice among the entries.
    #[verifier::type_invariant]
    spec fn distinct_keys(self) -> bool {
        forall|i: int, j: int|
            0 <= i < j < self.entries.len() ==> (#[trigger] self.entries[i]).key() != (
            #[trigger] self.entries[j]).key()
    }

    /// The entry at index `i` is for `key`.
    spec fn holds_at(self, key: (int, int), i: int) -> bool {
        0 <= i < self.entries.len() && self.entries[i].key() == key
    }

    /// The map as a mathematical map from index pairs to resolutions.
    pub closed spec fn view(&self) -> Map<(int, int), ResolutionView> {
        Map::new(
            |key: (int, int)| exists|i: int| self.holds_at(key, i),
            |key: (int, int)| self.entries[choose|i: int| self.holds_at(key, i)].resolution@,
        )
    }

    /// An empty map.
    pub fn new() -> (map: Self)
        ensures
            map@ == Map::<(int, int), ResolutionView>::empty(),
    {
        let map = ResolutionMap { entries: Vec::new() };
        assert(map@ =~= Map::<(int, int), ResolutionView>::empty());
        map
    }

    /// Index of the entry for the given hunk, if there is one.
    fn position(&self, file_index: usize, hunk_index: usize) -> (found: Option<usize>)
        ensures
            match found {
                Some(i) => self.holds_at((file_index as int, hunk_index as int), i as int),
                None => forall|i: int| !self.holds_at((file_index as int, hunk_index as int), i),
            },
    {
        let mut i: usize = 0;
        while i < self.entries.len()
            invariant
                i <= self.entries.len(),
                forall|k: int| 0 <= k < i ==> !self.holds_at((file_index as int, hunk_index as int), k),
            decreases self.entries.len() - i,
        {
            if self.entries[i].file_index == file_index && self.entries[i].hunk_index == hunk_index {
                return Some(i);
            }
            i += 1;
        }
        None
    }

    /// Whether a resolution is recorded for the given hunk.
    pub fn contains_key(&self, file_index: usize, hunk_index: usize) -> (found: bool)
        ensures
            found == self@.contains_key((file_index as int, hunk_index as int)),
    {
        self.position(file_index, hunk_index).is_some()
    }

    /// The resolution recorded for the given hunk, if there is one.
    pub fn get(&self, file_index: usize, hunk_index: usize) -> (found: Option<&MergeResolution>)
        ensures
            match found {
                Some(resolution) => self@.contains_key((file_index as int, hunk_index as int))
                    && resolution@ == self@[(file_index as int, hunk_index as int)],
                None => !self@.contains_key((file_index as int, hunk_index as int)),
            },
    {
        proof {
            use_type_invariant(self);
        }
        match self.position(file_index, hunk_index) {
            Some(i) => {
                let ghost key = (file_index as int, hunk_index as int);
                let ghost chosen = choose|k: int| self.holds_at(key, k);
                assert(self.holds_at(key, chosen));
                assert(chosen == i);
                Some(&self.entries[i].resolution)
            },
            None => None,
        }
    }

    /// Records `resolution` for the given hunk, in place of any earlier
    /// choice for it. Every other entry stays as it is.
    pub fn insert(&mut self, file_index: usize, hunk_index: usize, resolution: MergeResolution)
        ensures
            final(self)@ == old(self)@.insert(
                (file_index as int, hunk_index as int),
                resolution@,
            ),
    {
        proof {
            use_type_invariant(&*self);
        }
        let ghost key = (file_index as int, hunk_index as int);
        let ghost before = *self;
        let entry = ResolutionEntry { file_index, hunk_index, resolution };
        let position = self.position(file_index, hunk_index);
        let mut taken = ResolutionMap { entries: Vec::new() };
        std::mem::swap(self, &mut taken);
        let mut entries = taken.entries;
        match position {
            Some(i) => {
                entries.set(i, entry);
            },
            None => {
                entries.push(entry);
            },
        }
        proof {
            assert forall|i: int, j: int| 0 <= i < j < entries.len() implies (
            #[trigger] entries[i]).key() != (#[trigger] entries[j]).key() by {
                if i < before.entries.len() {
                    assert(entries[i].key() == before.entries[i].key());
                }
                if j < before.entries.len() {
                    assert(entries[j].key() == before.entries[j].key());
                }
                if j >= before.entries.len() {
                    assert(!before.holds_at(key, i));
                }
            }
        }
        self.entries = entries;
        proof {
            use_type_invariant(&*self);
            let after = *self;
            let placed = match position {
                Some(i) => i as int,
                None => before.entries.len() as int,
            };
            assert(after.holds_at(key, placed));
            assert forall|other: (int, int)|
                after@.contains_key(other) == before@.insert(key, resolution@).contains_key(
                    other,
                ) by {
                if exists|i: int| after.holds_at(other, i) {
                    let i = choose|i: int| after.holds_at(other, i);
                    if other != key {
                        assert(before.holds_at(other, i));
                    }
                }
                if other != key && exists|i: int| before.holds_at(other, i) {
                    let i = choose|i: int| before.holds_at(other, i);
                    assert(after.holds_at(other, i));
                }
                if other == key {
                    if before.entries.len() == after.entries.len() {
                        let i = choose|i: int| before.holds_at(key, i);
                        assert(after.holds_at(key, i));
                    } else {
                        assert(after.holds_at(key, before.entries.len() as int));
                    }
                }
            }
            assert forall|other: (int, int)| after@.contains_key(other) implies after@[other]
                == before@.insert(key, resolution@)[other] by {
                let i = choose|i: int| after.holds_at(other, i);
                assert(after.holds_at(other, i));
                if other != key {
                    assert(before.holds_at(other, i));
                    let j = choose|j: int| before.holds_at(other, j);
                    assert(before.holds_at(other, j));
                    assert(i == j);
                } else {
                    assert(i == placed);
                }
            }
            assert(after@ =~= before@.insert(key, resolution@));
        }
    }

    /// Forgets every choice.
    pub fn clear(&mut self)
        ensures
            final(self)@ == Map::<(int, int), ResolutionView>::empty(),
    {
        self.entries = Vec::new();
        assert(self@ =~= Map::<(int, int), ResolutionView>::empty());
    }
}

} // verus!
