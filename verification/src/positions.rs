//! The position tracker: for each file, the byte offset up to which it has
//! been read.

use vstd::prelude::*;
use crate::error::IoError;

verus! {

/// One tracked file and the offset up to which it has been read.
pub struct PositionEntry {
    pub path: String,
    pub offset: u64,
}

/// A mapping from file path to the last byte offset read. A path occurs at
/// most once.
pub struct PositionMap {
    entries: Vec<PositionEntry>,
}

/// The paths of `entries` are pairwise different.
pub open spec fn distinct_paths(entries: Seq<PositionEntry>) -> bool {
    forall|i: int, j: int|
        0 <= i < j < entries.len() ==> entries[i].path@ != entries[j].path@
}

/// The mapping that a list of entries stands for.
pub open spec fn entries_map(entries: Seq<PositionEntry>) -> Map<Seq<char>, u64>
    decreases entries.len(),
{
    if entries.len() == 0 {
        Map::empty()
    } else {
        entries_map(entries.drop_last()).insert(entries.last().path@, entries.last().offset)
    }
}

/// The offset that a mapping holds for `path`: 0 for a path it does not hold.
pub open spec fn offset_in(map: Map<Seq<char>, u64>, path: Seq<char>) -> u64 {
    if map.dom().contains(path) {
        map[path]
    } else {
        0
    }
}

proof fn lemma_entries_map_lookup(entries: Seq<PositionEntry>, path: Seq<char>)
    ensures
        entries_map(entries).dom().contains(path) <==> exists|i: int|
            0 <= i < entries.len() && entries[i].path@ == path,
        forall|i: int|
            0 <= i < entries.len() && entries[i].path@ == path && distinct_paths(entries)
                ==> entries_map(entries)[path] == entries[i].offset,
    decreases entries.len(),
{
    if entries.len() > 0 {
        let front = entries.drop_last();
        lemma_entries_map_lookup(front, path);
        if entries_map(entries).dom().contains(path) {
            if entries.last().path@ == path {
                assert(entries[entries.len() - 1].path@ == path);
            } else {
                let i = choose|i: int| 0 <= i < front.len() && front[i].path@ == path;
                assert(entries[i].path@ == path);
            }
        }
        if exists|i: int| 0 <= i < entries.len() && entries[i].path@ == path {
            let i = choose|i: int| 0 <= i < entries.len() && entries[i].path@ == path;
            if i < entries.len() - 1 {
                assert(front[i].path@ == path);
            }
        }
        assert forall|i: int|
            0 <= i < entries.len() && entries[i].path@ == path && distinct_paths(
                entries,
            ) implies entries_map(entries)[path] == entries[i].offset by {
            if i < entries.len() - 1 {
                assert(front[i].path@ == path);
                assert(distinct_paths(front));
                assert(entries.last().path@ != path);
            }
        }
    }
}

proof fn lemma_entries_map_update(entries: Seq<PositionEntry>, i: int, offset: u64)
    requires
        0 <= i < entries.len(),
        distinct_paths(entries),
    ensures
        distinct_paths(entries.update(i, PositionEntry { path: entries[i].path, offset })),
        entries_map(entries.update(i, PositionEntry { path: entries[i].path, offset }))
            == entries_map(entries).insert(entries[i].path@, offset),
    decreases entries.len(),
{
    let entry = PositionEntry { path: entries[i].path, offset };
    let updated = entries.update(i, entry);
    assert(distinct_paths(updated)) by {
        assert forall|a: int, b: int| 0 <= a < b < updated.len() implies updated[a].path@
            != updated[b].path@ by {
            assert(entries[a].path@ != entries[b].path@);
        }
    }
    if i == entries.len() - 1 {
        assert(updated.drop_last() == entries.drop_last());
        assert(entries_map(updated) == entries_map(entries).insert(entries[i].path@, offset));
    } else {
        let front = entries.drop_last();
        assert(distinct_paths(front));
        lemma_entries_map_update(front, i, offset);
        assert(updated.drop_last() == front.update(i, entry));
        assert(updated.last() == entries.last());
        assert(entries.last().path@ != entries[i].path@);
        assert(entries_map(updated) == entries_map(entries).insert(entries[i].path@, offset));
    }
}

impl View for PositionMap {
    type V = Map<Seq<char>, u64>;

    closed spec fn view(&self) -> Map<Seq<char>, u64> {
        entries_map(self.entries@)
    }
}

impl PositionMap {
    /// No path is tracked twice. Every tracker that this module hands out
    /// is well formed.
    pub closed spec fn wf(&self) -> bool {
        distinct_paths(self.entries@)
    }

    /// The offset held for `path`: 0 for a path that was never read.
    pub open spec fn offset_of(&self, path: Seq<char>) -> u64 {
        offset_in(self@, path)
    }

    /// A tracker that holds no file.
    pub fn new() -> (positions: PositionMap)
        ensures
            positions.wf(),
            positions@ == Map::<Seq<char>, u64>::empty(),
    {
        PositionMap { entries: Vec::new() }
    }

    /// The number of files tracked.
    pub fn len(&self) -> (n: usize)
        requires
            self.wf(),
        ensures
            n == self@.dom().len(),
            self@.dom().finite(),
    {
        proof {
            lemma_entries_map_len(self.entries@);
        }
        self.entries.len()
    }

    /// The index of the entry for `path`, if there is one.
    fn find(&self, path: &String) -> (found: Option<usize>)
        ensures
            match found {
                Some(i) => i < self.entries.len() && self.entries[i as int].path@ == path@,
                None => forall|i: int| 0 <= i < self.entries.len() ==> self.entries[i].path@ != path@,
            },
    {
        let mut i: usize = 0;
        while i < self.entries.len()
            invariant
                i <= self.entries.len(),
                forall|k: int| 0 <= k < i ==> self.entries[k].path@ != path@,
            decreases self.entries.len() - i,
        {
            if self.entries[i].path == *path {
                return Some(i);
            }
            i += 1;
        }
        None
    }

    /// The offset tracked for `path`, without creating an entry.
    pub fn get(&self, path: &String) -> (position: u64)
        requires
            self.wf(),
        ensures
            position == self.offset_of(path@),
    {
        proof {
            lemma_entries_map_lookup(self.entries@, path@);
        }
        match self.find(path) {
            Some(i) => self.entries[i].offset,
            None => 0,
        }
    }

    /// Sets the offset tracked for `path`, creating the entry if needed.
    pub(crate) fn set(&mut self, path: &String, position: u64)
        requires
            old(self).wf(),
        ensures
            final(self).wf(),
            final(self)@ == old(self)@.insert(path@, position),
    {
        proof {
            lemma_entries_map_lookup(self.entries@, path@);
        }
        match self.find(path) {
            Some(i) => {
                proof {
                    lemma_entries_map_update(self.entries@, i as int, position);
                }
                let ghost before = self.entries@;
                self.entries[i].offset = position;
                assert(self.entries@ == before.update(
                    i as int,
                    PositionEntry { path: before[i as int].path, offset: position },
                ));
            },
            None => {
                let ghost before = self.entries@;
                self.entries.push(PositionEntry { path: path.clone(), offset: position });
                assert(self.entries@.drop_last() == before);
            },
        }
    }
}

proof fn lemma_entries_map_len(entries: Seq<PositionEntry>)
    requires
        distinct_paths(entries),
    ensures
        entries_map(entries).dom().finite(),
        entries_map(entries).dom().len() == entries.len(),
    decreases entries.len(),
{
    if entries.len() > 0 {
        let front = entries.drop_last();
        assert(distinct_paths(front));
        lemma_entries_map_len(front);
        lemma_entries_map_lookup(front, entries.last().path@);
        assert(!entries_map(front).dom().contains(entries.last().path@)) by {
            if entries_map(front).dom().contains(entries.last().path@) {
                let i = choose|i: int| 0 <= i < front.len() && front[i].path@ == entries.last().path@;
                assert(entries[i].path@ == entries[entries.len() - 1].path@);
            }
        }
    }
}

/// The offset tracked for `path`; a path not yet tracked enters the
/// tracker at offset 0.
pub fn get_file_position(path: &String, file_positions: &mut PositionMap) -> (position: u64)
    requires
        old(file_positions).wf(),
    ensures
        final(file_positions).wf(),
        position == old(file_positions).offset_of(path@),
        final(file_positions)@ == old(file_positions)@.insert(path@, position),
{
    let position = file_positions.get(path);
    file_positions.set(path, position);
    position
}

/// Records `position` as the offset up to which `path` has been read. The
/// offset of a path never decreases: `position` is at least the offset
/// tracked so far. It always succeeds.
pub fn set_file_position(path: &String, file_positions: &mut PositionMap, position: u64) -> (done:
    Result<(), IoError>)
    requires
        old(file_positions).wf(),
        position >= old(file_positions).offset_of(path@),
    ensures
        done is Ok,
        final(file_positions).offset_of(path@) == position,
        final(file_positions).wf(),
        final(file_positions)@ == old(file_positions)@.insert(path@, position),
{
    file_positions.set(path, position);
    Ok(())
}

} // verus!
