//! Filesystem change notifications as the agent sees them, and the batch of
//! changed paths that one polling tick produces.

use vstd::prelude::*;
use vstd::seq_lib::seq_to_set_is_finite;
use crate::reader::texts;

verus! {

/// Event class: a file was modified.
pub const MODIFY: u32 = 0x0000_0002;

/// Event class: a file that was open for writing was closed.
pub const CLOSE_WRITE: u32 = 0x0000_0008;

/// Event class: an entry was created in a watched directory.
pub const CREATE: u32 = 0x0000_0100;

/// Event class: an entry was deleted from a watched directory.
pub const DELETE: u32 = 0x0000_0200;

/// Event flag: the kernel's event queue overflowed and events were lost.
pub const Q_OVERFLOW: u32 = 0x0000_4000;

/// The four classes of change for which every directory is watched.
pub const WATCH_MASK: u32 = 0x0000_030a;

/// Whether every bit of `flag` is set in `mask`.
pub open spec fn has_flag(mask: u32, flag: u32) -> bool {
    mask & flag == flag
}

/// Whether every bit of `flag` is set in `mask`.
pub fn mask_contains(mask: u32, flag: u32) -> (set: bool)
    ensures
        set == has_flag(mask, flag),
{
    mask & flag == flag
}

/// The watch mask holds the four classes of change and nothing else.
pub proof fn lemma_watch_mask()
    ensures
        WATCH_MASK == MODIFY | CREATE | DELETE | CLOSE_WRITE,
        has_flag(WATCH_MASK, MODIFY),
        has_flag(WATCH_MASK, CREATE),
        has_flag(WATCH_MASK, DELETE),
        has_flag(WATCH_MASK, CLOSE_WRITE),
        !has_flag(WATCH_MASK, Q_OVERFLOW),
{
    assert(0x0000_030au32 == 0x0000_0002u32 | 0x0000_0100u32 | 0x0000_0200u32 | 0x0000_0008u32)
        by (bit_vector);
    assert(0x0000_030au32 & 0x0000_0002u32 == 0x0000_0002u32) by (bit_vector);
    assert(0x0000_030au32 & 0x0000_0100u32 == 0x0000_0100u32) by (bit_vector);
    assert(0x0000_030au32 & 0x0000_0200u32 == 0x0000_0200u32) by (bit_vector);
    assert(0x0000_030au32 & 0x0000_0008u32 == 0x0000_0008u32) by (bit_vector);
    assert(0x0000_030au32 & 0x0000_4000u32 != 0x0000_4000u32) by (bit_vector);
}

/// One notification of the filesystem watch subsystem.
pub struct FsEvent {
    /// The handle of the watch that the event belongs to.
    pub wd: i32,
    /// The classes and flags of the event, one bit each.
    pub mask: u32,
    /// The name of the entry inside the watched directory, where the event
    /// is about one.
    pub name: Option<String>,
}

impl FsEvent {
    /// Whether the event says that a file has new content.
    pub open spec fn is_change(&self) -> bool {
        has_flag(self.mask, CLOSE_WRITE) || has_flag(self.mask, MODIFY)
    }

    /// Whether the event says that an entry was created.
    pub open spec fn is_create(&self) -> bool {
        has_flag(self.mask, CREATE)
    }

    /// Whether the event says that notifications were lost.
    pub open spec fn is_overflow(&self) -> bool {
        has_flag(self.mask, Q_OVERFLOW)
    }
}

/// The deduplicated set of paths that are believed to have new content.
pub struct ChangeBatch {
    paths: Vec<String>,
}

impl View for ChangeBatch {
    type V = Set<Seq<char>>;

    open spec fn view(&self) -> Set<Seq<char>> {
        self.paths().to_set()
    }
}

impl ChangeBatch {
    /// The paths of the batch, in the order in which they entered it.
    pub closed spec fn paths(&self) -> Seq<Seq<char>> {
        texts(self.paths@)
    }

    /// No path occurs twice. Every batch that this module hands out is well
    /// formed.
    pub open spec fn wf(&self) -> bool {
        self.paths().no_duplicates()
    }

    /// An empty batch.
    pub fn new() -> (batch: ChangeBatch)
        ensures
            batch.wf(),
            batch.paths() == Seq::<Seq<char>>::empty(),
            batch@ == Set::<Seq<char>>::empty(),
    {
        let batch = ChangeBatch { paths: Vec::new() };
        assert(batch.paths() == Seq::<Seq<char>>::empty());
        assert(batch@ == Set::<Seq<char>>::empty());
        batch
    }

    /// The number of paths in the batch.
    pub fn len(&self) -> (n: usize)
        requires
            self.wf(),
        ensures
            n == self.paths().len(),
            n == self@.len(),
            self@.finite(),
    {
        proof {
            self.paths().unique_seq_to_set();
            seq_to_set_is_finite(self.paths());
        }
        self.paths.len()
    }

    /// Whether the batch holds no path.
    pub fn is_empty(&self) -> (empty: bool)
        ensures
            empty == (self.paths().len() == 0),
            empty == (self@ == Set::<Seq<char>>::empty()),
    {
        proof {
            if self.paths().len() > 0 {
                assert(self@.contains(self.paths()[0]));
            } else {
                assert(self@ == Set::<Seq<char>>::empty());
            }
        }
        self.paths.len() == 0
    }

    /// The path at position `i`.
    pub fn get(&self, i: usize) -> (path: &String)
        requires
            i < self.paths().len(),
        ensures
            path@ == self.paths()[i as int],
    {
        &self.paths[i]
    }

    /// Whether `path` is in the batch.
    pub fn contains(&self, path: &String) -> (found: bool)
        ensures
            found == self@.contains(path@),
    {
        let mut i: usize = 0;
        while i < self.paths.len()
            invariant
                i <= self.paths.len(),
                forall|k: int| 0 <= k < i ==> self.paths()[k] != path@,
            decreases self.paths.len() - i,
        {
            if self.paths[i] == *path {
                assert(self.paths()[i as int] == path@);
                return true;
            }
            i += 1;
        }
        false
    }

    /// Puts `path` into the batch; a path that is there already stays once.
    /// It returns whether the path was new.
    pub fn insert(&mut self, path: String) -> (added: bool)
        requires
            old(self).wf(),
        ensures
            final(self).wf(),
            final(self)@ == old(self)@.insert(path@),
            added == !old(self)@.contains(path@),
            final(self).paths() == if added {
                old(self).paths().push(path@)
            } else {
                old(self).paths()
            },
    {
        if self.contains(&path) {
            assert(self@.insert(path@) == self@);
            false
        } else {
            let ghost before = self.paths();
            proof {
                before.lemma_push_to_set_commute(path@);
            }
            self.paths.push(path);
            assert(self.paths() == before.push(path@));
            true
        }
    }

    /// The paths of the batch, each once.
    pub fn into_paths(self) -> (paths: Vec<String>)
        requires
            self.wf(),
        ensures
            texts(paths@) == self.paths(),
            texts(paths@).no_duplicates(),
    {
        self.paths
    }
}

} // verus!
