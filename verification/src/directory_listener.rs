//! The directory watcher: which directories are watched under which handle,
//! and the walk that registers a whole tree, one step at a time. The caller
//! carries out each action on the filesystem and reports what came of it.

use vstd::prelude::*;
use std::collections::HashMap;
use crate::error::IoError;
use crate::path::join;
use crate::path::joined_path;
use crate::reader::texts;

verus! {

broadcast use vstd::std_specs::hash::group_hash_axioms;

/// Why registering a tree failed.
#[derive(Clone, Copy, Debug, PartialEq, Eq, Structural)]
pub enum DirectoryListenerError {
    /// The root of the tree could not be watched.
    Io(IoError),
    /// The consumer of the discovered paths is gone.
    Send,
}

/// What a path turned out to be when it was looked at.
#[derive(Clone, Copy, Debug, PartialEq, Eq, Structural)]
pub enum EntryKind {
    Directory,
    File,
    Other,
}

/// What a walk is waiting for.
#[derive(Clone, Copy, Debug, PartialEq, Eq, Structural)]
pub enum Stage {
    /// The kind of the current path.
    Inspecting,
    /// The handle of the watch on the current path.
    Watching,
    /// The entries of the current path.
    Listing,
    /// Word that the current path was handed on as discovered.
    Reporting,
    /// Nothing: the walk is over.
    Finished,
}

/// What the caller is to do next.
pub enum WalkAction {
    /// Find out what this path is.
    Inspect(String),
    /// Watch this directory for the four classes of change.
    Watch(String),
    /// List the names of the entries of this directory.
    List(String),
    /// Hand this plain file on as discovered.
    Report(String),
    /// Nothing more: the walk ended this way.
    Done(Result<(), DirectoryListenerError>),
}

/// What came of the action that the caller carried out.
pub enum WalkEvent {
    /// The path is of this kind.
    Inspected(EntryKind),
    /// The watch was registered under this handle, or could not be.
    Watched(Result<i32, IoError>),
    /// The directory holds entries of these names, or could not be listed.
    Listed(Result<Vec<String>, IoError>),
    /// Whether the consumer took the discovered path.
    Reported(bool),
}

/// The mathematical content of a `WalkAction`.
pub enum ActionView {
    Inspect(Seq<char>),
    Watch(Seq<char>),
    List(Seq<char>),
    Report(Seq<char>),
    Done(Result<(), DirectoryListenerError>),
}

/// The mathematical content of a `WalkEvent`.
pub enum EventView {
    Inspected(EntryKind),
    Watched(Result<i32, IoError>),
    Listed(Result<Seq<Seq<char>>, IoError>),
    Reported(bool),
}

impl View for WalkAction {
    type V = ActionView;

    open spec fn view(&self) -> ActionView {
        match self {
            WalkAction::Inspect(p) => ActionView::Inspect(p@),
            WalkAction::Watch(p) => ActionView::Watch(p@),
            WalkAction::List(p) => ActionView::List(p@),
            WalkAction::Report(p) => ActionView::Report(p@),
            WalkAction::Done(r) => ActionView::Done(*r),
        }
    }
}

impl View for WalkEvent {
    type V = EventView;

    open spec fn view(&self) -> EventView {
        match self {
            WalkEvent::Inspected(k) => EventView::Inspected(*k),
            WalkEvent::Watched(r) => EventView::Watched(*r),
            WalkEvent::Listed(r) => EventView::Listed(
                match r {
                    Ok(names) => Ok(texts(names@)),
                    Err(e) => Err(*e),
                },
            ),
            WalkEvent::Reported(taken) => EventView::Reported(*taken),
        }
    }
}

/// The mathematical content of a `TreeWalk`.
pub struct WalkView {
    /// Whether a plain file at the root is handed on as discovered.
    pub report_root: bool,
    /// Whether the walk is still at its root.
    pub at_root: bool,
    /// The path that the outstanding action is about.
    pub current: Seq<char>,
    /// What the walk is waiting for.
    pub stage: Stage,
    /// The paths still to be looked at; the last one comes next.
    pub pending: Seq<Seq<char>>,
    /// The directories below the root that could not be watched or listed.
    pub skipped: Seq<Seq<char>>,
    /// How the walk ended, once it is over.
    pub outcome: Result<(), DirectoryListenerError>,
}

/// The registration of one directory tree in progress.
pub struct TreeWalk {
    report_root: bool,
    at_root: bool,
    current: String,
    stage: Stage,
    pending: Vec<String>,
    skipped: Vec<String>,
    outcome: Result<(), DirectoryListenerError>,
}

impl View for TreeWalk {
    type V = WalkView;

    closed spec fn view(&self) -> WalkView {
        WalkView {
            report_root: self.report_root,
            at_root: self.at_root,
            current: self.current@,
            stage: self.stage,
            pending: texts(self.pending@),
            skipped: texts(self.skipped@),
            outcome: self.outcome,
        }
    }
}

/// The action that a walk is waiting to hear of.
pub open spec fn outstanding(walk: WalkView) -> ActionView {
    match walk.stage {
        Stage::Inspecting => ActionView::Inspect(walk.current),
        Stage::Watching => ActionView::Watch(walk.current),
        Stage::Listing => ActionView::List(walk.current),
        Stage::Reporting => ActionView::Report(walk.current),
        Stage::Finished => ActionView::Done(walk.outcome),
    }
}

/// A walk that is done with its current path: it takes up the path that was
/// found last, or ends well where none is left.
pub open spec fn proceed(walk: WalkView) -> WalkView {
    if walk.pending.len() == 0 {
        WalkView { at_root: false, stage: Stage::Finished, outcome: Ok(()), ..walk }
    } else {
        WalkView {
            at_root: false,
            current: walk.pending.last(),
            stage: Stage::Inspecting,
            pending: walk.pending.drop_last(),
            ..walk
        }
    }
}

/// A walk that ends with an error.
pub open spec fn fail(walk: WalkView, error: DirectoryListenerError) -> WalkView {
    WalkView { stage: Stage::Finished, outcome: Err(error), ..walk }
}

/// The paths of the entries of `dir` that have the given names.
pub open spec fn children(dir: Seq<char>, names: Seq<Seq<char>>) -> Seq<Seq<char>> {
    names.map_values(|name: Seq<char>| joined_path(dir, name))
}

/// The walk after `event`. An event that does not answer the outstanding
/// action leaves the walk as it is.
///
/// A directory is watched and then listed, and its entries are looked at in
/// turn. A plain file is handed on as discovered. Anything else is passed
/// over; at the root of the tree that the agent starts on it is watched all
/// the same, so that a root that is not there fails the walk. Only a root
/// that cannot be watched, or a consumer that is gone, ends the walk early:
/// a directory below the root that cannot be watched or listed is noted as
/// skipped.
pub open spec fn walk_after(walk: WalkView, event: EventView) -> WalkView {
    match (walk.stage, event) {
        (Stage::Inspecting, EventView::Inspected(EntryKind::Directory)) => WalkView {
            stage: Stage::Watching,
            ..walk
        },
        (Stage::Inspecting, EventView::Inspected(EntryKind::File)) => if walk.at_root
            && !walk.report_root {
            proceed(walk)
        } else {
            WalkView { stage: Stage::Reporting, ..walk }
        },
        (Stage::Inspecting, EventView::Inspected(EntryKind::Other)) => if walk.at_root
            && walk.report_root {
            WalkView { stage: Stage::Watching, ..walk }
        } else {
            proceed(walk)
        },
        (Stage::Watching, EventView::Watched(Ok(_))) => WalkView { stage: Stage::Listing, ..walk },
        (Stage::Watching, EventView::Watched(Err(e))) => if walk.at_root {
            fail(walk, DirectoryListenerError::Io(e))
        } else {
            proceed(WalkView { skipped: walk.skipped.push(walk.current), ..walk })
        },
        (Stage::Listing, EventView::Listed(Ok(names))) => proceed(
            WalkView { pending: walk.pending + children(walk.current, names), ..walk },
        ),
        (Stage::Listing, EventView::Listed(Err(_))) => proceed(
            WalkView { skipped: walk.skipped.push(walk.current), ..walk },
        ),
        (Stage::Reporting, EventView::Reported(true)) => proceed(walk),
        (Stage::Reporting, EventView::Reported(false)) => fail(walk, DirectoryListenerError::Send),
        _ => walk,
    }
}

/// The watch tree after `event`: it gains the current path under the handle
/// of a watch that was registered, and changes in no other way.
pub open spec fn tree_after(tree: Map<i32, Seq<char>>, walk: WalkView, event: EventView) -> Map<
    i32,
    Seq<char>,
> {
    match (walk.stage, event) {
        (Stage::Watching, EventView::Watched(Ok(wd))) => tree.insert(wd, walk.current),
        _ => tree,
    }
}

impl TreeWalk {
    /// A walk over the tree at `root`, and its first action. `report_root`
    /// says whether a root that is a plain file is handed on as discovered:
    /// it is when the agent starts, and is not for an entry that was created
    /// while it runs, which announces itself once it is written.
    pub fn new(root: String, report_root: bool) -> (start: (TreeWalk, WalkAction))
        ensures
            start.0@ == (WalkView {
                report_root,
                at_root: true,
                current: root@,
                stage: Stage::Inspecting,
                pending: Seq::<Seq<char>>::empty(),
                skipped: Seq::<Seq<char>>::empty(),
                outcome: Ok(()),
            }),
            start.1@ == ActionView::Inspect(root@),
    {
        let walk = TreeWalk {
            report_root,
            at_root: true,
            current: root.clone(),
            stage: Stage::Inspecting,
            pending: Vec::new(),
            skipped: Vec::new(),
            outcome: Ok(()),
        };
        assert(texts(walk.pending@) == Seq::<Seq<char>>::empty());
        assert(texts(walk.skipped@) == Seq::<Seq<char>>::empty());
        (walk, WalkAction::Inspect(root))
    }

    /// Whether the walk is over.
    pub fn is_finished(&self) -> (over: bool)
        ensures
            over == (self@.stage == Stage::Finished),
    {
        self.stage == Stage::Finished
    }

    /// The directories below the root that could not be watched or listed.
    pub fn skipped(&self) -> (paths: &Vec<String>)
        ensures
            texts(paths@) == self@.skipped,
    {
        &self.skipped
    }

    /// The action that the walk is waiting to hear of.
    fn outstanding(&self) -> (action: WalkAction)
        ensures
            action@ == outstanding(self@),
    {
        match self.stage {
            Stage::Inspecting => WalkAction::Inspect(self.current.clone()),
            Stage::Watching => WalkAction::Watch(self.current.clone()),
            Stage::Listing => WalkAction::List(self.current.clone()),
            Stage::Reporting => WalkAction::Report(self.current.clone()),
            Stage::Finished => WalkAction::Done(self.outcome),
        }
    }

    /// Takes up the path that was found last, or ends the walk.
    fn proceed(&mut self)
        ensures
            final(self)@ == proceed(old(self)@),
    {
        self.at_root = false;
        let ghost before = self.pending@;
        match self.pending.pop() {
            Some(path) => {
                assert(texts(self.pending@) == texts(before).drop_last());
                self.current = path;
                self.stage = Stage::Inspecting;
            },
            None => {
                self.stage = Stage::Finished;
                self.outcome = Ok(());
            },
        }
    }

    /// Notes the current path as skipped.
    fn skip_current(&mut self)
        ensures
            final(self)@ == (WalkView {
                skipped: old(self)@.skipped.push(old(self)@.current),
                ..old(self)@
            }),
    {
        let ghost before = self.skipped@;
        self.skipped.push(self.current.clone());
        assert(texts(self.skipped@) == texts(before).push(self.current@));
    }

    /// Puts the entries of the current path among the paths to look at.
    fn add_children(&mut self, names: &Vec<String>)
        ensures
            final(self)@ == (WalkView {
                pending: old(self)@.pending + children(old(self)@.current, texts(names@)),
                ..old(self)@
            }),
    {
        let ghost before = texts(self.pending@);
        let ghost all = children(self.current@, texts(names@));
        let mut i: usize = 0;
        while i < names.len()
            invariant
                i <= names.len(),
                all == children(self.current@, texts(names@)),
                texts(self.pending@) == before + all.subrange(0, i as int),
                self@ == (WalkView { pending: texts(self.pending@), ..old(self)@ }),
            decreases names.len() - i,
        {
            let child = join(&self.current, &names[i]);
            let ghost earlier = self.pending@;
            self.pending.push(child);
            assert(texts(self.pending@) == texts(earlier).push(child@));
            assert(all.subrange(0, i + 1) == all.subrange(0, i as int).push(all[i as int]));
            i += 1;
        }
        assert(all.subrange(0, names.len() as int) == all);
    }
}

/// The watch tree: which directory is watched under which handle.
pub struct DirectoryListener {
    pub watch_descriptors: HashMap<i32, String>,
}

impl DirectoryListener {
    /// The watch tree as a mapping from handle to path.
    pub open spec fn tree(&self) -> Map<i32, Seq<char>> {
        self.watch_descriptors@.map_values(|path: String| path@)
    }

    /// A listener that watches nothing yet.
    pub fn new() -> (listener: DirectoryListener)
        ensures
            listener.tree() == Map::<i32, Seq<char>>::empty(),
    {
        let listener = DirectoryListener { watch_descriptors: HashMap::new() };
        assert(listener.tree() == Map::<i32, Seq<char>>::empty());
        listener
    }

    /// The directory that is watched under the handle, if there is one.
    pub fn get_descriptor(&self, watch_descriptor_id: &i32) -> (path: Option<&String>)
        ensures
            path is Some <==> self.tree().contains_key(*watch_descriptor_id),
            path matches Some(p) ==> self.tree()[*watch_descriptor_id] == p@,
    {
        self.watch_descriptors.get(watch_descriptor_id)
    }

    /// Takes one step of the registration of a tree: hears what came of the
    /// outstanding action of `walk` and says what is to be done next. The
    /// watch tree gains the directory whose watch was registered; it never
    /// loses an entry.
    pub fn add_watches(&mut self, walk: &mut TreeWalk, event: WalkEvent) -> (action: WalkAction)
        ensures
            final(walk)@ == walk_after(old(walk)@, event@),
            final(self).tree() == tree_after(old(self).tree(), old(walk)@, event@),
            action@ == outstanding(final(walk)@),
            old(self).tree().dom().subset_of(final(self).tree().dom()),
    {
        match (walk.stage, event) {
            (Stage::Inspecting, WalkEvent::Inspected(EntryKind::Directory)) => {
                walk.stage = Stage::Watching;
            },
            (Stage::Inspecting, WalkEvent::Inspected(EntryKind::File)) => {
                if walk.at_root && !walk.report_root {
                    walk.proceed();
                } else {
                    walk.stage = Stage::Reporting;
                }
            },
            (Stage::Inspecting, WalkEvent::Inspected(EntryKind::Other)) => {
                if walk.at_root && walk.report_root {
                    walk.stage = Stage::Watching;
                } else {
                    walk.proceed();
                }
            },
            (Stage::Watching, WalkEvent::Watched(Ok(wd))) => {
                let ghost before = self.tree();
                self.watch_descriptors.insert(wd, walk.current.clone());
                assert(self.tree() == before.insert(wd, walk.current@));
                walk.stage = Stage::Listing;
            },
            (Stage::Watching, WalkEvent::Watched(Err(e))) => {
                if walk.at_root {
                    walk.stage = Stage::Finished;
                    walk.outcome = Err(DirectoryListenerError::Io(e));
                } else {
                    walk.skip_current();
                    walk.proceed();
                }
            },
            (Stage::Listing, WalkEvent::Listed(Ok(names))) => {
                walk.add_children(&names);
                walk.proceed();
            },
            (Stage::Listing, WalkEvent::Listed(Err(_))) => {
                walk.skip_current();
                walk.proceed();
            },
            (Stage::Reporting, WalkEvent::Reported(true)) => {
                walk.proceed();
            },
            (Stage::Reporting, WalkEvent::Reported(false)) => {
                walk.stage = Stage::Finished;
                walk.outcome = Err(DirectoryListenerError::Send);
            },
            _ => {},
        }
        walk.outstanding()
    }
}

} // verus!
