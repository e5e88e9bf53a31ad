//! The event loop: what one tick's notifications amount to, and what the
//! loop does next. The caller reads the notifications, sleeps, registers
//! directories and sends batches.

use vstd::prelude::*;
use crate::directory_listener::outstanding;
use crate::directory_listener::tree_after;
use crate::directory_listener::walk_after;
use crate::directory_listener::ActionView;
use crate::directory_listener::DirectoryListener;
use crate::directory_listener::EntryKind;
use crate::directory_listener::EventView;
use crate::directory_listener::Stage;
use crate::directory_listener::WalkView;
use crate::directory_listener::DirectoryListenerError;
use crate::error::IoError;
use crate::event::mask_contains;
use crate::event::ChangeBatch;
use crate::event::FsEvent;
use crate::event::CLOSE_WRITE;
use crate::event::CREATE;
use crate::event::MODIFY;
use crate::event::Q_OVERFLOW;
use crate::path::join;
use crate::path::joined_path;
use crate::reader::texts;

verus! {

/// Why the event loop ended abnormally.
#[derive(Clone, Copy, Debug, PartialEq, Eq, Structural)]
pub enum EventThreadError {
    /// The watch subsystem could not be set up.
    IoError(IoError),
    /// The tree at the base path could not be registered.
    DirectoryListener(DirectoryListenerError),
    /// Logging could not be set up.
    TracingSetup,
    /// The consumer of the batches is gone.
    SendError,
}

/// How long the loop pauses when no notification is waiting, in milliseconds.
pub const IDLE_PAUSE_MS: u64 = 100;

/// How long the loop pauses after a failed read, in milliseconds.
pub const FAILURE_PAUSE_MS: u64 = 10000;

/// How long the loop pauses before it returns, so that the consumer of the
/// batches can see the termination signal first, in milliseconds.
pub const DRAIN_PAUSE_MS: u64 = 500;

/// The path that an event is about: the directory watched under its handle,
/// joined with its name. An event without a name, or with a handle that the
/// watch tree does not hold, is about no path.
pub open spec fn resolved(tree: Map<i32, Seq<char>>, event: FsEvent) -> Option<Seq<char>> {
    match event.name {
        Some(name) => if tree.contains_key(event.wd) {
            Some(joined_path(tree[event.wd], name@))
        } else {
            None
        },
        None => None,
    }
}

/// The paths that the events report as changed.
pub open spec fn changed_paths(tree: Map<i32, Seq<char>>, events: Seq<FsEvent>) -> Set<Seq<char>> {
    Set::new(
        |path: Seq<char>|
            exists|i: int|
                0 <= i < events.len() && #[trigger] events[i].is_change() && resolved(
                    tree,
                    events[i],
                ) == Some(path),
    )
}

/// The paths that the events report as created, one for each such event, in
/// the order of the events.
pub open spec fn created_paths(tree: Map<i32, Seq<char>>, events: Seq<FsEvent>) -> Seq<Seq<char>>
    decreases events.len(),
{
    if events.len() == 0 {
        Seq::empty()
    } else {
        let earlier = created_paths(tree, events.drop_last());
        let event = events.last();
        if event.is_create() && resolved(tree, event) is Some {
            earlier.push(resolved(tree, event).unwrap())
        } else {
            earlier
        }
    }
}

/// Whether one of the events says that notifications were lost.
pub open spec fn overflowed(events: Seq<FsEvent>) -> bool {
    exists|i: int| 0 <= i < events.len() && #[trigger] events[i].is_overflow()
}

/// What one tick's notifications amount to.
pub struct Tick {
    /// The paths that have new content, each once.
    pub batch: ChangeBatch,
    /// The paths of the entries that were created. Those that are
    /// directories are to be registered.
    pub created: Vec<String>,
    /// Whether notifications were lost, which is worth a warning and no
    /// more.
    pub overflowed: bool,
    /// How long to pause once the batch is sent, in milliseconds.
    pub pause_ms: u64,
}

/// The path that `event` is about, if it is about one.
fn resolve(listener: &DirectoryListener, event: &FsEvent) -> (path: Option<String>)
    ensures
        path is Some <==> resolved(listener.tree(), *event) is Some,
        path matches Some(p) ==> resolved(listener.tree(), *event) == Some(p@),
{
    match &event.name {
        Some(name) => match listener.get_descriptor(&event.wd) {
            Some(dir) => Some(join(dir, name)),
            None => None,
        },
        None => None,
    }
}

/// How long the loop pauses after a tick in which notifications were read,
/// in milliseconds: not at all.
pub const NO_PAUSE_MS: u64 = 0;

/// Coalesces the notifications of one tick. Every event that reports a
/// modification or a completed write puts its path into the batch, where a
/// path stays once however often it is reported. Every event that reports a
/// creation puts its path among the created ones. No path is invented: an
/// event that resolves to none adds nothing.
pub fn process_inotify_events(listener: &DirectoryListener, events: &Vec<FsEvent>) -> (tick: Tick)
    ensures
        tick.batch.wf(),
        tick.batch@ == changed_paths(listener.tree(), events@),
        texts(tick.created@) == created_paths(listener.tree(), events@),
        tick.overflowed == overflowed(events@),
        tick.pause_ms == NO_PAUSE_MS,
{
    let ghost tree = listener.tree();
    let mut batch = ChangeBatch::new();
    let mut created: Vec<String> = Vec::new();
    let mut lost = false;
    let mut i: usize = 0;
    assert(events@.subrange(0, 0) == Seq::<FsEvent>::empty());
    assert(changed_paths(tree, events@.subrange(0, 0)) == Set::<Seq<char>>::empty());
    assert(texts(created@) == Seq::<Seq<char>>::empty());
    while i < events.len()
        invariant
            i <= events.len(),
            tree == listener.tree(),
            batch.wf(),
            batch@ == changed_paths(tree, events@.subrange(0, i as int)),
            texts(created@) == created_paths(tree, events@.subrange(0, i as int)),
            lost == overflowed(events@.subrange(0, i as int)),
        decreases events.len() - i,
    {
        let event = &events[i];
        let ghost seen = events@.subrange(0, i as int);
        let ghost now = events@.subrange(0, i + 1);
        assert(now.drop_last() == seen);
        assert(now.last() == *event);
        assert(forall|k: int| 0 <= k < seen.len() ==> seen[k] == now[k]);
        if mask_contains(event.mask, Q_OVERFLOW) {
            lost = true;
        }
        proof {
            if overflowed(now) {
                let k = choose|k: int| 0 <= k < now.len() && #[trigger] now[k].is_overflow();
                if k < i {
                    assert(seen[k].is_overflow());
                }
            }
            if overflowed(seen) {
                let k = choose|k: int| 0 <= k < seen.len() && #[trigger] seen[k].is_overflow();
                assert(now[k].is_overflow());
            }
            if event.is_overflow() {
                assert(now[i as int].is_overflow());
            }
        }
        let path = resolve(listener, event);
        let change = mask_contains(event.mask, CLOSE_WRITE) || mask_contains(event.mask, MODIFY);
        let create = mask_contains(event.mask, CREATE);
        match path {
            Some(p) => {
                if create {
                    let ghost earlier = created@;
                    created.push(p.clone());
                    assert(texts(created@) == texts(earlier).push(p@));
                }
                if change {
                    batch.insert(p);
                }
            },
            None => {},
        }
        proof {
            let grown = if change && path is Some {
                changed_paths(tree, seen).insert(path.unwrap()@)
            } else {
                changed_paths(tree, seen)
            };
            assert forall|q: Seq<char>| changed_paths(tree, now).contains(q) implies grown.contains(
                q,
            ) by {
                let k = choose|k: int|
                    0 <= k < now.len() && #[trigger] now[k].is_change() && resolved(tree, now[k])
                        == Some(q);
                if k < i {
                    assert(seen[k].is_change());
                }
            }
            assert forall|q: Seq<char>| grown.contains(q) implies changed_paths(tree, now).contains(
                q,
            ) by {
                if changed_paths(tree, seen).contains(q) {
                    let k = choose|k: int|
                        0 <= k < seen.len() && #[trigger] seen[k].is_change() && resolved(
                            tree,
                            seen[k],
                        ) == Some(q);
                    assert(now[k].is_change());
                } else {
                    assert(now[i as int].is_change());
                }
            }
            assert(changed_paths(tree, now) == grown);
        }
        i += 1;
    }
    assert(events@.subrange(0, events.len() as int) == events@);
    Tick { batch, created, overflowed: lost, pause_ms: NO_PAUSE_MS }
}

/// The states of the event loop.
#[derive(Clone, Copy, Debug, PartialEq, Eq, Structural)]
pub enum LoopState {
    /// Notifications are read and batches are sent.
    Running,
    /// The termination signal was seen; the loop pauses once more.
    Draining,
    /// The loop has returned.
    Stopped,
}

/// What the caller of the event loop is to do next.
pub enum LoopAction {
    /// Read the notifications that are waiting, without blocking.
    Read,
    /// Pause for this many milliseconds.
    Sleep(u64),
    /// Warn if notifications were lost, register the created directories,
    /// send the batch, empty or not, and pause as the tick says.
    Emit(Tick),
    /// Return.
    Stop,
}

/// The state in which the loop starts, given how the registration of the
/// tree at the base path ended: a tree that could not be registered is
/// fatal.
pub fn begin_event_loop(registered: Result<(), DirectoryListenerError>) -> (state: Result<
    LoopState,
    EventThreadError,
>)
    ensures
        state == match registered {
            Ok(_) => Ok::<LoopState, EventThreadError>(LoopState::Running),
            Err(e) => Err(EventThreadError::DirectoryListener(e)),
        },
{
    match registered {
        Ok(_) => Ok(LoopState::Running),
        Err(e) => Err(EventThreadError::DirectoryListener(e)),
    }
}

/// The state that follows `state` at the top of a round, given whether the
/// termination signal is set: a running loop that sees the signal drains,
/// a draining loop stops, and nothing leaves the stopped state.
pub open spec fn next_state(state: LoopState, terminated: bool) -> LoopState {
    match state {
        LoopState::Running => if terminated {
            LoopState::Draining
        } else {
            LoopState::Running
        },
        LoopState::Draining => LoopState::Stopped,
        LoopState::Stopped => LoopState::Stopped,
    }
}

/// Decides the top of a round of the event loop. A running loop reads; one
/// that has just seen the termination signal pauses once; after that pause
/// it returns.
pub fn process_file_events(state: LoopState, terminated: bool) -> (next: (LoopState, LoopAction))
    ensures
        next.0 == next_state(state, terminated),
        match next.0 {
            LoopState::Running => next.1 is Read,
            LoopState::Draining => next.1 == LoopAction::Sleep(DRAIN_PAUSE_MS),
            LoopState::Stopped => next.1 is Stop,
        },
{
    match state {
        LoopState::Running => {
            if terminated {
                (LoopState::Draining, LoopAction::Sleep(DRAIN_PAUSE_MS))
            } else {
                (LoopState::Running, LoopAction::Read)
            }
        },
        LoopState::Draining => (LoopState::Stopped, LoopAction::Stop),
        LoopState::Stopped => (LoopState::Stopped, LoopAction::Stop),
    }
}

/// The tick that a read of the waiting notifications ends in. Every tick
/// ends with one batch, empty or not. What was read is coalesced. A read
/// that had nothing to deliver gives the empty batch and a short pause, a
/// failed read the empty batch and a long pause; neither ends the loop.
pub fn after_read(listener: &DirectoryListener, read: Result<Vec<FsEvent>, IoError>) -> (action:
    LoopAction)
    ensures
        action matches LoopAction::Emit(tick) && tick.batch.wf() && match read {
            Ok(events) => {
                &&& tick.batch@ == changed_paths(listener.tree(), events@)
                &&& texts(tick.created@) == created_paths(listener.tree(), events@)
                &&& tick.overflowed == overflowed(events@)
                &&& tick.pause_ms == NO_PAUSE_MS
            },
            Err(e) => {
                &&& tick.batch@ == Set::<Seq<char>>::empty()
                &&& tick.created@ == Seq::<String>::empty()
                &&& !tick.overflowed
                &&& tick.pause_ms == if e == IoError::WouldBlock {
                    IDLE_PAUSE_MS
                } else {
                    FAILURE_PAUSE_MS
                }
            },
        },
{
    match read {
        Ok(events) => LoopAction::Emit(process_inotify_events(listener, &events)),
        Err(IoError::WouldBlock) => LoopAction::Emit(
            Tick {
                batch: ChangeBatch::new(),
                created: Vec::new(),
                overflowed: false,
                pause_ms: IDLE_PAUSE_MS,
            },
        ),
        Err(_) => LoopAction::Emit(
            Tick {
                batch: ChangeBatch::new(),
                created: Vec::new(),
                overflowed: false,
                pause_ms: FAILURE_PAUSE_MS,
            },
        ),
    }
}

/// Decides what follows the sending of a batch: `sent` says whether the
/// consumer took it. A consumer that is gone is fatal: the loop ends with
/// the send error. Else the loop goes on.
pub fn after_emit(sent: bool) -> (next: Result<LoopState, EventThreadError>)
    ensures
        next == if sent {
            Ok::<LoopState, EventThreadError>(LoopState::Running)
        } else {
            Err(EventThreadError::SendError)
        },
{
    if sent {
        Ok(LoopState::Running)
    } else {
        Err(EventThreadError::SendError)
    }
}

/// A directory that is created while the loop runs is taken into the watch
/// tree without a restart, and a file written inside it is then reported as
/// changed: the creation puts the directory among the created paths; the
/// walk over it asks for a watch; the handle of that watch enters the tree;
/// and an event under that handle that reports a write resolves to the
/// file inside the directory.
pub proof fn lemma_recursive_discovery(
    tree: Map<i32, Seq<char>>,
    created: FsEvent,
    handle: i32,
    written: FsEvent,
)
    requires
        created.is_create(),
        resolved(tree, created) is Some,
        written.wd == handle,
        written.name is Some,
        written.is_change(),
    ensures
        ({
            let dir = resolved(tree, created).unwrap();
            let start = WalkView {
                report_root: false,
                at_root: true,
                current: dir,
                stage: Stage::Inspecting,
                pending: Seq::<Seq<char>>::empty(),
                skipped: Seq::<Seq<char>>::empty(),
                outcome: Ok(()),
            };
            let watching = walk_after(start, EventView::Inspected(EntryKind::Directory));
            let grown = tree_after(tree, watching, EventView::Watched(Ok(handle)));
            let file = joined_path(dir, written.name.unwrap()@);
            &&& created_paths(tree, seq![created]) == seq![dir]
            &&& outstanding(watching) == ActionView::Watch(dir)
            &&& grown == tree.insert(handle, dir)
            &&& changed_paths(grown, seq![written]) == set![file]
        }),
{
    let dir = resolved(tree, created).unwrap();
    let events = seq![created];
    assert(events.drop_last() == Seq::<FsEvent>::empty());
    assert(created_paths(tree, events.drop_last()) == Seq::<Seq<char>>::empty());
    assert(events.last() == created);
    assert(created_paths(tree, events) == Seq::<Seq<char>>::empty().push(dir));
    let grown = tree.insert(handle, dir);
    let file = joined_path(dir, written.name.unwrap()@);
    let later = seq![written];
    assert(later[0].is_change());
    assert(resolved(grown, later[0]) == Some(file));
    assert(changed_paths(grown, later).contains(file));
    assert(changed_paths(grown, later) == set![file]);
}

} // verus!
