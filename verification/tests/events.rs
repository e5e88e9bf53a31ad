use logd::directory_listener::{
    DirectoryListener, DirectoryListenerError, EntryKind, TreeWalk, WalkAction, WalkEvent,
};
use logd::error::IoError;
use logd::path::join;
use std::path::Path;
use logd::event::{
    mask_contains, ChangeBatch, FsEvent, CLOSE_WRITE, CREATE, DELETE, MODIFY, Q_OVERFLOW,
    WATCH_MASK,
};
use logd::process_file_events::{
    after_emit, after_read, begin_event_loop, process_file_events, process_inotify_events,
    EventThreadError, LoopAction, LoopState, Tick, DRAIN_PAUSE_MS, FAILURE_PAUSE_MS,
    IDLE_PAUSE_MS,
};

fn event(wd: i32, mask: u32, name: Option<&str>) -> FsEvent {
    FsEvent { wd, mask, name: name.map(String::from) }
}

fn sorted(batch: ChangeBatch) -> Vec<String> {
    let mut paths = batch.into_paths();
    paths.sort();
    paths
}

fn inspect_path(action: &WalkAction) -> String {
    match action {
        WalkAction::Inspect(path) => path.clone(),
        _ => panic!("the walk should ask what a path is"),
    }
}

/// Registers the tree at `root`, where `dirs` lists every directory with the
/// names of its entries. Returns the discovered files and how the walk ended.
fn register(
    listener: &mut DirectoryListener,
    root: &str,
    report_root: bool,
    dirs: &[(&str, Vec<&str>)],
    next_wd: &mut i32,
) -> (Vec<String>, Result<(), DirectoryListenerError>) {
    let mut found = Vec::new();
    let (mut walk, mut action) = TreeWalk::new(root.to_string(), report_root);
    loop {
        let event = match &action {
            WalkAction::Inspect(path) => {
                if dirs.iter().any(|(dir, _)| dir == path) {
                    WalkEvent::Inspected(EntryKind::Directory)
                } else {
                    WalkEvent::Inspected(EntryKind::File)
                }
            }
            WalkAction::Watch(_) => {
                *next_wd += 1;
                WalkEvent::Watched(Ok(*next_wd))
            }
            WalkAction::List(path) => {
                let (_, names) = dirs.iter().find(|(dir, _)| dir == path).unwrap();
                WalkEvent::Listed(Ok(names.iter().map(|n| n.to_string()).collect()))
            }
            WalkAction::Report(path) => {
                found.push(path.clone());
                WalkEvent::Reported(true)
            }
            WalkAction::Done(result) => {
                assert!(walk.is_finished());
                return (found, *result);
            }
        };
        action = listener.add_watches(&mut walk, event);
    }
}

#[test]
fn event_classes_are_those_of_inotify() {
    assert_eq!(MODIFY, inotify::EventMask::MODIFY.bits());
    assert_eq!(CLOSE_WRITE, inotify::EventMask::CLOSE_WRITE.bits());
    assert_eq!(CREATE, inotify::EventMask::CREATE.bits());
    assert_eq!(DELETE, inotify::EventMask::DELETE.bits());
    assert_eq!(Q_OVERFLOW, inotify::EventMask::Q_OVERFLOW.bits());
    let watched = inotify::WatchMask::MODIFY
        | inotify::WatchMask::CREATE
        | inotify::WatchMask::DELETE
        | inotify::WatchMask::CLOSE_WRITE;
    assert_eq!(WATCH_MASK, watched.bits());
}

#[test]
fn mask_contains_asks_for_every_bit() {
    assert!(mask_contains(MODIFY | CREATE, MODIFY));
    assert!(!mask_contains(CREATE, MODIFY));
    assert!(mask_contains(0x4000_0100, CREATE));
    assert!(!mask_contains(MODIFY, MODIFY | CREATE));
    assert!(mask_contains(0, 0));
    let mask = inotify::EventMask::from_bits_retain(0x4000_0100);
    assert_eq!(mask_contains(0x4000_0100, CREATE), mask.contains(inotify::EventMask::CREATE));
    assert_eq!(mask_contains(0x4000_0100, MODIFY), mask.contains(inotify::EventMask::MODIFY));
}

#[test]
fn join_puts_a_name_into_a_directory_as_the_standard_library_does() {
    let cases = [
        ("/logs", "a.log", "/logs/a.log"),
        ("/logs/", "a.log", "/logs/a.log"),
        ("/", "a.log", "/a.log"),
        ("", "a.log", "a.log"),
        ("logs", "", "logs/"),
        ("logs/", "", "logs/"),
        ("", "", ""),
        ("/logs", "/abs/a.log", "/abs/a.log"),
        ("/logs", "/", "/"),
        ("/logs//", "a", "/logs//a"),
        ("/l\u{f6}gs", "\u{e4}.log", "/l\u{f6}gs/\u{e4}.log"),
        ("/logs", "sub/a.log", "/logs/sub/a.log"),
        ("/logs", "..", "/logs/.."),
    ];
    for (dir, name, expected) in cases {
        assert_eq!(join(&dir.to_string(), &name.to_string()), expected);
        assert_eq!(Path::new(dir).join(name).to_str(), Some(expected));
    }
}

#[test]
fn batch_keeps_each_path_once() {
    let mut batch = ChangeBatch::new();
    assert!(batch.is_empty());
    assert!(batch.insert("/logs/a.log".to_string()));
    assert!(!batch.insert("/logs/a.log".to_string()));
    assert!(batch.insert("/logs/b.log".to_string()));
    assert_eq!(batch.len(), 2);
    assert!(batch.contains(&"/logs/a.log".to_string()));
    assert!(!batch.contains(&"/logs/c.log".to_string()));
    assert_eq!(batch.get(1), "/logs/b.log");
    assert_eq!(batch.into_paths(), vec!["/logs/a.log".to_string(), "/logs/b.log".to_string()]);
}

#[test]
fn listener_starts_empty_and_resolves_handles() {
    let mut listener = DirectoryListener::new();
    assert!(listener.get_descriptor(&1).is_none());
    let mut wd = 0;
    let (found, result) = register(&mut listener, "/logs", true, &[("/logs", vec![])], &mut wd);
    assert_eq!(result, Ok(()));
    assert!(found.is_empty());
    assert_eq!(listener.get_descriptor(&1), Some(&"/logs".to_string()));
    assert!(listener.get_descriptor(&2).is_none());
}

#[test]
fn write_events_coalesce_into_one_batch() {
    let mut listener = DirectoryListener::new();
    let mut wd = 0;
    register(&mut listener, "/logs", true, &[("/logs", vec![])], &mut wd);
    let events = vec![
        event(1, MODIFY, Some("a.log")),
        event(1, MODIFY, Some("a.log")),
        event(1, CLOSE_WRITE, Some("a.log")),
        event(1, MODIFY | CLOSE_WRITE, Some("b.log")),
        event(1, DELETE, Some("c.log")),
        event(1, MODIFY, None),
        event(9, MODIFY, Some("stale.log")),
    ];
    let tick = process_inotify_events(&listener, &events);
    assert!(!tick.overflowed);
    assert!(tick.created.is_empty());
    assert_eq!(sorted(tick.batch), vec!["/logs/a.log".to_string(), "/logs/b.log".to_string()]);
}

#[test]
fn no_events_give_an_empty_batch() {
    let listener = DirectoryListener::new();
    let tick = process_inotify_events(&listener, &Vec::new());
    assert!(tick.batch.is_empty());
    assert!(tick.created.is_empty());
    assert!(!tick.overflowed);
}

#[test]
fn overflow_is_noted_and_nothing_is_invented() {
    let listener = DirectoryListener::new();
    let tick = process_inotify_events(&listener, &vec![event(-1, Q_OVERFLOW, None)]);
    assert!(tick.overflowed);
    assert!(tick.batch.is_empty());
    assert!(tick.created.is_empty());
}

#[test]
fn created_entries_are_listed_in_order() {
    let mut listener = DirectoryListener::new();
    let mut wd = 0;
    register(&mut listener, "/logs", true, &[("/logs", vec![])], &mut wd);
    let events = vec![
        event(1, CREATE | 0x4000_0000, Some("pod-a")),
        event(1, CREATE, Some("x.log")),
        event(1, CREATE | MODIFY, Some("y.log")),
        event(7, CREATE, Some("unknown")),
    ];
    let tick = process_inotify_events(&listener, &events);
    assert_eq!(
        tick.created,
        vec!["/logs/pod-a".to_string(), "/logs/x.log".to_string(), "/logs/y.log".to_string()]
    );
    assert_eq!(sorted(tick.batch), vec!["/logs/y.log".to_string()]);
}

#[test]
fn walk_watches_directories_and_reports_files() {
    let mut listener = DirectoryListener::new();
    let mut wd = 0;
    let dirs = [
        ("/logs", vec!["a.log", "pod", "b.log"]),
        ("/logs/pod", vec!["c.log", "inner"]),
        ("/logs/pod/inner", vec![]),
    ];
    let (mut found, result) = register(&mut listener, "/logs", true, &dirs, &mut wd);
    assert_eq!(result, Ok(()));
    found.sort();
    assert_eq!(
        found,
        vec![
            "/logs/a.log".to_string(),
            "/logs/b.log".to_string(),
            "/logs/pod/c.log".to_string()
        ]
    );
    let mut watched: Vec<String> = listener.watch_descriptors.values().cloned().collect();
    watched.sort();
    assert_eq!(
        watched,
        vec!["/logs".to_string(), "/logs/pod".to_string(), "/logs/pod/inner".to_string()]
    );
}

#[test]
fn walk_fails_only_on_a_root_that_cannot_be_watched() {
    let mut listener = DirectoryListener::new();
    let (mut walk, action) = TreeWalk::new("/logs".to_string(), true);
    assert_eq!(inspect_path(&action), "/logs");
    let action = listener.add_watches(&mut walk, WalkEvent::Inspected(EntryKind::Directory));
    assert!(matches!(action, WalkAction::Watch(ref p) if p == "/logs"));
    let action = listener.add_watches(&mut walk, WalkEvent::Watched(Err(IoError::Other)));
    assert!(
        matches!(action, WalkAction::Done(Err(DirectoryListenerError::Io(IoError::Other))))
    );
    assert!(walk.is_finished());
    assert!(listener.watch_descriptors.is_empty());
    // a finished walk keeps saying how it ended
    let action = listener.add_watches(&mut walk, WalkEvent::Reported(true));
    assert!(
        matches!(action, WalkAction::Done(Err(DirectoryListenerError::Io(IoError::Other))))
    );
}

#[test]
fn walk_fails_on_a_root_that_is_not_there() {
    let mut listener = DirectoryListener::new();
    let (mut walk, _) = TreeWalk::new("/missing".to_string(), true);
    let action = listener.add_watches(&mut walk, WalkEvent::Inspected(EntryKind::Other));
    assert!(matches!(action, WalkAction::Watch(ref p) if p == "/missing"));
    let action = listener.add_watches(&mut walk, WalkEvent::Watched(Err(IoError::Other)));
    assert!(matches!(action, WalkAction::Done(Err(_))));
}

#[test]
fn walk_skips_a_subdirectory_that_cannot_be_watched() {
    let mut listener = DirectoryListener::new();
    let (mut walk, _) = TreeWalk::new("/logs".to_string(), true);
    listener.add_watches(&mut walk, WalkEvent::Inspected(EntryKind::Directory));
    listener.add_watches(&mut walk, WalkEvent::Watched(Ok(1)));
    let action = listener.add_watches(
        &mut walk,
        WalkEvent::Listed(Ok(vec!["gone".to_string(), "kept".to_string()])),
    );
    // the entry that was listed last is looked at first
    assert_eq!(inspect_path(&action), "/logs/kept");
    listener.add_watches(&mut walk, WalkEvent::Inspected(EntryKind::Directory));
    listener.add_watches(&mut walk, WalkEvent::Watched(Ok(2)));
    let action = listener.add_watches(&mut walk, WalkEvent::Listed(Err(IoError::Other)));
    assert_eq!(inspect_path(&action), "/logs/gone");
    listener.add_watches(&mut walk, WalkEvent::Inspected(EntryKind::Directory));
    let action = listener.add_watches(&mut walk, WalkEvent::Watched(Err(IoError::Other)));
    assert!(matches!(action, WalkAction::Done(Ok(()))));
    assert_eq!(walk.skipped(), &vec!["/logs/kept".to_string(), "/logs/gone".to_string()]);
    assert_eq!(listener.watch_descriptors.len(), 2);
}

#[test]
fn walk_ends_when_the_consumer_is_gone() {
    let mut listener = DirectoryListener::new();
    let (mut walk, _) = TreeWalk::new("/logs/a.log".to_string(), true);
    let action = listener.add_watches(&mut walk, WalkEvent::Inspected(EntryKind::File));
    assert!(matches!(action, WalkAction::Report(ref p) if p == "/logs/a.log"));
    let action = listener.add_watches(&mut walk, WalkEvent::Reported(false));
    assert!(matches!(action, WalkAction::Done(Err(DirectoryListenerError::Send))));
}

#[test]
fn walk_repeats_its_action_on_an_answer_that_does_not_fit() {
    let mut listener = DirectoryListener::new();
    let (mut walk, _) = TreeWalk::new("/logs".to_string(), true);
    let action = listener.add_watches(&mut walk, WalkEvent::Watched(Ok(5)));
    assert_eq!(inspect_path(&action), "/logs");
    assert!(listener.watch_descriptors.is_empty());
    let action = listener.add_watches(&mut walk, WalkEvent::Inspected(EntryKind::Directory));
    assert!(matches!(action, WalkAction::Watch(_)));
    let action = listener.add_watches(&mut walk, WalkEvent::Inspected(EntryKind::File));
    assert!(matches!(action, WalkAction::Watch(ref p) if p == "/logs"));
}

#[test]
fn a_created_plain_file_is_not_reported_by_the_walk() {
    let mut listener = DirectoryListener::new();
    let (mut walk, _) = TreeWalk::new("/logs/new.log".to_string(), false);
    let action = listener.add_watches(&mut walk, WalkEvent::Inspected(EntryKind::File));
    assert!(matches!(action, WalkAction::Done(Ok(()))));
    assert!(listener.watch_descriptors.is_empty());
}

#[test]
fn a_watch_handle_that_comes_again_takes_the_new_path() {
    let mut listener = DirectoryListener::new();
    let mut wd = 0;
    register(&mut listener, "/logs", true, &[("/logs", vec![])], &mut wd);
    let mut again = 0;
    register(&mut listener, "/other", true, &[("/other", vec![])], &mut again);
    assert_eq!(listener.watch_descriptors.len(), 1);
    assert_eq!(listener.get_descriptor(&1), Some(&"/other".to_string()));
}

#[test]
fn test_process_file_events_picks_up_new_file() {
    // file1 is there before the loop starts
    let mut listener = DirectoryListener::new();
    let mut wd = 0;
    let dirs = [("/tmp/logs", vec!["file1.txt"])];
    let (found, registered) = register(&mut listener, "/tmp/logs", true, &dirs, &mut wd);
    let mut state = begin_event_loop(registered).unwrap();
    let file1_path = "/tmp/logs/file1.txt".to_string();
    let file2_path = "/tmp/logs/file2.txt".to_string();

    let mut received_paths: Vec<String> = Vec::new();
    received_paths.extend(found);

    // file2 is created while the loop runs
    let reads = vec![
        Err(IoError::WouldBlock),
        Ok(vec![
            event(1, CREATE, Some("file2.txt")),
            event(1, MODIFY, Some("file2.txt")),
            event(1, CLOSE_WRITE, Some("file2.txt")),
        ]),
        Err(IoError::WouldBlock),
    ];
    for read in reads {
        let (next, action) = process_file_events(state, false);
        state = next;
        assert!(matches!(action, LoopAction::Read));
        match after_read(&listener, read) {
            LoopAction::Emit(tick) => {
                assert!(tick.pause_ms == 0 || tick.pause_ms == 100);
                received_paths.extend(tick.batch.into_paths());
                state = after_emit(true).unwrap();
            }
            _ => panic!("a read is followed by a batch"),
        }
    }

    // Check if the new file paths are in the received paths
    assert!(received_paths.contains(&file1_path));
    assert!(received_paths.contains(&file2_path));

    // Signal the thread to stop
    let (state, action) = process_file_events(state, true);
    assert_eq!(state, LoopState::Draining);
    assert!(matches!(action, LoopAction::Sleep(500)));
    let (state, action) = process_file_events(state, true);
    assert_eq!(state, LoopState::Stopped);
    assert!(matches!(action, LoopAction::Stop));
}

#[test]
fn loop_does_not_start_on_a_tree_that_was_not_registered() {
    assert_eq!(begin_event_loop(Ok(())), Ok(LoopState::Running));
    assert_eq!(
        begin_event_loop(Err(DirectoryListenerError::Io(IoError::Other))),
        Err(EventThreadError::DirectoryListener(DirectoryListenerError::Io(IoError::Other)))
    );
    assert_eq!(
        begin_event_loop(Err(DirectoryListenerError::Send)),
        Err(EventThreadError::DirectoryListener(DirectoryListenerError::Send))
    );
}

#[test]
fn loop_runs_until_terminated_and_stays_stopped() {
    let (state, action) = process_file_events(LoopState::Running, false);
    assert_eq!(state, LoopState::Running);
    assert!(matches!(action, LoopAction::Read));
    let (state, action) = process_file_events(LoopState::Draining, false);
    assert_eq!(state, LoopState::Stopped);
    assert!(matches!(action, LoopAction::Stop));
    let (state, action) = process_file_events(LoopState::Stopped, false);
    assert_eq!(state, LoopState::Stopped);
    assert!(matches!(action, LoopAction::Stop));
    assert_eq!(DRAIN_PAUSE_MS, 500);
}

fn tick_after(listener: &DirectoryListener, read: Result<Vec<FsEvent>, IoError>) -> Tick {
    match after_read(listener, read) {
        LoopAction::Emit(tick) => tick,
        _ => panic!("every tick ends with a batch"),
    }
}

#[test]
fn every_tick_ends_with_a_batch() {
    let listener = DirectoryListener::new();
    let idle = tick_after(&listener, Err(IoError::WouldBlock));
    assert!(idle.batch.is_empty());
    assert!(idle.created.is_empty());
    assert!(!idle.overflowed);
    assert_eq!(idle.pause_ms, IDLE_PAUSE_MS);
    assert_eq!(idle.pause_ms, 100);
    let failed = tick_after(&listener, Err(IoError::Other));
    assert!(failed.batch.is_empty());
    assert_eq!(failed.pause_ms, FAILURE_PAUSE_MS);
    assert_eq!(tick_after(&listener, Err(IoError::InvalidData)).pause_ms, 10000);
    let empty = tick_after(&listener, Ok(Vec::new()));
    assert!(empty.batch.is_empty());
    assert_eq!(empty.pause_ms, 0);
    let lost = tick_after(&listener, Ok(vec![event(-1, Q_OVERFLOW, None)]));
    assert!(lost.overflowed);
    assert!(lost.batch.is_empty());
}

#[test]
fn a_consumer_that_is_gone_ends_the_loop() {
    assert_eq!(after_emit(true), Ok(LoopState::Running));
    assert_eq!(after_emit(false), Err(EventThreadError::SendError));
}

#[test]
fn a_directory_created_later_is_watched_and_its_files_are_seen() {
    let mut listener = DirectoryListener::new();
    let mut wd = 0;
    register(&mut listener, "/logs", true, &[("/logs", vec![])], &mut wd);
    let tick = process_inotify_events(
        &listener,
        &vec![event(1, CREATE | 0x4000_0000, Some("subdir"))],
    );
    assert_eq!(tick.created, vec!["/logs/subdir".to_string()]);
    for created in tick.created {
        let dirs = [("/logs/subdir", vec![])];
        let (_, result) = register(&mut listener, &created, false, &dirs, &mut wd);
        assert_eq!(result, Ok(()));
    }
    let tick =
        process_inotify_events(&listener, &vec![event(2, CLOSE_WRITE, Some("file2.txt"))]);
    assert_eq!(tick.batch.into_paths(), vec!["/logs/subdir/file2.txt".to_string()]);
}
