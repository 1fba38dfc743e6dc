use logged::watcher::{
    begin, start_watcher, watch, Directive, Event, EventKind, FileWatcher, Signal, State,
    WatcherCommand, WatcherEvent,
};

fn path(s: &str) -> String {
    s.to_string()
}

fn active() -> State {
    let (state, _) = watch(State::Inactive, Signal::Started(Ok(())));
    state
}

fn watching(state: &State, p: &str) -> bool {
    match state {
        State::Active(watcher) => watcher.is_watching(&path(p)),
        State::Inactive => false,
    }
}

#[test]
fn the_coordinator_begins_inactive_with_the_watch_to_be_started() {
    let (state, directive) = begin();
    assert!(matches!(state, State::Inactive));
    assert_eq!(directive, Directive::Start);
}

#[test]
fn after_a_failed_start_the_loop_rests() {
    let (state, _) = begin();
    let (state, _) = watch(state, Signal::Started(Err(path("denied"))));
    assert_eq!(state.directive(), Directive::Rest);
    assert_eq!(State::Inactive.directive(), Directive::Rest);
}

#[test]
fn an_active_coordinator_is_to_listen() {
    assert_eq!(active().directive(), Directive::Listen);
}

#[test]
fn start_watcher_enters_the_active_state_with_nothing_watched() {
    match start_watcher(Ok(())) {
        Ok(State::Active(watcher)) => {
            assert!(!watcher.is_watching(&path("a.log")));
        }
        other => panic!("not active: {other:?}"),
    }
}

#[test]
fn start_watcher_hands_the_reason_back_on_failure() {
    match start_watcher(Err(path("no inotify"))) {
        Err(why) => assert_eq!(why, "no inotify"),
        Ok(state) => panic!("started: {state:?}"),
    }
}

#[test]
fn a_start_that_succeeded_is_announced() {
    let (state, event) = watch(State::Inactive, Signal::Started(Ok(())));
    assert!(matches!(state, State::Active(_)));
    assert!(matches!(event, Some(WatcherEvent::WatcherActive)));
}

#[test]
fn a_start_that_failed_leaves_the_coordinator_inactive() {
    let (state, event) = watch(State::Inactive, Signal::Started(Err(path("denied"))));
    assert!(matches!(state, State::Inactive));
    match event {
        Some(WatcherEvent::WatcherInactive(why)) => assert_eq!(why, "denied"),
        other => panic!("unexpected: {other:?}"),
    }
    let (state, event) = watch(state, Signal::Started(Ok(())));
    assert!(matches!(state, State::Active(_)));
    assert!(matches!(event, Some(WatcherEvent::WatcherActive)));
}

#[test]
fn a_notification_is_passed_up_as_it_is() {
    let notification = Event {
        paths: vec![path("a.log"), path("b.log")],
        kind: EventKind::Modify,
    };
    let (state, event) = watch(active(), Signal::Changed(Ok(notification)));
    assert!(matches!(state, State::Active(_)));
    match event {
        Some(WatcherEvent::NewLog(Ok(event))) => {
            assert_eq!(event.paths, vec!["a.log", "b.log"]);
            assert_eq!(event.kind, EventKind::Modify);
        }
        other => panic!("unexpected: {other:?}"),
    }
}

#[test]
fn a_failed_notification_is_passed_up_and_the_watch_goes_on() {
    let (state, event) = watch(active(), Signal::Changed(Err(path("overflow"))));
    assert!(matches!(state, State::Active(_)));
    match event {
        Some(WatcherEvent::NewLog(Err(why))) => assert_eq!(why, "overflow"),
        other => panic!("unexpected: {other:?}"),
    }
}

#[test]
fn a_watch_that_succeeded_puts_the_path_under_watch() {
    let (state, event) = watch(
        active(),
        Signal::Commanded(WatcherCommand::Watch(path("a.log")), Ok(())),
    );
    assert!(watching(&state, "a.log"));
    assert!(!watching(&state, "b.log"));
    match event {
        Some(WatcherEvent::WatchResult(p, Ok(()))) => assert_eq!(p, "a.log"),
        other => panic!("unexpected: {other:?}"),
    }
}

#[test]
fn an_unwatch_that_succeeded_takes_the_path_out() {
    let (state, _) = watch(
        active(),
        Signal::Commanded(WatcherCommand::Watch(path("a.log")), Ok(())),
    );
    let (state, _) = watch(
        state,
        Signal::Commanded(WatcherCommand::Watch(path("b.log")), Ok(())),
    );
    let (state, event) = watch(
        state,
        Signal::Commanded(WatcherCommand::Unwatch(path("a.log")), Ok(())),
    );
    assert!(!watching(&state, "a.log"));
    assert!(watching(&state, "b.log"));
    match event {
        Some(WatcherEvent::WatchResult(p, Ok(()))) => assert_eq!(p, "a.log"),
        other => panic!("unexpected: {other:?}"),
    }
}

#[test]
fn a_command_that_failed_changes_nothing_and_is_reported() {
    let (state, event) = watch(
        active(),
        Signal::Commanded(WatcherCommand::Watch(path("a.log")), Err(path("no such file"))),
    );
    assert!(matches!(state, State::Active(_)));
    assert!(!watching(&state, "a.log"));
    match event {
        Some(WatcherEvent::WatchResult(p, Err(why))) => {
            assert_eq!(p, "a.log");
            assert_eq!(why, "no such file");
        }
        other => panic!("unexpected: {other:?}"),
    }
    let (state, _) = watch(
        state,
        Signal::Commanded(WatcherCommand::Watch(path("a.log")), Ok(())),
    );
    let (state, event) = watch(
        state,
        Signal::Commanded(WatcherCommand::Unwatch(path("a.log")), Err(path("busy"))),
    );
    assert!(watching(&state, "a.log"));
    match event {
        Some(WatcherEvent::WatchResult(p, Err(why))) => {
            assert_eq!(p, "a.log");
            assert_eq!(why, "busy");
        }
        other => panic!("unexpected: {other:?}"),
    }
}

#[test]
fn watching_a_path_twice_and_unwatching_once_leaves_it_out() {
    let mut watcher = FileWatcher::new();
    watcher.handle_command(WatcherCommand::Watch(path("a.log")), Ok(()));
    watcher.handle_command(WatcherCommand::Watch(path("a.log")), Ok(()));
    assert!(watcher.is_watching(&path("a.log")));
    watcher.handle_command(WatcherCommand::Unwatch(path("a.log")), Ok(()));
    assert!(!watcher.is_watching(&path("a.log")));
}

#[test]
fn unwatching_a_path_that_is_not_watched_changes_nothing() {
    let mut watcher = FileWatcher::new();
    watcher.handle_command(WatcherCommand::Watch(path("a.log")), Ok(()));
    let event = watcher.handle_command(WatcherCommand::Unwatch(path("b.log")), Ok(()));
    assert!(watcher.is_watching(&path("a.log")));
    assert!(!watcher.is_watching(&path("b.log")));
    match event {
        WatcherEvent::WatchResult(p, Ok(())) => assert_eq!(p, "b.log"),
        other => panic!("unexpected: {other:?}"),
    }
}

#[test]
fn signals_that_do_not_belong_to_the_state_are_dropped() {
    let (state, event) = watch(
        State::Inactive,
        Signal::Commanded(WatcherCommand::Watch(path("a.log")), Ok(())),
    );
    assert!(matches!(state, State::Inactive));
    assert!(event.is_none());
    let notification = Event {
        paths: vec![path("a.log")],
        kind: EventKind::Create,
    };
    let (state, event) = watch(state, Signal::Changed(Ok(notification)));
    assert!(matches!(state, State::Inactive));
    assert!(event.is_none());

    let (state, _) = watch(
        active(),
        Signal::Commanded(WatcherCommand::Watch(path("a.log")), Ok(())),
    );
    let (state, event) = watch(state, Signal::Started(Err(path("late"))));
    assert!(watching(&state, "a.log"));
    assert!(event.is_none());
    let (state, event) = watch(state, Signal::Started(Ok(())));
    assert!(watching(&state, "a.log"));
    assert!(event.is_none());
}
