use logged::file::{read_file, read_new_data, LogData};
use logged::ui::log_view::{Action, LogView, LogViewMessage};
use logged::ui::{View, Views};
use logged::watcher::{Event, EventKind, WatcherEvent};
use logged::{App, Message};

fn path(s: &str) -> String {
    s.to_string()
}

fn texts(doc: &LogData) -> Vec<String> {
    doc.contents.iter().map(|line| line.text.clone()).collect()
}

fn levels(doc: &LogData) -> Vec<Option<usize>> {
    doc.contents.iter().map(|line| line.level).collect()
}

fn paths(view: &LogView) -> Vec<String> {
    view.data.iter().map(|doc| doc.path.clone()).collect()
}

fn open(view: &mut LogView, p: &str, data: &str) -> Action {
    view.update(LogViewMessage::FileRead(Ok(read_file(path(p), data.to_string()))))
}

fn changed(kind: EventKind, touched: &[&str]) -> LogViewMessage {
    LogViewMessage::WatcherEvent(WatcherEvent::NewLog(Ok(Event {
        paths: touched.iter().map(|p| path(p)).collect(),
        kind,
    })))
}

#[test]
fn a_new_log_view_is_empty() {
    let view = LogView::default();
    assert!(!view.watching);
    assert!(view.data.is_empty());
    assert_eq!(view.selected_tab, None);
    assert!(!view.auto_scroll);
}

#[test]
fn the_program_starts_on_the_log_view() {
    assert_eq!(View::default(), View::Log);
    let views = Views::default();
    assert!(views.log.data.is_empty());
    let app = App::default();
    assert_eq!(app.view, View::Log);
    assert!(app.views.log.data.is_empty());
    assert_eq!(app.views.log.selected_tab, None);
}

#[test]
fn pick_file_asks_for_the_dialog() {
    let mut view = LogView::default();
    assert!(matches!(view.update(LogViewMessage::PickFile), Action::PickFile));
    assert!(view.data.is_empty());
    assert_eq!(view.selected_tab, None);
}

#[test]
fn a_picked_file_is_selected_and_read() {
    let mut view = LogView::default();
    match view.update(LogViewMessage::FilePicked(Some(path("a.log")))) {
        Action::ReadFile(p) => assert_eq!(p, "a.log"),
        other => panic!("unexpected: {other:?}"),
    }
    assert_eq!(view.selected_tab, Some(path("a.log")));
    assert!(view.data.is_empty());
}

#[test]
fn a_dialog_without_a_choice_changes_nothing() {
    let mut view = LogView::default();
    view.update(LogViewMessage::ChangeTab(path("a.log")));
    assert!(matches!(
        view.update(LogViewMessage::FilePicked(None)),
        Action::Nothing
    ));
    assert_eq!(view.selected_tab, Some(path("a.log")));
}

#[test]
fn a_file_that_was_read_becomes_the_last_document_classified() {
    let mut view = LogView::default();
    assert!(matches!(open(&mut view, "a.log", "x\n"), Action::Nothing));
    assert!(matches!(
        open(&mut view, "b.log", "ERROR boom\n  at frame\n"),
        Action::Nothing
    ));
    assert_eq!(paths(&view), vec!["a.log", "b.log"]);
    assert_eq!(texts(&view.data[1]), vec!["ERROR boom", "  at frame"]);
    assert_eq!(levels(&view.data[1]), vec![Some(4), Some(4)]);
    assert_eq!(view.data[1].position, 22);
}

#[test]
fn a_file_that_was_read_is_put_under_watch_when_the_coordinator_is_active() {
    let mut view = LogView::default();
    view.update(LogViewMessage::WatcherEvent(WatcherEvent::WatcherActive));
    assert!(view.watching);
    match open(&mut view, "a.log", "x\n") {
        Action::Watch(p) => assert_eq!(p, "a.log"),
        other => panic!("unexpected: {other:?}"),
    }
    view.update(LogViewMessage::WatcherEvent(WatcherEvent::WatcherInactive(
        path("gone"),
    )));
    assert!(!view.watching);
    assert!(matches!(open(&mut view, "b.log", "y\n"), Action::Nothing));
    assert_eq!(paths(&view), vec!["a.log", "b.log"]);
}

#[test]
fn a_failed_reading_is_shown_and_changes_nothing() {
    let mut view = LogView::default();
    open(&mut view, "a.log", "x\n");
    for message in [
        LogViewMessage::FileRead(Err(path("Unable to open file b.log"))),
        LogViewMessage::FileUpdated(Err(path("Unable to open file b.log"))),
        LogViewMessage::FileReopened(Err(path("Unable to open file b.log"))),
        LogViewMessage::WatcherEvent(WatcherEvent::NewLog(Err(path(
            "Unable to open file b.log",
        )))),
    ] {
        match view.update(message) {
            Action::DisplayError(why) => assert_eq!(why, "Unable to open file b.log"),
            other => panic!("unexpected: {other:?}"),
        }
        assert_eq!(paths(&view), vec!["a.log"]);
        assert_eq!(texts(&view.data[0]), vec!["x"]);
    }
}

#[test]
fn what_was_read_on_is_appended_to_the_document_of_that_file() {
    let mut view = LogView::default();
    open(&mut view, "a.log", "a1\n");
    open(&mut view, "b.log", "ERROR b1\n");
    let delta = read_new_data(path("b.log"), 9, "  b2\n".to_string());
    assert!(matches!(
        view.update(LogViewMessage::FileUpdated(Ok(delta))),
        Action::Nothing
    ));
    assert_eq!(texts(&view.data[0]), vec!["a1"]);
    assert_eq!(view.data[0].position, 3);
    assert_eq!(texts(&view.data[1]), vec!["ERROR b1", "  b2"]);
    assert_eq!(levels(&view.data[1]), vec![Some(4), Some(4)]);
    assert_eq!(view.data[1].position, 14);
}

#[test]
fn what_was_read_on_goes_to_the_first_document_of_that_file_only() {
    let mut view = LogView::default();
    open(&mut view, "a.log", "one\n");
    open(&mut view, "a.log", "one\n");
    let delta = read_new_data(path("a.log"), 4, "two\n".to_string());
    view.update(LogViewMessage::FileUpdated(Ok(delta)));
    assert_eq!(texts(&view.data[0]), vec!["one", "two"]);
    assert_eq!(texts(&view.data[1]), vec!["one"]);
}

#[test]
fn what_was_read_for_a_closed_document_is_dropped() {
    let mut view = LogView::default();
    open(&mut view, "a.log", "one\n");
    let delta = read_new_data(path("b.log"), 4, "two\n".to_string());
    assert!(matches!(
        view.update(LogViewMessage::FileUpdated(Ok(delta))),
        Action::Nothing
    ));
    let fresh = read_file(path("b.log"), "two\n".to_string());
    assert!(matches!(
        view.update(LogViewMessage::FileReopened(Ok(fresh))),
        Action::Nothing
    ));
    assert_eq!(paths(&view), vec!["a.log"]);
    assert_eq!(texts(&view.data[0]), vec!["one"]);
    assert_eq!(view.data[0].position, 4);
}

#[test]
fn a_file_read_anew_replaces_the_lines_of_its_document() {
    let mut view = LogView::default();
    open(&mut view, "a.log", "old 1\nold 2\nold 3\n");
    open(&mut view, "b.log", "keep\n");
    let fresh = read_file(path("a.log"), "WARN new\n".to_string());
    assert!(matches!(
        view.update(LogViewMessage::FileReopened(Ok(fresh))),
        Action::Nothing
    ));
    assert_eq!(paths(&view), vec!["a.log", "b.log"]);
    assert_eq!(texts(&view.data[0]), vec!["WARN new"]);
    assert_eq!(levels(&view.data[0]), vec![Some(3)]);
    assert_eq!(view.data[0].position, 9);
    assert_eq!(texts(&view.data[1]), vec!["keep"]);
}

#[test]
fn change_tab_selects_the_tab() {
    let mut view = LogView::default();
    open(&mut view, "a.log", "x\n");
    assert!(matches!(
        view.update(LogViewMessage::ChangeTab(path("a.log"))),
        Action::Nothing
    ));
    assert_eq!(view.selected_tab, Some(path("a.log")));
    assert!(view.shows(&view.data[0]));
    view.update(LogViewMessage::ChangeTab(path("other.log")));
    assert!(!view.shows(&view.data[0]));
}

#[test]
fn closing_a_tab_removes_its_document_and_shows_the_first_left() {
    let mut view = LogView::default();
    open(&mut view, "a.log", "a\n");
    open(&mut view, "b.log", "b\n");
    open(&mut view, "c.log", "c\n");
    view.update(LogViewMessage::ChangeTab(path("c.log")));
    assert!(matches!(
        view.update(LogViewMessage::CloseTab(path("b.log"))),
        Action::Nothing
    ));
    assert_eq!(paths(&view), vec!["a.log", "c.log"]);
    assert_eq!(view.selected_tab, Some(path("a.log")));
    view.update(LogViewMessage::CloseTab(path("a.log")));
    assert_eq!(paths(&view), vec!["c.log"]);
    assert_eq!(view.selected_tab, Some(path("c.log")));
    view.update(LogViewMessage::CloseTab(path("c.log")));
    assert!(view.data.is_empty());
    assert_eq!(view.selected_tab, None);
}

#[test]
fn closing_a_tab_that_is_not_there_changes_nothing() {
    let mut view = LogView::default();
    open(&mut view, "a.log", "a\n");
    view.update(LogViewMessage::ChangeTab(path("a.log")));
    view.update(LogViewMessage::CloseTab(path("z.log")));
    assert_eq!(paths(&view), vec!["a.log"]);
    assert_eq!(view.selected_tab, Some(path("a.log")));
}

#[test]
fn closing_a_tab_removes_only_the_first_document_of_that_file() {
    let mut view = LogView::default();
    open(&mut view, "a.log", "first\n");
    open(&mut view, "a.log", "second\n");
    view.update(LogViewMessage::CloseTab(path("a.log")));
    assert_eq!(paths(&view), vec!["a.log"]);
    assert_eq!(texts(&view.data[0]), vec!["second"]);
}

#[test]
fn toggle_scroll_flips_and_snaps_when_switched_on() {
    let mut view = LogView::default();
    assert!(matches!(
        view.update(LogViewMessage::ToggleScroll),
        Action::SnapToEnd
    ));
    assert!(view.auto_scroll);
    assert!(matches!(
        view.update(LogViewMessage::ToggleScroll),
        Action::Nothing
    ));
    assert!(!view.auto_scroll);
}

#[test]
fn a_modified_file_is_read_on_from_its_documents_offset() {
    let mut view = LogView::default();
    open(&mut view, "a.log", "a\n");
    open(&mut view, "b.log", "bb\nbb\n");
    match view.update(changed(EventKind::Modify, &["x.log", "b.log"])) {
        Action::ReadNewData(p, position) => {
            assert_eq!(p, "b.log");
            assert_eq!(position, 6);
        }
        other => panic!("unexpected: {other:?}"),
    }
    match view.update(changed(EventKind::Rename, &["a.log"])) {
        Action::ReadNewData(p, position) => {
            assert_eq!(p, "a.log");
            assert_eq!(position, 2);
        }
        other => panic!("unexpected: {other:?}"),
    }
    assert_eq!(paths(&view), vec!["a.log", "b.log"]);
}

#[test]
fn of_several_documents_touched_the_first_tab_is_read() {
    let mut view = LogView::default();
    open(&mut view, "a.log", "a\n");
    open(&mut view, "b.log", "bb\n");
    match view.update(changed(EventKind::Modify, &["b.log", "a.log"])) {
        Action::ReadNewData(p, position) => {
            assert_eq!(p, "a.log");
            assert_eq!(position, 2);
        }
        other => panic!("unexpected: {other:?}"),
    }
}

#[test]
fn other_notifications_call_for_nothing() {
    let mut view = LogView::default();
    open(&mut view, "a.log", "a\n");
    for kind in [EventKind::Create, EventKind::Remove, EventKind::Other] {
        assert!(matches!(
            view.update(changed(kind, &["a.log"])),
            Action::Nothing
        ));
    }
    assert!(matches!(
        view.update(changed(EventKind::Modify, &["unknown.log"])),
        Action::Nothing
    ));
    assert!(matches!(
        view.update(changed(EventKind::Modify, &[])),
        Action::Nothing
    ));
    assert!(matches!(
        view.update(LogViewMessage::WatcherEvent(WatcherEvent::WatchResult(
            path("a.log"),
            Ok(())
        ))),
        Action::Nothing
    ));
    assert_eq!(paths(&view), vec!["a.log"]);
}

#[test]
fn a_command_that_failed_is_shown_and_changes_nothing() {
    let mut view = LogView::default();
    view.update(LogViewMessage::WatcherEvent(WatcherEvent::WatcherActive));
    open(&mut view, "a.log", "a\n");
    view.update(LogViewMessage::ChangeTab(path("a.log")));
    match view.update(LogViewMessage::WatcherEvent(WatcherEvent::WatchResult(
        path("a.log"),
        Err(path("Unable to watch file: no such file")),
    ))) {
        Action::DisplayError(why) => assert_eq!(why, "Unable to watch file: no such file"),
        other => panic!("unexpected: {other:?}"),
    }
    assert!(view.watching);
    assert_eq!(paths(&view), vec!["a.log"]);
    assert_eq!(texts(&view.data[0]), vec!["a"]);
    assert_eq!(view.data[0].position, 2);
    assert_eq!(view.selected_tab, Some(path("a.log")));
}

#[test]
fn closing_a_tab_ends_the_watch_of_its_file() {
    let mut view = LogView::default();
    view.update(LogViewMessage::WatcherEvent(WatcherEvent::WatcherActive));
    open(&mut view, "a.log", "a\n");
    open(&mut view, "b.log", "bb\n");
    open(&mut view, "c.log", "ccc\n");
    match view.update(LogViewMessage::CloseTab(path("b.log"))) {
        Action::Unwatch(p) => assert_eq!(p, "b.log"),
        other => panic!("unexpected: {other:?}"),
    }
    assert_eq!(paths(&view), vec!["a.log", "c.log"]);
    assert_eq!(texts(&view.data[0]), vec!["a"]);
    assert_eq!(view.data[0].position, 2);
    assert_eq!(texts(&view.data[1]), vec!["ccc"]);
    assert_eq!(view.data[1].position, 4);
    assert_eq!(view.selected_tab, Some(path("a.log")));
    assert!(view.watching);
}

#[test]
fn closing_a_tab_that_is_not_there_ends_no_watch() {
    let mut view = LogView::default();
    view.update(LogViewMessage::WatcherEvent(WatcherEvent::WatcherActive));
    open(&mut view, "a.log", "a\n");
    assert!(matches!(
        view.update(LogViewMessage::CloseTab(path("z.log"))),
        Action::Nothing
    ));
    assert_eq!(paths(&view), vec!["a.log"]);
}

#[test]
fn a_file_stays_under_watch_while_another_document_of_it_is_open() {
    let mut view = LogView::default();
    view.update(LogViewMessage::WatcherEvent(WatcherEvent::WatcherActive));
    open(&mut view, "a.log", "first\n");
    open(&mut view, "a.log", "second\n");
    assert!(matches!(
        view.update(LogViewMessage::CloseTab(path("a.log"))),
        Action::Nothing
    ));
    assert_eq!(paths(&view), vec!["a.log"]);
    match view.update(LogViewMessage::CloseTab(path("a.log"))) {
        Action::Unwatch(p) => assert_eq!(p, "a.log"),
        other => panic!("unexpected: {other:?}"),
    }
    assert!(view.data.is_empty());
}

#[test]
fn find_gives_the_first_document_of_a_path() {
    let mut view = LogView::default();
    open(&mut view, "a.log", "a\n");
    open(&mut view, "b.log", "b\n");
    open(&mut view, "b.log", "b\n");
    assert_eq!(view.find(&path("a.log")), Some(0));
    assert_eq!(view.find(&path("b.log")), Some(1));
    assert_eq!(view.find(&path("c.log")), None);
}

#[test]
fn the_program_hands_log_messages_to_the_log_view() {
    let mut app = App::default();
    match app.update(Message::LogViewMessage(LogViewMessage::FilePicked(Some(
        path("a.log"),
    )))) {
        Action::ReadFile(p) => assert_eq!(p, "a.log"),
        other => panic!("unexpected: {other:?}"),
    }
    assert_eq!(app.views.log.selected_tab, Some(path("a.log")));
    assert_eq!(app.view, View::Log);
}

#[test]
fn the_program_drops_other_messages() {
    let mut app = App::default();
    app.update(Message::LogViewMessage(LogViewMessage::ToggleScroll));
    assert!(matches!(
        app.update(Message::SettingsViewMessage),
        Action::Nothing
    ));
    assert!(app.views.log.auto_scroll);
    assert!(app.views.log.data.is_empty());
    assert_eq!(app.view, View::Log);
}
