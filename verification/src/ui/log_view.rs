//! The log view: the documents that are open, the one that is shown, and
//! what each message does to them.
//!
//! The view does no outside work. [`LogView::update`] changes the state and
//! answers with an [`Action`] for the program around it to carry out; what
//! comes of the action returns as a later message.

use crate::file::{appended, refiltered, reloaded, DocView, LogData};
use crate::watcher::{
    string_views, Event, EventKind, EventView, WatcherEvent, WatcherEventView,
};
use vstd::prelude::*;

verus! {

/// The state of the log view.
#[derive(Debug)]
pub struct LogView {
    /// Whether the watch coordinator is active and takes commands.
    pub watching: bool,
    /// The open documents, in the order of their tabs.
    pub data: Vec<LogData>,
    /// The path of the document that is shown.
    pub selected_tab: Option<String>,
    /// Whether the view keeps to the end of the document.
    pub auto_scroll: bool,
}

/// What happened, as far as the log view is concerned.
#[derive(Debug)]
pub enum LogViewMessage {
    /// The user asks to open a file.
    PickFile,
    /// The user has chosen a file, or none.
    FilePicked(Option<String>),
    /// The watch coordinator reports.
    WatcherEvent(WatcherEvent),
    /// A file was read whole for the first time.
    FileRead(Result<LogData, String>),
    /// A file was read on from its document's offset.
    FileUpdated(Result<LogData, String>),
    /// A file that had become shorter than its document's offset was read
    /// anew from the start.
    FileReopened(Result<LogData, String>),
    /// The user selects a tab.
    ChangeTab(String),
    /// The user closes a tab.
    CloseTab(String),
    /// The user switches following the end on or off.
    ToggleScroll,
}

/// What the program has to do after an update.
#[derive(Debug)]
pub enum Action {
    /// Nothing.
    Nothing,
    /// Let the user choose a file, and report with `FilePicked`.
    PickFile,
    /// Read the file whole, and report with `FileRead`.
    ReadFile(String),
    /// Read the file on from the offset, and report with `FileUpdated`; or,
    /// where the file has become shorter than the offset, read it anew and
    /// report with `FileReopened`.
    ReadNewData(String, u64),
    /// Ask the watch coordinator to watch the file.
    Watch(String),
    /// Ask the watch coordinator to watch the file no longer.
    Unwatch(String),
    /// Scroll to the end of the document.
    SnapToEnd,
    /// Show the message to the user.
    DisplayError(String),
}

/// The mathematical value of a [`LogView`].
pub struct LogViewState {
    pub watching: bool,
    pub docs: Seq<DocView>,
    pub selected: Option<Seq<char>>,
    pub auto_scroll: bool,
}

/// The mathematical value of an [`Action`].
pub enum ActionView {
    Nothing,
    PickFile,
    ReadFile(Seq<char>),
    ReadNewData(Seq<char>, u64),
    Watch(Seq<char>),
    Unwatch(Seq<char>),
    SnapToEnd,
    DisplayError(Seq<char>),
}

/// The mathematical value of a [`LogViewMessage`].
pub enum MessageView {
    PickFile,
    FilePicked(Option<Seq<char>>),
    WatcherEvent(WatcherEventView),
    FileRead(Result<DocView, Seq<char>>),
    FileUpdated(Result<DocView, Seq<char>>),
    FileReopened(Result<DocView, Seq<char>>),
    ChangeTab(Seq<char>),
    CloseTab(Seq<char>),
    ToggleScroll,
}

/// The value of a reading: the document read, or the text that says why
/// there is none.
pub open spec fn reading_view(read: Result<LogData, String>) -> Result<DocView, Seq<char>> {
    match read {
        Ok(data) => Ok(data@),
        Err(why) => Err(why@),
    }
}

impl View for LogViewMessage {
    type V = MessageView;

    open spec fn view(&self) -> MessageView {
        match self {
            LogViewMessage::PickFile => MessageView::PickFile,
            LogViewMessage::FilePicked(file) => MessageView::FilePicked(option_view(*file)),
            LogViewMessage::WatcherEvent(event) => MessageView::WatcherEvent(event@),
            LogViewMessage::FileRead(read) => MessageView::FileRead(reading_view(*read)),
            LogViewMessage::FileUpdated(read) => MessageView::FileUpdated(reading_view(*read)),
            LogViewMessage::FileReopened(read) => MessageView::FileReopened(reading_view(*read)),
            LogViewMessage::ChangeTab(tab) => MessageView::ChangeTab(tab@),
            LogViewMessage::CloseTab(tab) => MessageView::CloseTab(tab@),
            LogViewMessage::ToggleScroll => MessageView::ToggleScroll,
        }
    }
}

/// The values of a sequence of documents.
pub open spec fn doc_views(docs: Seq<LogData>) -> Seq<DocView> {
    docs.map_values(|d: LogData| d@)
}

/// The value of an optional string.
pub open spec fn option_view(s: Option<String>) -> Option<Seq<char>> {
    match s {
        Some(s) => Some(s@),
        None => None,
    }
}

impl View for LogView {
    type V = LogViewState;

    open spec fn view(&self) -> LogViewState {
        LogViewState {
            watching: self.watching,
            docs: doc_views(self.data@),
            selected: option_view(self.selected_tab),
            auto_scroll: self.auto_scroll,
        }
    }
}

impl View for Action {
    type V = ActionView;

    open spec fn view(&self) -> ActionView {
        match self {
            Action::Nothing => ActionView::Nothing,
            Action::PickFile => ActionView::PickFile,
            Action::ReadFile(path) => ActionView::ReadFile(path@),
            Action::ReadNewData(path, position) => ActionView::ReadNewData(path@, *position),
            Action::Watch(path) => ActionView::Watch(path@),
            Action::Unwatch(path) => ActionView::Unwatch(path@),
            Action::SnapToEnd => ActionView::SnapToEnd,
            Action::DisplayError(why) => ActionView::DisplayError(why@),
        }
    }
}

/// The first document at or after `from` whose file is `path`.
pub open spec fn document_at(docs: Seq<DocView>, path: Seq<char>, from: int) -> Option<int>
    decreases docs.len() - from,
{
    if from < 0 || from >= docs.len() {
        None
    } else if docs[from].path == path {
        Some(from)
    } else {
        document_at(docs, path, from + 1)
    }
}

/// The first document at or after `from` whose file is among `paths`.
pub open spec fn document_among(docs: Seq<DocView>, paths: Seq<Seq<char>>, from: int) -> Option<
    int,
>
    decreases docs.len() - from,
{
    if from < 0 || from >= docs.len() {
        None
    } else if paths.contains(docs[from].path) {
        Some(from)
    } else {
        document_among(docs, paths, from + 1)
    }
}

/// The path of the first document, if there is one.
pub open spec fn first_path(docs: Seq<DocView>) -> Option<Seq<char>> {
    if docs.len() > 0 {
        Some(docs[0].path)
    } else {
        None
    }
}

/// What a change notification calls for. A file that was modified or renamed
/// is read on, if one of the open documents is of it: the first such
/// document, in the order of the tabs, gives the path and the offset. Any
/// other notification calls for nothing.
pub open spec fn after_file_event(state: LogViewState, event: EventView) -> ActionView {
    if event.kind == EventKind::Modify || event.kind == EventKind::Rename {
        match document_among(state.docs, event.paths, 0) {
            Some(i) => ActionView::ReadNewData(state.docs[i].path, state.docs[i].position),
            None => ActionView::Nothing,
        }
    } else {
        ActionView::Nothing
    }
}

/// The state after a report of the watch coordinator, and what it calls for.
/// A notification that could not be had and a command that failed are shown
/// to the user; a command that succeeded calls for nothing.
pub open spec fn after_watcher_event(state: LogViewState, event: WatcherEventView) -> (
    LogViewState,
    ActionView,
) {
    match event {
        WatcherEventView::WatcherActive => (
            LogViewState { watching: true, ..state },
            ActionView::Nothing,
        ),
        WatcherEventView::WatcherInactive(_) => (
            LogViewState { watching: false, ..state },
            ActionView::Nothing,
        ),
        WatcherEventView::NewLog(Ok(event)) => (state, after_file_event(state, event)),
        WatcherEventView::NewLog(Err(why)) => (state, ActionView::DisplayError(why)),
        WatcherEventView::WatchResult(_, Ok(())) => (state, ActionView::Nothing),
        WatcherEventView::WatchResult(_, Err(why)) => (state, ActionView::DisplayError(why)),
    }
}

/// The state after `message`, and what the message calls for.
///
/// - A file that was read for the first time becomes a new last document,
///   classified, and is put under watch if the coordinator is active.
/// - What was read on from a file is appended to the first document of that
///   file; a file read anew replaces that document's lines. Where no
///   document is of that file, what was read is dropped.
/// - A closed tab takes the first document of that file away, and the first
///   document left is shown. If the coordinator is active and no document of
///   that file is left, the file's watch is ended. A tab that is not there
///   changes nothing.
/// - A failure is shown to the user and changes nothing.
pub open spec fn after_update(state: LogViewState, message: MessageView) -> (
    LogViewState,
    ActionView,
) {
    match message {
        MessageView::PickFile => (state, ActionView::PickFile),
        MessageView::FilePicked(Some(path)) => (
            LogViewState { selected: Some(path), ..state },
            ActionView::ReadFile(path),
        ),
        MessageView::FilePicked(None) => (state, ActionView::Nothing),
        MessageView::WatcherEvent(event) => after_watcher_event(state, event),
        MessageView::FileRead(Ok(data)) => (
            LogViewState { docs: state.docs.push(refiltered(data)), ..state },
            if state.watching {
                ActionView::Watch(data.path)
            } else {
                ActionView::Nothing
            },
        ),
        MessageView::FileUpdated(Ok(update)) => match document_at(state.docs, update.path, 0) {
            Some(i) => (
                LogViewState {
                    docs: state.docs.update(i, appended(state.docs[i], update)),
                    ..state
                },
                ActionView::Nothing,
            ),
            None => (state, ActionView::Nothing),
        },
        MessageView::FileReopened(Ok(fresh)) => match document_at(state.docs, fresh.path, 0) {
            Some(i) => (
                LogViewState {
                    docs: state.docs.update(i, reloaded(state.docs[i], fresh)),
                    ..state
                },
                ActionView::Nothing,
            ),
            None => (state, ActionView::Nothing),
        },
        MessageView::FileRead(Err(why)) => (state, ActionView::DisplayError(why)),
        MessageView::FileUpdated(Err(why)) => (state, ActionView::DisplayError(why)),
        MessageView::FileReopened(Err(why)) => (state, ActionView::DisplayError(why)),
        MessageView::ChangeTab(tab) => (
            LogViewState { selected: Some(tab), ..state },
            ActionView::Nothing,
        ),
        MessageView::CloseTab(tab) => match document_at(state.docs, tab, 0) {
            Some(i) => (
                LogViewState {
                    docs: state.docs.remove(i),
                    selected: first_path(state.docs.remove(i)),
                    ..state
                },
                if state.watching && document_at(state.docs.remove(i), tab, 0) is None {
                    ActionView::Unwatch(tab)
                } else {
                    ActionView::Nothing
                },
            ),
            None => (state, ActionView::Nothing),
        },
        MessageView::ToggleScroll => (
            LogViewState { auto_scroll: !state.auto_scroll, ..state },
            if !state.auto_scroll {
                ActionView::SnapToEnd
            } else {
                ActionView::Nothing
            },
        ),
    }
}

/// A document found by [`document_at`] is of the path asked for, and no
/// document before it is.
pub proof fn lemma_document_at(docs: Seq<DocView>, path: Seq<char>, from: int)
    requires
        0 <= from,
    ensures
        match document_at(docs, path, from) {
            Some(i) => {
                &&& from <= i < docs.len()
                &&& docs[i].path == path
                &&& forall|j: int| from <= j < i ==> (#[trigger] docs[j]).path != path
            },
            None => forall|j: int| from <= j < docs.len() ==> (#[trigger] docs[j]).path != path,
        },
    decreases docs.len() - from,
{
    if from < docs.len() && docs[from].path != path {
        lemma_document_at(docs, path, from + 1);
    }
}

/// The state that a log view starts in: no document, nothing selected, the
/// coordinator inactive, the end not followed.
pub open spec fn initial_state() -> LogViewState {
    LogViewState { watching: false, docs: Seq::empty(), selected: None, auto_scroll: false }
}

/// A document found by [`document_among`] is of one of the paths asked for,
/// and no document before it is.
pub proof fn lemma_document_among(docs: Seq<DocView>, paths: Seq<Seq<char>>, from: int)
    requires
        0 <= from,
    ensures
        match document_among(docs, paths, from) {
            Some(i) => {
                &&& from <= i < docs.len()
                &&& paths.contains(docs[i].path)
                &&& forall|j: int| from <= j < i ==> !paths.contains((#[trigger] docs[j]).path)
            },
            None => forall|j: int|
                from <= j < docs.len() ==> !paths.contains((#[trigger] docs[j]).path),
        },
    decreases docs.len() - from,
{
    if from < docs.len() && !paths.contains(docs[from].path) {
        lemma_document_among(docs, paths, from + 1);
    }
}

impl Default for LogView {
    fn default() -> (r: Self)
        ensures
            r@ == initial_state(),
    {
        let r = Self { watching: false, data: Vec::new(), selected_tab: None, auto_scroll: false };
        assert(r@.docs =~= Seq::empty());
        r
    }
}

/// Whether `path` is among `paths`.
fn among(paths: &Vec<String>, path: &String) -> (r: bool)
    ensures
        r == string_views(paths@).contains(path@),
{
    let ghost views = string_views(paths@);
    let mut i: usize = 0;
    while i < paths.len()
        invariant
            i <= paths.len(),
            views == string_views(paths@),
            forall|j: int| 0 <= j < i ==> views[j] != path@,
        decreases paths.len() - i,
    {
        if paths[i] == *path {
            assert(views[i as int] == path@);
            return true;
        }
        i += 1;
    }
    false
}

impl LogView {
    /// Whether `doc` is the document that is shown.
    pub fn shows(&self, doc: &LogData) -> (r: bool)
        ensures
            r == (self@.selected == Some(doc@.path)),
    {
        match &self.selected_tab {
            Some(tab) => *tab == doc.path,
            None => false,
        }
    }

    /// The place of the first document whose file is `path`.
    pub fn find(&self, path: &String) -> (r: Option<usize>)
        ensures
            match r {
                Some(i) => document_at(self@.docs, path@, 0) == Some(i as int) && i
                    < self.data.len(),
                None => document_at(self@.docs, path@, 0) is None,
            },
    {
        let mut i: usize = 0;
        while i < self.data.len()
            invariant
                i <= self.data.len(),
                document_at(self@.docs, path@, 0) == document_at(self@.docs, path@, i as int),
            decreases self.data.len() - i,
        {
            if self.data[i].path == *path {
                return Some(i);
            }
            i += 1;
        }
        None
    }

    /// Takes in a message: changes the state as the message says and
    /// answers with what the program has to do.
    pub fn update(&mut self, message: LogViewMessage) -> (r: Action)
        ensures
            (final(self)@, r@) == after_update(old(self)@, message@),
    {
        match message {
            LogViewMessage::WatcherEvent(event) => self.handle_watcher_event(event),
            LogViewMessage::PickFile => Action::PickFile,
            LogViewMessage::FilePicked(file) => match file {
                Some(path) => {
                    self.selected_tab = Some(path.clone());
                    Action::ReadFile(path)
                },
                None => Action::Nothing,
            },
            LogViewMessage::FileRead(read) => match read {
                Ok(data) => {
                    let mut data = data;
                    let action = if self.watching {
                        Action::Watch(data.path.clone())
                    } else {
                        Action::Nothing
                    };
                    data.filter_all();
                    self.data.push(data);
                    assert(self@.docs =~= old(self)@.docs.push(data@));
                    action
                },
                Err(why) => Action::DisplayError(why),
            },
            LogViewMessage::FileUpdated(read) => match read {
                Ok(update) => {
                    match self.find(&update.path) {
                        Some(i) => {
                            let doc = &mut self.data[i];
                            doc.append(update);
                            assert(self@.docs =~= old(self)@.docs.update(
                                i as int,
                                appended(old(self)@.docs[i as int], update@),
                            ));
                        },
                        None => {},
                    }
                    Action::Nothing
                },
                Err(why) => Action::DisplayError(why),
            },
            LogViewMessage::FileReopened(read) => match read {
                Ok(fresh) => {
                    match self.find(&fresh.path) {
                        Some(i) => {
                            let doc = &mut self.data[i];
                            doc.reload(fresh);
                            assert(self@.docs =~= old(self)@.docs.update(
                                i as int,
                                reloaded(old(self)@.docs[i as int], fresh@),
                            ));
                        },
                        None => {},
                    }
                    Action::Nothing
                },
                Err(why) => Action::DisplayError(why),
            },
            LogViewMessage::ChangeTab(tab) => {
                self.selected_tab = Some(tab);
                Action::Nothing
            },
            LogViewMessage::CloseTab(tab) => {
                match self.find(&tab) {
                    Some(i) => {
                        self.data.remove(i);
                        assert(self@.docs =~= old(self)@.docs.remove(i as int));
                        self.selected_tab = if self.data.len() > 0 {
                            Some(self.data[0].path.clone())
                        } else {
                            None
                        };
                        if self.watching && self.find(&tab).is_none() {
                            Action::Unwatch(tab)
                        } else {
                            Action::Nothing
                        }
                    },
                    None => Action::Nothing,
                }
            },
            LogViewMessage::ToggleScroll => {
                self.auto_scroll = !self.auto_scroll;
                if self.auto_scroll {
                    Action::SnapToEnd
                } else {
                    Action::Nothing
                }
            },
        }
    }

    /// Takes in a report of the watch coordinator.
    pub fn handle_watcher_event(&mut self, event: WatcherEvent) -> (r: Action)
        ensures
            (final(self)@, r@) == after_watcher_event(old(self)@, event@),
    {
        match event {
            WatcherEvent::WatcherActive => {
                self.watching = true;
                Action::Nothing
            },
            WatcherEvent::WatcherInactive(_) => {
                self.watching = false;
                Action::Nothing
            },
            WatcherEvent::NewLog(event) => match event {
                Ok(event) => self.handle_file_event(event),
                Err(why) => Action::DisplayError(why),
            },
            WatcherEvent::WatchResult(_, outcome) => match outcome {
                Ok(()) => Action::Nothing,
                Err(why) => Action::DisplayError(why),
            },
        }
    }

    /// Decides what a change notification calls for.
    pub fn handle_file_event(&self, event: Event) -> (r: Action)
        ensures
            r@ == after_file_event(self@, event@),
    {
        match event.kind {
            EventKind::Modify | EventKind::Rename => {
                let mut i: usize = 0;
                while i < self.data.len()
                    invariant
                        i <= self.data.len(),
                        event.kind == EventKind::Modify || event.kind == EventKind::Rename,
                        document_among(self@.docs, event@.paths, 0) == document_among(
                            self@.docs,
                            event@.paths,
                            i as int,
                        ),
                    decreases self.data.len() - i,
                {
                    if among(&event.paths, &self.data[i].path) {
                        return Action::ReadNewData(self.data[i].path.clone(), self.data[i].position);
                    }
                    i += 1;
                }
                Action::Nothing
            },
            _ => Action::Nothing,
        }
    }
}

} // verus!
