//! The watch coordinator: the state machine between the operating system's
//! change notifications and the documents.
//!
//! The coordinator itself touches neither the operating system nor a
//! document. The loop around it does the outside work (it starts the watch,
//! waits for a notification or a command, performs the command) and reports
//! each outcome as a [`Signal`]. [`watch`] answers with the next state and
//! the event to pass up, and the state says what the loop is to do next.
//!
//! The watch is started once, at the beginning. If that fails the
//! coordinator stays inactive and the loop rests: nothing is tried again
//! unless the program decides to, and reports the outcome as a new signal.

use vstd::prelude::*;

verus! {

/// A request to the coordinator.
#[derive(Clone, Debug)]
pub enum WatcherCommand {
    Watch(String),
    Unwatch(String),
}

/// The kind of change that a notification reports.
#[derive(Clone, Copy, Debug, PartialEq, Eq, Structural)]
pub enum EventKind {
    Create,
    Modify,
    Remove,
    Rename,
    Other,
}

/// A change notification: the paths affected and what happened to them.
#[derive(Clone, Debug)]
pub struct Event {
    pub paths: Vec<String>,
    pub kind: EventKind,
}

/// What the coordinator passes up.
#[derive(Debug)]
pub enum WatcherEvent {
    /// The watch could not be started; the text says why.
    WatcherInactive(String),
    /// The watch has started and commands are accepted.
    WatcherActive,
    /// A change notification, or why one could not be had.
    NewLog(Result<Event, String>),
    /// The path that a command was about, and the outcome of the command.
    WatchResult(String, Result<(), String>),
}

/// The paths under watch.
#[derive(Debug)]
pub struct FileWatcher {
    watched: Vec<String>,
}

/// The coordinator's state.
#[derive(Debug)]
pub enum State {
    /// No watch is running.
    Inactive,
    /// The watch is running.
    Active(FileWatcher),
}

/// What the loop around the coordinator has to do next.
#[derive(Clone, Copy, Debug, PartialEq, Eq, Structural)]
pub enum Directive {
    /// Try to start the watch and report the outcome as [`Signal::Started`].
    Start,
    /// Wait for a notification or a command, whichever comes first. Report a
    /// notification as [`Signal::Changed`]; perform a command and report it
    /// with its outcome as [`Signal::Commanded`].
    Listen,
    /// Do nothing more, unless the program calls for another start.
    Rest,
}

/// What the loop around the coordinator reports.
#[derive(Debug)]
pub enum Signal {
    /// The outcome of trying to start the watch.
    Started(Result<(), String>),
    /// A change notification, or why one could not be had.
    Changed(Result<Event, String>),
    /// A command, and the outcome of performing it.
    Commanded(WatcherCommand, Result<(), String>),
}

/// The values of a sequence of strings.
pub open spec fn string_views(strings: Seq<String>) -> Seq<Seq<char>> {
    strings.map_values(|s: String| s@)
}

/// The mathematical value of an [`Event`].
pub struct EventView {
    pub paths: Seq<Seq<char>>,
    pub kind: EventKind,
}

impl View for Event {
    type V = EventView;

    open spec fn view(&self) -> EventView {
        EventView { paths: string_views(self.paths@), kind: self.kind }
    }
}

/// The mathematical value of a [`WatcherEvent`].
pub enum WatcherEventView {
    WatcherInactive(Seq<char>),
    WatcherActive,
    NewLog(Result<EventView, Seq<char>>),
    WatchResult(Seq<char>, Result<(), Seq<char>>),
}

impl View for WatcherEvent {
    type V = WatcherEventView;

    open spec fn view(&self) -> WatcherEventView {
        match self {
            WatcherEvent::WatcherInactive(why) => WatcherEventView::WatcherInactive(why@),
            WatcherEvent::WatcherActive => WatcherEventView::WatcherActive,
            WatcherEvent::NewLog(event) => WatcherEventView::NewLog(notification_view(*event)),
            WatcherEvent::WatchResult(path, outcome) => WatcherEventView::WatchResult(
                path@,
                outcome_view(*outcome),
            ),
        }
    }
}

/// The mathematical value of a [`WatcherCommand`].
pub enum CommandView {
    Watch(Seq<char>),
    Unwatch(Seq<char>),
}

impl View for WatcherCommand {
    type V = CommandView;

    open spec fn view(&self) -> CommandView {
        match self {
            WatcherCommand::Watch(path) => CommandView::Watch(path@),
            WatcherCommand::Unwatch(path) => CommandView::Unwatch(path@),
        }
    }
}

/// The value of an outcome: success, or the text that says why not.
pub open spec fn outcome_view(outcome: Result<(), String>) -> Result<(), Seq<char>> {
    match outcome {
        Ok(()) => Ok(()),
        Err(why) => Err(why@),
    }
}

/// The value of a notification, or of the text that says why there is none.
pub open spec fn notification_view(event: Result<Event, String>) -> Result<EventView, Seq<char>> {
    match event {
        Ok(event) => Ok(event@),
        Err(why) => Err(why@),
    }
}

/// The mathematical value of a [`Signal`].
pub enum SignalView {
    Started(Result<(), Seq<char>>),
    Changed(Result<EventView, Seq<char>>),
    Commanded(CommandView, Result<(), Seq<char>>),
}

impl View for Signal {
    type V = SignalView;

    open spec fn view(&self) -> SignalView {
        match self {
            Signal::Started(outcome) => SignalView::Started(outcome_view(*outcome)),
            Signal::Changed(event) => SignalView::Changed(notification_view(*event)),
            Signal::Commanded(command, outcome) => SignalView::Commanded(
                command@,
                outcome_view(*outcome),
            ),
        }
    }
}

impl View for FileWatcher {
    type V = Set<Seq<char>>;

    /// The set of paths under watch.
    closed spec fn view(&self) -> Set<Seq<char>> {
        string_views(self.watched@).to_set()
    }
}

/// The mathematical value of a [`State`]: whether the watch is running, and
/// if it is, the set of paths under watch.
pub enum StateView {
    Inactive,
    Active(Set<Seq<char>>),
}

impl View for State {
    type V = StateView;

    open spec fn view(&self) -> StateView {
        match self {
            State::Inactive => StateView::Inactive,
            State::Active(watcher) => StateView::Active(watcher@),
        }
    }
}

/// The path that a command is about.
pub open spec fn path_of(command: CommandView) -> Seq<char> {
    match command {
        CommandView::Watch(path) => path,
        CommandView::Unwatch(path) => path,
    }
}

/// The set of paths under watch after `command` was performed with the
/// given outcome: a command that failed changes nothing.
pub open spec fn after_command(
    watched: Set<Seq<char>>,
    command: CommandView,
    succeeded: bool,
) -> Set<Seq<char>> {
    if !succeeded {
        watched
    } else {
        match command {
            CommandView::Watch(path) => watched.insert(path),
            CommandView::Unwatch(path) => watched.remove(path),
        }
    }
}

/// The state that follows `state` on `signal`. A signal that does not belong
/// to the state (an outcome of starting while the watch runs, a notification
/// or a command while it does not) leaves the state as it is.
pub open spec fn next_state(state: StateView, signal: SignalView) -> StateView {
    match (state, signal) {
        (StateView::Inactive, SignalView::Started(Ok(()))) => StateView::Active(Set::empty()),
        (StateView::Active(watched), SignalView::Commanded(command, outcome)) => StateView::Active(
            after_command(watched, command, outcome is Ok),
        ),
        _ => state,
    }
}

/// The event passed up when `signal` arrives in `state`, if any.
pub open spec fn emitted(state: StateView, signal: SignalView) -> Option<WatcherEventView> {
    match (state, signal) {
        (StateView::Inactive, SignalView::Started(Ok(()))) => Some(WatcherEventView::WatcherActive),
        (StateView::Inactive, SignalView::Started(Err(why))) => Some(
            WatcherEventView::WatcherInactive(why),
        ),
        (StateView::Active(_), SignalView::Changed(event)) => Some(WatcherEventView::NewLog(event)),
        (StateView::Active(_), SignalView::Commanded(command, outcome)) => Some(
            WatcherEventView::WatchResult(path_of(command), outcome),
        ),
        _ => None,
    }
}

impl FileWatcher {
    /// A watcher with nothing under watch.
    pub fn new() -> (r: Self)
        ensures
            r@ == Set::<Seq<char>>::empty(),
    {
        Self { watched: Vec::new() }
    }

    /// Whether `path` is under watch.
    pub fn is_watching(&self, path: &String) -> (r: bool)
        ensures
            r == self@.contains(path@),
    {
        let ghost views = string_views(self.watched@);
        let mut i: usize = 0;
        while i < self.watched.len()
            invariant
                i <= self.watched.len(),
                views == string_views(self.watched@),
                forall|j: int| 0 <= j < i ==> views[j] != path@,
            decreases self.watched.len() - i,
        {
            if self.watched[i] == *path {
                assert(views[i as int] == path@);
                return true;
            }
            i += 1;
        }
        false
    }

    /// Takes `path` out of the paths under watch.
    fn forget(&mut self, path: &String)
        ensures
            final(self)@ == old(self)@.remove(path@),
    {
        let mut i: usize = 0;
        while i < self.watched.len()
            invariant
                i <= self.watched.len(),
                self@.remove(path@) == old(self)@.remove(path@),
                forall|j: int| 0 <= j < i ==> string_views(self.watched@)[j] != path@,
            decreases self.watched.len() - i,
        {
            let ghost before = string_views(self.watched@);
            if self.watched[i] == *path {
                self.watched.remove(i);
                let ghost after = string_views(self.watched@);
                assert(after =~= before.remove(i as int));
                assert(after.to_set().remove(path@) =~= before.to_set().remove(path@)) by {
                    assert forall|p: Seq<char>| p != path@ && before.contains(p) implies after.contains(
                        p,
                    ) by {
                        let j = choose|j: int| 0 <= j < before.len() && before[j] == p;
                        if j < i {
                            assert(after[j] == p);
                        } else {
                            assert(after[j - 1] == p);
                        }
                    }
                }
            } else {
                i += 1;
            }
        }
    }

    /// Records `command`, which was performed with the given outcome, and
    /// gives the event that reports it: the path of the command and the
    /// outcome. A `Watch` that succeeded puts its path under watch, an
    /// `Unwatch` that succeeded takes its path out; a command that failed
    /// changes nothing.
    pub fn handle_command(&mut self, command: WatcherCommand, outcome: Result<(), String>) -> (r:
        WatcherEvent)
        ensures
            final(self)@ == after_command(old(self)@, command@, outcome is Ok),
            r@ == WatcherEventView::WatchResult(path_of(command@), outcome_view(outcome)),
    {
        match command {
            WatcherCommand::Watch(path) => {
                if outcome.is_ok() && !self.is_watching(&path) {
                    let ghost before = string_views(self.watched@);
                    self.watched.push(path.clone());
                    assert(string_views(self.watched@) =~= before.push(path@));
                    proof {
                        before.lemma_push_to_set_commute(path@);
                    }
                }
                WatcherEvent::WatchResult(path, outcome)
            },
            WatcherCommand::Unwatch(path) => {
                if outcome.is_ok() {
                    self.forget(&path);
                }
                WatcherEvent::WatchResult(path, outcome)
            },
        }
    }
}

impl State {
    /// What the loop has to do after a turn that ended in this state: to
    /// listen while the watch runs, and to rest while it does not.
    pub fn directive(&self) -> (r: Directive)
        ensures
            r == if self@ is Active {
                Directive::Listen
            } else {
                Directive::Rest
            },
    {
        match self {
            State::Inactive => Directive::Rest,
            State::Active(_) => Directive::Listen,
        }
    }
}

/// Where the coordinator begins: inactive, with the watch to be started.
pub fn begin() -> (r: (State, Directive))
    ensures
        r.0@ is Inactive,
        r.1 == Directive::Start,
{
    (State::Inactive, Directive::Start)
}

/// The state to enter after trying to start the watch: active with nothing
/// under watch where that succeeded, and the reason handed back where it did
/// not.
pub fn start_watcher(started: Result<(), String>) -> (r: Result<State, String>)
    ensures
        match started {
            Ok(()) => r matches Ok(state) && state@ == StateView::Active(Set::empty()),
            Err(why) => r == Err::<State, String>(why),
        },
{
    match started {
        Ok(()) => Ok(State::Active(FileWatcher::new())),
        Err(why) => Err(why),
    }
}

/// One turn of the coordinator: takes what the loop reports and gives the
/// state to go on with and the event to pass up, if any.
///
/// While inactive, a start that succeeded makes the coordinator active and
/// is announced; one that failed leaves it inactive and is reported with its
/// reason. While active, a notification is passed up as it is, and a command
/// is recorded and its outcome reported; no failure ends the active state.
/// [`State::directive`] of the state returned says how the loop goes on.
pub fn watch(state: State, signal: Signal) -> (r: (State, Option<WatcherEvent>))
    ensures
        r.0@ == next_state(state@, signal@),
        match r.1 {
            Some(event) => emitted(state@, signal@) == Some(event@),
            None => emitted(state@, signal@) is None,
        },
{
    match state {
        State::Inactive => match signal {
            Signal::Started(started) => match start_watcher(started) {
                Ok(active) => (active, Some(WatcherEvent::WatcherActive)),
                Err(why) => (State::Inactive, Some(WatcherEvent::WatcherInactive(why))),
            },
            _ => (State::Inactive, None),
        },
        State::Active(watcher) => match signal {
            Signal::Started(_) => (State::Active(watcher), None),
            Signal::Changed(event) => (State::Active(watcher), Some(WatcherEvent::NewLog(event))),
            Signal::Commanded(command, outcome) => {
                let mut watcher = watcher;
                let event = watcher.handle_command(command, outcome);
                (State::Active(watcher), Some(event))
            },
        },
    }
}

} // verus!
