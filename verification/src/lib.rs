//! A log-tailing engine: documents of classified lines that grow as their
//! files do, and the state machines that keep them current.

pub mod file;
pub mod filter;
pub mod text;
pub mod ui;
pub mod watcher;

use ui::log_view::{after_update, initial_state, Action, ActionView, LogViewMessage};
use ui::Views;
use vstd::prelude::*;

verus! {

/// What happened, by the view that it concerns.
#[derive(Debug)]
pub enum Message {
    LogViewMessage(LogViewMessage),
    SettingsViewMessage,
}

/// The state of the program.
#[derive(Debug)]
pub struct App {
    pub view: ui::View,
    pub views: Views,
}

impl Default for App {
    /// The log view is shown, and every view is in its first state.
    fn default() -> (r: Self)
        ensures
            r.view == ui::View::Log,
            r.views.log@ == initial_state(),
    {
        App { view: ui::View::default(), views: Views::default() }
    }
}

impl App {
    /// Hands a message to the view that it concerns. Only the log view takes
    /// messages; any other message changes nothing and calls for nothing.
    pub fn update(&mut self, message: Message) -> (r: Action)
        ensures
            final(self).view == old(self).view,
            match message {
                Message::LogViewMessage(log_message) => (final(self).views.log@, r@)
                    == after_update(old(self).views.log@, log_message@),
                Message::SettingsViewMessage => final(self).views.log@ == old(self).views.log@ && r@
                    == ActionView::Nothing,
            },
    {
        match message {
            Message::LogViewMessage(log_message) => self.views.log.update(log_message),
            _ => Action::Nothing,
        }
    }
}

} // verus!
