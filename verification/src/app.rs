//! The mixer's main loop as decisions: what each event does to the mixer,
//! and what is brought up to date before the screen is drawn. The caller
//! reads the events, draws the screen, carries out volume steps, and sends
//! the commands (and the capture commands queued on the capture manager)
//! to PipeWire.

use vstd::prelude::*;
use vstd::view::View as _;

use crate::capture_manager::{CaptureCommand, CaptureManager};
use crate::config::Names;
use crate::config::keybinding::Action;
use crate::key::KeyEvent;
use crate::object_list::moved_down;
use crate::state::{capture_after, MonitorEvent, State, StateDirty};
use crate::tabs::{ignored_error, ignored_error_text, initial_tabs, key_handled, KeyOutcome, ListAction, Tabs};
use crate::view::{peaks_updated, view_of, View};

verus! {

/// What the main loop is told of.
pub enum Event {
    /// A key was pressed.
    Key(KeyEvent),
    /// The monitor failed.
    Error(String),
    /// The monitor has sent all it knew at the start.
    Ready,
    /// The monitor saw a change.
    Monitor(MonitorEvent),
}

pub struct App {
    /// The mixer is to end.
    pub exit: bool,
    /// Why it ends, when it ends on an error.
    pub error_message: Option<String>,
    pub tabs: Tabs,
    /// The monitor has sent all it knew at the start.
    pub is_ready: bool,
    pub state: State,
    pub capture_manager: CaptureManager,
    pub view: View,
    pub names: Names,
    /// What each key does.
    pub bindings: Vec<(KeyEvent, Action)>,
}

impl App {
    /// The app's invariant: the shown tab is one of the tabs.
    pub open spec fn well_formed(&self) -> bool {
        self.tabs.selected < self.tabs.lists@.len()
    }

    /// A mixer that has heard nothing yet, showing the first tab.
    pub fn new(names: Names, capture_enabled: bool, bindings: Vec<(KeyEvent, Action)>) -> (app: App)
        ensures
            app.well_formed(),
            !app.exit,
            app.error_message is None,
            !app.is_ready,
            initial_tabs(app.tabs),
            app.state.is_empty_state(),
            app.view.is_empty_view(),
            app.names == names,
            app.capture_manager@.capture_enabled == capture_enabled,
            app.capture_manager@.capturing == Set::<u32>::empty(),
            app.capture_manager@.pending == Seq::<CaptureCommand>::empty(),
            app.bindings@ == bindings@,
    {
        App {
            exit: false,
            error_message: None,
            tabs: Tabs::new(),
            is_ready: false,
            state: State::new(),
            capture_manager: CaptureManager::new(capture_enabled),
            view: View::new(),
            names,
            bindings,
        }
    }

    fn exit(&mut self, error_message: Option<String>)
        ensures
            *final(self) == (App { exit: true, error_message, ..*old(self) }),
    {
        self.exit = true;
        self.error_message = error_message;
    }

    /// Takes in an event: a key acts on the tabs as the bindings say (and one
    /// bound to leaving ends the mixer), an
    /// error that is not ignored ends the mixer with it, readiness is noted,
    /// and a monitor event updates the state.
    pub fn handle_event(&mut self, event: Event) -> (outcome: KeyOutcome)
        requires
            old(self).well_formed(),
        ensures
            final(self).well_formed(),
            match event {
                Event::Key(key) => {
                    &&& key_handled(old(self).view, old(self).bindings@, key, old(self).tabs, final(self).tabs, outcome)
                    &&& *final(self) == (App {
                        tabs: final(self).tabs,
                        exit: old(self).exit || outcome is Exit,
                        error_message: if outcome is Exit {
                            None
                        } else {
                            old(self).error_message
                        },
                        ..*old(self)
                    })
                },
                Event::Error(error) => {
                    &&& outcome matches KeyOutcome::Commands(c) && c@.len() == 0
                    &&& if ignored_error_text(error@) {
                        *final(self) == *old(self)
                    } else {
                        *final(self) == (App { exit: true, error_message: Some(error), ..*old(self) })
                    }
                },
                Event::Ready => {
                    &&& outcome matches KeyOutcome::Commands(c) && c@.len() == 0
                    &&& *final(self) == (App { is_ready: true, ..*old(self) })
                },
                Event::Monitor(e) => {
                    &&& outcome matches KeyOutcome::Commands(c) && c@.len() == 0
                    &&& State::updated(old(self).state, final(self).state, e)
                    &&& final(self).capture_manager@ == capture_after(old(self).state, old(self).capture_manager@, e)
                    &&& *final(self) == (App {
                        state: final(self).state,
                        capture_manager: final(self).capture_manager,
                        ..*old(self)
                    })
                },
            },
    {
        match event {
            Event::Key(key) => {
                let outcome = self.tabs.handle_key(key, &self.bindings, &self.view);
                match outcome {
                    KeyOutcome::Exit => {
                        self.exit(None);
                    },
                    _ => {},
                }
                outcome
            },
            Event::Error(error) => {
                if !ignored_error(error.as_str()) {
                    self.exit(Some(error));
                }
                KeyOutcome::Commands(Vec::new())
            },
            Event::Ready => {
                self.is_ready = true;
                KeyOutcome::Commands(Vec::new())
            },
            Event::Monitor(e) => {
                self.state.update(&mut self.capture_manager, e);
                KeyOutcome::Commands(Vec::new())
            },
        }
    }

    /// Brings the app up to date before the screen is drawn: the view is
    /// built again after a change, or its peaks refreshed after a change of
    /// peaks alone; then, once the monitor is ready, a tab with nothing
    /// selected selects its first object.
    pub fn refresh(&mut self)
        requires
            old(self).well_formed(),
        ensures
            final(self).well_formed(),
            final(self).state == (State { dirty: StateDirty::Clean, ..old(self).state }),
            old(self).state.dirty == StateDirty::Everything ==> view_of(&old(self).state, old(self).names, final(self).view),
            old(self).state.dirty == StateDirty::PeaksOnly ==> peaks_updated(&old(self).state, old(self).view, final(self).view),
            old(self).state.dirty == StateDirty::Clean ==> final(self).view == old(self).view,
            final(self).tabs.selected == old(self).tabs.selected,
            final(self).tabs.titles == old(self).tabs.titles,
            forall|j: int|
                0 <= j < old(self).tabs.lists@.len() && j != old(self).tabs.selected ==> final(self).tabs.lists@[j]
                    == old(self).tabs.lists@[j],
            old(self).is_ready && old(self).tabs.lists@[old(self).tabs.selected as int].selected is None
                ==> moved_down(
                final(self).view,
                old(self).tabs.lists@[old(self).tabs.selected as int],
                final(self).tabs.lists@[old(self).tabs.selected as int],
            ),
            !(old(self).is_ready && old(self).tabs.lists@[old(self).tabs.selected as int].selected is None)
                ==> final(self).tabs == old(self).tabs,
            final(self).exit == old(self).exit,
            final(self).error_message == old(self).error_message,
            final(self).is_ready == old(self).is_ready,
            final(self).names == old(self).names,
            final(self).capture_manager == old(self).capture_manager,
    {
        match self.state.dirty {
            StateDirty::Everything => {
                self.view = View::from(&self.state, &self.names);
            },
            StateDirty::PeaksOnly => {
                self.view.update_peaks(&self.state);
            },
            StateDirty::Clean => {},
        }
        self.state.dirty = StateDirty::Clean;
        let i = self.tabs.selected;
        if self.is_ready && self.tabs.lists[i].selected.is_none() {
            self.tabs.handle_action(ListAction::ScrollDown, &self.view);
        }
    }
}

} // verus!
