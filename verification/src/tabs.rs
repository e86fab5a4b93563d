//! The decisions of the mixer's main loop: which tab is shown, what a user
//! action does to its list, and which monitor errors are ignored. Actions
//! that change volumes work on floating-point levels and are carried out by
//! the caller.

use vstd::prelude::*;

use crate::command::Command;
use crate::device_kind::DeviceKind;
use crate::config::keybinding::{action_for, bound, Action};
use crate::key::KeyEvent;
use crate::object::ObjectId;
use crate::object_list::{activated, default_set, fresh_list, moved_down, moved_up, mute_toggled, targeted, ObjectList};
use crate::text::{chars_of, concat, has_prefix, str_eq, strip_prefix};
use crate::view;
use crate::view::{ListKind, NodeKind, Target};

verus! {

/// An action on the shown list, from a key or a click.
#[derive(Debug, Clone, Copy, PartialEq, Eq, Structural)]
pub enum ListAction {
    SelectTab(usize),
    ScrollUp,
    ScrollDown,
    OpenPopup,
    ClosePopup,
    SelectObject(ObjectId),
    SetTarget(Target),
    ToggleMute,
    SetDefault,
}

/// The commands a sequence holds: the one command, if any.
pub open spec fn command_seq(c: Option<Command>, commands: Seq<Command>) -> bool {
    match c {
        Some(c) => commands == seq![c],
        None => commands.len() == 0,
    }
}

/// What an action other than selecting does to a list, and the commands
/// it gives.
pub open spec fn action_done(
    v: view::View,
    action: ListAction,
    before: ObjectList,
    after: ObjectList,
    commands: Seq<Command>,
) -> bool {
    match action {
        ListAction::ScrollDown => moved_down(v, before, after) && commands.len() == 0,
        ListAction::ScrollUp => moved_up(v, before, after) && commands.len() == 0,
        ListAction::OpenPopup => activated(v, before, after, commands),
        ListAction::ClosePopup => after == (ObjectList { dropdown_selected: None, ..before }) && commands.len()
            == 0,
        ListAction::SetTarget(target) => targeted(v, before, after, target, commands),
        ListAction::ToggleMute => after == before && exists|c: Option<Command>|
            mute_toggled(v, before, c) && command_seq(c, commands),
        ListAction::SetDefault => after == before && exists|c: Option<Command>|
            default_set(v, before, c) && command_seq(c, commands),
        _ => true,
    }
}

/// What carrying out `action` does to the tabs: it selects a tab, or it
/// changes the shown tab's list alone, as `action_done` says, and gives
/// the commands.
pub open spec fn action_applied(v: view::View, action: ListAction, before: Tabs, after: Tabs, commands: Seq<Command>) -> bool {
    &&& after.lists@.len() == before.lists@.len()
    &&& after.selected < after.lists@.len()
    &&& after.titles == before.titles
    &&& after.selected == match action {
        ListAction::SelectTab(i) => i,
        _ => before.selected,
    }
    &&& forall|j: int|
        0 <= j < before.lists@.len() && j != before.selected ==> after.lists@[j] == before.lists@[j]
    &&& match action {
        ListAction::SelectTab(_) => after.lists == before.lists && commands.len() == 0,
        ListAction::SelectObject(id) => after.lists@[before.selected as int] == (ObjectList {
            selected: Some(id),
            ..before.lists@[before.selected as int]
        }) && commands.len() == 0,
        _ => action_done(v, action, before.lists@[before.selected as int], after.lists@[before.selected as int], commands),
    }
}

/// What a key asks of the main loop besides what it does to the tabs.
#[derive(Debug)]
pub enum KeyOutcome {
    /// Commands for PipeWire, possibly none.
    Commands(Vec<Command>),
    /// Change the volume of the selected node by this many hundredths; the
    /// caller works out the levels.
    RelativeVolume(i32),
    /// Set the volume of the selected node to this many hundredths.
    AbsoluteVolume(i32),
    /// Show or hide the help.
    Help,
    /// Leave the mixer.
    Exit,
}

/// The list action that a bound action stands for.
pub open spec fn list_action_of(a: Action) -> Option<ListAction> {
    match a {
        Action::ToggleMute => Some(ListAction::ToggleMute),
        Action::SetDefault => Some(ListAction::SetDefault),
        Action::ActivateDropdown => Some(ListAction::OpenPopup),
        Action::CloseDropdown => Some(ListAction::ClosePopup),
        Action::MoveDown => Some(ListAction::ScrollDown),
        Action::MoveUp => Some(ListAction::ScrollUp),
        _ => None,
    }
}

/// What a key does to the tabs, and what it asks of the main loop, under
/// the bindings `b`: the action bound to the key, if any.
pub open spec fn key_handled(
    v: view::View,
    b: Seq<(KeyEvent, Action)>,
    key: KeyEvent,
    before: Tabs,
    after: Tabs,
    outcome: KeyOutcome,
) -> bool {
    let action = bound(b, key);
    match action {
        Some(a) if list_action_of(a) is Some => outcome matches KeyOutcome::Commands(c) && action_applied(
            v,
            list_action_of(a)->0,
            before,
            after,
            c@,
        ),
        _ => {
            &&& after.lists == before.lists
            &&& after.titles == before.titles
            &&& after.selected < after.lists@.len()
            &&& after.selected == match action {
                Some(Action::TabRight) => next_tab(before.selected as int, before.lists@.len() as int) as usize,
                Some(Action::TabLeft) => previous_tab(
                    before.selected as int,
                    before.lists@.len() as int,
                ) as usize,
                _ => before.selected,
            }
            &&& match action {
                Some(Action::SetRelativeVolume(n)) => outcome == KeyOutcome::RelativeVolume(n),
                Some(Action::SetAbsoluteVolume(n)) => outcome == KeyOutcome::AbsoluteVolume(n),
                Some(Action::Help) => outcome is Help,
                Some(Action::Exit) => outcome is Exit,
                _ => outcome matches KeyOutcome::Commands(c) && c@.len() == 0,
            }
        },
    }
}

/// The label of a tab in the menu: the shown tab's title in brackets, the
/// others' between spaces.
pub open spec fn tab_label(title: Seq<char>, shown: bool) -> Seq<char> {
    if shown {
        "["@ + title + "]"@
    } else {
        " "@ + title + " "@
    }
}

/// The tabs of the mixer, each with its list, and the one shown.
pub struct Tabs {
    pub titles: Vec<String>,
    pub lists: Vec<ObjectList>,
    pub selected: usize,
}

/// Errors of the monitor that are expected and ignored: objects removed
/// while listeners were being set up, and a Bluetooth sink going away.
pub open spec fn ignored_error_text(error: Seq<char>) -> bool {
    has_prefix(error, "no global "@) || has_prefix(error, "unknown resource "@) || error
        == "Received error event"@
}

/// Whether a monitor error is ignored rather than ending the mixer.
pub fn ignored_error(error: &str) -> (ignored: bool)
    ensures
        ignored == ignored_error_text(error@),
{
    let chars = chars_of(error);
    strip_prefix(&chars, "no global ").is_some() || strip_prefix(&chars, "unknown resource ").is_some()
        || str_eq(error, "Received error event")
}

/// The tab after `i` of `n`, wrapping around.
pub open spec fn next_tab(i: int, n: int) -> int {
    (i + 1) % n
}

/// The tab before `i` of `n`, wrapping around.
pub open spec fn previous_tab(i: int, n: int) -> int {
    if i == 0 {
        n - 1
    } else {
        i - 1
    }
}

/// Showing the next tab and then the previous one, or the previous and
/// then the next, comes back to the tab shown first.
pub proof fn lemma_tab_steps_undo(i: int, n: int)
    requires
        0 <= i < n,
    ensures
        previous_tab(next_tab(i, n), n) == i,
        next_tab(previous_tab(i, n), n) == i,
{
    if i + 1 < n {
        vstd::arithmetic::div_mod::lemma_small_mod((i + 1) as nat, n as nat);
    } else {
        vstd::arithmetic::div_mod::lemma_mod_self_0(n);
    }
    if i > 0 {
        vstd::arithmetic::div_mod::lemma_small_mod(i as nat, n as nat);
    } else {
        vstd::arithmetic::div_mod::lemma_mod_self_0(n);
    }
}

/// The tabs as the mixer starts: playback and recording streams, output
/// and input devices' nodes (with their device kinds) and the devices'
/// configuration, each list fresh, the first shown.
pub open spec fn initial_tabs(tabs: Tabs) -> bool {
    &&& tabs.titles@.len() == 5
    &&& tabs.lists@.len() == 5
    &&& tabs.selected == 0
    &&& tabs.titles@[0]@ == "Playback"@
    &&& tabs.titles@[1]@ == "Recording"@
    &&& tabs.titles@[2]@ == "Output Devices"@
    &&& tabs.titles@[3]@ == "Input Devices"@
    &&& tabs.titles@[4]@ == "Configuration"@
    &&& fresh_list(tabs.lists@[0], ListKind::Node(NodeKind::Playback), None)
    &&& fresh_list(tabs.lists@[1], ListKind::Node(NodeKind::Recording), None)
    &&& fresh_list(tabs.lists@[2], ListKind::Node(NodeKind::Output), Some(DeviceKind::Sink))
    &&& fresh_list(tabs.lists@[3], ListKind::Node(NodeKind::Input), Some(DeviceKind::Source))
    &&& fresh_list(tabs.lists@[4], ListKind::Device, None)
}

fn list_with(title: &str, kind: ListKind, device_kind: Option<DeviceKind>) -> (r: (String, ObjectList))
    ensures
        r.0@ == title@,
        fresh_list(r.1, kind, device_kind),
{
    (String::from_str(title), ObjectList::new(kind, device_kind))
}

impl Tabs {
    /// The tabs: playback and recording streams, output and input devices'
    /// nodes, and the devices' configuration. The first is shown.
    pub fn new() -> (tabs: Tabs)
        ensures
            initial_tabs(tabs),
    {
        let mut titles: Vec<String> = Vec::new();
        let mut lists: Vec<ObjectList> = Vec::new();
        let (t, l) = list_with("Playback", ListKind::Node(NodeKind::Playback), None);
        titles.push(t);
        lists.push(l);
        let (t, l) = list_with("Recording", ListKind::Node(NodeKind::Recording), None);
        titles.push(t);
        lists.push(l);
        let (t, l) = list_with("Output Devices", ListKind::Node(NodeKind::Output), Some(DeviceKind::Sink));
        titles.push(t);
        lists.push(l);
        let (t, l) = list_with("Input Devices", ListKind::Node(NodeKind::Input), Some(DeviceKind::Source));
        titles.push(t);
        lists.push(l);
        let (t, l) = list_with("Configuration", ListKind::Device, None);
        titles.push(t);
        lists.push(l);
        Tabs { titles, lists, selected: 0 }
    }

    /// Shows the next tab, after the last the first.
    pub fn select_next(&mut self)
        requires
            old(self).lists@.len() > 0,
            old(self).selected < old(self).lists@.len(),
        ensures
            final(self).selected == next_tab(old(self).selected as int, old(self).lists@.len() as int),
            final(self).lists == old(self).lists,
            final(self).titles == old(self).titles,
    {
        let n = self.lists.len();
        assert(self.selected < n);
        self.selected = (self.selected + 1) % n;
    }

    /// Shows the previous tab, before the first the last.
    pub fn select_previous(&mut self)
        requires
            old(self).lists@.len() > 0,
            old(self).selected < old(self).lists@.len(),
        ensures
            final(self).selected == previous_tab(old(self).selected as int, old(self).lists@.len() as int),
            final(self).lists == old(self).lists,
            final(self).titles == old(self).titles,
    {
        if self.selected == 0 {
            self.selected = self.lists.len() - 1;
        } else {
            self.selected = self.selected - 1;
        }
    }

    /// Carries out an action on the shown tab's list, returning the
    /// commands it gives.
    pub fn handle_action(&mut self, action: ListAction, view: &view::View) -> (commands: Vec<Command>)
        requires
            old(self).selected < old(self).lists@.len(),
            action matches ListAction::SelectTab(i) ==> i < old(self).lists@.len(),
        ensures
            action_applied(*view, action, *old(self), *final(self), commands@),
    {
        let i = self.selected;
        match action {
            ListAction::SelectTab(index) => {
                self.selected = index;
                Vec::new()
            },
            _ => {
                let mut list = self.lists.remove(i);
                let commands = match action {
                    ListAction::ScrollDown => {
                        list.down(view);
                        Vec::new()
                    },
                    ListAction::ScrollUp => {
                        list.up(view);
                        Vec::new()
                    },
                    ListAction::OpenPopup => list.dropdown_activate(view),
                    ListAction::ClosePopup => {
                        list.dropdown_close();
                        Vec::new()
                    },
                    ListAction::SetTarget(target) => list.set_target(view, target),
                    ListAction::SelectObject(id) => {
                        list.selected = Some(id);
                        Vec::new()
                    },
                    ListAction::ToggleMute => {
                        let mut c = Vec::new();
                        let found = list.toggle_mute(view);
                        let ghost g = found;
                        match found {
                            Some(command) => c.push(command),
                            None => {},
                        }
                        assert(command_seq(g, c@));
                        c
                    },
                    ListAction::SetDefault => {
                        let mut c = Vec::new();
                        let found = list.set_default(view);
                        let ghost g = found;
                        match found {
                            Some(command) => c.push(command),
                            None => {},
                        }
                        assert(command_seq(g, c@));
                        c
                    },
                    ListAction::SelectTab(_) => Vec::new(),
                };
                let ghost removed = self.lists@;
                self.lists.insert(i, list);
                proof {
                    assert forall|j: int|
                        0 <= j < self.lists@.len() && j != i implies self.lists@[j] == old(self).lists@[j] by {
                        if j < i {
                            assert(self.lists@[j] == removed[j]);
                        } else {
                            assert(self.lists@[j] == removed[j - 1]);
                        }
                    }
                }
                commands
            },
        }
    }

    /// Reacts to a key as `bindings` bind it: moving, muting, setting the
    /// default and working the dropdown act on the shown list; the tab keys
    /// show the previous or next tab; volume, help and leaving are asked of
    /// the caller; an unbound key, or one bound to nothing, does nothing.
    pub fn handle_key(&mut self, key: KeyEvent, bindings: &Vec<(KeyEvent, Action)>, view: &view::View) -> (outcome:
        KeyOutcome)
        requires
            old(self).selected < old(self).lists@.len(),
        ensures
            key_handled(*view, bindings@, key, *old(self), *final(self), outcome),
    {
        let action = match action_for(bindings, key) {
            Some(a) => a,
            None => {
                return KeyOutcome::Commands(Vec::new());
            },
        };
        let list_action = match action {
            Action::ToggleMute => ListAction::ToggleMute,
            Action::SetDefault => ListAction::SetDefault,
            Action::ActivateDropdown => ListAction::OpenPopup,
            Action::CloseDropdown => ListAction::ClosePopup,
            Action::MoveDown => ListAction::ScrollDown,
            Action::MoveUp => ListAction::ScrollUp,
            Action::SetRelativeVolume(n) => {
                return KeyOutcome::RelativeVolume(n);
            },
            Action::SetAbsoluteVolume(n) => {
                return KeyOutcome::AbsoluteVolume(n);
            },
            Action::Help => {
                return KeyOutcome::Help;
            },
            Action::Exit => {
                return KeyOutcome::Exit;
            },
            Action::TabLeft => {
                self.select_previous();
                return KeyOutcome::Commands(Vec::new());
            },
            Action::TabRight => {
                self.select_next();
                return KeyOutcome::Commands(Vec::new());
            },
            Action::Nothing => {
                return KeyOutcome::Commands(Vec::new());
            },
        };
        KeyOutcome::Commands(self.handle_action(list_action, view))
    }

    /// The labels of the tabs in the menu, in order.
    pub fn labels(&self) -> (labels: Vec<String>)
        ensures
            labels@.len() == self.titles@.len(),
            forall|i: int|
                0 <= i < labels@.len() ==> (#[trigger] labels@[i])@ == tab_label(
                    self.titles@[i]@,
                    i == self.selected,
                ),
    {
        let mut labels: Vec<String> = Vec::new();
        let mut i: usize = 0;
        while i < self.titles.len()
            invariant
                i <= self.titles@.len(),
                labels@.len() == i,
                forall|j: int|
                    0 <= j < i ==> (#[trigger] labels@[j])@ == tab_label(self.titles@[j]@, j == self.selected),
            decreases self.titles.len() - i,
        {
            let title = self.titles[i].as_str();
            let label = if i == self.selected {
                let open = concat("[", title);
                concat(open.as_str(), "]")
            } else {
                let open = concat(" ", title);
                concat(open.as_str(), " ")
            };
            labels.push(label);
            i += 1;
        }
        labels
    }
}

} // verus!
