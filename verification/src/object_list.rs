//! A list of PipeWire objects on screen: which object is selected, which
//! part of the list the viewport shows, and the dropdown of targets for the
//! selected object.
//!
//! The dropdown's selection follows the list state of the terminal widget
//! library: moving down from nothing selects the first entry, moving up from
//! nothing selects the last possible index, and the widget clamps it when it
//! is drawn.

use vstd::prelude::*;

use crate::command::Command;
use crate::device_kind::DeviceKind;
use crate::object::ObjectId;
use crate::view;
use crate::view::{resolved_target, default_command, device_targets_ok, mute_command, first_position, ids_for, lemma_step_and_back, node_targets_ok, stepped, target_commands, ListKind, Target};

verus! {

/// Rows that an object takes in the list, with the spacing below it.
pub const OBJECT_ROWS: u16 = 5;

pub struct ObjectList {
    /// Index of the first object in the viewport.
    pub top: usize,
    /// The selected object.
    pub selected: Option<ObjectId>,
    /// Which objects of the view the list shows.
    pub list_kind: ListKind,
    /// Whether defaults set from this list are sinks or sources.
    pub device_kind: Option<DeviceKind>,
    /// The selected entry of the open target dropdown; nothing when it is
    /// closed.
    pub dropdown_selected: Option<usize>,
    /// The targets the dropdown offers.
    pub targets: Vec<(Target, String)>,
}

/// The number of objects that fit in a list area of `list_height` rows.
pub open spec fn visible_count_of(list_height: u16) -> int {
    list_height as int / OBJECT_ROWS as int
}

/// Whether objects lie below a viewport that starts at `top`, in a list
/// area of `list_height` rows and a list of `len` objects.
pub open spec fn more_below_spec(top: usize, list_height: u16, len: nat) -> bool {
    let end = if top + visible_count_of(list_height) > usize::MAX {
        usize::MAX as int
    } else {
        top + visible_count_of(list_height)
    };
    let last = if len > 0 {
        len - 1
    } else {
        0
    };
    end < len && !(end == last && list_height % OBJECT_ROWS >= 3)
}

/// An optional id as a list of none or one.
pub open spec fn opt_id(o: Option<ObjectId>) -> Seq<ObjectId> {
    match o {
        Some(x) => seq![x],
        None => seq![],
    }
}

/// The objects a shown node depends on: its client and its device.
pub open spec fn node_links(v: view::View, id: ObjectId) -> Seq<ObjectId> {
    if v.nodes@.contains_key(id.0) {
        let n = v.nodes@[id.0];
        opt_id(n.client_id) + opt_id(
            match n.device_info {
                Some(info) => Some(info.0),
                None => None,
            },
        )
    } else {
        seq![]
    }
}

/// An object of the list and what its display depends on: its client and
/// device, and, in a list of nodes, the object its target stands for with
/// that object's client and device.
pub open spec fn related_objects(v: view::View, kind: ListKind, id: ObjectId) -> Seq<ObjectId> {
    seq![id] + node_links(v, id) + if v.nodes@.contains_key(id.0) {
        match (kind, v.nodes@[id.0].target) {
            (ListKind::Node(k), Some(t)) => match resolved_target(t, v, k) {
                Some(t_id) => seq![t_id] + node_links(v, t_id),
                None => seq![],
            },
            _ => seq![],
        }
    } else {
        seq![]
    }
}

/// The related objects of each of `shown`, in order.
pub open spec fn related_all(v: view::View, kind: ListKind, shown: Seq<ObjectId>) -> Seq<ObjectId>
    decreases shown.len(),
{
    if shown.len() == 0 {
        seq![]
    } else {
        related_all(v, kind, shown.drop_last()) + related_objects(v, kind, shown.last())
    }
}

/// The objects in the viewport: from `top`, as many as fit.
pub open spec fn shown_ids(ids: Seq<ObjectId>, top: int, visible: int) -> Seq<ObjectId> {
    let last = if ids.len() < top + visible {
        ids.len() as int
    } else {
        top + visible
    };
    ids.subrange(top, last)
}

/// The selection and viewport after `update`: a selection that left the
/// list is replaced by the first object; the viewport moves up when the list
/// shrank below it, and moves so that the selection is in view.
pub open spec fn reconciled(
    ids: Seq<ObjectId>,
    top: usize,
    selected: Option<ObjectId>,
    dropdown: Option<usize>,
    visible: int,
) -> (usize, Option<ObjectId>, Option<usize>) {
    let found = match selected {
        Some(s) => first_position(ids, s),
        None => None,
    };
    let (sel, dd, index) = if found is Some {
        (selected, dropdown, found)
    } else {
        let first = stepped(ids, None, true);
        (
            first,
            None,
            match first {
                Some(f) => first_position(ids, f),
                None => None,
            },
        )
    };
    let len = ids.len() as int;
    let top1 = if top >= len {
        if len >= visible {
            len - visible
        } else {
            0
        }
    } else {
        top as int
    };
    if sel is Some {
        match index {
            Some(i) => {
                let end = if top1 + visible > usize::MAX {
                    usize::MAX as int
                } else {
                    top1 + visible
                };
                let except_last = if visible >= 1 {
                    visible - 1
                } else {
                    0
                };
                let new_top = if i >= end {
                    if i >= except_last {
                        i - except_last
                    } else {
                        0
                    }
                } else if i < top1 {
                    i
                } else {
                    top1
                };
                (new_top as usize, sel, dd)
            },
            None => (top1 as usize, None, None),
        }
    } else {
        (top1 as usize, sel, dd)
    }
}

/// `found` is what the view gives as the targets of the list's selection.
pub open spec fn targets_found(v: view::View, list: ObjectList, found: Option<(Vec<(Target, String)>, usize)>) -> bool {
    match list.selected {
        None => found is None,
        Some(id) => match list.list_kind {
            ListKind::Node(_) => node_targets_ok(v, id, found),
            ListKind::Device => device_targets_ok(v, id, found),
        },
    }
}

/// The dropdown opened on `found`, if it holds any target.
pub open spec fn opened_on(before: ObjectList, after: ObjectList, found: Option<(Vec<(Target, String)>, usize)>) -> bool {
    match found {
        Some((targets, index)) => if targets@.len() > 0 {
            after == (ObjectList { targets: targets, dropdown_selected: Some(index), ..before })
        } else {
            after == before
        },
        None => after == before,
    }
}

/// The dropdown was opened on the targets of the selection.
pub open spec fn dropdown_opened(v: view::View, before: ObjectList, after: ObjectList) -> bool {
    exists|found: Option<(Vec<(Target, String)>, usize)>|
        targets_found(v, before, found) && opened_on(before, after, found)
}

/// A list as `new` makes it: at the top, nothing selected, no dropdown.
pub open spec fn fresh_list(list: ObjectList, list_kind: ListKind, device_kind: Option<DeviceKind>) -> bool {
    &&& list.top == 0
    &&& list.selected is None
    &&& list.list_kind == list_kind
    &&& list.device_kind == device_kind
    &&& list.dropdown_selected is None
    &&& list.targets@.len() == 0
}

/// `after` is `before` moved down, as `down` moves it in view `v`.
pub open spec fn moved_down(v: view::View, before: ObjectList, after: ObjectList) -> bool {
    match before.dropdown_selected {
        Some(i) => after == (ObjectList {
            dropdown_selected: Some(if i < usize::MAX { (i + 1) as usize } else { i }),
            ..before
        }),
        None => match stepped(ids_for(v, before.list_kind), before.selected, true) {
            Some(next) => after == (ObjectList { selected: Some(next), ..before }),
            None => after == before,
        },
    }
}

/// `after` is `before` moved up, as `up` moves it in view `v`.
pub open spec fn moved_up(v: view::View, before: ObjectList, after: ObjectList) -> bool {
    match before.dropdown_selected {
        Some(i) => after == (ObjectList {
            dropdown_selected: Some(if i > 0 { (i - 1) as usize } else { 0 }),
            ..before
        }),
        None => match stepped(ids_for(v, before.list_kind), before.selected, false) {
            Some(previous) => after == (ObjectList { selected: Some(previous), ..before }),
            None => after == before,
        },
    }
}

/// `after` and `commands` are what `dropdown_activate` gives for `before`
/// in view `v`.
pub open spec fn activated(v: view::View, before: ObjectList, after: ObjectList, commands: Seq<Command>) -> bool {
    match before.dropdown_selected {
        None => commands.len() == 0 && dropdown_opened(v, before, after),
        Some(i) => {
            &&& after == (ObjectList { dropdown_selected: None, ..before })
            &&& if before.selected is Some && i < before.targets@.len() {
                target_commands(
                    v,
                    before.selected->0,
                    before.targets@[i as int].0,
                    commands,
                )
            } else {
                commands.len() == 0
            }
        },
    }
}

/// `after` and `commands` are what `set_target` gives for `before` in view
/// `v`.
pub open spec fn targeted(v: view::View, before: ObjectList, after: ObjectList, target: Target, commands: Seq<Command>) -> bool {
    &&& after == (ObjectList { dropdown_selected: None, ..before })
    &&& match before.selected {
        Some(id) => target_commands(v, id, target, commands),
        None => commands.len() == 0,
    }
}

/// `command` is what `toggle_mute` gives for `list` in view `v`.
pub open spec fn mute_toggled(v: view::View, list: ObjectList, command: Option<Command>) -> bool {
    if list.list_kind is Device || list.selected is None {
        command is None
    } else {
        mute_command(v, list.selected->0, command)
    }
}

/// `command` is what `set_default` gives for `list` in view `v`.
pub open spec fn default_set(v: view::View, list: ObjectList, command: Option<Command>) -> bool {
    if list.list_kind is Device || list.selected is None || list.device_kind is None {
        command is None
    } else {
        default_command(v, list.selected->0, list.device_kind->0, command)
    }
}

fn push_opt(ids: &mut Vec<ObjectId>, o: Option<ObjectId>)
    ensures
        final(ids)@ == old(ids)@ + opt_id(o),
{
    match o {
        Some(x) => ids.push(x),
        None => {},
    }
    assert(ids@ =~= old(ids)@ + opt_id(o));
}

fn push_links(ids: &mut Vec<ObjectId>, view: &view::View, id: ObjectId)
    ensures
        final(ids)@ == old(ids)@ + node_links(*view, id),
{
    match view.nodes.get(&id.0) {
        Some(node) => {
            push_opt(ids, node.client_id);
            let device = match node.device_info {
                Some(info) => Some(info.0),
                None => None,
            };
            push_opt(ids, device);
            assert(ids@ =~= old(ids)@ + node_links(*view, id));
        },
        None => {
            assert(ids@ =~= old(ids)@ + node_links(*view, id));
        },
    }
}


/// The ids of `v`, each once, in the order of their first occurrence.
fn distinct_ids(v: &Vec<ObjectId>) -> (w: Vec<ObjectId>)
    ensures
        w@.no_duplicates(),
        forall|o: ObjectId| #![trigger w@.contains(o)] w@.contains(o) <==> v@.contains(o),
{
    let mut w: Vec<ObjectId> = Vec::new();
    let mut i: usize = 0;
    while i < v.len()
        invariant
            i <= v@.len(),
            w@.no_duplicates(),
            forall|o: ObjectId| #![trigger w@.contains(o)] w@.contains(o) <==> v@.take(i as int).contains(o),
        decreases v.len() - i,
    {
        let x = v[i];
        let mut found = false;
        let mut j: usize = 0;
        while j < w.len()
            invariant
                j <= w@.len(),
                found <==> exists|k: int| 0 <= k < j && w@[k] == x,
            decreases w.len() - j,
        {
            if w[j].0 == x.0 {
                found = true;
            }
            j += 1;
        }
        let ghost before = w@;
        if !found {
            w.push(x);
        }
        proof {
            let t = v@.take(i + 1);
            assert(t =~= v@.take(i as int).push(x));
            assert forall|o: ObjectId| #![trigger w@.contains(o)] w@.contains(o) <==> t.contains(o) by {
                if t.contains(o) {
                    let k = choose|k: int| 0 <= k < t.len() && t[k] == o;
                    if k < i {
                        assert(v@.take(i as int)[k] == o);
                        assert(v@.take(i as int).contains(o));
                        assert(before.contains(o));
                        let m = choose|m: int| 0 <= m < before.len() && before[m] == o;
                        assert(w@[m] == o);
                    } else {
                        if found {
                            let m = choose|m: int| 0 <= m < before.len() && before[m] == x;
                            assert(w@[m] == o);
                        } else {
                            assert(w@[w@.len() - 1] == o);
                        }
                    }
                }
                if w@.contains(o) {
                    let m = choose|m: int| 0 <= m < w@.len() && w@[m] == o;
                    if m < before.len() {
                        assert(before[m] == o);
                        assert(before.contains(o));
                        assert(v@.take(i as int).contains(o));
                        let k = choose|k: int| 0 <= k < i && v@.take(i as int)[k] == o;
                        assert(t[k] == o);
                    } else {
                        assert(t[i as int] == o);
                    }
                }
            }
        }
        i += 1;
    }
    assert(v@.take(v@.len() as int) =~= v@);
    w
}

impl ObjectList {
    pub fn new(list_kind: ListKind, device_kind: Option<DeviceKind>) -> (list: ObjectList)
        ensures
            fresh_list(list, list_kind, device_kind),
    {
        ObjectList {
            top: 0,
            selected: None,
            list_kind,
            device_kind,
            dropdown_selected: None,
            targets: Vec::new(),
        }
    }

    /// Selects an object, closing the dropdown.
    fn select(&mut self, object_id: Option<ObjectId>)
        ensures
            *final(self) == (ObjectList { selected: object_id, dropdown_selected: None, ..*old(self) }),
    {
        self.selected = object_id;
        self.dropdown_close();
    }

    pub fn dropdown_close(&mut self)
        ensures
            *final(self) == (ObjectList { dropdown_selected: None, ..*old(self) }),
    {
        self.dropdown_selected = None;
    }

    /// Moves down: to the next entry of an open dropdown, else to the next
    /// object of the list (the first when nothing is selected), if there is
    /// one.
    pub fn down(&mut self, view: &view::View)
        ensures
            moved_down(*view, *old(self), *final(self)),
    {
        match self.dropdown_selected {
            Some(i) => {
                self.dropdown_selected = Some(i.saturating_add(1));
            },
            None => {
                let next = view.next_id(self.list_kind, self.selected);
                if next.is_some() {
                    self.select(next);
                }
            },
        }
    }

    /// Moves up: to the previous entry of an open dropdown, else to the
    /// previous object of the list (the first when nothing is selected), if
    /// there is one.
    pub fn up(&mut self, view: &view::View)
        ensures
            moved_up(*view, *old(self), *final(self)),
    {
        match self.dropdown_selected {
            Some(i) => {
                self.dropdown_selected = Some(i.saturating_sub(1));
            },
            None => {
                let previous = view.previous_id(self.list_kind, self.selected);
                if previous.is_some() {
                    self.select(previous);
                }
            },
        }
    }

    /// The position of the selected object in the list.
    fn selected_index(&self, view: &view::View) -> (index: Option<usize>)
        ensures
            match index {
                Some(i) => self.selected matches Some(s) && first_position(ids_for(*view, self.list_kind), s)
                    == Some(i as int),
                None => match self.selected {
                    Some(s) => first_position(ids_for(*view, self.list_kind), s) is None,
                    None => true,
                },
            },
    {
        match self.selected {
            Some(s) => view.position(self.list_kind, s),
            None => None,
        }
    }

    /// The objects whose changes show in the list as it is scrolled, for a
    /// list area of `list_height` rows: the global object (id 0), then for
    /// each object in the viewport the object, its client and device, and
    /// in a list of nodes the object its target stands for, with that
    /// object's client and device. Each id is given once.
    pub fn visible_objects(&self, list_height: u16, view: &view::View) -> (ids: Vec<ObjectId>)
        requires
            self.top <= ids_for(*view, self.list_kind).len(),
        ensures
            ids@.no_duplicates(),
            forall|o: ObjectId|
                #![trigger ids@.contains(o)]
                ids@.contains(o) <==> (seq![ObjectId(0)] + related_all(
                    *view,
                    self.list_kind,
                    shown_ids(ids_for(*view, self.list_kind), self.top as int, visible_count_of(list_height)),
                )).contains(o),
    {
        let objects = view.object_ids(self.list_kind);
        let visible = self.visible_count(list_height);
        let end = self.top.saturating_add(visible);
        let last = if objects.len() < end {
            objects.len()
        } else {
            end
        };
        let ghost shown = shown_ids(objects@, self.top as int, visible_count_of(list_height));
        assert(shown =~= objects@.subrange(self.top as int, last as int));
        let mut ids: Vec<ObjectId> = Vec::new();
        ids.push(ObjectId::from_raw_id(0));
        let mut i: usize = self.top;
        while i < last
            invariant
                self.top <= i <= last <= objects@.len(),
                shown == objects@.subrange(self.top as int, last as int),
                ids@ == seq![ObjectId(0)] + related_all(*view, self.list_kind, shown.take(i - self.top)),
            decreases last - i,
        {
            let id = objects[i];
            let ghost before = ids@;
            ids.push(id);
            push_links(&mut ids, view, id);
            match view.nodes.get(&id.0) {
                Some(node) => match (self.list_kind, node.target) {
                    (ListKind::Node(kind), Some(target)) => match target.resolve(view, kind) {
                        Some(t) => {
                            ids.push(t);
                            push_links(&mut ids, view, t);
                        },
                        None => {},
                    },
                    _ => {},
                },
                None => {},
            }
            proof {
                let t = shown.take(i - self.top + 1);
                assert(t.drop_last() =~= shown.take(i - self.top));
                assert(t.last() == id);
                assert(ids@ =~= before + related_objects(*view, self.list_kind, id));
            }
            i += 1;
        }
        assert(shown.take(last - self.top) =~= shown);
        distinct_ids(&ids)
    }

    /// The number of objects that fit in a list area of `list_height` rows.
    pub fn visible_count(&self, list_height: u16) -> (n: usize)
        ensures
            n as int == visible_count_of(list_height),
    {
        (list_height / OBJECT_ROWS) as usize
    }

    /// Whether objects lie above the viewport, so that the header shows
    /// that the list goes on.
    pub fn more_above(&self) -> (more: bool)
        ensures
            more == (self.top > 0),
    {
        self.top > 0
    }

    /// Whether objects lie below the viewport, so that the footer shows
    /// that the list goes on: some object starts below the objects that fit,
    /// unless it is the last one and the rows left over show its three
    /// rows.
    pub fn more_below(&self, list_height: u16, view: &view::View) -> (more: bool)
        ensures
            more == more_below_spec(self.top, list_height, ids_for(*view, self.list_kind).len()),
    {
        let visible = self.visible_count(list_height);
        let len = view.len(self.list_kind);
        let end = self.top.saturating_add(visible);
        let is_bottom_last = end == len.saturating_sub(1);
        let is_bottom_enough = list_height % OBJECT_ROWS >= 3;
        end < len && !(is_bottom_last && is_bottom_enough)
    }

    /// Reconciles the selection and the viewport with the view, for a list
    /// area of `list_height` rows.
    pub fn update(&mut self, list_height: u16, view: &view::View)
        ensures
            (final(self).top, final(self).selected, final(self).dropdown_selected) == reconciled(
                ids_for(*view, old(self).list_kind),
                old(self).top,
                old(self).selected,
                old(self).dropdown_selected,
                visible_count_of(list_height),
            ),
            final(self).list_kind == old(self).list_kind,
            final(self).device_kind == old(self).device_kind,
            final(self).targets == old(self).targets,
    {
        let selected_index = match self.selected_index(view) {
            Some(i) => Some(i),
            None => {
                let first = view.next_id(self.list_kind, None);
                self.select(first);
                self.selected_index(view)
            },
        };
        let objects_len = view.len(self.list_kind);
        let visible_count = self.visible_count(list_height);
        if self.top >= objects_len {
            self.top = objects_len.saturating_sub(visible_count);
        }
        if self.selected.is_some() {
            match selected_index {
                Some(selected_index) => {
                    if selected_index >= self.top.saturating_add(visible_count) {
                        let visible_count_except_last = visible_count.saturating_sub(1);
                        self.top = selected_index.saturating_sub(visible_count_except_last);
                    } else if selected_index < self.top {
                        self.top = selected_index;
                    }
                },
                None => self.select(None),
            }
        }
    }

    /// Opens the dropdown on the targets of the selected object, at its
    /// current target, when it has any.
    fn dropdown_open(&mut self, view: &view::View)
        ensures
            dropdown_opened(*view, *old(self), *final(self)),
    {
        let targets = match self.list_kind {
            ListKind::Node(_) => match self.selected {
                Some(id) => view.node_targets(id),
                None => None,
            },
            ListKind::Device => match self.selected {
                Some(id) => view.device_targets(id),
                None => None,
            },
        };
        let ghost found = targets;
        match targets {
            Some((targets, index)) => {
                if targets.len() > 0 {
                    self.targets = targets;
                    self.dropdown_selected = Some(index);
                }
            },
            None => {},
        }
        assert(targets_found(*view, *old(self), found) && opened_on(*old(self), *self, found));
    }

    /// The target under the dropdown's selection.
    fn selected_target(&self) -> (target: Option<Target>)
        ensures
            target == match self.dropdown_selected {
                Some(i) => if i < self.targets@.len() {
                    Some(self.targets@[i as int].0)
                } else {
                    None
                },
                None => None,
            },
    {
        match self.dropdown_selected {
            Some(i) => if i < self.targets.len() {
                Some(self.targets[i].0)
            } else {
                None
            },
            None => None,
        }
    }

    /// Opens the dropdown if it is closed; else sends the selected object to
    /// the target under the dropdown's selection and closes it. Returns the
    /// commands that do so.
    pub fn dropdown_activate(&mut self, view: &view::View) -> (commands: Vec<Command>)
        ensures
            activated(*view, *old(self), *final(self), commands@),
    {
        if self.dropdown_selected.is_none() {
            self.dropdown_open(view);
            return Vec::new();
        }
        let commands = match (self.selected, self.selected_target()) {
            (Some(object_id), Some(target)) => view.set_target(object_id, target),
            _ => Vec::new(),
        };
        self.dropdown_selected = None;
        commands
    }

    /// Closes the dropdown and sends the selected object to `target`.
    pub fn set_target(&mut self, view: &view::View, target: Target) -> (commands: Vec<Command>)
        ensures
            targeted(*view, *old(self), *final(self), target, commands@),
    {
        self.dropdown_selected = None;
        match self.selected {
            Some(object_id) => view.set_target(object_id, target),
            None => Vec::new(),
        }
    }

    /// Flips the mute state of the selected node; devices have none.
    pub fn toggle_mute(&self, view: &view::View) -> (command: Option<Command>)
        ensures
            mute_toggled(*view, *self, command),
    {
        if self.list_kind.is_device() {
            return None;
        }
        match self.selected {
            Some(node_id) => view.mute(node_id),
            None => None,
        }
    }

    /// Makes the selected node the default sink or source of the list.
    pub fn set_default(&self, view: &view::View) -> (command: Option<Command>)
        ensures
            default_set(*view, *self, command),
    {
        if self.list_kind.is_device() {
            return None;
        }
        match (self.selected, self.device_kind) {
            (Some(node_id), Some(device_kind)) => view.set_default(node_id, device_kind),
            _ => None,
        }
    }
}

/// After `update` with a list area of `list_height` rows, nothing is
/// selected exactly when the list is empty; a selection still in the list
/// is kept, else the first object is selected; and the viewport shows the
/// selection (at its top when no object fits).
pub proof fn lemma_update_keeps_selection_in_view(
    before: ObjectList,
    after: ObjectList,
    list_height: u16,
    view: view::View,
)
    requires
        (after.top, after.selected, after.dropdown_selected) == reconciled(
            ids_for(view, before.list_kind),
            before.top,
            before.selected,
            before.dropdown_selected,
            visible_count_of(list_height),
        ),
    ensures
        ({
            let ids = ids_for(view, before.list_kind);
            let visible = visible_count_of(list_height);
            &&& (after.selected is None <==> ids.len() == 0)
            &&& after.selected matches Some(s) ==> (first_position(ids, s) matches Some(i) && after.top <= i
                < after.top + if visible > 0 {
                visible
            } else {
                1
            })
            &&& (before.selected matches Some(s) && first_position(ids, s) is Some) ==> after.selected
                == before.selected
            &&& !(before.selected matches Some(s) && first_position(ids, s) is Some) && ids.len() > 0
                ==> after.selected == Some(ids[0])
        }),
{
    let ids = ids_for(view, before.list_kind);
    assert(ids.len() <= usize::MAX) by {
        match before.list_kind {
            ListKind::Node(view::NodeKind::Playback) => assert(view.nodes_playback@.len() == view.nodes_playback.len()),
            ListKind::Node(view::NodeKind::Recording) => assert(view.nodes_recording@.len() == view.nodes_recording.len()),
            ListKind::Node(view::NodeKind::Output) => assert(view.nodes_output@.len() == view.nodes_output.len()),
            ListKind::Node(view::NodeKind::Input) => assert(view.nodes_input@.len() == view.nodes_input.len()),
            ListKind::Node(view::NodeKind::All) => assert(view.nodes_all@.len() == view.nodes_all.len()),
            ListKind::Device => assert(view.devices_all@.len() == view.devices_all.len()),
        }
    }
    lemma_first_position_bound(ids, before.selected);
    if ids.len() > 0 {
        lemma_first_position_bound(ids, Some(ids[0]));
    }
}

/// Moving down and then up, or up and then down, brings the list back to
/// where it was, when something was selected (an object of a list that
/// holds each object once, or an entry of the open dropdown) and the first
/// move changed the list.
pub proof fn lemma_move_and_back(v: view::View, l: ObjectList, m: ObjectList, k: ObjectList, down_first: bool)
    requires
        ids_for(v, l.list_kind).no_duplicates(),
        l.selected is Some || l.dropdown_selected is Some,
        down_first ==> moved_down(v, l, m) && moved_up(v, m, k),
        !down_first ==> moved_up(v, l, m) && moved_down(v, m, k),
        m != l,
    ensures
        k == l,
{
    if l.dropdown_selected is None {
        let o = l.selected->0;
        lemma_step_and_back(ids_for(v, l.list_kind), o, down_first);
    }
}

/// A position found in a list lies within it.
proof fn lemma_first_position_bound(ids: Seq<ObjectId>, o: Option<ObjectId>)
    ensures
        o matches Some(x) ==> (first_position(ids, x) matches Some(i) ==> 0 <= i < ids.len() && ids[i] == x),
        ids.len() > 0 ==> first_position(ids, ids[0]) == Some(0int),
    decreases ids.len(),
{
    if ids.len() > 0 {
        lemma_first_position_bound(ids.skip(1), o);
    }
}

} // verus!
