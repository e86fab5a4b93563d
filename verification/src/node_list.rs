//! The older list of nodes: the nodes of the state that a filter keeps, in
//! the order of their ids, with a selection and a viewport.

use vstd::prelude::*;

use crate::command::Command;
use crate::json::{json_quoted, quoted};
use crate::object::ObjectId;
use crate::property_store::opt_text;
use crate::sort::{index_permutation, is_permutation, sort_by, sorted_by_le, total_preorder};
use crate::state;
use crate::state::{keys_of, lists_keys, State};
use crate::text::{concat, str_eq};
use crate::view::{first_position, lemma_first_position};

verus! {

broadcast use vstd::std_specs::hash::group_hash_axioms;

/// Rows that a node takes in the list.
pub const NODE_ROWS: u16 = 3;

pub struct NodeList<F> {
    /// Index of the first node in the viewport.
    pub top: usize,
    /// The selected node.
    pub selected: Option<ObjectId>,
    /// Which nodes of the state the list shows.
    pub filter: F,
}

/// `nodes` are the nodes of `m` that `filter` kept, one for each key it
/// kept, in the order of their ids: each listed node was answered `true`,
/// each other node `false`.
pub open spec fn kept_nodes<F: Fn(&state::Node) -> bool>(
    filter: F,
    m: Map<u32, state::Node>,
    nodes: Seq<state::Node>,
) -> bool {
    &&& exists|ks: Seq<u32>|
        {
            &&& ks.no_duplicates()
            &&& ks.len() == nodes.len()
            &&& forall|i: int|
                0 <= i < ks.len() ==> m.contains_key(#[trigger] ks[i]) && nodes[i] == m[ks[i]]
                    && call_ensures(filter, (&m[ks[i]],), true)
            &&& forall|k: u32|
                m.contains_key(k) && !(#[trigger] ks.contains(k)) ==> call_ensures(
                    filter,
                    (&m[k],),
                    false,
                )
        }
    &&& forall|i: int, j: int| 0 <= i < j < nodes.len() ==> (#[trigger] nodes[i]).id.0 <= (#[trigger] nodes[j]).id.0
}

pub open spec fn deref_nodes(v: Seq<&state::Node>) -> Seq<state::Node> {
    v.map_values(|n: &state::Node| *n)
}

/// The ids of nodes, in order.
pub open spec fn node_ids(nodes: Seq<state::Node>) -> Seq<ObjectId> {
    nodes.map_values(|n: state::Node| n.id)
}

/// The selection after moving by one (`forward` or back) among `ids`: the
/// first without a selection; unchanged when the selection is not among
/// them or the new position is past the end.
pub open spec fn moved(ids: Seq<ObjectId>, selected: Option<ObjectId>, forward: bool) -> Option<ObjectId> {
    let index = match selected {
        None => Some(0int),
        Some(s) => match first_position(ids, s) {
            Some(p) => Some(
                if forward {
                    p + 1
                } else if p > 0 {
                    p - 1
                } else {
                    0
                },
            ),
            None => None,
        },
    };
    match index {
        Some(i) => if i < ids.len() {
            Some(ids[i])
        } else {
            selected
        },
        None => selected,
    }
}

/// The viewport and selection after `update`, for `visible` rows of nodes.
pub open spec fn node_list_reconciled(ids: Seq<ObjectId>, top: usize, selected: Option<ObjectId>, visible: int) -> (
    usize,
    Option<ObjectId>,
) {
    let len = ids.len() as int;
    let top1 = if top >= len {
        if len >= visible {
            len - visible
        } else {
            0
        }
    } else {
        top as int
    };
    match selected {
        Some(s) => match first_position(ids, s) {
            Some(i) => {
                let new_top = if i >= top1 + visible {
                    if i >= visible - 1 {
                        i - (visible - 1)
                    } else {
                        0
                    }
                } else if i < top1 {
                    i
                } else {
                    top1
                };
                (new_top as usize, selected)
            },
            None => (top1 as usize, None),
        },
        None => (top1 as usize, None),
    }
}

/// The key under which a default node of this media class is set.
pub open spec fn default_key_for(media_class: Seq<char>) -> Option<Seq<char>> {
    if media_class == "Audio/Sink"@ {
        Some("default.configured.audio.sink"@)
    } else if media_class == "Audio/Source"@ {
        Some("default.configured.audio.source"@)
    } else {
        None
    }
}

pub open spec fn id_order<'a>() -> spec_fn(&'a state::Node, &'a state::Node) -> bool {
    |a: &'a state::Node, b: &'a state::Node| a.id.0 <= b.id.0
}

impl<F: Fn(&state::Node) -> bool> NodeList<F> {
    pub fn new(filter: F) -> (list: NodeList<F>)
        ensures
            list.top == 0,
            list.selected is None,
            list.filter == filter,
    {
        NodeList { top: 0, selected: None, filter }
    }

    /// The nodes of the state that the filter keeps, in the order of their
    /// ids.
    pub fn filtered_nodes<'a>(&self, state: &'a State) -> (nodes: Vec<&'a state::Node>)
        requires
            forall|n: &state::Node| #[trigger] self.filter.requires((n,)),
        ensures
            kept_nodes(self.filter, state.nodes@, deref_nodes(nodes@)),
    {
        let keys = keys_of(&state.nodes);
        let mut kept: Vec<&'a state::Node> = Vec::new();
        let ghost mut ks: Seq<u32> = seq![];
        let ghost m = state.nodes@;
        let mut i: usize = 0;
        while i < keys.len()
            invariant
                m == state.nodes@,
                lists_keys(keys@, m),
                i <= keys@.len(),
                forall|n: &state::Node| #[trigger] self.filter.requires((n,)),
                ks.no_duplicates(),
                forall|x: u32| #[trigger] ks.contains(x) ==> keys@.take(i as int).contains(x),
                ks.len() == kept@.len(),
                forall|j: int| 0 <= j < ks.len() ==> m.contains_key(#[trigger] ks[j]) && *kept@[j] == m[ks[j]]
                    && call_ensures(self.filter, (&m[ks[j]],), true),
                forall|j: int|
                    0 <= j < i && !ks.contains(#[trigger] keys@[j]) ==> call_ensures(
                        self.filter,
                        (&m[keys@[j]],),
                        false,
                    ),
            decreases keys.len() - i,
        {
            let k = keys[i];
            assert(keys@.to_set().contains(k));
            let node = state.nodes.get(&k).unwrap();
            let keep = (self.filter)(node);
            let ghost old_ks = ks;
            proof {
                assert(!old_ks.contains(k)) by {
                    if old_ks.contains(k) {
                        let t = keys@.take(i as int);
                        assert(t.contains(k));
                        let j = choose|j: int| 0 <= j < t.len() && t[j] == k;
                        assert(keys@[j] == keys@[i as int]);
                    }
                }
            }
            if keep {
                kept.push(node);
                proof {
                    ks = ks.push(k);
                    assert forall|j: int| 0 <= j < ks.len() implies m.contains_key(#[trigger] ks[j]) && *kept@[j]
                        == m[ks[j]] && call_ensures(self.filter, (&m[ks[j]],), true) by {
                        if j < ks.len() - 1 {
                            assert(ks[j] == old_ks[j]);
                        }
                    }
                }
            }
            proof {
                let t = keys@.take(i + 1);
                assert(t =~= keys@.take(i as int).push(k));
                assert forall|x: u32| #[trigger] ks.contains(x) implies t.contains(x) by {
                    if x == k {
                        assert(t[i as int] == k);
                    } else {
                        let y = choose|y: int| 0 <= y < ks.len() && ks[y] == x;
                        assert(old_ks[y] == x);
                        assert(old_ks.contains(x));
                        assert(keys@.take(i as int).contains(x));
                        let z = choose|z: int| 0 <= z < i && keys@.take(i as int)[z] == x;
                        assert(t[z] == x);
                    }
                }
                assert forall|j: int| 0 <= j < i + 1 && !ks.contains(#[trigger] keys@[j]) implies call_ensures(
                    self.filter,
                    (&m[keys@[j]],),
                    false,
                ) by {
                    if j < i {
                        if old_ks.contains(keys@[j]) {
                            let x = choose|x: int| 0 <= x < old_ks.len() && old_ks[x] == keys@[j];
                            assert(ks[x] == keys@[j]);
                        }
                    } else {
                        if keep {
                            assert(ks[ks.len() - 1] == k);
                        }
                    }
                }
            }
            i += 1;
        }
        proof {
            assert(keys@.take(keys@.len() as int) =~= keys@);
            assert forall|k: u32| m.contains_key(k) && !(#[trigger] ks.contains(k)) implies call_ensures(
                self.filter,
                (&m[k],),
                false,
            ) by {
                assert(keys@.to_set().contains(k));
                let j = choose|j: int| 0 <= j < keys@.len() && keys@[j] == k;
            }
        }
        let ghost unsorted = kept@;
        let le = |a: &&'a state::Node, b: &&'a state::Node| -> (r: bool)
            ensures
                r == (a.id.0 <= b.id.0),
            { a.id.0 <= b.id.0 };
        proof {
            assert forall|a: &'a state::Node, b: &'a state::Node| #[trigger] id_order::<'a>()(a, b) || id_order::<'a>()(b, a) by {}
            assert forall|a: &'a state::Node, b: &'a state::Node, c: &'a state::Node| #[trigger]
                id_order::<'a>()(a, b) && #[trigger] id_order::<'a>()(b, c) implies id_order::<'a>()(a, c) by {}
        }
        let sorted = sort_by(kept, le, Ghost(id_order::<'a>()));
        proof {
            let p = choose|p: Seq<int>|
                index_permutation(p, unsorted.len()) && sorted@.len() == unsorted.len() && forall|j: int|
                    0 <= j < sorted@.len() ==> sorted@[j] == unsorted[#[trigger] p[j]];
            let qs = Seq::new(sorted@.len(), |j: int| ks[p[j]]);
            let nodes = deref_nodes(sorted@);
            assert forall|a: int, b: int| 0 <= a < b < qs.len() implies qs[a] != qs[b] by {
                assert(p[a] != p[b]);
            }
            assert forall|j: int| 0 <= j < qs.len() implies m.contains_key(#[trigger] qs[j]) && nodes[j]
                == m[qs[j]] && call_ensures(self.filter, (&m[qs[j]],), true) by {
                assert(sorted@[j] == unsorted[p[j]]);
            }
            assert forall|k: u32| m.contains_key(k) && !(#[trigger] qs.contains(k)) implies call_ensures(
                self.filter,
                (&m[k],),
                false,
            ) by {
                if ks.contains(k) {
                    let x = choose|x: int| 0 <= x < ks.len() && ks[x] == k;
                    assert(p.contains(x));
                    let j = choose|j: int| 0 <= j < p.len() && p[j] == x;
                    assert(qs[j] == k);
                }
            }
            assert forall|a: int, b: int| 0 <= a < b < nodes.len() implies (#[trigger] nodes[a]).id.0
                <= (#[trigger] nodes[b]).id.0 by {
                assert(id_order::<'a>()(sorted@[a], sorted@[b]));
            }
            assert(qs.no_duplicates() && qs.len() == nodes.len());
        }
        sorted
    }
}

/// The command that makes the selected node the default sink or source,
/// as `set_default` gives it.
pub open spec fn node_default_command(state: &State, selected: Option<ObjectId>, command: Option<Command>) -> bool {
    let found = match selected {
        Some(id) => if state.nodes@.contains_key(id.0) {
            let node = state.nodes@[id.0];
            match (node.props.node_name, node.props.media_class) {
                (Some(name), Some(class)) => match default_key_for(class@) {
                    Some(key) => if state.metadatas_by_name@.contains_key("default"@) {
                        Some((state.metadatas_by_name@["default"@], key, name@))
                    } else {
                        None
                    },
                    None => None,
                },
                _ => None,
            }
        } else {
            None
        },
        None => None,
    };
    match found {
        Some((md, key, name)) => command matches Some(Command::MetadataSetProperty(m, s, k, t, v)) && m == md
            && s == 0 && k@ == key && opt_text(t) == Some("Spa:String:JSON"@) && opt_text(v) == Some(
            "{\"name\":"@ + json_quoted(name) + "}"@,
        ),
        None => command is None,
    }
}

fn position_of<'a>(nodes: &Vec<&'a state::Node>, id: ObjectId) -> (position: Option<usize>)
    ensures
        match position {
            Some(p) => first_position(node_ids(deref_nodes(nodes@)), id) == Some(p as int),
            None => first_position(node_ids(deref_nodes(nodes@)), id) is None,
        },
{
    let ghost ids = node_ids(deref_nodes(nodes@));
    let mut i: usize = 0;
    while i < nodes.len()
        invariant
            ids == node_ids(deref_nodes(nodes@)),
            ids.len() == nodes@.len(),
            i <= nodes@.len(),
            forall|j: int| 0 <= j < i ==> ids[j] != id,
        decreases nodes.len() - i,
    {
        assert(ids[i as int] == nodes@[i as int].id);
        if nodes[i].id == id {
            proof {
                lemma_first_position(ids, id, i as int);
            }
            return Some(i);
        }
        i += 1;
    }
    proof {
        lemma_first_position(ids, id, ids.len() as int);
    }
    None
}

impl<F: Fn(&state::Node) -> bool> NodeList<F> {
    fn move_selected(&mut self, state: &State, forward: bool)
        requires
            forall|n: &state::Node| #[trigger] old(self).filter.requires((n,)),
        ensures
            final(self).filter == old(self).filter,
            final(self).top == old(self).top,
            exists|nodes: Seq<state::Node>|
                kept_nodes(old(self).filter, state.nodes@, nodes) && final(self).selected == moved(
                    node_ids(nodes),
                    old(self).selected,
                    forward,
                ),
    {
        let nodes = self.filtered_nodes(state);
        let ghost ids = node_ids(deref_nodes(nodes@));
        let new_index = match self.selected {
            None => 0,
            Some(selected) => match position_of(&nodes, selected) {
                Some(p) => if forward {
                    p.saturating_add(1)
                } else {
                    p.saturating_sub(1)
                },
                None => {
                    assert(kept_nodes(self.filter, state.nodes@, deref_nodes(nodes@)));
                    return;
                },
            },
        };
        if new_index < nodes.len() {
            assert(ids[new_index as int] == nodes@[new_index as int].id);
            self.selected = Some(nodes[new_index].id);
        }
        assert(kept_nodes(self.filter, state.nodes@, deref_nodes(nodes@)));
    }

    /// Selects the previous node (the first stays selected), or the first
    /// node when none is selected.
    pub fn up(&mut self, state: &State)
        requires
            forall|n: &state::Node| #[trigger] old(self).filter.requires((n,)),
        ensures
            final(self).filter == old(self).filter,
            final(self).top == old(self).top,
            exists|nodes: Seq<state::Node>|
                kept_nodes(old(self).filter, state.nodes@, nodes) && final(self).selected == moved(
                    node_ids(nodes),
                    old(self).selected,
                    false,
                ),
    {
        self.move_selected(state, false);
    }

    /// Selects the next node (the last stays selected), or the first node
    /// when none is selected.
    pub fn down(&mut self, state: &State)
        requires
            forall|n: &state::Node| #[trigger] old(self).filter.requires((n,)),
        ensures
            final(self).filter == old(self).filter,
            final(self).top == old(self).top,
            exists|nodes: Seq<state::Node>|
                kept_nodes(old(self).filter, state.nodes@, nodes) && final(self).selected == moved(
                    node_ids(nodes),
                    old(self).selected,
                    true,
                ),
    {
        self.move_selected(state, true);
    }

    /// Reconciles the viewport and selection with the nodes, for a list
    /// area of `list_height` rows. (With no room for a node, a kept
    /// selection at or below the top of the viewport cannot be
    /// reconciled.)
    pub fn update(&mut self, list_height: u16, state: &State)
        requires
            forall|n: &state::Node| #[trigger] old(self).filter.requires((n,)),
            list_height >= NODE_ROWS || old(self).selected is None || forall|nodes: Seq<state::Node>|
                kept_nodes(old(self).filter, state.nodes@, nodes) ==> match first_position(
                    #[trigger] node_ids(nodes),
                    old(self).selected->0,
                ) {
                    Some(i) => i < old(self).top,
                    None => true,
                },
        ensures
            final(self).filter == old(self).filter,
            exists|nodes: Seq<state::Node>|
                kept_nodes(old(self).filter, state.nodes@, nodes) && (final(self).top, final(self).selected)
                    == node_list_reconciled(
                    node_ids(nodes),
                    old(self).top,
                    old(self).selected,
                    list_height as int / NODE_ROWS as int,
                ),
    {
        let nodes_visible = (list_height / NODE_ROWS) as usize;
        let nodes = self.filtered_nodes(state);
        let ghost ids = node_ids(deref_nodes(nodes@));
        assert(kept_nodes(self.filter, state.nodes@, deref_nodes(nodes@)));
        if self.top >= nodes.len() {
            self.top = nodes.len().saturating_sub(nodes_visible);
        }
        match self.selected {
            Some(selected) => match position_of(&nodes, selected) {
                Some(selected_index) => {
                    proof {
                        lemma_found_in_state(ids, deref_nodes(nodes@), state.nodes@, self.filter, selected, selected_index as int);
                    }
                    if selected_index >= self.top.saturating_add(nodes_visible) {
                        self.top = selected_index.saturating_sub(nodes_visible - 1);
                    } else if selected_index < self.top {
                        self.top = selected_index;
                    }
                },
                None => {
                    self.selected = None;
                },
            },
            None => {},
        }
    }

    /// The command that makes the selected node the default sink or source,
    /// by its media class; nothing when the state lacks what it needs.
    pub fn set_default(&self, state: &State) -> (command: Option<Command>)
        ensures
            node_default_command(state, self.selected, command),
    {
        proof {
            reveal_strlit("default");
            reveal_strlit("Audio/Sink");
            reveal_strlit("Audio/Source");
        }
        let node_id = match self.selected {
            Some(id) => id,
            None => return None,
        };
        let node = match state.nodes.get(&node_id.0) {
            Some(n) => n,
            None => return None,
        };
        let name = match &node.props.node_name {
            Some(n) => n,
            None => return None,
        };
        let class = match &node.props.media_class {
            Some(c) => c,
            None => return None,
        };
        let key = if str_eq(class.as_str(), "Audio/Sink") {
            "default.configured.audio.sink"
        } else if str_eq(class.as_str(), "Audio/Source") {
            "default.configured.audio.source"
        } else {
            return None;
        };
        let metadata_id = match state.metadatas_by_name.get("default") {
            Some(id) => *id,
            None => return None,
        };
        let object = concat("{\"name\":", quoted(name.as_str()).as_str());
        let object = concat(object.as_str(), "}");
        Some(
            Command::MetadataSetProperty(
                metadata_id,
                0,
                String::from_str(key),
                Some(String::from_str("Spa:String:JSON")),
                Some(object),
            ),
        )
    }
}

/// A node found among the kept nodes is a node of the state.
proof fn lemma_found_in_state<F: Fn(&state::Node) -> bool>(
    ids: Seq<ObjectId>,
    nodes: Seq<state::Node>,
    m: Map<u32, state::Node>,
    filter: F,
    id: ObjectId,
    i: int,
)
    requires
        ids == node_ids(nodes),
        kept_nodes(filter, m, nodes),
        first_position(ids, id) == Some(i),
    ensures
        0 <= i < nodes.len(),
        exists|k: u32| #[trigger] m.contains_key(k) && m[k].id == id,
{
    crate::view::lemma_first_position_in(ids, id, i);
    let ks = choose|ks: Seq<u32>|
        {
            &&& ks.no_duplicates()
            &&& ks.len() == nodes.len()
            &&& forall|x: int|
                0 <= x < ks.len() ==> m.contains_key(#[trigger] ks[x]) && nodes[x] == m[ks[x]]
                    && call_ensures(filter, (&m[ks[x]],), true)
            &&& forall|k: u32|
                m.contains_key(k) && !(#[trigger] ks.contains(k)) ==> call_ensures(filter, (&m[k],), false)
        };
    assert(m.contains_key(ks[i]) && nodes[i] == m[ks[i]]);
    assert(ids[i] == nodes[i].id);
}

} // verus!
