//! The view of the PipeWire state that the mixer shows: for each node and
//! device its title, its volumes and the targets it can be sent to, and the
//! lists of objects in the order they are shown.
//!
//! A view is rebuilt from the state as a whole; the commands that act on it
//! are returned for the caller to send to PipeWire.

use vstd::prelude::*;
use vstd::view::View as _;
use std::collections::HashMap;

use crate::command::Command;
use crate::json::{json_i64, json_name_field, json_quoted, name_field, parse_i64, quoted};
use crate::config::names::resolved_name;
use crate::config::Names;
use crate::device_kind::DeviceKind;
use crate::media_class::{
    is_sink, is_sink_input, is_source, is_source_output, sink_class, sink_input_class,
    source_class, source_output_class,
};
use crate::object::ObjectId;
use crate::property_store::opt_text;
use crate::sort::{index_permutation, is_permutation, sort_by, sorted_by_le, total_preorder};
use crate::state;
use crate::state::{keys_of, lemma_inputs_linked, lemma_outputs_linked, linked, lists_keys, State};
use crate::text::{concat, decimal, decimal_text, lemma_text_le_reflexive, lemma_text_le_total, lemma_text_le_transitive, text_le, text_le_exec};
use vstd::std_specs::hash::obeys_key_model;

verus! {

broadcast use vstd::std_specs::hash::group_hash_axioms;

// ---------------------------------------------------------------------------
// Types

/// Where a node or device can be sent: another node, a route or profile of a
/// device, or the default.
#[derive(Debug, Clone, Copy, PartialEq, Eq, Structural)]
pub enum Target {
    Node(ObjectId),
    Route(ObjectId, i32, i32),
    Profile(ObjectId, i32),
    Default,
}

/// Which nodes a node list shows.
#[derive(Debug, Clone, Copy, PartialEq, Eq, Structural)]
pub enum NodeKind {
    Playback,
    Recording,
    Output,
    Input,
    All,
}

/// Which objects a list shows: nodes of a kind, or devices.
#[derive(Debug, Clone, Copy, PartialEq, Eq, Structural)]
pub enum ListKind {
    Node(NodeKind),
    Device,
}

impl Default for NodeKind {
    fn default() -> (kind: NodeKind)
        ensures
            kind == NodeKind::All,
    {
        NodeKind::All
    }
}

impl Default for ListKind {
    fn default() -> (kind: ListKind)
        ensures
            kind == ListKind::Device,
    {
        ListKind::Device
    }
}

impl ListKind {
    pub fn is_node(&self) -> (node: bool)
        ensures
            node == (*self is Node),
    {
        match self {
            ListKind::Node(_) => true,
            ListKind::Device => false,
        }
    }

    pub fn is_device(&self) -> (device: bool)
        ensures
            device == (*self is Device),
    {
        match self {
            ListKind::Node(_) => false,
            ListKind::Device => true,
        }
    }
}

/// A node as the mixer shows it. Volumes and peaks are `f32` bit patterns.
#[derive(Debug)]
pub struct Node {
    pub object_id: ObjectId,
    pub object_serial: u64,
    pub name: String,
    pub title: String,
    pub title_source_sink: Option<String>,
    pub media_class: String,
    pub routes: Option<Vec<(Target, String)>>,
    pub target_title: String,
    pub target: Option<Target>,
    pub volumes: Vec<u32>,
    pub mute: bool,
    pub peaks: Option<Vec<u32>>,
    pub positions: Option<Vec<u32>>,
    /// For a device's node, the device, route index and card device that
    /// its volume and mute state are changed through.
    pub device_info: Option<(ObjectId, i32, i32)>,
    /// The client that made the node, if it names one.
    pub client_id: Option<ObjectId>,
    pub is_default_sink: bool,
    pub is_default_source: bool,
}

pub struct NodeView {
    pub object_id: ObjectId,
    pub object_serial: u64,
    pub name: Seq<char>,
    pub title: Seq<char>,
    pub title_source_sink: Option<Seq<char>>,
    pub media_class: Seq<char>,
    pub routes: Option<Seq<(Target, Seq<char>)>>,
    pub target_title: Seq<char>,
    pub target: Option<Target>,
    pub volumes: Seq<u32>,
    pub mute: bool,
    pub peaks: Option<Seq<u32>>,
    pub positions: Option<Seq<u32>>,
    pub device_info: Option<(ObjectId, i32, i32)>,
    pub client_id: Option<ObjectId>,
    pub is_default_sink: bool,
    pub is_default_source: bool,
}

pub open spec fn entry_views(v: Seq<(Target, String)>) -> Seq<(Target, Seq<char>)> {
    v.map_values(|e: (Target, String)| (e.0, e.1@))
}

pub open spec fn opt_seq(v: Option<Vec<u32>>) -> Option<Seq<u32>> {
    match v {
        Some(v) => Some(v@),
        None => None,
    }
}

impl vstd::view::View for Node {
    type V = NodeView;

    open spec fn view(&self) -> NodeView {
        NodeView {
            object_id: self.object_id,
            object_serial: self.object_serial,
            name: self.name@,
            title: self.title@,
            title_source_sink: opt_text(self.title_source_sink),
            media_class: self.media_class@,
            routes: match self.routes {
                Some(r) => Some(entry_views(r@)),
                None => None,
            },
            target_title: self.target_title@,
            target: self.target,
            volumes: self.volumes@,
            mute: self.mute,
            peaks: opt_seq(self.peaks),
            positions: opt_seq(self.positions),
            device_info: self.device_info,
            client_id: self.client_id,
            is_default_sink: self.is_default_sink,
            is_default_source: self.is_default_source,
        }
    }
}

/// A device as the mixer shows it.
#[derive(Debug)]
pub struct Device {
    pub object_id: ObjectId,
    pub object_serial: u64,
    pub title: String,
    pub profiles: Vec<(Target, String)>,
    pub target_title: String,
    pub target: Option<Target>,
}

pub struct DeviceView {
    pub object_id: ObjectId,
    pub object_serial: u64,
    pub title: Seq<char>,
    pub profiles: Seq<(Target, Seq<char>)>,
    pub target_title: Seq<char>,
    pub target: Option<Target>,
}

impl vstd::view::View for Device {
    type V = DeviceView;

    open spec fn view(&self) -> DeviceView {
        DeviceView {
            object_id: self.object_id,
            object_serial: self.object_serial,
            title: self.title@,
            profiles: entry_views(self.profiles@),
            target_title: self.target_title@,
            target: self.target,
        }
    }
}

// ---------------------------------------------------------------------------
// Lists and their order

/// `v` lists, in some order, one entry for each key of `m` whose value has
/// one.
pub open spec fn lists_entries<K, V, E>(m: Map<K, V>, entry: spec_fn(V) -> Option<E>, v: Seq<E>) -> bool {
    exists|ks: Seq<K>|
        {
            &&& ks.no_duplicates()
            &&& forall|k: K| #[trigger] ks.contains(k) <==> (m.contains_key(k) && entry(m[k]) is Some)
            &&& v.len() == ks.len()
            &&& forall|i: int| 0 <= i < v.len() ==> Some(v[i]) == entry(m[#[trigger] ks[i]])
        }
}

/// Reordering a listing gives a listing.
pub proof fn lemma_listing_permuted<K, V, E>(
    m: Map<K, V>,
    entry: spec_fn(V) -> Option<E>,
    v: Seq<E>,
    w: Seq<E>,
)
    requires
        lists_entries(m, entry, v),
        is_permutation(w, v),
    ensures
        lists_entries(m, entry, w),
{
    let ks = choose|ks: Seq<K>|
        {
            &&& ks.no_duplicates()
            &&& forall|k: K| #[trigger] ks.contains(k) <==> (m.contains_key(k) && entry(m[k]) is Some)
            &&& v.len() == ks.len()
            &&& forall|i: int| 0 <= i < v.len() ==> Some(v[i]) == entry(m[#[trigger] ks[i]])
        };
    let p = choose|p: Seq<int>|
        index_permutation(p, v.len()) && w.len() == v.len() && forall|j: int|
            0 <= j < w.len() ==> w[j] == v[#[trigger] p[j]];
    let qs = Seq::new(w.len(), |j: int| ks[p[j]]);
    assert forall|a: int, b: int| 0 <= a < b < qs.len() implies qs[a] != qs[b] by {
        assert(p[a] != p[b]);
    }
    assert forall|k: K| #[trigger] qs.contains(k) <==> (m.contains_key(k) && entry(m[k]) is Some) by {
        if qs.contains(k) {
            let j = choose|j: int| 0 <= j < qs.len() && qs[j] == k;
            assert(ks.contains(ks[p[j]]));
        }
        if m.contains_key(k) && entry(m[k]) is Some {
            assert(ks.contains(k));
            let i = choose|i: int| 0 <= i < ks.len() && ks[i] == k;
            assert(p.contains(i));
            let j = choose|j: int| 0 <= j < p.len() && p[j] == i;
            assert(qs[j] == k);
        }
    }
    assert forall|j: int| 0 <= j < w.len() implies Some(w[j]) == entry(m[#[trigger] qs[j]]) by {
        assert(w[j] == v[p[j]]);
    }
}

/// Elements of a permutation are permuted elementwise by any map.
proof fn lemma_entry_views_permuted(w: Seq<(Target, String)>, v: Seq<(Target, String)>)
    requires
        is_permutation(w, v),
    ensures
        is_permutation(entry_views(w), entry_views(v)),
{
    let p = choose|p: Seq<int>|
        index_permutation(p, v.len()) && w.len() == v.len() && forall|j: int|
            0 <= j < w.len() ==> w[j] == v[#[trigger] p[j]];
    assert forall|j: int| 0 <= j < entry_views(w).len() implies entry_views(w)[j] == entry_views(
        v,
    )[#[trigger] p[j]] by {
        assert(w[j] == v[p[j]]);
    }
    let ev = entry_views(v);
    let ew = entry_views(w);
    assert(index_permutation(p, ev.len()) && ew.len() == ev.len() && forall|j: int|
        0 <= j < ew.len() ==> ew[j] == ev[#[trigger] p[j]]);
}

/// The order of entries by their titles.
pub open spec fn title_order() -> spec_fn((Target, String), (Target, String)) -> bool {
    |a: (Target, String), b: (Target, String)| text_le(a.1@, b.1@)
}

/// Entries in the order of their titles.
pub open spec fn titles_sorted(v: Seq<(Target, Seq<char>)>) -> bool {
    forall|i: int, j: int| 0 <= i < j < v.len() ==> text_le(#[trigger] v[i].1, #[trigger] v[j].1)
}

proof fn lemma_title_order_total()
    ensures
        total_preorder(title_order()),
{
    assert forall|a: (Target, String), b: (Target, String)| #[trigger]
        title_order()(a, b) || title_order()(b, a) by {
        lemma_text_le_total(a.1@, b.1@);
    }
    assert forall|a: (Target, String), b: (Target, String), c: (Target, String)| #[trigger]
        title_order()(a, b) && #[trigger] title_order()(b, c) implies title_order()(a, c) by {
        lemma_text_le_transitive(a.1@, b.1@, c.1@);
    }
}

/// `w` holds the entries of `v` reordered, and entries with equal titles
/// come in the order they had in `v`.
pub open spec fn sorted_stably(w: Seq<(Target, Seq<char>)>, v: Seq<(Target, Seq<char>)>) -> bool {
    exists|p: Seq<int>|
        index_permutation(p, v.len()) && w.len() == v.len() && (forall|j: int|
            0 <= j < w.len() ==> w[j] == v[#[trigger] p[j]]) && forall|a: int, b: int|
            0 <= a < b < w.len() && (#[trigger] w[a]).1 == (#[trigger] w[b]).1 ==> p[a] < p[b]
}

/// Sorts entries by title, keeping entries with equal titles in order.
pub fn sort_by_title(v: Vec<(Target, String)>) -> (w: Vec<(Target, String)>)
    ensures
        titles_sorted(entry_views(w@)),
        is_permutation(entry_views(w@), entry_views(v@)),
        sorted_stably(entry_views(w@), entry_views(v@)),
{
    proof {
        lemma_title_order_total();
    }
    let le = |a: &(Target, String), b: &(Target, String)| -> (r: bool)
        ensures
            r == title_order()(*a, *b),
        { text_le_exec(a.1.as_str(), b.1.as_str()) };
    let w = sort_by(v, le, Ghost(title_order()));
    proof {
        let p = choose|p: Seq<int>|
            index_permutation(p, v@.len()) && w@.len() == v@.len() && (forall|j: int|
                0 <= j < w@.len() ==> w@[j] == v@[#[trigger] p[j]]) && forall|a: int, b: int|
                0 <= a < b < w@.len() && title_order()(#[trigger] w@[a], #[trigger] w@[b]) && title_order()(
                    w@[b],
                    w@[a],
                ) ==> p[a] < p[b];
        let ew = entry_views(w@);
        let ev = entry_views(v@);
        assert forall|j: int| 0 <= j < ew.len() implies ew[j] == ev[#[trigger] p[j]] by {
            assert(w@[j] == v@[p[j]]);
        }
        assert forall|a: int, b: int| 0 <= a < b < ew.len() && (#[trigger] ew[a]).1 == (#[trigger] ew[b]).1 implies p[a]
            < p[b] by {
            lemma_text_le_reflexive(ew[a].1);
            assert(title_order()(w@[a], w@[b]));
            assert(title_order()(w@[b], w@[a]));
        }
        assert(ew.len() == w@.len() && ev.len() == v@.len());
        assert(index_permutation(p, ev.len()));
        assert(sorted_stably(ew, ev));
        lemma_entry_views_permuted(w@, v@);
        assert forall|i: int, j: int| 0 <= i < j < w@.len() implies text_le(
            #[trigger] entry_views(w@)[i].1,
            #[trigger] entry_views(w@)[j].1,
        ) by {
            assert(title_order()(w@[i], w@[j]));
        }
    }
    w
}

// ---------------------------------------------------------------------------
// Routes and profiles of devices

/// A description, marked when what it describes is unavailable.
pub open spec fn shown_title(description: Seq<char>, available: bool) -> Seq<char> {
    if available {
        description
    } else {
        description + " (unavailable)"@
    }
}

fn availability_title(description: &String, available: bool) -> (title: String)
    ensures
        title@ == shown_title(description@, available),
{
    if available {
        description.clone()
    } else {
        concat(description.as_str(), " (unavailable)")
    }
}

fn contains_i32(v: &Vec<i32>, x: i32) -> (found: bool)
    ensures
        found == v@.contains(x),
{
    let mut i: usize = 0;
    while i < v.len()
        invariant
            i <= v.len(),
            forall|j: int| 0 <= j < i ==> v@[j] != x,
        decreases v.len() - i,
    {
        if v[i] == x {
            return true;
        }
        i += 1;
    }
    false
}

/// The route of a device for a card device, when the route belongs to the
/// device's current profile.
pub open spec fn active_route_of(device: state::Device, card_device: i32) -> Option<state::Route> {
    match device.profile_index {
        Some(pi) => if device.routes@.contains_key(card_device)
            && device.routes@[card_device].profiles@.contains(pi) {
            Some(device.routes@[card_device])
        } else {
            None
        },
        None => None,
    }
}

fn active_route(device: &state::Device, card_device: i32) -> (route: Option<&state::Route>)
    ensures
        match route {
            Some(r) => active_route_of(*device, card_device) == Some(*r),
            None => active_route_of(*device, card_device) is None,
        },
{
    match device.profile_index {
        Some(pi) => match device.routes.get(&card_device) {
            Some(route) => if contains_i32(&route.profiles, pi) {
                Some(route)
            } else {
                None
            },
            None => None,
        },
        None => None,
    }
}

/// The card devices of the first class named `media_class`.
pub open spec fn class_devices(classes: Seq<(String, Vec<i32>)>, media_class: Seq<char>) -> Option<Seq<i32>>
    decreases classes.len(),
{
    if classes.len() == 0 {
        None
    } else if classes[0].0@ == media_class {
        Some(classes[0].1@)
    } else {
        class_devices(classes.skip(1), media_class)
    }
}

/// The first of `ds` that `among` holds.
pub open spec fn first_shared(ds: Seq<i32>, among: Seq<i32>) -> Option<i32>
    decreases ds.len(),
{
    if ds.len() == 0 {
        None
    } else if among.contains(ds[0]) {
        Some(ds[0])
    } else {
        first_shared(ds.skip(1), among)
    }
}

/// The profile index and card devices that the routes for `media_class`
/// are chosen by, when the device has a current profile with that class.
pub open spec fn route_context(device: state::Device, media_class: Seq<char>) -> Option<(i32, Seq<i32>)> {
    match device.profile_index {
        Some(pi) => if device.profiles@.contains_key(pi) {
            match class_devices(device.profiles@[pi].classes@, media_class) {
                Some(ds) => Some((pi, ds)),
                None => None,
            }
        } else {
            None
        },
        None => None,
    }
}

/// The target that an enumerated route gives: the route, through the first
/// of its card devices that the profile has, if it belongs to the profile.
pub open spec fn route_entry(device_id: ObjectId, profile_index: i32, ds: Seq<i32>) -> spec_fn(
    state::EnumRoute,
) -> Option<(Target, Seq<char>)> {
    |r: state::EnumRoute|
        if r.profiles@.contains(profile_index) {
            match first_shared(r.devices@, ds) {
                Some(d) => Some(
                    (Target::Route(device_id, r.index, d), shown_title(r.description@, r.available)),
                ),
                None => None,
            }
        } else {
            None
        }
}

/// The routes that a device node can be sent to: nothing when the device has
/// no current profile with the node's class, else one entry for each
/// enumerated route that the profile allows.
pub open spec fn routes_listed(device: state::Device, media_class: Seq<char>, v: Seq<(Target, Seq<char>)>) -> bool {
    match route_context(device, media_class) {
        None => v.len() == 0,
        Some((pi, ds)) => lists_entries(device.enum_routes@, route_entry(device.id, pi, ds), v),
    }
}

fn class_devices_exec<'a>(classes: &'a Vec<(String, Vec<i32>)>, media_class: &String) -> (ds: Option<&'a Vec<i32>>)
    ensures
        match ds {
            Some(d) => class_devices(classes@, media_class@) == Some(d@),
            None => class_devices(classes@, media_class@) is None,
        },
{
    let mut i: usize = 0;
    assert(classes@.skip(0) =~= classes@);
    while i < classes.len()
        invariant
            i <= classes@.len(),
            class_devices(classes@.skip(i as int), media_class@) == class_devices(classes@, media_class@),
        decreases classes.len() - i,
    {
        assert(classes@.skip(i as int).skip(1) =~= classes@.skip(i + 1));
        assert(classes@.skip(i as int)[0] == classes@[i as int]);
        if crate::text::str_eq(classes[i].0.as_str(), media_class.as_str()) {
            return Some(&classes[i].1);
        }
        i += 1;
    }
    None
}

fn first_shared_exec(ds: &Vec<i32>, among: &Vec<i32>) -> (d: Option<i32>)
    ensures
        d == first_shared(ds@, among@),
{
    let mut i: usize = 0;
    assert(ds@.skip(0) =~= ds@);
    while i < ds.len()
        invariant
            i <= ds@.len(),
            first_shared(ds@.skip(i as int), among@) == first_shared(ds@, among@),
        decreases ds.len() - i,
    {
        assert(ds@.skip(i as int).skip(1) =~= ds@.skip(i + 1));
        assert(ds@.skip(i as int)[0] == ds@[i as int]);
        if contains_i32(among, ds[i]) {
            return Some(ds[i]);
        }
        i += 1;
    }
    None
}

/// The routes of `device` that a node of class `media_class` can use, in
/// the order the device's map yields them; nothing when the device has no
/// current profile with that class.
pub fn route_targets(device: &state::Device, media_class: &String) -> (targets: Option<Vec<(Target, String)>>)
    ensures
        match route_context(*device, media_class@) {
            None => targets is None,
            Some((pi, ds)) => targets matches Some(v) && lists_entries(
                device.enum_routes@,
                route_entry(device.id, pi, ds),
                entry_views(v@),
            ),
        },
{
    let profile_index = match device.profile_index {
        Some(pi) => pi,
        None => return None,
    };
    let profile = match device.profiles.get(&profile_index) {
        Some(p) => p,
        None => return None,
    };
    let profile_devices = match class_devices_exec(&profile.classes, media_class) {
        Some(d) => d,
        None => return None,
    };
    let ghost entry = route_entry(device.id, profile_index, profile_devices@);
    let ghost m = device.enum_routes@;
    let keys = keys_of(&device.enum_routes);
    let mut targets: Vec<(Target, String)> = Vec::new();
    let ghost mut ks: Seq<i32> = seq![];
    let mut i: usize = 0;
    while i < keys.len()
        invariant
            m == device.enum_routes@,
            entry == route_entry(device.id, profile_index, profile_devices@),
            lists_keys(keys@, m),
            i <= keys@.len(),
            ks.no_duplicates(),
            forall|k: i32| #[trigger] ks.contains(k) <==> (keys@.take(i as int).contains(k) && entry(m[k]) is Some),
            entry_views(targets@).len() == ks.len(),
            forall|j: int| 0 <= j < ks.len() ==> Some(entry_views(targets@)[j]) == entry(m[#[trigger] ks[j]]),
        decreases keys.len() - i,
    {
        let k = keys[i];
        assert(keys@.to_set().contains(k));
        let route = device.enum_routes.get(&k).unwrap();
        assert(*route == m[k]);
        let ghost before = targets@;
        let ghost old_ks = ks;
        proof {
            assert(!old_ks.contains(k)) by {
                if old_ks.contains(k) {
                    let t = keys@.take(i as int);
                    assert(t.contains(k));
                    let j = choose|j: int| 0 <= j < t.len() && t[j] == k;
                    assert(keys@[j] == keys@[i as int]);
                }
            }
        }
        if contains_i32(&route.profiles, profile_index) {
            match first_shared_exec(&route.devices, profile_devices) {
                Some(d) => {
                    let title = availability_title(&route.description, route.available);
                    targets.push((Target::Route(device.id, route.index, d), title));
                    proof {
                        ks = ks.push(k);
                        assert forall|j: int| 0 <= j < ks.len() implies Some(
                            entry_views(targets@)[j],
                        ) == entry(m[#[trigger] ks[j]]) by {
                            if j < ks.len() - 1 {
                                assert(entry_views(targets@)[j] == entry_views(before)[j]);
                            }
                        }
                    }
                },
                None => {
                    assert(entry(m[k]) is None);
                },
            }
        } else {
            assert(entry(m[k]) is None);
        }
        proof {
            assert(keys@.take(i + 1) =~= keys@.take(i as int).push(k));
            if entry(m[k]) is Some {
                assert(ks == old_ks.push(k));
            } else {
                assert(ks == old_ks);
            }
            assert forall|k2: i32| #[trigger] ks.contains(k2) <==> (old_ks.contains(k2) || (k2 == k
                && entry(m[k]) is Some)) by {
                if entry(m[k]) is Some {
                    if k2 == k {
                        assert(ks[ks.len() - 1] == k);
                    } else if ks.contains(k2) {
                        let j = choose|j: int| 0 <= j < ks.len() && ks[j] == k2;
                        assert(old_ks[j] == k2);
                    } else if old_ks.contains(k2) {
                        let j = choose|j: int| 0 <= j < old_ks.len() && old_ks[j] == k2;
                        assert(ks[j] == k2);
                    }
                }
            }
            assert forall|k2: i32| keys@.take(i + 1).contains(k2) <==> (keys@.take(i as int).contains(k2)
                || k2 == k) by {
                let t = keys@.take(i + 1);
                if t.contains(k2) && k2 != k {
                    let j = choose|j: int| 0 <= j < t.len() && t[j] == k2;
                    assert(keys@.take(i as int)[j] == k2);
                }
                if keys@.take(i as int).contains(k2) {
                    let j = choose|j: int| 0 <= j < i && keys@.take(i as int)[j] == k2;
                    assert(t[j] == k2);
                }
                if k2 == k {
                    assert(t[i as int] == k);
                }
            }
        }
        i += 1;
    }
    proof {
        assert(keys@.take(keys@.len() as int) =~= keys@);
        assert forall|k: i32| #[trigger] ks.contains(k) <==> (m.contains_key(k) && entry(m[k]) is Some) by {
            assert(keys@.to_set().contains(k) <==> m.contains_key(k));
        }
    }
    Some(targets)
}

// ---------------------------------------------------------------------------
// Defaults and targets, from the metadata named `default`

/// The value of `key` for `subject` in the metadata named `default`.
pub open spec fn default_metadata_value(state: &State, subject: u32, key: Seq<char>) -> Option<Seq<char>> {
    let names = state.metadatas_by_name@;
    if names.contains_key("default"@) && state.metadatas@.contains_key(names["default"@].0) {
        let properties = state.metadatas@[names["default"@].0]@.properties;
        if properties.contains_key(subject) && properties[subject].contains_key(key) {
            Some(properties[subject][key]@)
        } else {
            None
        }
    } else {
        None
    }
}

fn default_metadata_entry<'a>(state: &'a State, subject: u32, key: &str) -> (value: Option<&'a String>)
    ensures
        match value {
            Some(v) => default_metadata_value(state, subject, key@) == Some(v@),
            None => default_metadata_value(state, subject, key@) is None,
        },
{
    proof {
        reveal_strlit("default");
    }
    let metadata = match state.get_metadata_by_name("default") {
        Some(m) => m,
        None => return None,
    };
    match metadata.properties.get(&subject) {
        Some(properties) => properties.get(key),
        None => None,
    }
}

/// The name that the default sink or source (`which`) is set to.
pub open spec fn default_name(state: &State, which: Seq<char>) -> Option<Seq<char>> {
    match default_metadata_value(state, 0, which) {
        Some(text) => json_name_field(text),
        None => None,
    }
}

/// The name of the default node that `which` names, read from the JSON
/// object that the metadata holds for it.
pub fn default_for(state: &State, which: &str) -> (name: Option<String>)
    ensures
        opt_text(name) == default_name(state, which@),
{
    match default_metadata_entry(state, 0, which) {
        Some(text) => name_field(text.as_str()),
        None => None,
    }
}

/// The number that the metadata sets as `key` for a node.
pub open spec fn node_target_value(state: &State, node_id: ObjectId, key: Seq<char>) -> Option<i64> {
    match default_metadata_value(state, node_id.0, key) {
        Some(text) => json_i64(text),
        None => None,
    }
}

/// The node that a node is set to be sent to, if any.
pub fn target_node(state: &State, node_id: ObjectId) -> (target: Option<i64>)
    ensures
        target == node_target_value(state, node_id, "target.node"@),
{
    match default_metadata_entry(state, node_id.0, "target.node") {
        Some(text) => parse_i64(text.as_str()),
        None => None,
    }
}

/// The object that a node is set to be sent to, if any.
pub fn target_object(state: &State, node_id: ObjectId) -> (target: Option<i64>)
    ensures
        target == node_target_value(state, node_id, "target.object"@),
{
    match default_metadata_entry(state, node_id.0, "target.object") {
        Some(text) => parse_i64(text.as_str()),
        None => None,
    }
}

/// A node has a target of its own when the metadata sets `target.node` or
/// `target.object` to something other than -1.
pub open spec fn targets_set(node: Option<i64>, object: Option<i64>) -> bool {
    (node matches Some(n) && n != -1) || (object matches Some(o) && o != -1)
}

/// Whether a node with these `target.node` and `target.object` values has
/// a target of its own.
pub fn has_target_from(node: Option<i64>, object: Option<i64>) -> (set: bool)
    ensures
        set == targets_set(node, object),
{
    match (node, object) {
        (Some(n), _) if n != -1 => true,
        (_, Some(o)) if o != -1 => true,
        _ => false,
    }
}

/// Whether the metadata gives a node a target of its own.
pub open spec fn has_target_spec(state: &State, node_id: ObjectId) -> bool {
    targets_set(
        node_target_value(state, node_id, "target.node"@),
        node_target_value(state, node_id, "target.object"@),
    )
}

pub fn has_target(state: &State, node_id: ObjectId) -> (set: bool)
    ensures
        set == has_target_spec(state, node_id),
{
    has_target_from(target_node(state, node_id), target_object(state, node_id))
}

// ---------------------------------------------------------------------------
// Nodes

/// The volumes and mute state of a stream node, if it reported them.
pub open spec fn stream_levels(node: state::Node) -> Option<(Seq<u32>, bool, Option<(ObjectId, i32, i32)>)> {
    match (node.volumes, node.mute) {
        (Some(v), Some(m)) => Some((v@, m, None)),
        _ => None,
    }
}

/// The volumes and mute state of a node, and for a device's node the
/// device, route index and card device they are changed through. A
/// device's node takes them from the device's active route when it has one.
pub open spec fn node_levels(state: &State, node: state::Node) -> Option<(Seq<u32>, bool, Option<(ObjectId, i32, i32)>)> {
    match node.props.device_id {
        Some(did) => if state.devices@.contains_key(did.0) {
            match node.props.card_profile_device {
                Some(card) => match active_route_of(state.devices@[did.0], card) {
                    Some(route) => Some((route.volumes@, route.mute, Some((did, route.index, card)))),
                    None => stream_levels(node),
                },
                None => None,
            }
        } else {
            None
        },
        None => stream_levels(node),
    }
}

/// The first entry whose target is a node linked to `id`: one that `id`
/// outputs to when `outgoing`, else one that inputs to `id`.
pub open spec fn first_linked(
    entries: Seq<(Target, Seq<char>)>,
    links: Map<u32, state::Link>,
    id: ObjectId,
    outgoing: bool,
) -> Option<(Target, Seq<char>)>
    decreases entries.len(),
{
    if entries.len() == 0 {
        None
    } else if (match entries[0].0 {
        Target::Node(other) => if outgoing {
            linked(links, id, other)
        } else {
            linked(links, other, id)
        },
        _ => false,
    }) {
        Some(entries[0])
    } else {
        first_linked(entries.skip(1), links, id, outgoing)
    }
}

/// The target of a stream and its title: the default when the metadata sets
/// none (titled by the node it is linked to, or "No default"), else the node
/// it is linked to.
pub open spec fn stream_target(state: &State, id: ObjectId, found: Option<(Target, Seq<char>)>) -> (
    Option<Target>,
    Seq<char>,
) {
    if !has_target_spec(state, id) {
        (
            Some(Target::Default),
            match found {
                Some(e) => e.1,
                None => "No default"@,
            },
        )
    } else {
        match found {
            Some(e) => (Some(e.0), e.1),
            None => (None, seq![]),
        }
    }
}

/// The target of a device's node and its title: the device's active route.
pub open spec fn device_target(device: state::Device, card: i32) -> (Option<Target>, Seq<char>) {
    match active_route_of(device, card) {
        Some(route) => (
            Some(Target::Route(device.id, route.index, card)),
            shown_title(route.description@, route.available),
        ),
        None => (None, "No route selected"@),
    }
}

/// Whether a node can be shown: it has a media class, a name, a serial and
/// a title, and its volumes are known.
pub open spec fn node_shown(state: &State, names: Names, node: state::Node) -> bool {
    &&& node.props.media_class is Some
    &&& resolved_name(names, state, &node) is Some
    &&& node_levels(state, node) is Some
    &&& node.props.object_serial is Some
    &&& node.props.node_name is Some
}

/// `v` is the view of `node`, given the sinks and sources that streams can
/// be sent to and the names of the default sink and source.
pub open spec fn node_built(
    state: &State,
    names: Names,
    sources: Seq<(Target, Seq<char>)>,
    sinks: Seq<(Target, Seq<char>)>,
    default_sink_name: Option<Seq<char>>,
    default_source_name: Option<Seq<char>>,
    node: state::Node,
    v: NodeView,
) -> bool {
    let media_class = node.props.media_class->0@;
    &&& node_shown(state, names, node)
    &&& v.object_id == node.id
    &&& v.object_serial == node.props.object_serial->0
    &&& v.name == node.props.node_name->0@
    &&& Some(v.title) == resolved_name(names, state, &node)
    &&& v.title_source_sink == opt_text(node.props.media_name)
    &&& v.media_class == media_class
    &&& Some((v.volumes, v.mute, v.device_info)) == node_levels(state, node)
    &&& v.peaks == opt_seq(node.peaks)
    &&& v.positions == opt_seq(node.positions)
    &&& v.client_id == node.props.client_id
    &&& v.is_default_sink == (default_sink_name == Some(v.name))
    &&& v.is_default_source == (default_source_name == Some(v.name))
    &&& match node.props.device_id {
        Some(did) => {
            let device = state.devices@[did.0];
            &&& v.routes matches Some(rs) && titles_sorted(rs) && routes_listed(device, media_class, rs)
            &&& (v.target, v.target_title) == device_target(device, node.props.card_profile_device->0)
        },
        None => {
            &&& v.routes is None
            &&& (v.target, v.target_title) == if sink_input_class(media_class) {
                stream_target(state, node.id, first_linked(sinks, state.links@, node.id, true))
            } else if source_output_class(media_class) {
                stream_target(state, node.id, first_linked(sources, state.links@, node.id, false))
            } else {
                (None, "No route selected"@)
            }
        },
    }
}

fn clone_levels(v: &Vec<u32>) -> (c: Vec<u32>)
    ensures
        c@ == v@,
{
    let mut c: Vec<u32> = Vec::new();
    let mut i: usize = 0;
    while i < v.len()
        invariant
            i <= v.len(),
            c@ == v@.take(i as int),
        decreases v.len() - i,
    {
        c.push(v[i]);
        assert(v@.take(i + 1) =~= v@.take(i as int).push(v@[i as int]));
        i += 1;
    }
    assert(v@.take(v.len() as int) =~= v@);
    c
}

fn clone_opt_levels(v: &Option<Vec<u32>>) -> (c: Option<Vec<u32>>)
    ensures
        opt_seq(c) == opt_seq(*v),
{
    match v {
        Some(v) => Some(clone_levels(v)),
        None => None,
    }
}

fn clone_opt_text(s: &Option<String>) -> (c: Option<String>)
    ensures
        opt_text(c) == opt_text(*s),
{
    match s {
        Some(s) => Some(s.clone()),
        None => None,
    }
}

fn same_name(a: &Option<String>, b: &String) -> (same: bool)
    ensures
        same == (opt_text(*a) == Some(b@)),
{
    match a {
        Some(a) => crate::text::str_eq(a.as_str(), b.as_str()),
        None => false,
    }
}

/// The first entry whose target is a node in `ids`.
fn first_in_ids<'a>(entries: &'a [(Target, String)], ids: &Vec<ObjectId>) -> (found: Option<&'a (Target, String)>)
    ensures
        match found {
            Some(e) => exists|i: int|
                0 <= i < entries@.len() && entries@[i] == *e && (match e.0 {
                    Target::Node(other) => ids@.contains(other),
                    _ => false,
                }) && forall|j: int|
                    0 <= j < i ==> !(match #[trigger] entries@[j].0 {
                        Target::Node(other) => ids@.contains(other),
                        _ => false,
                    }),
            None => forall|j: int|
                0 <= j < entries@.len() ==> !(match #[trigger] entries@[j].0 {
                    Target::Node(other) => ids@.contains(other),
                    _ => false,
                }),
        },
{
    let mut i: usize = 0;
    while i < entries.len()
        invariant
            i <= entries@.len(),
            forall|j: int|
                0 <= j < i ==> !(match #[trigger] entries@[j].0 {
                    Target::Node(other) => ids@.contains(other),
                    _ => false,
                }),
        decreases entries.len() - i,
    {
        let hit = match entries[i].0 {
            Target::Node(other) => state::contains_id(ids, other),
            _ => false,
        };
        if hit {
            return Some(&entries[i]);
        }
        i += 1;
    }
    None
}

/// The first linked entry, found through the objects that `id` is linked
/// with.
proof fn lemma_first_linked(
    entries: Seq<(Target, String)>,
    links: Map<u32, state::Link>,
    id: ObjectId,
    outgoing: bool,
    ids: Seq<ObjectId>,
    found: Option<(Target, String)>,
)
    requires
        forall|o: ObjectId| ids.contains(o) <==> if outgoing {
            linked(links, id, o)
        } else {
            linked(links, o, id)
        },
        match found {
            Some(e) => exists|i: int|
                0 <= i < entries.len() && entries[i] == e && (match e.0 {
                    Target::Node(other) => ids.contains(other),
                    _ => false,
                }) && forall|j: int|
                    0 <= j < i ==> !(match #[trigger] entries[j].0 {
                        Target::Node(other) => ids.contains(other),
                        _ => false,
                    }),
            None => forall|j: int|
                0 <= j < entries.len() ==> !(match #[trigger] entries[j].0 {
                    Target::Node(other) => ids.contains(other),
                    _ => false,
                }),
        },
    ensures
        first_linked(entry_views(entries), links, id, outgoing) == match found {
            Some(e) => Some((e.0, e.1@)),
            None => None,
        },
    decreases entries.len(),
{
    if entries.len() > 0 {
        let rest = entries.skip(1);
        assert(entry_views(entries).skip(1) =~= entry_views(rest));
        assert(entry_views(entries)[0] == (entries[0].0, entries[0].1@));
        let hit0 = match entries[0].0 {
            Target::Node(other) => ids.contains(other),
            _ => false,
        };
        match found {
            Some(e) => {
                let i = choose|i: int|
                    0 <= i < entries.len() && entries[i] == e && (match e.0 {
                        Target::Node(other) => ids.contains(other),
                        _ => false,
                    }) && forall|j: int|
                        0 <= j < i ==> !(match #[trigger] entries[j].0 {
                            Target::Node(other) => ids.contains(other),
                            _ => false,
                        });
                if i > 0 {
                    assert(!hit0);
                    assert forall|j: int| 0 <= j < i - 1 implies !(match #[trigger] rest[j].0 {
                        Target::Node(other) => ids.contains(other),
                        _ => false,
                    }) by {
                        assert(rest[j] == entries[j + 1]);
                    }
                    assert(rest[i - 1] == e);
                    lemma_first_linked(rest, links, id, outgoing, ids, found);
                }
            },
            None => {
                assert forall|j: int| 0 <= j < rest.len() implies !(match #[trigger] rest[j].0 {
                    Target::Node(other) => ids.contains(other),
                    _ => false,
                }) by {
                    assert(rest[j] == entries[j + 1]);
                }
                lemma_first_linked(rest, links, id, outgoing, ids, found);
            },
        }
    }
}

fn stream_target_exec(state: &State, id: ObjectId, found: Option<&(Target, String)>) -> (t: (Option<Target>, String))
    ensures
        (t.0, t.1@) == stream_target(
            state,
            id,
            match found {
                Some(e) => Some((e.0, e.1@)),
                None => None,
            },
        ),
{
    if !has_target(state, id) {
        let title = match found {
            Some(e) => e.1.clone(),
            None => String::from_str("No default"),
        };
        (Some(Target::Default), title)
    } else {
        match found {
            Some(e) => (Some(e.0), e.1.clone()),
            None => (None, String::new()),
        }
    }
}

/// The routes of a device's node, sorted by title.
fn sorted_routes(device: &state::Device, media_class: &String) -> (routes: Vec<(Target, String)>)
    ensures
        titles_sorted(entry_views(routes@)),
        routes_listed(*device, media_class@, entry_views(routes@)),
{
    let unsorted = match route_targets(device, media_class) {
        Some(r) => r,
        None => Vec::new(),
    };
    let ghost before = unsorted@;
    let routes = sort_by_title(unsorted);
    proof {
        match route_context(*device, media_class@) {
            Some((pi, ds)) => {
                lemma_listing_permuted(
                    device.enum_routes@,
                    route_entry(device.id, pi, ds),
                    entry_views(before),
                    entry_views(routes@),
                );
            },
            None => {},
        }
    }
    routes
}

impl Node {
    /// The view of a node: nothing when it lacks a media class, a name, a
    /// serial, a title or its volumes. A device's node takes its volumes
    /// from the device's active route and is sent to routes; a playback
    /// stream is sent to sinks, a recording stream to sources.
    pub fn from(
        state: &State,
        names: &Names,
        sources: &[(Target, String)],
        sinks: &[(Target, String)],
        default_sink_name: &Option<String>,
        default_source_name: &Option<String>,
        node: &state::Node,
    ) -> (built: Option<Node>)
        ensures
            match built {
                Some(v) => node_built(
                    state,
                    *names,
                    entry_views(sources@),
                    entry_views(sinks@),
                    opt_text(*default_sink_name),
                    opt_text(*default_source_name),
                    *node,
                    v@,
                ),
                None => !node_shown(state, *names, *node),
            },
    {
        let object_id = node.id;
        let media_class = match &node.props.media_class {
            Some(c) => c.clone(),
            None => return None,
        };
        let title = match names.resolve(state, node) {
            Some(t) => t,
            None => return None,
        };
        let (volumes, mute, device_info, routes, target, target_title) = match node.props.device_id {
            Some(device_id) => {
                let device = match state.devices.get(&device_id.0) {
                    Some(d) => d,
                    None => return None,
                };
                let card_device = match node.props.card_profile_device {
                    Some(c) => c,
                    None => return None,
                };
                let route = active_route(device, card_device);
                let (volumes, mute, device_info) = match route {
                    Some(r) => (clone_levels(&r.volumes), r.mute, Some((device_id, r.index, card_device))),
                    None => match (&node.volumes, node.mute) {
                        (Some(v), Some(m)) => (clone_levels(v), m, None),
                        _ => return None,
                    },
                };
                let routes = sorted_routes(device, &media_class);
                let (target, target_title) = match route {
                    Some(r) => (
                        Some(Target::Route(device.id, r.index, card_device)),
                        availability_title(&r.description, r.available),
                    ),
                    None => (None, String::from_str("No route selected")),
                };
                (volumes, mute, device_info, Some(routes), target, target_title)
            },
            None => {
                let (volumes, mute) = match (&node.volumes, node.mute) {
                    (Some(v), Some(m)) => (clone_levels(v), m),
                    _ => return None,
                };
                let (target, target_title) = if is_sink_input(media_class.as_str()) {
                    let outputs = state.outputs(object_id);
                    let found = first_in_ids(sinks, &outputs);
                    proof {
                        let ks = choose|ks: Seq<u32>|
                            lists_keys(ks, state.links@) && outputs@ == state::outputs_along(
                                state.links@,
                                ks,
                                object_id,
                            );
                        assert forall|o: ObjectId| outputs@.contains(o) <==> linked(state.links@, object_id, o) by {
                            lemma_outputs_linked(state.links@, ks, object_id, o);
                        }
                        lemma_first_linked(
                            sinks@,
                            state.links@,
                            object_id,
                            true,
                            outputs@,
                            match found {
                                Some(e) => Some(*e),
                                None => None,
                            },
                        );
                    }
                    stream_target_exec(state, object_id, found)
                } else if is_source_output(media_class.as_str()) {
                    let inputs = state.inputs(object_id);
                    let found = first_in_ids(sources, &inputs);
                    proof {
                        let ks = choose|ks: Seq<u32>|
                            lists_keys(ks, state.links@) && inputs@ == state::inputs_along(
                                state.links@,
                                ks,
                                object_id,
                            );
                        assert forall|o: ObjectId| inputs@.contains(o) <==> linked(state.links@, o, object_id) by {
                            lemma_inputs_linked(state.links@, ks, object_id, o);
                        }
                        lemma_first_linked(
                            sources@,
                            state.links@,
                            object_id,
                            false,
                            inputs@,
                            match found {
                                Some(e) => Some(*e),
                                None => None,
                            },
                        );
                    }
                    stream_target_exec(state, object_id, found)
                } else {
                    (None, String::from_str("No route selected"))
                };
                (volumes, mute, None, None, target, target_title)
            },
        };
        let object_serial = match node.props.object_serial {
            Some(s) => s,
            None => return None,
        };
        let name = match &node.props.node_name {
            Some(n) => n.clone(),
            None => return None,
        };
        let is_default_sink = same_name(default_sink_name, &name);
        let is_default_source = same_name(default_source_name, &name);
        Some(Node {
            object_id,
            object_serial,
            name,
            title,
            title_source_sink: clone_opt_text(&node.props.media_name),
            media_class,
            routes,
            target_title,
            target,
            volumes,
            mute,
            peaks: clone_opt_levels(&node.peaks),
            positions: clone_opt_levels(&node.positions),
            device_info,
            client_id: node.props.client_id,
            is_default_sink,
            is_default_source,
        })
    }
}

// ---------------------------------------------------------------------------
// Devices

/// The entry for a profile: the profile as a target, and its title.
pub open spec fn profile_entry(device_id: ObjectId) -> spec_fn(state::Profile) -> Option<(Target, Seq<char>)> {
    |p: state::Profile| Some((Target::Profile(device_id, p.index), shown_title(p.description@, p.available)))
}

/// The index that orders profile entries.
pub open spec fn profile_index_of(t: Target) -> int {
    match t {
        Target::Profile(_, i) => i as int,
        _ => 0,
    }
}

pub open spec fn profile_order() -> spec_fn((Target, String), (Target, String)) -> bool {
    |a: (Target, String), b: (Target, String)| profile_index_of(a.0) <= profile_index_of(b.0)
}

/// Entries in the order of their profile indexes.
pub open spec fn profiles_sorted(v: Seq<(Target, Seq<char>)>) -> bool {
    forall|i: int, j: int|
        0 <= i < j < v.len() ==> profile_index_of(#[trigger] v[i].0) <= profile_index_of(#[trigger] v[j].0)
}

/// Whether a device can be shown: it has a title, a serial, and a current
/// profile that it lists.
pub open spec fn device_shown(state: &State, names: Names, device: state::Device) -> bool {
    &&& resolved_name(names, state, &device) is Some
    &&& device.profile_index matches Some(pi) && device.profiles@.contains_key(pi)
    &&& device.props.object_serial is Some
}

/// `v` is the view of `device`.
pub open spec fn device_built(state: &State, names: Names, device: state::Device, v: DeviceView) -> bool {
    let pi = device.profile_index->0;
    let current = device.profiles@[pi];
    &&& device_shown(state, names, device)
    &&& v.object_id == device.id
    &&& v.object_serial == device.props.object_serial->0
    &&& Some(v.title) == resolved_name(names, state, &device)
    &&& profiles_sorted(v.profiles)
    &&& lists_entries(device.profiles@, profile_entry(device.id), v.profiles)
    &&& v.target_title == shown_title(current.description@, current.available)
    &&& v.target == Some(Target::Profile(device.id, pi))
}

fn profile_le(a: &(Target, String), b: &(Target, String)) -> (le: bool)
    ensures
        le == profile_order()(*a, *b),
{
    let i = match a.0 {
        Target::Profile(_, i) => i,
        _ => 0,
    };
    let j = match b.0 {
        Target::Profile(_, j) => j,
        _ => 0,
    };
    i <= j
}

/// The profiles of a device as targets, in the order of their indexes.
fn profile_targets(device: &state::Device) -> (profiles: Vec<(Target, String)>)
    ensures
        profiles_sorted(entry_views(profiles@)),
        lists_entries(device.profiles@, profile_entry(device.id), entry_views(profiles@)),
{
    let ghost entry = profile_entry(device.id);
    let ghost m = device.profiles@;
    let keys = keys_of(&device.profiles);
    let mut entries: Vec<(Target, String)> = Vec::new();
    let mut i: usize = 0;
    while i < keys.len()
        invariant
            m == device.profiles@,
            entry == profile_entry(device.id),
            lists_keys(keys@, m),
            i <= keys@.len(),
            entry_views(entries@).len() == i,
            forall|j: int| 0 <= j < i ==> Some(entry_views(entries@)[j]) == entry(m[#[trigger] keys@[j]]),
        decreases keys.len() - i,
    {
        let k = keys[i];
        assert(keys@.to_set().contains(k));
        let profile = device.profiles.get(&k).unwrap();
        let ghost before = entries@;
        let title = availability_title(&profile.description, profile.available);
        entries.push((Target::Profile(device.id, profile.index), title));
        proof {
            assert forall|j: int| 0 <= j < i + 1 implies Some(entry_views(entries@)[j]) == entry(
                m[#[trigger] keys@[j]],
            ) by {
                if j < i {
                    assert(entry_views(entries@)[j] == entry_views(before)[j]);
                }
            }
        }
        i += 1;
    }
    proof {
        assert forall|k: i32| #[trigger] keys@.contains(k) <==> (m.contains_key(k) && entry(m[k]) is Some) by {
            assert(keys@.to_set().contains(k) <==> m.contains_key(k));
        }
        assert(lists_entries(m, entry, entry_views(entries@)));
        assert forall|a: (Target, String), b: (Target, String)| #[trigger]
            profile_order()(a, b) || profile_order()(b, a) by {}
        assert forall|a: (Target, String), b: (Target, String), c: (Target, String)| #[trigger]
            profile_order()(a, b) && #[trigger] profile_order()(b, c) implies profile_order()(a, c) by {}
    }
    let ghost before = entries@;
    let le = |a: &(Target, String), b: &(Target, String)| -> (r: bool)
        ensures
            r == profile_order()(*a, *b),
        { profile_le(a, b) };
    let sorted = sort_by(entries, le, Ghost(profile_order()));
    proof {
        lemma_entry_views_permuted(sorted@, before);
        lemma_listing_permuted(m, entry, entry_views(before), entry_views(sorted@));
        assert forall|i: int, j: int| 0 <= i < j < sorted@.len() implies profile_index_of(
            #[trigger] entry_views(sorted@)[i].0,
        ) <= profile_index_of(#[trigger] entry_views(sorted@)[j].0) by {
            assert(profile_order()(sorted@[i], sorted@[j]));
        }
    }
    sorted
}

impl Device {
    /// The view of a device: nothing when it lacks a title, a serial or a
    /// current profile that it lists.
    pub fn from(state: &State, device: &state::Device, names: &Names) -> (built: Option<Device>)
        ensures
            match built {
                Some(v) => device_built(state, *names, *device, v@),
                None => !device_shown(state, *names, *device),
            },
    {
        let object_id = device.id;
        let title = match names.resolve(state, device) {
            Some(t) => t,
            None => return None,
        };
        let profiles = profile_targets(device);
        let profile_index = match device.profile_index {
            Some(pi) => pi,
            None => return None,
        };
        let target_profile = match device.profiles.get(&profile_index) {
            Some(p) => p,
            None => return None,
        };
        let target_title = availability_title(&target_profile.description, target_profile.available);
        let target = Some(Target::Profile(object_id, profile_index));
        let object_serial = match device.props.object_serial {
            Some(s) => s,
            None => return None,
        };
        Some(Device { object_id, object_serial, title, profiles, target_title, target })
    }
}

// ---------------------------------------------------------------------------
// Objects in order of their serials

/// `ids` lists each key of `keys` once, in the order of `serial`.
pub open spec fn lists_by_serial(ids: Seq<ObjectId>, keys: Set<u32>, serial: spec_fn(u32) -> u64) -> bool {
    &&& ids.no_duplicates()
    &&& forall|o: ObjectId| #[trigger] ids.contains(o) <==> keys.contains(o.0)
    &&& forall|i: int, j: int| 0 <= i < j < ids.len() ==> serial(#[trigger] ids[i].0) <= serial(#[trigger] ids[j].0)
}

pub open spec fn serial_order() -> spec_fn((u64, u32), (u64, u32)) -> bool {
    |a: (u64, u32), b: (u64, u32)| a.0 <= b.0
}

pub open spec fn second_parts(pairs: Seq<(u64, u32)>) -> Seq<u32> {
    pairs.map_values(|p: (u64, u32)| p.1)
}

/// The keys of `pairs`, in the order of their serials.
fn ids_by_serial(pairs: Vec<(u64, u32)>, Ghost(keys): Ghost<Set<u32>>, Ghost(serial): Ghost<spec_fn(u32) -> u64>) -> (ids: Vec<ObjectId>)
    requires
        second_parts(pairs@).no_duplicates(),
        forall|k: u32| #[trigger] second_parts(pairs@).contains(k) <==> keys.contains(k),
        forall|i: int| 0 <= i < pairs@.len() ==> (#[trigger] pairs@[i]).0 == serial(pairs@[i].1),
    ensures
        lists_by_serial(ids@, keys, serial),
{
    proof {
        assert forall|a: (u64, u32), b: (u64, u32)| #[trigger]
            serial_order()(a, b) || serial_order()(b, a) by {}
        assert forall|a: (u64, u32), b: (u64, u32), c: (u64, u32)| #[trigger]
            serial_order()(a, b) && #[trigger] serial_order()(b, c) implies serial_order()(a, c) by {}
    }
    let le = |a: &(u64, u32), b: &(u64, u32)| -> (r: bool)
        ensures
            r == serial_order()(*a, *b),
        { a.0 <= b.0 };
    let ghost before = pairs@;
    let sorted = sort_by(pairs, le, Ghost(serial_order()));
    let ghost p = choose|p: Seq<int>|
        index_permutation(p, before.len()) && sorted@.len() == before.len() && forall|j: int|
            0 <= j < sorted@.len() ==> sorted@[j] == before[#[trigger] p[j]];
    let mut ids: Vec<ObjectId> = Vec::new();
    let mut i: usize = 0;
    while i < sorted.len()
        invariant
            i <= sorted@.len(),
            ids@.len() == i,
            forall|j: int| 0 <= j < i ==> (#[trigger] ids@[j]).0 == sorted@[j].1,
        decreases sorted.len() - i,
    {
        ids.push(ObjectId(sorted[i].1));
        i += 1;
    }
    proof {
        let snd = second_parts(before);
        assert forall|j: int| 0 <= j < sorted@.len() implies (#[trigger] sorted@[j]).1 == snd[p[j]] && sorted@[j].0 == serial(sorted@[j].1) by {
            assert(sorted@[j] == before[p[j]]);
        }
        assert forall|a: int, b: int| 0 <= a < b < ids@.len() implies ids@[a] != ids@[b] by {
            assert(p[a] != p[b]);
            assert(snd[p[a]] != snd[p[b]]);
        }
        assert forall|o: ObjectId| #[trigger] ids@.contains(o) <==> keys.contains(o.0) by {
            if ids@.contains(o) {
                let j = choose|j: int| 0 <= j < ids@.len() && ids@[j] == o;
                assert(snd.contains(snd[p[j]]));
            }
            if keys.contains(o.0) {
                assert(snd.contains(o.0));
                let x = choose|x: int| 0 <= x < snd.len() && snd[x] == o.0;
                assert(p.contains(x));
                let j = choose|j: int| 0 <= j < p.len() && p[j] == x;
                assert(ids@[j] == o);
            }
        }
        assert forall|a: int, b: int| 0 <= a < b < ids@.len() implies serial(#[trigger] ids@[a].0) <= serial(
            #[trigger] ids@[b].0,
        ) by {
            assert(serial_order()(sorted@[a], sorted@[b]));
        }
    }
    ids
}

/// The serial of each node, by key.
pub open spec fn node_serial(nodes: Map<u32, Node>) -> spec_fn(u32) -> u64 {
    |k: u32| nodes[k].object_serial
}

/// The serial of each device, by key.
pub open spec fn device_serial(devices: Map<u32, Device>) -> spec_fn(u32) -> u64 {
    |k: u32| devices[k].object_serial
}

fn node_ids_by_serial(nodes: &HashMap<u32, Node>) -> (ids: Vec<ObjectId>)
    ensures
        lists_by_serial(ids@, nodes@.dom(), node_serial(nodes@)),
{
    let keys = keys_of(nodes);
    let mut pairs: Vec<(u64, u32)> = Vec::new();
    let mut i: usize = 0;
    while i < keys.len()
        invariant
            lists_keys(keys@, nodes@),
            i <= keys@.len(),
            pairs@.len() == i,
            forall|j: int| 0 <= j < i ==> (#[trigger] pairs@[j]).1 == keys@[j] && pairs@[j].0 == node_serial(nodes@)(keys@[j]),
        decreases keys.len() - i,
    {
        assert(keys@.to_set().contains(keys@[i as int]));
        let node = nodes.get(&keys[i]).unwrap();
        pairs.push((node.object_serial, keys[i]));
        i += 1;
    }
    proof {
        let snd = second_parts(pairs@);
        assert(snd =~= keys@);
        assert forall|k: u32| #[trigger] snd.contains(k) <==> nodes@.dom().contains(k) by {
            assert(keys@.to_set().contains(k) <==> nodes@.contains_key(k));
        }
    }
    ids_by_serial(pairs, Ghost(nodes@.dom()), Ghost(node_serial(nodes@)))
}

fn device_ids_by_serial(devices: &HashMap<u32, Device>) -> (ids: Vec<ObjectId>)
    ensures
        lists_by_serial(ids@, devices@.dom(), device_serial(devices@)),
{
    let keys = keys_of(devices);
    let mut pairs: Vec<(u64, u32)> = Vec::new();
    let mut i: usize = 0;
    while i < keys.len()
        invariant
            lists_keys(keys@, devices@),
            i <= keys@.len(),
            pairs@.len() == i,
            forall|j: int| 0 <= j < i ==> (#[trigger] pairs@[j]).1 == keys@[j] && pairs@[j].0 == device_serial(devices@)(keys@[j]),
        decreases keys.len() - i,
    {
        assert(keys@.to_set().contains(keys@[i as int]));
        let device = devices.get(&keys[i]).unwrap();
        pairs.push((device.object_serial, keys[i]));
        i += 1;
    }
    proof {
        let snd = second_parts(pairs@);
        assert(snd =~= keys@);
        assert forall|k: u32| #[trigger] snd.contains(k) <==> devices@.dom().contains(k) by {
            assert(keys@.to_set().contains(k) <==> devices@.contains_key(k));
        }
    }
    ids_by_serial(pairs, Ghost(devices@.dom()), Ghost(device_serial(devices@)))
}

// ---------------------------------------------------------------------------
// Sinks, sources and defaults

/// The entry of a node in the list of sinks: sinks, by title.
pub open spec fn sink_entry(state: &State, names: Names) -> spec_fn(state::Node) -> Option<(Target, Seq<char>)> {
    |n: state::Node|
        match n.props.media_class {
            Some(c) => if sink_class(c@) {
                match resolved_name(names, state, &n) {
                    Some(t) => Some((Target::Node(n.id), t)),
                    None => None,
                }
            } else {
                None
            },
            None => None,
        }
}

/// The entry of a node in the list of sources: sources by title, and sinks
/// as the monitors of their output.
pub open spec fn source_entry(state: &State, names: Names) -> spec_fn(state::Node) -> Option<(Target, Seq<char>)> {
    |n: state::Node|
        match n.props.media_class {
            Some(c) => if source_class(c@) {
                match resolved_name(names, state, &n) {
                    Some(t) => Some((Target::Node(n.id), t)),
                    None => None,
                }
            } else if sink_class(c@) {
                match resolved_name(names, state, &n) {
                    Some(t) => Some((Target::Node(n.id), "Monitor of "@ + t)),
                    None => None,
                }
            } else {
                None
            },
            None => None,
        }
}

fn node_entry(state: &State, names: &Names, node: &state::Node, for_sources: bool) -> (e: Option<(Target, String)>)
    ensures
        match e {
            Some(e) => Some((e.0, e.1@)) == if for_sources {
                source_entry(state, *names)(*node)
            } else {
                sink_entry(state, *names)(*node)
            },
            None => (if for_sources {
                source_entry(state, *names)(*node)
            } else {
                sink_entry(state, *names)(*node)
            }) is None,
        },
{
    let media_class = match &node.props.media_class {
        Some(c) => c,
        None => return None,
    };
    if for_sources && is_source(media_class.as_str()) {
        match names.resolve(state, node) {
            Some(t) => Some((Target::Node(node.id), t)),
            None => None,
        }
    } else if is_sink(media_class.as_str()) {
        match names.resolve(state, node) {
            Some(t) => if for_sources {
                Some((Target::Node(node.id), concat("Monitor of ", t.as_str())))
            } else {
                Some((Target::Node(node.id), t))
            },
            None => None,
        }
    } else {
        None
    }
}

/// The sinks (or, with `for_sources`, the sources) that streams can be
/// sent to, sorted by title.
fn node_entries(state: &State, names: &Names, for_sources: bool) -> (entries: Vec<(Target, String)>)
    ensures
        titles_sorted(entry_views(entries@)),
        lists_entries(
            state.nodes@,
            if for_sources {
                source_entry(state, *names)
            } else {
                sink_entry(state, *names)
            },
            entry_views(entries@),
        ),
{
    let ghost entry = if for_sources {
        source_entry(state, *names)
    } else {
        sink_entry(state, *names)
    };
    let ghost m = state.nodes@;
    let keys = keys_of(&state.nodes);
    let mut entries: Vec<(Target, String)> = Vec::new();
    let ghost mut ks: Seq<u32> = seq![];
    let mut i: usize = 0;
    while i < keys.len()
        invariant
            m == state.nodes@,
            entry == (if for_sources {
                source_entry(state, *names)
            } else {
                sink_entry(state, *names)
            }),
            lists_keys(keys@, m),
            i <= keys@.len(),
            ks.no_duplicates(),
            forall|k: u32| #[trigger] ks.contains(k) <==> (keys@.take(i as int).contains(k) && entry(m[k]) is Some),
            entry_views(entries@).len() == ks.len(),
            forall|j: int| 0 <= j < ks.len() ==> Some(entry_views(entries@)[j]) == entry(m[#[trigger] ks[j]]),
        decreases keys.len() - i,
    {
        let k = keys[i];
        assert(keys@.to_set().contains(k));
        let node = state.nodes.get(&k).unwrap();
        let ghost before = entries@;
        let ghost old_ks = ks;
        proof {
            assert(!old_ks.contains(k)) by {
                if old_ks.contains(k) {
                    let t = keys@.take(i as int);
                    assert(t.contains(k));
                    let j = choose|j: int| 0 <= j < t.len() && t[j] == k;
                    assert(keys@[j] == keys@[i as int]);
                }
            }
        }
        match node_entry(state, names, node, for_sources) {
            Some(e) => {
                entries.push(e);
                proof {
                    ks = ks.push(k);
                    assert forall|j: int| 0 <= j < ks.len() implies Some(entry_views(entries@)[j]) == entry(
                        m[#[trigger] ks[j]],
                    ) by {
                        if j < ks.len() - 1 {
                            assert(entry_views(entries@)[j] == entry_views(before)[j]);
                        }
                    }
                }
            },
            None => {},
        }
        proof {
            assert(keys@.take(i + 1) =~= keys@.take(i as int).push(k));
            assert forall|k2: u32| #[trigger] ks.contains(k2) <==> (old_ks.contains(k2) || (k2 == k
                && entry(m[k]) is Some)) by {
                if entry(m[k]) is Some {
                    if k2 == k {
                        assert(ks[ks.len() - 1] == k);
                    } else if ks.contains(k2) {
                        let j = choose|j: int| 0 <= j < ks.len() && ks[j] == k2;
                        assert(old_ks[j] == k2);
                    } else if old_ks.contains(k2) {
                        let j = choose|j: int| 0 <= j < old_ks.len() && old_ks[j] == k2;
                        assert(ks[j] == k2);
                    }
                }
            }
            assert forall|k2: u32| keys@.take(i + 1).contains(k2) <==> (keys@.take(i as int).contains(k2)
                || k2 == k) by {
                let t = keys@.take(i + 1);
                if t.contains(k2) && k2 != k {
                    let j = choose|j: int| 0 <= j < t.len() && t[j] == k2;
                    assert(keys@.take(i as int)[j] == k2);
                }
                if keys@.take(i as int).contains(k2) {
                    let j = choose|j: int| 0 <= j < i && keys@.take(i as int)[j] == k2;
                    assert(t[j] == k2);
                }
                if k2 == k {
                    assert(t[i as int] == k);
                }
            }
        }
        i += 1;
    }
    proof {
        assert(keys@.take(keys@.len() as int) =~= keys@);
        assert forall|k: u32| #[trigger] ks.contains(k) <==> (m.contains_key(k) && entry(m[k]) is Some) by {
            assert(keys@.to_set().contains(k) <==> m.contains_key(k));
        }
    }
    let ghost unsorted = entries@;
    let sorted = sort_by_title(entries);
    proof {
        lemma_listing_permuted(m, entry, entry_views(unsorted), entry_views(sorted@));
    }
    sorted
}

/// The default node that `name` names: a node of that name, if any.
pub open spec fn default_target_ok(state: &State, name: Option<Seq<char>>, t: Option<Target>) -> bool {
    match t {
        Some(t) => exists|k: u32|
            #[trigger] state.nodes@.contains_key(k) && name is Some && t == Target::Node(state.nodes@[k].id)
                && opt_text(state.nodes@[k].props.node_name) == name,
        None => name is None || forall|k: u32|
            #[trigger] state.nodes@.contains_key(k) ==> opt_text(state.nodes@[k].props.node_name) != name,
    }
}

fn default_node(state: &State, name: &Option<String>) -> (t: Option<Target>)
    ensures
        default_target_ok(state, opt_text(*name), t),
{
    let wanted = match name {
        Some(n) => n,
        None => return None,
    };
    assert(opt_text(*name) == Some(wanted@));
    let keys = keys_of(&state.nodes);
    let mut i: usize = 0;
    while i < keys.len()
        invariant
            lists_keys(keys@, state.nodes@),
            i <= keys@.len(),
            opt_text(*name) == Some(wanted@),
            forall|j: int| 0 <= j < i ==> opt_text(state.nodes@[#[trigger] keys@[j]].props.node_name) != Some(wanted@),
        decreases keys.len() - i,
    {
        let k = keys[i];
        assert(keys@.to_set().contains(k));
        let node = state.nodes.get(&k).unwrap();
        if same_name(&node.props.node_name, wanted) {
            assert(state.nodes@.contains_key(k) && *node == state.nodes@[k]);
            assert(opt_text(state.nodes@[k].props.node_name) == opt_text(*name));
            return Some(Target::Node(node.id));
        }
        i += 1;
    }
    proof {
        assert forall|k: u32| #[trigger] state.nodes@.contains_key(k) implies opt_text(
            state.nodes@[k].props.node_name,
        ) != Some(wanted@) by {
            assert(keys@.to_set().contains(k));
            let j = choose|j: int| 0 <= j < keys@.len() && keys@[j] == k;
        }
    }
    None
}

// ---------------------------------------------------------------------------
// The view

/// The nodes of the view: one for each node of the state that can be
/// shown, under its id, built from that node.
pub open spec fn nodes_from(
    state: &State,
    names: Names,
    sources: Seq<(Target, Seq<char>)>,
    sinks: Seq<(Target, Seq<char>)>,
    default_sink_name: Option<Seq<char>>,
    default_source_name: Option<Seq<char>>,
    nodes: Map<u32, Node>,
) -> bool {
    &&& forall|id: u32| #[trigger] nodes.contains_key(id) <==> exists|k: u32|
        #[trigger] state.nodes@.contains_key(k) && state.nodes@[k].id.0 == id && node_shown(
            state,
            names,
            state.nodes@[k],
        )
    &&& forall|id: u32| #[trigger] nodes.contains_key(id) ==> exists|k: u32|
        #[trigger] state.nodes@.contains_key(k) && state.nodes@[k].id.0 == id && node_built(
            state,
            names,
            sources,
            sinks,
            default_sink_name,
            default_source_name,
            state.nodes@[k],
            nodes[id]@,
        )
}

/// The devices of the view: one for each device of the state that can be
/// shown, under its id, built from that device.
pub open spec fn devices_from(state: &State, names: Names, devices: Map<u32, Device>) -> bool {
    &&& forall|id: u32| #[trigger] devices.contains_key(id) <==> exists|k: u32|
        #[trigger] state.devices@.contains_key(k) && state.devices@[k].id.0 == id && device_shown(
            state,
            names,
            state.devices@[k],
        )
    &&& forall|id: u32| #[trigger] devices.contains_key(id) ==> exists|k: u32|
        #[trigger] state.devices@.contains_key(k) && state.devices@[k].id.0 == id && device_built(
            state,
            names,
            state.devices@[k],
            devices[id]@,
        )
}

fn build_nodes(
    state: &State,
    names: &Names,
    sources: &Vec<(Target, String)>,
    sinks: &Vec<(Target, String)>,
    default_sink_name: &Option<String>,
    default_source_name: &Option<String>,
) -> (nodes: HashMap<u32, Node>)
    ensures
        nodes_from(
            state,
            *names,
            entry_views(sources@),
            entry_views(sinks@),
            opt_text(*default_sink_name),
            opt_text(*default_source_name),
            nodes@,
        ),
{
    let ghost so = entry_views(sources@);
    let ghost si = entry_views(sinks@);
    let ghost dsn = opt_text(*default_sink_name);
    let ghost dson = opt_text(*default_source_name);
    let keys = keys_of(&state.nodes);
    let mut nodes: HashMap<u32, Node> = HashMap::new();
    let mut i: usize = 0;
    while i < keys.len()
        invariant
            so == entry_views(sources@),
            si == entry_views(sinks@),
            dsn == opt_text(*default_sink_name),
            dson == opt_text(*default_source_name),
            lists_keys(keys@, state.nodes@),
            i <= keys@.len(),
            forall|id: u32| #[trigger] nodes@.contains_key(id) <==> exists|j: int|
                0 <= j < i && state.nodes@[#[trigger] keys@[j]].id.0 == id && node_shown(
                    state,
                    *names,
                    state.nodes@[keys@[j]],
                ),
            forall|id: u32| #[trigger] nodes@.contains_key(id) ==> exists|j: int|
                0 <= j < i && state.nodes@[#[trigger] keys@[j]].id.0 == id && node_built(
                    state,
                    *names,
                    so,
                    si,
                    dsn,
                    dson,
                    state.nodes@[keys@[j]],
                    nodes@[id]@,
                ),
        decreases keys.len() - i,
    {
        let k = keys[i];
        assert(keys@.to_set().contains(k));
        let node = state.nodes.get(&k).unwrap();
        let ghost before = nodes@;
        match Node::from(
            state,
            names,
            sources.as_slice(),
            sinks.as_slice(),
            default_sink_name,
            default_source_name,
            node,
        ) {
            Some(built) => {
                let id = built.object_id.0;
                nodes.insert(id, built);
                proof {
                    assert forall|id2: u32| #[trigger] nodes@.contains_key(id2) implies exists|j: int|
                        0 <= j < i + 1 && state.nodes@[#[trigger] keys@[j]].id.0 == id2 && node_built(
                            state,
                            *names,
                            so,
                            si,
                            dsn,
                            dson,
                            state.nodes@[keys@[j]],
                            nodes@[id2]@,
                        ) by {
                        if id2 == id {
                            assert(state.nodes@[keys@[i as int]].id.0 == id2);
                        } else {
                            assert(before.contains_key(id2));
                            let j = choose|j: int|
                                0 <= j < i && state.nodes@[#[trigger] keys@[j]].id.0 == id2 && node_built(
                                    state,
                                    *names,
                                    so,
                                    si,
                                    dsn,
                                    dson,
                                    state.nodes@[keys@[j]],
                                    before[id2]@,
                                );
                            assert(nodes@[id2] == before[id2]);
                        }
                    }
                    assert forall|id2: u32| #[trigger] nodes@.contains_key(id2) <==> exists|j: int|
                        0 <= j < i + 1 && state.nodes@[#[trigger] keys@[j]].id.0 == id2 && node_shown(
                            state,
                            *names,
                            state.nodes@[keys@[j]],
                        ) by {
                        if id2 == id {
                            assert(state.nodes@[keys@[i as int]].id.0 == id2);
                        } else if exists|j: int|
                            0 <= j < i + 1 && state.nodes@[#[trigger] keys@[j]].id.0 == id2 && node_shown(
                                state,
                                *names,
                                state.nodes@[keys@[j]],
                            ) {
                            let j = choose|j: int|
                                0 <= j < i + 1 && state.nodes@[#[trigger] keys@[j]].id.0 == id2 && node_shown(
                                    state,
                                    *names,
                                    state.nodes@[keys@[j]],
                                );
                            assert(j < i);
                            assert(before.contains_key(id2));
                        }
                    }
                }
            },
            None => {
                proof {
                    assert forall|id2: u32| #[trigger] nodes@.contains_key(id2) <==> exists|j: int|
                        0 <= j < i + 1 && state.nodes@[#[trigger] keys@[j]].id.0 == id2 && node_shown(
                            state,
                            *names,
                            state.nodes@[keys@[j]],
                        ) by {
                        if exists|j: int|
                            0 <= j < i + 1 && state.nodes@[#[trigger] keys@[j]].id.0 == id2 && node_shown(
                                state,
                                *names,
                                state.nodes@[keys@[j]],
                            ) {
                            let j = choose|j: int|
                                0 <= j < i + 1 && state.nodes@[#[trigger] keys@[j]].id.0 == id2 && node_shown(
                                    state,
                                    *names,
                                    state.nodes@[keys@[j]],
                                );
                            assert(j < i);
                        }
                    }
                    assert forall|id2: u32| #[trigger] nodes@.contains_key(id2) implies exists|j: int|
                        0 <= j < i + 1 && state.nodes@[#[trigger] keys@[j]].id.0 == id2 && node_built(
                            state,
                            *names,
                            so,
                            si,
                            dsn,
                            dson,
                            state.nodes@[keys@[j]],
                            nodes@[id2]@,
                        ) by {
                        let j = choose|j: int|
                            0 <= j < i && state.nodes@[#[trigger] keys@[j]].id.0 == id2 && node_built(
                                state,
                                *names,
                                so,
                                si,
                                dsn,
                                dson,
                                state.nodes@[keys@[j]],
                                nodes@[id2]@,
                            );
                    }
                }
            },
        }
        i += 1;
    }
    proof {
        assert forall|id: u32| #[trigger] nodes@.contains_key(id) <==> exists|k: u32|
            #[trigger] state.nodes@.contains_key(k) && state.nodes@[k].id.0 == id && node_shown(
                state,
                *names,
                state.nodes@[k],
            ) by {
            if nodes@.contains_key(id) {
                let j = choose|j: int|
                    0 <= j < keys@.len() && state.nodes@[#[trigger] keys@[j]].id.0 == id && node_shown(
                        state,
                        *names,
                        state.nodes@[keys@[j]],
                    );
                assert(keys@.to_set().contains(keys@[j]));
                assert(state.nodes@.contains_key(keys@[j]));
            }
            if exists|k: u32|
                #[trigger] state.nodes@.contains_key(k) && state.nodes@[k].id.0 == id && node_shown(
                    state,
                    *names,
                    state.nodes@[k],
                ) {
                let k = choose|k: u32|
                    #[trigger] state.nodes@.contains_key(k) && state.nodes@[k].id.0 == id && node_shown(
                        state,
                        *names,
                        state.nodes@[k],
                    );
                assert(keys@.to_set().contains(k));
                let j = choose|j: int| 0 <= j < keys@.len() && keys@[j] == k;
                assert(state.nodes@[keys@[j]].id.0 == id);
            }
        }
        assert forall|id: u32| #[trigger] nodes@.contains_key(id) implies exists|k: u32|
            #[trigger] state.nodes@.contains_key(k) && state.nodes@[k].id.0 == id && node_built(
                state,
                *names,
                so,
                si,
                dsn,
                dson,
                state.nodes@[k],
                nodes@[id]@,
            ) by {
            let j = choose|j: int|
                0 <= j < keys@.len() && state.nodes@[#[trigger] keys@[j]].id.0 == id && node_built(
                    state,
                    *names,
                    so,
                    si,
                    dsn,
                    dson,
                    state.nodes@[keys@[j]],
                    nodes@[id]@,
                );
            assert(keys@.to_set().contains(keys@[j]));
            assert(state.nodes@.contains_key(keys@[j]));
        }
    }
    nodes
}

fn build_devices(
    state: &State,
    names: &Names,
) -> (nodes: HashMap<u32, Device>)
    ensures
        devices_from(state, *names, nodes@),
{
    let keys = keys_of(&state.devices);
    let mut nodes: HashMap<u32, Device> = HashMap::new();
    let mut i: usize = 0;
    while i < keys.len()
        invariant
            lists_keys(keys@, state.devices@),
            i <= keys@.len(),
            forall|id: u32| #[trigger] nodes@.contains_key(id) <==> exists|j: int|
                0 <= j < i && state.devices@[#[trigger] keys@[j]].id.0 == id && device_shown(
                    state,
                    *names,
                    state.devices@[keys@[j]],
                ),
            forall|id: u32| #[trigger] nodes@.contains_key(id) ==> exists|j: int|
                0 <= j < i && state.devices@[#[trigger] keys@[j]].id.0 == id && device_built(
                    state,
                    *names,
                    state.devices@[keys@[j]],
                    nodes@[id]@,
                ),
        decreases keys.len() - i,
    {
        let k = keys[i];
        assert(keys@.to_set().contains(k));
        let node = state.devices.get(&k).unwrap();
        let ghost before = nodes@;
        match Device::from(state, node, names) {
            Some(built) => {
                let id = built.object_id.0;
                nodes.insert(id, built);
                proof {
                    assert forall|id2: u32| #[trigger] nodes@.contains_key(id2) implies exists|j: int|
                        0 <= j < i + 1 && state.devices@[#[trigger] keys@[j]].id.0 == id2 && device_built(state, *names, state.devices@[keys@[j]],
                            nodes@[id2]@,
                        ) by {
                        if id2 == id {
                            assert(state.devices@[keys@[i as int]].id.0 == id2);
                        } else {
                            assert(before.contains_key(id2));
                            let j = choose|j: int|
                                0 <= j < i && state.devices@[#[trigger] keys@[j]].id.0 == id2 && device_built(state, *names, state.devices@[keys@[j]],
                                    before[id2]@,
                                );
                            assert(nodes@[id2] == before[id2]);
                        }
                    }
                    assert forall|id2: u32| #[trigger] nodes@.contains_key(id2) <==> exists|j: int|
                        0 <= j < i + 1 && state.devices@[#[trigger] keys@[j]].id.0 == id2 && device_shown(
                            state,
                            *names,
                            state.devices@[keys@[j]],
                        ) by {
                        if id2 == id {
                            assert(state.devices@[keys@[i as int]].id.0 == id2);
                        } else if exists|j: int|
                            0 <= j < i + 1 && state.devices@[#[trigger] keys@[j]].id.0 == id2 && device_shown(
                                state,
                                *names,
                                state.devices@[keys@[j]],
                            ) {
                            let j = choose|j: int|
                                0 <= j < i + 1 && state.devices@[#[trigger] keys@[j]].id.0 == id2 && device_shown(
                                    state,
                                    *names,
                                    state.devices@[keys@[j]],
                                );
                            assert(j < i);
                            assert(before.contains_key(id2));
                        }
                    }
                }
            },
            None => {
                proof {
                    assert forall|id2: u32| #[trigger] nodes@.contains_key(id2) <==> exists|j: int|
                        0 <= j < i + 1 && state.devices@[#[trigger] keys@[j]].id.0 == id2 && device_shown(
                            state,
                            *names,
                            state.devices@[keys@[j]],
                        ) by {
                        if exists|j: int|
                            0 <= j < i + 1 && state.devices@[#[trigger] keys@[j]].id.0 == id2 && device_shown(
                                state,
                                *names,
                                state.devices@[keys@[j]],
                            ) {
                            let j = choose|j: int|
                                0 <= j < i + 1 && state.devices@[#[trigger] keys@[j]].id.0 == id2 && device_shown(
                                    state,
                                    *names,
                                    state.devices@[keys@[j]],
                                );
                            assert(j < i);
                        }
                    }
                    assert forall|id2: u32| #[trigger] nodes@.contains_key(id2) implies exists|j: int|
                        0 <= j < i + 1 && state.devices@[#[trigger] keys@[j]].id.0 == id2 && device_built(state, *names, state.devices@[keys@[j]],
                            nodes@[id2]@,
                        ) by {
                        let j = choose|j: int|
                            0 <= j < i && state.devices@[#[trigger] keys@[j]].id.0 == id2 && device_built(state, *names, state.devices@[keys@[j]],
                                nodes@[id2]@,
                            );
                    }
                }
            },
        }
        i += 1;
    }
    proof {
        assert forall|id: u32| #[trigger] nodes@.contains_key(id) <==> exists|k: u32|
            #[trigger] state.devices@.contains_key(k) && state.devices@[k].id.0 == id && device_shown(
                state,
                *names,
                state.devices@[k],
            ) by {
            if nodes@.contains_key(id) {
                let j = choose|j: int|
                    0 <= j < keys@.len() && state.devices@[#[trigger] keys@[j]].id.0 == id && device_shown(
                        state,
                        *names,
                        state.devices@[keys@[j]],
                    );
                assert(keys@.to_set().contains(keys@[j]));
                assert(state.devices@.contains_key(keys@[j]));
            }
            if exists|k: u32|
                #[trigger] state.devices@.contains_key(k) && state.devices@[k].id.0 == id && device_shown(
                    state,
                    *names,
                    state.devices@[k],
                ) {
                let k = choose|k: u32|
                    #[trigger] state.devices@.contains_key(k) && state.devices@[k].id.0 == id && device_shown(
                        state,
                        *names,
                        state.devices@[k],
                    );
                assert(keys@.to_set().contains(k));
                let j = choose|j: int| 0 <= j < keys@.len() && keys@[j] == k;
                assert(state.devices@[keys@[j]].id.0 == id);
            }
        }
        assert forall|id: u32| #[trigger] nodes@.contains_key(id) implies exists|k: u32|
            #[trigger] state.devices@.contains_key(k) && state.devices@[k].id.0 == id && device_built(state, *names, state.devices@[k],
                nodes@[id]@,
            ) by {
            let j = choose|j: int|
                0 <= j < keys@.len() && state.devices@[#[trigger] keys@[j]].id.0 == id && device_built(
                    state,
                    *names,
                    state.devices@[keys@[j]],
                    nodes@[id]@,
                );
            assert(keys@.to_set().contains(keys@[j]));
            assert(state.devices@.contains_key(keys@[j]));
        }
    }
    nodes
}

/// The media classes of the nodes that a node list of `kind` shows.
pub open spec fn kind_class(kind: NodeKind) -> spec_fn(Seq<char>) -> bool {
    |c: Seq<char>|
        match kind {
            NodeKind::Playback => sink_input_class(c),
            NodeKind::Recording => source_output_class(c),
            NodeKind::Output => sink_class(c),
            NodeKind::Input => source_class(c),
            NodeKind::All => true,
        }
}

/// Whether the node with id `o` has a media class that `class` accepts.
pub open spec fn has_class(nodes: Map<u32, Node>, class: spec_fn(Seq<char>) -> bool) -> spec_fn(ObjectId) -> bool {
    |o: ObjectId| class(nodes[o.0].media_class@)
}

fn in_kind(kind: NodeKind, media_class: &String) -> (shown: bool)
    ensures
        shown == kind_class(kind)(media_class@),
{
    match kind {
        NodeKind::Playback => is_sink_input(media_class.as_str()),
        NodeKind::Recording => is_source_output(media_class.as_str()),
        NodeKind::Output => is_sink(media_class.as_str()),
        NodeKind::Input => is_source(media_class.as_str()),
        NodeKind::All => true,
    }
}

/// The ids among `all` whose nodes are of `kind`, in order.
fn ids_of_kind(all: &Vec<ObjectId>, nodes: &HashMap<u32, Node>, kind: NodeKind) -> (ids: Vec<ObjectId>)
    requires
        forall|o: ObjectId| #[trigger] all@.contains(o) ==> nodes@.contains_key(o.0),
    ensures
        ids@ == all@.filter(has_class(nodes@, kind_class(kind))),
{
    let ghost pred = has_class(nodes@, kind_class(kind));
    proof {
        reveal(Seq::filter);
    }
    let mut ids: Vec<ObjectId> = Vec::new();
    let mut i: usize = 0;
    while i < all.len()
        invariant
            pred == has_class(nodes@, kind_class(kind)),
            forall|o: ObjectId| #[trigger] all@.contains(o) ==> nodes@.contains_key(o.0),
            i <= all@.len(),
            ids@ == all@.take(i as int).filter(pred),
        decreases all.len() - i,
    {
        let o = all[i];
        assert(all@.contains(o));
        let node = nodes.get(&o.0).unwrap();
        assert(all@.take(i + 1).drop_last() =~= all@.take(i as int));
        assert(all@.take(i + 1).last() == o);
        assert(pred(o) == kind_class(kind)(node.media_class@));
        let shown = in_kind(kind, &node.media_class);
        if shown {
            ids.push(o);
        }
        proof {
            reveal(Seq::filter);
        }
        assert(all@.take(i + 1).filter(pred) == if pred(o) {
            all@.take(i as int).filter(pred).push(o)
        } else {
            all@.take(i as int).filter(pred)
        });
        i += 1;
    }
    assert(all@.take(all@.len() as int) =~= all@);
    ids
}

/// The object that a target stands for: a node itself; the device of a
/// route or profile; for a stream following the default, the default sink
/// (playback) or source (recording) when that is a node. Other lists have
/// no default to follow.
pub open spec fn resolved_target(t: Target, v: View, kind: NodeKind) -> Option<ObjectId> {
    match t {
        Target::Node(id) => Some(id),
        Target::Route(device, _, _) => Some(device),
        Target::Profile(device, _) => Some(device),
        Target::Default => {
            let default = match kind {
                NodeKind::Playback => v.default_sink,
                NodeKind::Recording => v.default_source,
                _ => None,
            };
            match default {
                Some(Target::Node(id)) => Some(id),
                _ => None,
            }
        },
    }
}

impl Target {
    pub fn resolve(&self, view: &View, node_kind: NodeKind) -> (id: Option<ObjectId>)
        ensures
            id == resolved_target(*self, *view, node_kind),
    {
        match self {
            Target::Node(id) => Some(*id),
            Target::Route(device, _, _) => Some(*device),
            Target::Profile(device, _) => Some(*device),
            Target::Default => {
                let default = match node_kind {
                    NodeKind::Playback => view.default_sink,
                    NodeKind::Recording => view.default_source,
                    _ => None,
                };
                match default {
                    Some(Target::Node(id)) => Some(id),
                    _ => None,
                }
            },
        }
    }
}

/// The view: the nodes and devices that can be shown, the lists they are
/// shown in, the sinks and sources that streams can be sent to, and the
/// defaults.
pub struct View {
    pub nodes: HashMap<u32, Node>,
    pub devices: HashMap<u32, Device>,
    pub nodes_all: Vec<ObjectId>,
    pub nodes_playback: Vec<ObjectId>,
    pub nodes_recording: Vec<ObjectId>,
    pub nodes_output: Vec<ObjectId>,
    pub nodes_input: Vec<ObjectId>,
    pub devices_all: Vec<ObjectId>,
    pub sinks: Vec<(Target, String)>,
    pub sources: Vec<(Target, String)>,
    pub default_sink: Option<Target>,
    pub default_source: Option<Target>,
    pub metadata_id: Option<ObjectId>,
}

/// The id of the metadata named `default`, if any.
pub open spec fn default_metadata_id(state: &State) -> Option<ObjectId> {
    if state.metadatas_by_name@.contains_key("default"@) {
        Some(state.metadatas_by_name@["default"@])
    } else {
        None
    }
}

/// `v` is the view of `state` under `names`.
pub open spec fn view_of(state: &State, names: Names, v: View) -> bool {
    let default_sink_name = default_name(state, "default.audio.sink"@);
    let default_source_name = default_name(state, "default.audio.source"@);
    &&& default_target_ok(state, default_sink_name, v.default_sink)
    &&& default_target_ok(state, default_source_name, v.default_source)
    &&& titles_sorted(entry_views(v.sinks@))
    &&& lists_entries(state.nodes@, sink_entry(state, names), entry_views(v.sinks@))
    &&& titles_sorted(entry_views(v.sources@))
    &&& lists_entries(state.nodes@, source_entry(state, names), entry_views(v.sources@))
    &&& nodes_from(
        state,
        names,
        entry_views(v.sources@),
        entry_views(v.sinks@),
        default_sink_name,
        default_source_name,
        v.nodes@,
    )
    &&& devices_from(state, names, v.devices@)
    &&& lists_by_serial(v.nodes_all@, v.nodes@.dom(), node_serial(v.nodes@))
    &&& v.nodes_playback@ == v.nodes_all@.filter(has_class(v.nodes@, kind_class(NodeKind::Playback)))
    &&& v.nodes_recording@ == v.nodes_all@.filter(has_class(v.nodes@, kind_class(NodeKind::Recording)))
    &&& v.nodes_output@ == v.nodes_all@.filter(has_class(v.nodes@, kind_class(NodeKind::Output)))
    &&& v.nodes_input@ == v.nodes_all@.filter(has_class(v.nodes@, kind_class(NodeKind::Input)))
    &&& lists_by_serial(v.devices_all@, v.devices@.dom(), device_serial(v.devices@))
    &&& v.metadata_id == default_metadata_id(state)
}

impl View {
    /// Nothing is shown: no nodes, devices, lists, defaults or metadata.
    pub open spec fn is_empty_view(self) -> bool {
        &&& self.nodes@.len() == 0
        &&& self.devices@.len() == 0
        &&& self.nodes_all@.len() == 0
        &&& self.nodes_playback@.len() == 0
        &&& self.nodes_recording@.len() == 0
        &&& self.nodes_output@.len() == 0
        &&& self.nodes_input@.len() == 0
        &&& self.devices_all@.len() == 0
        &&& self.sinks@.len() == 0
        &&& self.sources@.len() == 0
        &&& self.default_sink is None
        &&& self.default_source is None
        &&& self.metadata_id is None
    }

    /// A view with nothing in it.
    pub fn new() -> (v: View)
        ensures
            v.is_empty_view(),
    {
        View {
            nodes: HashMap::new(),
            devices: HashMap::new(),
            nodes_all: Vec::new(),
            nodes_playback: Vec::new(),
            nodes_recording: Vec::new(),
            nodes_output: Vec::new(),
            nodes_input: Vec::new(),
            devices_all: Vec::new(),
            sinks: Vec::new(),
            sources: Vec::new(),
            default_sink: None,
            default_source: None,
            metadata_id: None,
        }
    }

    /// Builds the view of a state from scratch.
    pub fn from(state: &State, names: &Names) -> (v: View)
        ensures
            view_of(state, *names, v),
    {
        let default_sink_name = default_for(state, "default.audio.sink");
        let default_source_name = default_for(state, "default.audio.source");
        let default_sink = default_node(state, &default_sink_name);
        let default_source = default_node(state, &default_source_name);
        let sinks = node_entries(state, names, false);
        let sources = node_entries(state, names, true);
        let nodes = build_nodes(state, names, &sources, &sinks, &default_sink_name, &default_source_name);
        let devices = build_devices(state, names);
        let nodes_all = node_ids_by_serial(&nodes);
        let nodes_playback = ids_of_kind(&nodes_all, &nodes, NodeKind::Playback);
        let nodes_recording = ids_of_kind(&nodes_all, &nodes, NodeKind::Recording);
        let nodes_output = ids_of_kind(&nodes_all, &nodes, NodeKind::Output);
        let nodes_input = ids_of_kind(&nodes_all, &nodes, NodeKind::Input);
        let devices_all = device_ids_by_serial(&devices);
        proof {
            reveal_strlit("default");
        }
        let metadata_id = match state.metadatas_by_name.get("default") {
            Some(id) => Some(*id),
            None => None,
        };
        View {
            nodes,
            devices,
            nodes_all,
            nodes_playback,
            nodes_recording,
            nodes_output,
            nodes_input,
            devices_all,
            sinks,
            sources,
            default_sink,
            default_source,
            metadata_id,
        }
    }
}

// ---------------------------------------------------------------------------
// Commands

/// The metadata key that sets the default sink or source.
pub open spec fn default_key(kind: DeviceKind) -> Seq<char> {
    match kind {
        DeviceKind::Source => "default.configured.audio.source"@,
        DeviceKind::Sink => "default.configured.audio.sink"@,
    }
}

/// The JSON object `{"name":...}` naming a node.
pub open spec fn json_name_object(name: Seq<char>) -> Seq<char> {
    "{\"name\":"@ + json_quoted(name) + "}"@
}

/// `c` sets `key` of `subject` in the metadata `md` to `value`, of type `ty`.
pub open spec fn sets_metadata(
    c: Command,
    md: ObjectId,
    subject: u32,
    key: Seq<char>,
    ty: Option<Seq<char>>,
    value: Option<Seq<char>>,
) -> bool {
    c matches Command::MetadataSetProperty(m, s, k, t, v) && m == md && s == subject && k@ == key
        && opt_text(t) == ty && opt_text(v) == value
}

fn metadata_command(md: ObjectId, subject: u32, key: &str, ty: Option<&str>, value: Option<String>) -> (c: Command)
    ensures
        sets_metadata(
            c,
            md,
            subject,
            key@,
            match ty {
                Some(t) => Some(t@),
                None => None,
            },
            opt_text(value),
        ),
{
    let ty = match ty {
        Some(t) => Some(String::from_str(t)),
        None => None,
    };
    Command::MetadataSetProperty(md, subject, String::from_str(key), ty, value)
}

/// `command` makes node `node_id` the default of `device_kind`, as
/// `set_default` does in view `v`.
pub open spec fn default_command(v: View, node_id: ObjectId, device_kind: DeviceKind, command: Option<Command>) -> bool {
    match command {
        Some(c) => v.nodes@.contains_key(node_id.0) && (v.metadata_id matches Some(md)
            && sets_metadata(
            c,
            md,
            0,
            default_key(device_kind),
            Some("Spa:String:JSON"@),
            Some(json_name_object(v.nodes@[node_id.0].name@)),
        )),
        None => !v.nodes@.contains_key(node_id.0) || v.metadata_id is None,
    }
}

/// `command` flips the mute state of node `node_id`, as `mute` does in
/// view `v`.
pub open spec fn mute_command(v: View, node_id: ObjectId, command: Option<Command>) -> bool {
    match command {
        Some(c) => v.nodes@.contains_key(node_id.0) && {
            let node = v.nodes@[node_id.0];
            match node.device_info {
                Some((d, ri, rd)) => (c matches Command::DeviceMute(a, b, e, m) && a == d && b == ri && e == rd
                    && m == !node.mute),
                None => (c matches Command::NodeMute(a, m) && a == node_id && m == !node.mute),
            }
        },
        None => !v.nodes@.contains_key(node_id.0),
    }
}

/// The command that sets the channels of node `node_id` of view `v` to
/// `levels`: through its device's route when it has one, else on the node;
/// nothing when the node is unknown or has no channels, or when the new
/// levels go past the maximum volume (`over_max`).
pub open spec fn volume_command_spec(v: View, node_id: ObjectId, levels: Vec<u32>, over_max: bool) -> Option<Command> {
    if !v.nodes@.contains_key(node_id.0) || v.nodes@[node_id.0].volumes@.len() == 0 || over_max {
        None
    } else {
        match v.nodes@[node_id.0].device_info {
            Some((d, ri, rd)) => Some(Command::DeviceVolumes(d, ri, rd, levels)),
            None => Some(Command::NodeVolumes(node_id, levels)),
        }
    }
}

/// `commands` send node `node_id` to `target`, as `set_target` does in view `v`.
pub open spec fn target_commands(v: View, node_id: ObjectId, target: Target, commands: Seq<Command>) -> bool {
    match v.metadata_id {
        None => commands.len() == 0,
        Some(md) => match target {
            Target::Default => commands.len() == 2 && sets_metadata(
                commands[0],
                md,
                node_id.0,
                "target.object"@,
                Some("Spa:Id"@),
                Some("-1"@),
            ) && sets_metadata(
                commands[1],
                md,
                node_id.0,
                "target.node"@,
                Some("Spa:Id"@),
                Some("-1"@),
            ),
            Target::Node(t) => commands.len() == 2 && sets_metadata(
                commands[0],
                md,
                node_id.0,
                "target.object"@,
                None,
                None,
            ) && sets_metadata(
                commands[1],
                md,
                node_id.0,
                "target.node"@,
                Some("Spa:Id"@),
                Some(decimal_text(t.0 as nat)),
            ),
            Target::Route(d, ri, rd) => commands.len() == 1 && (commands[0] matches Command::DeviceSetRoute(
                a,
                b,
                c,
            ) && a == d && b == ri && c == rd),
            Target::Profile(d, pi) => commands.len() == 1 && (commands[0] matches Command::DeviceSetProfile(
                a,
                b,
            ) && a == d && b == pi),
        },
    }
}

/// Making a node the default writes, into the default metadata (subject 0),
/// the key `default.configured.audio.source` for a source and
/// `default.configured.audio.sink` for a sink, with the node's name as a
/// JSON object `{"name":...}`, typed `Spa:String:JSON`; the two kinds write
/// different keys.
pub proof fn lemma_default_key_by_kind(v: View, node_id: ObjectId, kind: DeviceKind, c: Command)
    requires
        default_command(v, node_id, kind, Some(c)),
    ensures
        v.nodes@.contains_key(node_id.0),
        c matches Command::MetadataSetProperty(md, subject, key, ty, value) && Some(md) == v.metadata_id && subject
            == 0 && opt_text(ty) == Some("Spa:String:JSON"@) && opt_text(value) == Some(
            "{\"name\":"@ + json_quoted(v.nodes@[node_id.0].name@) + "}"@,
        ) && key@ == (if kind == DeviceKind::Source {
            "default.configured.audio.source"@
        } else {
            "default.configured.audio.sink"@
        }),
        "default.configured.audio.source"@ != "default.configured.audio.sink"@,
{
    reveal_strlit("default.configured.audio.source");
    reveal_strlit("default.configured.audio.sink");
    assert("default.configured.audio.source"@[26] != "default.configured.audio.sink"@[26]);
}

/// Toggling mute gives, for a node of the view, a command that carries the
/// negation of the node's mute state: to its device's route when it has
/// one, else to the node itself; and nothing only for an unknown node.
pub proof fn lemma_mute_negates(v: View, node_id: ObjectId, command: Option<Command>)
    requires
        mute_command(v, node_id, command),
    ensures
        command is None <==> !v.nodes@.contains_key(node_id.0),
        command matches Some(c) ==> match c {
            Command::DeviceMute(d, ri, rd, m) => v.nodes@[node_id.0].device_info == Some((d, ri, rd)) && m
                != v.nodes@[node_id.0].mute,
            Command::NodeMute(id, m) => v.nodes@[node_id.0].device_info is None && id == node_id && m
                != v.nodes@[node_id.0].mute,
            _ => false,
        },
{
}

/// Setting the volume of a node of the view that has channels, within the
/// limit, gives the levels to its device's route when it has one, and to
/// the node itself only when it has none; past the limit, for an unknown
/// node, or for one without channels, it gives nothing.
pub proof fn lemma_volume_goes_to_route(v: View, node_id: ObjectId, levels: Vec<u32>, over_max: bool)
    ensures
        volume_command_spec(v, node_id, levels, over_max) is Some <==> (v.nodes@.contains_key(node_id.0)
            && v.nodes@[node_id.0].volumes@.len() > 0 && !over_max),
        volume_command_spec(v, node_id, levels, over_max) matches Some(c) ==> match c {
            Command::DeviceVolumes(d, ri, rd, l) => v.nodes@[node_id.0].device_info == Some((d, ri, rd)) && l
                == levels,
            Command::NodeVolumes(id, l) => v.nodes@[node_id.0].device_info is None && id == node_id && l == levels,
            _ => false,
        },
{
}

impl View {
    /// The command that makes a node the default sink or source: nothing
    /// when the view has no such node or no default metadata.
    pub fn set_default(&self, node_id: ObjectId, device_kind: DeviceKind) -> (command: Option<Command>)
        ensures
            default_command(*self, node_id, device_kind, command),
    {
        let node = match self.nodes.get(&node_id.0) {
            Some(n) => n,
            None => return None,
        };
        let metadata_id = match self.metadata_id {
            Some(m) => m,
            None => return None,
        };
        let key = match device_kind {
            DeviceKind::Source => "default.configured.audio.source",
            DeviceKind::Sink => "default.configured.audio.sink",
        };
        let object = concat("{\"name\":", quoted(node.name.as_str()).as_str());
        let object = concat(object.as_str(), "}");
        Some(metadata_command(metadata_id, 0, key, Some("Spa:String:JSON"), Some(object)))
    }

    /// The commands that send a node to a target: for the default or a node,
    /// the metadata settings `target.object` and `target.node`; for a route
    /// or a profile, the device command. Nothing without default metadata.
    pub fn set_target(&self, node_id: ObjectId, target: Target) -> (commands: Vec<Command>)
        ensures
            target_commands(*self, node_id, target, commands@),
    {
        let mut commands: Vec<Command> = Vec::new();
        let metadata_id = match self.metadata_id {
            Some(m) => m,
            None => return commands,
        };
        match target {
            Target::Default => {
                commands.push(metadata_command(metadata_id, node_id.0, "target.object", Some("Spa:Id"), Some(String::from_str("-1"))));
                commands.push(metadata_command(metadata_id, node_id.0, "target.node", Some("Spa:Id"), Some(String::from_str("-1"))));
            },
            Target::Node(target_id) => {
                commands.push(metadata_command(metadata_id, node_id.0, "target.object", None, None));
                commands.push(metadata_command(metadata_id, node_id.0, "target.node", Some("Spa:Id"), Some(decimal(target_id.0))));
            },
            Target::Route(device_id, route_index, route_device) => {
                commands.push(Command::DeviceSetRoute(device_id, route_index, route_device));
            },
            Target::Profile(device_id, profile_index) => {
                commands.push(Command::DeviceSetProfile(device_id, profile_index));
            },
        }
        commands
    }

    /// The command that flips a node's mute state: through its device's
    /// route for a device's node, else on the node. Nothing when the view
    /// has no such node.
    pub fn mute(&self, node_id: ObjectId) -> (command: Option<Command>)
        ensures
            mute_command(*self, node_id, command),
    {
        let node = match self.nodes.get(&node_id.0) {
            Some(n) => n,
            None => return None,
        };
        let mute = !node.mute;
        match node.device_info {
            Some((device_id, route_index, route_device)) => Some(Command::DeviceMute(device_id, route_index, route_device, mute)),
            None => Some(Command::NodeMute(node_id, mute)),
        }
    }

    /// The command that sets the channels of node `node_id` to `levels`, or
    /// nothing (see `volume_command_spec`).
    pub fn volume_command(&self, node_id: ObjectId, levels: Vec<u32>, over_max: bool) -> (command: Option<Command>)
        ensures
            command == volume_command_spec(*self, node_id, levels, over_max),
    {
        let node = match self.nodes.get(&node_id.0) {
            Some(n) => n,
            None => return None,
        };
        if node.volumes.len() == 0 || over_max {
            return None;
        }
        match node.device_info {
            Some((device_id, route_index, route_device)) => Some(
                Command::DeviceVolumes(device_id, route_index, route_device, levels),
            ),
            None => Some(Command::NodeVolumes(node_id, levels)),
        }
    }
}

// ---------------------------------------------------------------------------
// Navigating the lists

/// The ids a list of `kind` shows, in order.
pub open spec fn ids_for(v: View, kind: ListKind) -> Seq<ObjectId> {
    match kind {
        ListKind::Node(NodeKind::Playback) => v.nodes_playback@,
        ListKind::Node(NodeKind::Recording) => v.nodes_recording@,
        ListKind::Node(NodeKind::Output) => v.nodes_output@,
        ListKind::Node(NodeKind::Input) => v.nodes_input@,
        ListKind::Node(NodeKind::All) => v.nodes_all@,
        ListKind::Device => v.devices_all@,
    }
}

/// The first position of `o` in `s`.
pub open spec fn first_position<T>(s: Seq<T>, o: T) -> Option<int>
    decreases s.len(),
{
    if s.len() == 0 {
        None
    } else if s[0] == o {
        Some(0)
    } else {
        match first_position(s.skip(1), o) {
            Some(i) => Some(i + 1),
            None => None,
        }
    }
}

/// `first_position` is the first index that holds `o`.
pub proof fn lemma_first_position<T>(s: Seq<T>, o: T, n: int)
    requires
        0 <= n <= s.len(),
        forall|j: int| 0 <= j < n ==> s[j] != o,
        n < s.len() ==> s[n] == o,
    ensures
        first_position(s, o) == if n < s.len() {
            Some(n)
        } else {
            None::<int>
        },
    decreases n,
{
    if n > 0 {
        assert forall|j: int| 0 <= j < n - 1 implies s.skip(1)[j] != o by {
            assert(s.skip(1)[j] == s[j + 1]);
        }
        if n < s.len() {
            assert(s.skip(1)[n - 1] == s[n]);
        }
        lemma_first_position(s.skip(1), o, n - 1);
    }
}

/// A position that `first_position` finds holds the object.
pub proof fn lemma_first_position_in<T>(s: Seq<T>, o: T, i: int)
    requires
        first_position(s, o) == Some(i),
    ensures
        0 <= i < s.len(),
        s[i] == o,
    decreases s.len(),
{
    if s.len() > 0 && s[0] != o {
        lemma_first_position_in(s.skip(1), o, i - 1);
    }
}

fn find_id(ids: &Vec<ObjectId>, o: ObjectId) -> (position: Option<usize>)
    ensures
        match position {
            Some(p) => first_position(ids@, o) == Some(p as int),
            None => first_position(ids@, o) is None,
        },
{
    let mut i: usize = 0;
    while i < ids.len()
        invariant
            i <= ids@.len(),
            forall|j: int| 0 <= j < i ==> ids@[j] != o,
        decreases ids.len() - i,
    {
        if ids[i] == o {
            proof {
                lemma_first_position(ids@, o, i as int);
            }
            return Some(i);
        }
        i += 1;
    }
    proof {
        lemma_first_position(ids@, o, ids@.len() as int);
    }
    None
}

/// The position in `s` after (`forward`) or before a current object, or
/// the first position without one; positions before the start stay at it.
pub open spec fn step_position<T>(s: Seq<T>, current: Option<T>, forward: bool) -> Option<int> {
    match current {
        Some(o) => match first_position(s, o) {
            Some(p) => Some(if forward { p + 1 } else if p > 0 { p - 1 } else { 0 }),
            None => None,
        },
        None => Some(0),
    }
}

/// The object at a stepped position, if the list has one there.
pub open spec fn stepped<T>(s: Seq<T>, current: Option<T>, forward: bool) -> Option<T> {
    match step_position(s, current, forward) {
        Some(p) => if p < s.len() {
            Some(s[p])
        } else {
            None
        },
        None => None,
    }
}

/// In a list that holds each object once, an object's first position is
/// its position.
proof fn lemma_position_of_unique<T>(s: Seq<T>, i: int)
    requires
        s.no_duplicates(),
        0 <= i < s.len(),
    ensures
        first_position(s, s[i]) == Some(i),
{
    assert forall|j: int| 0 <= j < i implies s[j] != s[i] by {}
    lemma_first_position(s, s[i], i);
}

/// In a list that holds each object once, stepping forward from an object
/// and then back from where that led returns to the object; so does
/// stepping back and then forward, when the step back moved.
pub proof fn lemma_step_and_back<T>(s: Seq<T>, o: T, forward: bool)
    requires
        s.no_duplicates(),
        stepped(s, Some(o), forward) matches Some(n) && n != o,
    ensures
        stepped(s, stepped(s, Some(o), forward), !forward) == Some(o),
{
    let p = first_position(s, o)->0;
    lemma_first_position_in(s, o, p);
    let n = stepped(s, Some(o), forward)->0;
    let q = if forward { p + 1 } else { p - 1 };
    assert(0 <= q < s.len() && s[q] == n);
    lemma_position_of_unique(s, q);
}

impl View {
    pub(crate) fn object_ids(&self, kind: ListKind) -> (ids: &Vec<ObjectId>)
        ensures
            ids@ == ids_for(*self, kind),
    {
        match kind {
            ListKind::Node(NodeKind::Playback) => &self.nodes_playback,
            ListKind::Node(NodeKind::Recording) => &self.nodes_recording,
            ListKind::Node(NodeKind::Output) => &self.nodes_output,
            ListKind::Node(NodeKind::Input) => &self.nodes_input,
            ListKind::Node(NodeKind::All) => &self.nodes_all,
            ListKind::Device => &self.devices_all,
        }
    }

    /// The object after `object_id` in the list, or the first one without
    /// it; nothing when `object_id` is not in the list or is its last.
    pub fn next_id(&self, list_kind: ListKind, object_id: Option<ObjectId>) -> (next: Option<ObjectId>)
        ensures
            next == stepped(ids_for(*self, list_kind), object_id, true),
    {
        let objects = self.object_ids(list_kind);
        let next_index = match object_id {
            Some(o) => match find_id(objects, o) {
                Some(p) => p.saturating_add(1),
                None => return None,
            },
            None => 0,
        };
        if next_index < objects.len() {
            Some(objects[next_index])
        } else {
            None
        }
    }

    /// The object before `object_id` in the list (the first stays the
    /// first), or the first one without it; nothing when `object_id` is not
    /// in the list.
    pub fn previous_id(&self, list_kind: ListKind, object_id: Option<ObjectId>) -> (previous: Option<ObjectId>)
        ensures
            previous == stepped(ids_for(*self, list_kind), object_id, false),
    {
        let objects = self.object_ids(list_kind);
        let previous_index = match object_id {
            Some(o) => match find_id(objects, o) {
                Some(p) => p.saturating_sub(1),
                None => return None,
            },
            None => 0,
        };
        if previous_index < objects.len() {
            Some(objects[previous_index])
        } else {
            None
        }
    }

    /// The position of an object in the list.
    pub fn position(&self, list_kind: ListKind, object_id: ObjectId) -> (position: Option<usize>)
        ensures
            match position {
                Some(p) => first_position(ids_for(*self, list_kind), object_id) == Some(p as int),
                None => first_position(ids_for(*self, list_kind), object_id) is None,
            },
    {
        find_id(self.object_ids(list_kind), object_id)
    }

    /// The number of objects in the list.
    pub fn len(&self, list_kind: ListKind) -> (n: usize)
        ensures
            n == ids_for(*self, list_kind).len(),
    {
        self.object_ids(list_kind).len()
    }
}

// ---------------------------------------------------------------------------
// Whole lists and target choices

/// The values that `m` has for the ids of `ids`, in order, skipping ids it
/// lacks.
pub open spec fn present<V>(ids: Seq<ObjectId>, m: Map<u32, V>) -> Seq<V>
    decreases ids.len(),
{
    if ids.len() == 0 {
        seq![]
    } else {
        let front = present(ids.drop_last(), m);
        if m.contains_key(ids.last().0) {
            front.push(m[ids.last().0])
        } else {
            front
        }
    }
}

pub open spec fn deref_all<V>(v: Seq<&V>) -> Seq<V> {
    v.map_values(|x: &V| *x)
}

fn present_in<'a, V>(ids: &Vec<ObjectId>, m: &'a HashMap<u32, V>) -> (values: Vec<&'a V>)
    ensures
        deref_all(values@) == present(ids@, m@),
{
    let mut values: Vec<&'a V> = Vec::new();
    let mut i: usize = 0;
    while i < ids.len()
        invariant
            i <= ids@.len(),
            deref_all(values@) == present(ids@.take(i as int), m@),
        decreases ids.len() - i,
    {
        assert(ids@.take(i + 1).drop_last() =~= ids@.take(i as int));
        assert(ids@.take(i + 1).last() == ids@[i as int]);
        let ghost before = values@;
        match m.get(&ids[i].0) {
            Some(v) => {
                values.push(v);
                assert(deref_all(values@) =~= deref_all(before).push(*v));
            },
            None => {},
        }
        i += 1;
    }
    assert(ids@.take(ids@.len() as int) =~= ids@);
    values
}

/// Entries with the same targets and titles as `v`.
fn clone_entries(v: &Vec<(Target, String)>) -> (c: Vec<(Target, String)>)
    ensures
        entry_views(c@) == entry_views(v@),
{
    let mut c: Vec<(Target, String)> = Vec::new();
    let mut i: usize = 0;
    while i < v.len()
        invariant
            i <= v@.len(),
            entry_views(c@) == entry_views(v@).take(i as int),
        decreases v.len() - i,
    {
        let ghost before = c@;
        c.push((v[i].0, v[i].1.clone()));
        assert(entry_views(c@) =~= entry_views(before).push(entry_views(v@)[i as int]));
        assert(entry_views(v@).take(i + 1) =~= entry_views(v@).take(i as int).push(entry_views(v@)[i as int]));
        i += 1;
    }
    assert(entry_views(v@).take(v@.len() as int) =~= entry_views(v@));
    c
}

/// The first entry whose target is `t`.
pub open spec fn entry_for(entries: Seq<(Target, Seq<char>)>, t: Target) -> Option<(Target, Seq<char>)>
    decreases entries.len(),
{
    if entries.len() == 0 {
        None
    } else if entries[0].0 == t {
        Some(entries[0])
    } else {
        entry_for(entries.skip(1), t)
    }
}

fn find_entry<'a>(entries: &'a Vec<(Target, String)>, t: Target) -> (found: Option<&'a (Target, String)>)
    ensures
        match found {
            Some(e) => entry_for(entry_views(entries@), t) == Some((e.0, e.1@)),
            None => entry_for(entry_views(entries@), t) is None,
        },
{
    let ghost es = entry_views(entries@);
    let mut i: usize = 0;
    assert(es.skip(0) =~= es);
    while i < entries.len()
        invariant
            es == entry_views(entries@),
            i <= entries@.len(),
            entry_for(es.skip(i as int), t) == entry_for(es, t),
        decreases entries.len() - i,
    {
        assert(es.skip(i as int).skip(1) =~= es.skip(i + 1));
        assert(es.skip(i as int)[0] == es[i as int]);
        if entries[i].0 == t {
            return Some(&entries[i]);
        }
        i += 1;
    }
    None
}

/// The targets a node chooses among, before sorting, and its default: its
/// routes for a device's node, the sinks for playback, the sources for
/// recording.
pub open spec fn target_choices(v: View, node: Node) -> (Seq<(Target, Seq<char>)>, Option<Target>) {
    match node.routes {
        Some(r) => (entry_views(r@), None),
        None => if sink_input_class(node.media_class@) {
            (entry_views(v.sinks@), v.default_sink)
        } else if source_output_class(node.media_class@) {
            (entry_views(v.sources@), v.default_source)
        } else {
            (seq![], None)
        },
    }
}

/// The title of the default choice: `Default: ` and the default's title.
pub open spec fn default_choice_title(choices: Seq<(Target, Seq<char>)>, default: Option<Target>) -> Seq<char> {
    match default {
        Some(d) => match entry_for(choices, d) {
            Some(e) => "Default: "@ + e.1,
            None => "Default: No default"@,
        },
        None => "Default: No default"@,
    }
}

pub open spec fn target_parts(es: Seq<(Target, Seq<char>)>) -> Seq<Target> {
    es.map_values(|e: (Target, Seq<char>)| e.0)
}

/// The position of `current` among `targets`, or 0.
pub open spec fn selected_position(targets: Seq<(Target, Seq<char>)>, current: Option<Target>) -> int {
    match current {
        Some(t) => match first_position(target_parts(targets), t) {
            Some(p) => p,
            None => 0,
        },
        None => 0,
    }
}

fn target_position(targets: &Vec<(Target, String)>, current: Option<Target>) -> (p: usize)
    ensures
        p as int == selected_position(entry_views(targets@), current),
{
    let ghost ts = target_parts(entry_views(targets@));
    let t = match current {
        Some(t) => t,
        None => return 0,
    };
    let mut i: usize = 0;
    while i < targets.len()
        invariant
            ts == target_parts(entry_views(targets@)),
            current == Some(t),
            ts.len() == targets@.len(),
            i <= targets@.len(),
            forall|j: int| 0 <= j < i ==> ts[j] != t,
        decreases targets.len() - i,
    {
        assert(ts[i as int] == targets@[i as int].0);
        if targets[i].0 == t {
            proof {
                lemma_first_position(ts, t, i as int);
            }
            return i;
        }
        i += 1;
    }
    proof {
        lemma_first_position(ts, t, ts.len() as int);
    }
    0
}

/// `targets` are what `node_targets` gives for node `node_id` in view `v`.
pub open spec fn node_targets_ok(v: View, node_id: ObjectId, targets: Option<(Vec<(Target, String)>, usize)>) -> bool {
    match targets {
        Some((ts, selected)) => v.nodes@.contains_key(node_id.0) && {
            let node = v.nodes@[node_id.0];
            let (choices, default) = target_choices(v, node);
            let stream = sink_input_class(node.media_class@) || source_output_class(node.media_class@);
            let sorted = if stream {
                entry_views(ts@).skip(1)
            } else {
                entry_views(ts@)
            };
            &&& stream ==> ts@.len() > 0 && entry_views(ts@)[0] == (
                Target::Default,
                default_choice_title(choices, default),
            )
            &&& titles_sorted(sorted)
            &&& is_permutation(sorted, choices)
            &&& sorted_stably(sorted, choices)
            &&& selected as int == selected_position(entry_views(ts@), node.target)
        },
        None => !v.nodes@.contains_key(node_id.0),
    }
}

/// `targets` are what `device_targets` gives for device `device_id` in view `v`.
pub open spec fn device_targets_ok(v: View, device_id: ObjectId, targets: Option<(Vec<(Target, String)>, usize)>) -> bool {
    match targets {
        Some((ts, selected)) => v.devices@.contains_key(device_id.0) && {
            let device = v.devices@[device_id.0];
            &&& entry_views(ts@) == entry_views(device.profiles@)
            &&& selected as int == selected_position(entry_views(ts@), device.target)
        },
        None => !v.devices@.contains_key(device_id.0),
    }
}

impl View {
    /// The nodes of a kind, in the order of the list.
    pub fn full_nodes(&self, node_kind: NodeKind) -> (nodes: Vec<&Node>)
        ensures
            deref_all(nodes@) == present(ids_for(*self, ListKind::Node(node_kind)), self.nodes@),
    {
        present_in(self.object_ids(ListKind::Node(node_kind)), &self.nodes)
    }

    /// The devices, in the order of the list.
    pub fn full_devices(&self) -> (devices: Vec<&Device>)
        ensures
            deref_all(devices@) == present(ids_for(*self, ListKind::Device), self.devices@),
    {
        present_in(self.object_ids(ListKind::Device), &self.devices)
    }

    /// The targets a node can be sent to, sorted by title, with the default
    /// first for streams, and the position of its current target (0 when it
    /// has none among them). Nothing when the view has no such node.
    pub fn node_targets(&self, node_id: ObjectId) -> (targets: Option<(Vec<(Target, String)>, usize)>)
        ensures
            node_targets_ok(*self, node_id, targets),
    {
        let node = match self.nodes.get(&node_id.0) {
            Some(n) => n,
            None => return None,
        };
        let (choices, default) = match &node.routes {
            Some(routes) => (clone_entries(routes), None),
            None => if is_sink_input(node.media_class.as_str()) {
                (clone_entries(&self.sinks), self.default_sink)
            } else if is_source_output(node.media_class.as_str()) {
                (clone_entries(&self.sources), self.default_source)
            } else {
                (Vec::new(), None)
            },
        };
        let default_name = match default {
            Some(d) => match find_entry(&choices, d) {
                Some(e) => concat("Default: ", e.1.as_str()),
                None => String::from_str("Default: No default"),
            },
            None => String::from_str("Default: No default"),
        };
        let ghost unsorted = entry_views(choices@);
        let mut targets = sort_by_title(choices);
        let stream = is_sink_input(node.media_class.as_str()) || is_source_output(node.media_class.as_str());
        if stream {
            let ghost sorted = targets@;
            targets.insert(0, (Target::Default, default_name));
            assert(entry_views(targets@).skip(1) =~= entry_views(sorted));
        }
        let selected = target_position(&targets, node.target);
        Some((targets, selected))
    }

    /// The profiles a device can be set to, and the position of its current
    /// profile among them (0 when it is not there). Nothing when the view
    /// has no such device.
    pub fn device_targets(&self, device_id: ObjectId) -> (targets: Option<(Vec<(Target, String)>, usize)>)
        ensures
            device_targets_ok(*self, device_id, targets),
    {
        let device = match self.devices.get(&device_id.0) {
            Some(d) => d,
            None => return None,
        };
        let targets = clone_entries(&device.profiles);
        let selected = target_position(&targets, device.target);
        Some((targets, selected))
    }
}

// ---------------------------------------------------------------------------
// Peaks

/// `after` is `before` with its peaks replaced by those of a state node
/// with its id, if the state has one.
pub open spec fn peaks_refreshed(state: &State, id: u32, before: NodeView, after: NodeView) -> bool {
    &&& after == (NodeView { peaks: after.peaks, ..before })
    &&& if exists|k: u32| #[trigger] state.nodes@.contains_key(k) && state.nodes@[k].id.0 == id {
        exists|k: u32|
            #[trigger] state.nodes@.contains_key(k) && state.nodes@[k].id.0 == id && after.peaks == opt_seq(
                state.nodes@[k].peaks,
            )
    } else {
        after.peaks == before.peaks
    }
}

/// `after` is `before` with the peaks of its nodes taken from `state`;
/// all else stays.
pub open spec fn peaks_updated(state: &State, before: View, after: View) -> bool {
    &&& after.nodes@.dom() == before.nodes@.dom()
    &&& forall|id: u32| #[trigger] before.nodes@.contains_key(id) ==> peaks_refreshed(
        state,
        id,
        before.nodes@[id]@,
        after.nodes@[id]@,
    )
    &&& after.devices@ == before.devices@
    &&& after.nodes_all@ == before.nodes_all@
    &&& after.nodes_playback@ == before.nodes_playback@
    &&& after.nodes_recording@ == before.nodes_recording@
    &&& after.nodes_output@ == before.nodes_output@
    &&& after.nodes_input@ == before.nodes_input@
    &&& after.devices_all@ == before.devices_all@
    &&& after.sinks@ == before.sinks@
    &&& after.sources@ == before.sources@
    &&& after.default_sink == before.default_sink
    &&& after.default_source == before.default_source
    &&& after.metadata_id == before.metadata_id
}

impl View {
    /// Takes the peaks of the view's nodes from the state, leaving all else
    /// as it is.
    pub fn update_peaks(&mut self, state: &State)
        ensures
            peaks_updated(state, *old(self), *final(self)),
    {
        let ghost original = self.nodes@;
        let keys = keys_of(&state.nodes);
        let mut i: usize = 0;
        while i < keys.len()
            invariant
                lists_keys(keys@, state.nodes@),
                i <= keys@.len(),
                self.nodes@.dom() == original.dom(),
                forall|id: u32| #[trigger] original.contains_key(id) ==> self.nodes@[id]@ == (NodeView {
                    peaks: self.nodes@[id]@.peaks,
                    ..original[id]@
                }),
                forall|id: u32| #[trigger] original.contains_key(id) ==> if exists|j: int|
                    0 <= j < i && state.nodes@[#[trigger] keys@[j]].id.0 == id {
                    exists|j: int|
                        0 <= j < i && state.nodes@[#[trigger] keys@[j]].id.0 == id && self.nodes@[id]@.peaks
                            == opt_seq(state.nodes@[keys@[j]].peaks)
                } else {
                    self.nodes@[id]@.peaks == original[id]@.peaks
                },
                self.devices@ == old(self).devices@,
                self.nodes_all@ == old(self).nodes_all@,
                self.nodes_playback@ == old(self).nodes_playback@,
                self.nodes_recording@ == old(self).nodes_recording@,
                self.nodes_output@ == old(self).nodes_output@,
                self.nodes_input@ == old(self).nodes_input@,
                self.devices_all@ == old(self).devices_all@,
                self.sinks@ == old(self).sinks@,
                self.sources@ == old(self).sources@,
                self.default_sink == old(self).default_sink,
                self.default_source == old(self).default_source,
                self.metadata_id == old(self).metadata_id,
            decreases keys.len() - i,
        {
            let k = keys[i];
            assert(keys@.to_set().contains(k));
            let state_node = state.nodes.get(&k).unwrap();
            let id = state_node.id.0;
            let ghost before = self.nodes@;
            match self.nodes.remove(&id) {
                Some(mut node) => {
                    node.peaks = clone_opt_levels(&state_node.peaks);
                    self.nodes.insert(id, node);
                    proof {
                        assert(self.nodes@.dom() =~= before.dom());
                        assert forall|id2: u32| #[trigger] original.contains_key(id2) implies (if exists|j: int|
                            0 <= j < i + 1 && state.nodes@[#[trigger] keys@[j]].id.0 == id2 {
                            exists|j: int|
                                0 <= j < i + 1 && state.nodes@[#[trigger] keys@[j]].id.0 == id2
                                    && self.nodes@[id2]@.peaks == opt_seq(state.nodes@[keys@[j]].peaks)
                        } else {
                            self.nodes@[id2]@.peaks == original[id2]@.peaks
                        }) by {
                            if id2 == id {
                                assert(state.nodes@[keys@[i as int]].id.0 == id2);
                            } else {
                                assert(self.nodes@[id2] == before[id2]);
                                if exists|j: int| 0 <= j < i + 1 && state.nodes@[#[trigger] keys@[j]].id.0 == id2 {
                                    let j = choose|j: int| 0 <= j < i + 1 && state.nodes@[#[trigger] keys@[j]].id.0 == id2;
                                    assert(j < i);
                                }
                            }
                        }
                    }
                },
                None => {
                    proof {
                        assert forall|id2: u32| #[trigger] original.contains_key(id2) implies (if exists|j: int|
                            0 <= j < i + 1 && state.nodes@[#[trigger] keys@[j]].id.0 == id2 {
                            exists|j: int|
                                0 <= j < i + 1 && state.nodes@[#[trigger] keys@[j]].id.0 == id2
                                    && self.nodes@[id2]@.peaks == opt_seq(state.nodes@[keys@[j]].peaks)
                        } else {
                            self.nodes@[id2]@.peaks == original[id2]@.peaks
                        }) by {
                            assert(id2 != id);
                            if exists|j: int| 0 <= j < i + 1 && state.nodes@[#[trigger] keys@[j]].id.0 == id2 {
                                let j = choose|j: int| 0 <= j < i + 1 && state.nodes@[#[trigger] keys@[j]].id.0 == id2;
                                assert(j < i);
                            }
                        }
                    }
                },
            }
            i += 1;
        }
        proof {
            assert forall|id: u32| #[trigger] original.contains_key(id) implies peaks_refreshed(
                state,
                id,
                original[id]@,
                self.nodes@[id]@,
            ) by {
                if exists|k: u32| #[trigger] state.nodes@.contains_key(k) && state.nodes@[k].id.0 == id {
                    let k = choose|k: u32| #[trigger] state.nodes@.contains_key(k) && state.nodes@[k].id.0 == id;
                    assert(keys@.to_set().contains(k));
                    let j0 = choose|j: int| 0 <= j < keys@.len() && keys@[j] == k;
                    assert(state.nodes@[keys@[j0]].id.0 == id);
                    let j = choose|j: int|
                        0 <= j < keys@.len() && state.nodes@[#[trigger] keys@[j]].id.0 == id && self.nodes@[id]@.peaks
                            == opt_seq(state.nodes@[keys@[j]].peaks);
                    assert(keys@.to_set().contains(keys@[j]));
                    assert(state.nodes@.contains_key(keys@[j]));
                } else {
                    if exists|j: int| 0 <= j < keys@.len() && state.nodes@[#[trigger] keys@[j]].id.0 == id {
                        let j = choose|j: int| 0 <= j < keys@.len() && state.nodes@[#[trigger] keys@[j]].id.0 == id;
                        assert(keys@.to_set().contains(keys@[j]));
                        assert(state.nodes@.contains_key(keys@[j]));
                    }
                }
            }
        }
    }
}

} // verus!
