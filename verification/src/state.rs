//! Representation of the PipeWire state, kept up to date from monitor events.
//!
//! Sound levels (volumes, peaks) are carried as the bit patterns of the
//! `f32` values that PipeWire reports; this module only stores and moves
//! them.

use vstd::prelude::*;
use std::collections::HashMap;

use crate::capture_manager::{after_link, after_node, after_positions_changed, stopped, CaptureManager, CaptureView};
use crate::object::ObjectId;
use crate::property_store::{empty_props, PropertyStore};
use crate::str_map::StrMap;
use vstd::std_specs::hash::*;
use vstd::std_specs::iter::IteratorSpec;

verus! {

broadcast use vstd::std_specs::hash::group_hash_axioms;

#[derive(Debug)]
pub struct Profile {
    pub index: i32,
    pub description: String,
    pub available: bool,
    pub classes: Vec<(String, Vec<i32>)>,
}

#[derive(Debug)]
pub struct EnumRoute {
    pub index: i32,
    pub description: String,
    pub available: bool,
    pub profiles: Vec<i32>,
    pub devices: Vec<i32>,
}

#[derive(Debug)]
pub struct Route {
    pub index: i32,
    pub device: i32,
    pub profiles: Vec<i32>,
    pub description: String,
    pub available: bool,
    /// Channel volumes, as `f32` bit patterns.
    pub volumes: Vec<u32>,
    pub mute: bool,
}

#[derive(Debug)]
pub struct Device {
    pub id: ObjectId,
    pub props: PropertyStore,
    pub profile_index: Option<i32>,
    pub profiles: HashMap<i32, Profile>,
    pub routes: HashMap<i32, Route>,
    pub enum_routes: HashMap<i32, EnumRoute>,
}

pub struct DeviceView {
    pub id: ObjectId,
    pub props: PropertyStore,
    pub profile_index: Option<i32>,
    pub profiles: Map<i32, Profile>,
    pub routes: Map<i32, Route>,
    pub enum_routes: Map<i32, EnumRoute>,
}

impl View for Device {
    type V = DeviceView;

    open spec fn view(&self) -> DeviceView {
        DeviceView {
            id: self.id,
            props: self.props,
            profile_index: self.profile_index,
            profiles: self.profiles@,
            routes: self.routes@,
            enum_routes: self.enum_routes@,
        }
    }
}

#[derive(Debug)]
pub struct Client {
    pub id: ObjectId,
    pub props: PropertyStore,
}

#[derive(Debug)]
pub struct Node {
    pub id: ObjectId,
    pub props: PropertyStore,
    /// Channel volumes, as `f32` bit patterns.
    pub volumes: Option<Vec<u32>>,
    pub mute: Option<bool>,
    /// Peak levels, as `f32` bit patterns.
    pub peaks: Option<Vec<u32>>,
    pub rate: Option<u32>,
    pub positions: Option<Vec<u32>>,
}

#[derive(Debug, Clone, Copy, PartialEq, Eq, Structural)]
pub struct Link {
    pub output: ObjectId,
    pub input: ObjectId,
}

#[derive(Debug)]
pub struct Metadata {
    pub id: ObjectId,
    pub metadata_name: Option<String>,
    /// Properties for each subject
    pub properties: HashMap<u32, StrMap<String>>,
}

pub struct MetadataView {
    pub id: ObjectId,
    pub metadata_name: Option<String>,
    pub properties: Map<u32, Map<Seq<char>, String>>,
}

impl View for Metadata {
    type V = MetadataView;

    open spec fn view(&self) -> MetadataView {
        MetadataView {
            id: self.id,
            metadata_name: self.metadata_name,
            properties: self.properties@.map_values(|m: StrMap<String>| m@),
        }
    }
}

/// What has changed since the view was last rebuilt.
#[derive(Debug, Clone, Copy, PartialEq, Eq, Structural)]
pub enum StateDirty {
    Clean,
    PeaksOnly,
    Everything,
}

/// An event from the PipeWire monitor.
#[derive(Debug)]
pub enum MonitorEvent {
    ClientProperties(ObjectId, PropertyStore),
    DeviceProperties(ObjectId, PropertyStore),
    /// Device id, profile index, description, available, and the card
    /// devices of each media class.
    DeviceEnumProfile(ObjectId, i32, String, bool, Vec<(String, Vec<i32>)>),
    DeviceProfile(ObjectId, i32),
    /// Device id, route index, card device, profiles, description, available,
    /// channel volumes (bit patterns) and mute.
    DeviceRoute(ObjectId, i32, i32, Vec<i32>, String, bool, Vec<u32>, bool),
    /// Device id, route index, description, available, profiles and card
    /// devices.
    DeviceEnumRoute(ObjectId, i32, String, bool, Vec<i32>, Vec<i32>),
    NodeProperties(ObjectId, PropertyStore),
    NodeMute(ObjectId, bool),
    /// New peak levels (bit patterns), already smoothed against the node's
    /// current peaks.
    NodePeaks(ObjectId, Vec<u32>),
    NodeRate(ObjectId, u32),
    NodePositions(ObjectId, Vec<u32>),
    NodeVolumes(ObjectId, Vec<u32>),
    /// Link id, output node, input node.
    Link(ObjectId, ObjectId, ObjectId),
    MetadataMetadataName(ObjectId, String),
    /// Metadata id, subject, key (none clears the subject), value (none
    /// removes the key).
    MetadataProperty(ObjectId, u32, Option<String>, Option<String>),
    StreamStopped(ObjectId),
    Removed(ObjectId),
}

pub struct State {
    pub clients: HashMap<u32, Client>,
    pub nodes: HashMap<u32, Node>,
    pub devices: HashMap<u32, Device>,
    pub links: HashMap<u32, Link>,
    pub metadatas: HashMap<u32, Metadata>,
    pub metadatas_by_name: StrMap<ObjectId>,
    /// Used to optimize view rebuilding based on what has changed
    pub dirty: StateDirty,
}

pub open spec fn empty_node(id: ObjectId) -> Node {
    Node {
        id,
        props: empty_props(),
        volumes: None,
        mute: None,
        peaks: None,
        rate: None,
        positions: None,
    }
}

pub open spec fn empty_device(id: ObjectId) -> DeviceView {
    DeviceView {
        id,
        props: empty_props(),
        profile_index: None,
        profiles: Map::empty(),
        routes: Map::empty(),
        enum_routes: Map::empty(),
    }
}

pub open spec fn empty_metadata(id: ObjectId) -> MetadataView {
    MetadataView { id, metadata_name: None, properties: Map::empty() }
}

pub open spec fn node_or_new(nodes: Map<u32, Node>, id: ObjectId) -> Node {
    if nodes.contains_key(id.0) {
        nodes[id.0]
    } else {
        empty_node(id)
    }
}

pub open spec fn client_id_or(clients: Map<u32, Client>, id: ObjectId) -> ObjectId {
    if clients.contains_key(id.0) {
        clients[id.0].id
    } else {
        id
    }
}

pub open spec fn device_or_new(devices: Map<u32, Device>, id: ObjectId) -> DeviceView {
    if devices.contains_key(id.0) {
        devices[id.0]@
    } else {
        empty_device(id)
    }
}

pub open spec fn metadata_or_new(metadatas: Map<u32, Metadata>, id: ObjectId) -> MetadataView {
    if metadatas.contains_key(id.0) {
        metadatas[id.0]@
    } else {
        empty_metadata(id)
    }
}

/// The devices, with the one at `id` now viewed as `d`.
pub open spec fn devices_set(old: Map<u32, Device>, new: Map<u32, Device>, id: ObjectId, d: DeviceView) -> bool {
    &&& new.dom() == old.dom().insert(id.0)
    &&& forall|k: u32| k != id.0 && #[trigger] old.contains_key(k) ==> new[k] == old[k]
    &&& new[id.0]@ == d
}

/// The metadata objects, with the one at `id` now viewed as `m`.
pub open spec fn metadatas_set(old: Map<u32, Metadata>, new: Map<u32, Metadata>, id: ObjectId, m: MetadataView) -> bool {
    &&& new.dom() == old.dom().insert(id.0)
    &&& forall|k: u32| k != id.0 && #[trigger] old.contains_key(k) ==> new[k] == old[k]
    &&& new[id.0]@ == m
}

pub open spec fn dirty_after(dirty: StateDirty, peaks_only: bool) -> StateDirty {
    if peaks_only && (dirty == StateDirty::Clean || dirty == StateDirty::PeaksOnly) {
        StateDirty::PeaksOnly
    } else {
        StateDirty::Everything
    }
}

/// The links that end at `id`.
pub open spec fn input_links(links: Map<u32, Link>, id: ObjectId) -> Set<u32> {
    links.dom().filter(|k: u32| links[k].input == id)
}

/// Some link goes from `output` to `input`.
pub open spec fn linked(links: Map<u32, Link>, output: ObjectId, input: ObjectId) -> bool {
    exists|k: u32| #[trigger] links.contains_key(k) && links[k].input == input && links[k].output == output
}

/// The outputs of the links that end at `id`, visiting the links in the
/// order `ks`.
pub open spec fn inputs_along(links: Map<u32, Link>, ks: Seq<u32>, id: ObjectId) -> Seq<ObjectId>
    decreases ks.len(),
{
    if ks.len() == 0 {
        seq![]
    } else {
        let front = inputs_along(links, ks.drop_last(), id);
        if links[ks.last()].input == id {
            front.push(links[ks.last()].output)
        } else {
            front
        }
    }
}

/// The inputs of links that start at `id`, visiting the links in the order
/// `ks`.
pub open spec fn outputs_along(links: Map<u32, Link>, ks: Seq<u32>, id: ObjectId) -> Seq<ObjectId>
    decreases ks.len(),
{
    if ks.len() == 0 {
        seq![]
    } else {
        let front = outputs_along(links, ks.drop_last(), id);
        if links[ks.last()].output == id {
            front.push(links[ks.last()].input)
        } else {
            front
        }
    }
}

/// `ks` lists each key of `m` once.
pub open spec fn lists_keys<K, V>(ks: Seq<K>, m: Map<K, V>) -> bool {
    ks.no_duplicates() && ks.to_set() == m.dom()
}

proof fn lemma_inputs_along_contains(links: Map<u32, Link>, ks: Seq<u32>, id: ObjectId, o: ObjectId)
    ensures
        inputs_along(links, ks, id).contains(o) <==> exists|i: int|
            0 <= i < ks.len() && links[#[trigger] ks[i]].input == id && links[ks[i]].output == o,
    decreases ks.len(),
{
    if ks.len() > 0 {
        lemma_inputs_along_contains(links, ks.drop_last(), id, o);
        let front = inputs_along(links, ks.drop_last(), id);
        if inputs_along(links, ks, id).contains(o) {
            if !front.contains(o) {
                let j = ks.len() - 1;
                assert(links[ks[j]].input == id && links[ks[j]].output == o);
            } else {
                let i = choose|i: int|
                    0 <= i < ks.drop_last().len() && links[#[trigger] ks.drop_last()[i]].input == id
                        && links[ks.drop_last()[i]].output == o;
                assert(ks[i] == ks.drop_last()[i]);
            }
        }
        if exists|i: int| 0 <= i < ks.len() && links[#[trigger] ks[i]].input == id && links[ks[i]].output == o {
            let i = choose|i: int| 0 <= i < ks.len() && links[#[trigger] ks[i]].input == id && links[ks[i]].output == o;
            if i < ks.len() - 1 {
                assert(ks.drop_last()[i] == ks[i]);
                assert(front.contains(o));
                let w = choose|w: int| 0 <= w < front.len() && front[w] == o;
                assert(inputs_along(links, ks, id)[w] == o);
            } else {
                assert(inputs_along(links, ks, id).last() == o);
            }
        }
    }
}

proof fn lemma_outputs_along_contains(links: Map<u32, Link>, ks: Seq<u32>, id: ObjectId, o: ObjectId)
    ensures
        outputs_along(links, ks, id).contains(o) <==> exists|i: int|
            0 <= i < ks.len() && links[#[trigger] ks[i]].output == id && links[ks[i]].input == o,
    decreases ks.len(),
{
    if ks.len() > 0 {
        lemma_outputs_along_contains(links, ks.drop_last(), id, o);
        let front = outputs_along(links, ks.drop_last(), id);
        if outputs_along(links, ks, id).contains(o) {
            if !front.contains(o) {
                let j = ks.len() - 1;
                assert(links[ks[j]].output == id && links[ks[j]].input == o);
            } else {
                let i = choose|i: int|
                    0 <= i < ks.drop_last().len() && links[#[trigger] ks.drop_last()[i]].output == id
                        && links[ks.drop_last()[i]].input == o;
                assert(ks[i] == ks.drop_last()[i]);
            }
        }
        if exists|i: int| 0 <= i < ks.len() && links[#[trigger] ks[i]].output == id && links[ks[i]].input == o {
            let i = choose|i: int| 0 <= i < ks.len() && links[#[trigger] ks[i]].output == id && links[ks[i]].input == o;
            if i < ks.len() - 1 {
                assert(ks.drop_last()[i] == ks[i]);
                assert(front.contains(o));
                let w = choose|w: int| 0 <= w < front.len() && front[w] == o;
                assert(outputs_along(links, ks, id)[w] == o);
            } else {
                assert(outputs_along(links, ks, id).last() == o);
            }
        }
    }
}

/// The objects that input to `id` are those linked to it.
pub proof fn lemma_inputs_linked(links: Map<u32, Link>, ks: Seq<u32>, id: ObjectId, o: ObjectId)
    requires
        lists_keys(ks, links),
    ensures
        inputs_along(links, ks, id).contains(o) <==> linked(links, o, id),
{
    lemma_inputs_along_contains(links, ks, id, o);
    if linked(links, o, id) {
        let k = choose|k: u32| #[trigger] links.contains_key(k) && links[k].input == id && links[k].output == o;
        assert(ks.to_set().contains(k));
        let i = choose|i: int| 0 <= i < ks.len() && ks[i] == k;
        assert(links[ks[i]].input == id);
    }
    if inputs_along(links, ks, id).contains(o) {
        let i = choose|i: int| 0 <= i < ks.len() && links[#[trigger] ks[i]].input == id && links[ks[i]].output == o;
        assert(ks.to_set().contains(ks[i]));
        assert(links.contains_key(ks[i]));
    }
}

/// The objects that `id` outputs to are those it is linked to.
pub proof fn lemma_outputs_linked(links: Map<u32, Link>, ks: Seq<u32>, id: ObjectId, o: ObjectId)
    requires
        lists_keys(ks, links),
    ensures
        outputs_along(links, ks, id).contains(o) <==> linked(links, id, o),
{
    lemma_outputs_along_contains(links, ks, id, o);
    if linked(links, id, o) {
        let k = choose|k: u32| #[trigger] links.contains_key(k) && links[k].input == o && links[k].output == id;
        assert(ks.to_set().contains(k));
        let i = choose|i: int| 0 <= i < ks.len() && ks[i] == k;
        assert(links[ks[i]].output == id);
    }
    if outputs_along(links, ks, id).contains(o) {
        let i = choose|i: int| 0 <= i < ks.len() && links[#[trigger] ks[i]].output == id && links[ks[i]].input == o;
        assert(ks.to_set().contains(ks[i]));
        assert(links.contains_key(ks[i]));
    }
}

proof fn lemma_inputs_along_len(links: Map<u32, Link>, ks: Seq<u32>, id: ObjectId)
    requires
        ks.no_duplicates(),
    ensures
        inputs_along(links, ks, id).len() == ks.to_set().filter(|k: u32| links[k].input == id).len(),
        ks.to_set().filter(|k: u32| links[k].input == id).finite(),
    decreases ks.len(),
{
    let p = |k: u32| links[k].input == id;
    if ks.len() == 0 {
        assert(ks.to_set().filter(p) =~= Set::<u32>::empty());
    } else {
        let front = ks.drop_last();
        assert(front.no_duplicates());
        lemma_inputs_along_len(links, front, id);
        let k = ks.last();
        assert(ks =~= front.push(k));
        assert(ks.to_set() =~= front.to_set().insert(k));
        assert(!front.to_set().contains(k)) by {
            if front.to_set().contains(k) {
                let i = choose|i: int| 0 <= i < front.len() && front[i] == k;
                assert(ks[i] == ks[ks.len() - 1]);
            }
        }
        if p(k) {
            assert(ks.to_set().filter(p) =~= front.to_set().filter(p).insert(k));
        } else {
            assert(ks.to_set().filter(p) =~= front.to_set().filter(p));
        }
    }
}

/// The subject's properties after a metadata property event.
pub open spec fn properties_after(
    props: Map<Seq<char>, String>,
    key: Option<String>,
    value: Option<String>,
) -> Map<Seq<char>, String> {
    match key {
        Some(k) => match value {
            Some(v) => props.insert(k@, v),
            None => props.remove(k@),
        },
        None => Map::empty(),
    }
}

pub open spec fn subject_properties(m: MetadataView, subject: u32) -> Map<Seq<char>, String> {
    if m.properties.contains_key(subject) {
        m.properties[subject]
    } else {
        Map::empty()
    }
}

/// The capture decisions that an event leads to: a removed node stops
/// being captured, and so does a node whose last input link is removed.
pub open spec fn capture_after(old: State, c: CaptureView, event: MonitorEvent) -> CaptureView {
    match event {
        MonitorEvent::NodeProperties(id, props) => after_node(
            c,
            Node { props, ..node_or_new(old.nodes@, id) },
        ),
        MonitorEvent::NodePositions(id, positions) => {
            if old.nodes@.contains_key(id.0) && old.nodes@[id.0].positions is Some
                && old.nodes@[id.0].positions->0@ != positions@ {
                after_positions_changed(c, old.nodes@[id.0])
            } else {
                c
            }
        },
        MonitorEvent::Link(id, output, input) => {
            if !linked(old.links@, output, input) && old.nodes@.contains_key(input.0) {
                after_link(c, old.nodes@[input.0])
            } else {
                c
            }
        },
        MonitorEvent::Removed(id) => {
            let c1 = if old.links@.contains_key(id.0) {
                let input = old.links@[id.0].input;
                if input_links(old.links@.remove(id.0), input).len() == 0
                    && old.nodes@.contains_key(input.0) {
                    stopped(c, old.nodes@[input.0])
                } else {
                    c
                }
            } else {
                c
            };
            if old.nodes@.contains_key(id.0) {
                stopped(c1, old.nodes@[id.0])
            } else {
                c1
            }
        },
        _ => c,
    }
}

impl State {
    /// What an event does to the state, apart from the capture decisions.
    pub open spec fn updated(old: State, new: State, event: MonitorEvent) -> bool {
        &&& new.dirty == dirty_after(old.dirty, event is NodePeaks)
        &&& match event {
            MonitorEvent::ClientProperties(id, props) => {
                &&& new.clients@ == old.clients@.insert(
                    id.0,
                    Client { id: client_id_or(old.clients@, id), props },
                )
                &&& new.nodes@ == old.nodes@ && new.devices@ == old.devices@
                &&& new.links@ == old.links@ && new.metadatas@ == old.metadatas@
                &&& new.metadatas_by_name@ == old.metadatas_by_name@
            },
            MonitorEvent::DeviceProperties(id, props) => {
                &&& devices_set(
                    old.devices@,
                    new.devices@,
                    id,
                    DeviceView { props, ..device_or_new(old.devices@, id) },
                )
                &&& new.nodes@ == old.nodes@ && new.clients@ == old.clients@
                &&& new.links@ == old.links@ && new.metadatas@ == old.metadatas@
                &&& new.metadatas_by_name@ == old.metadatas_by_name@
            },
            MonitorEvent::DeviceEnumProfile(id, index, description, available, classes) => {
                let d = device_or_new(old.devices@, id);
                &&& devices_set(
                    old.devices@,
                    new.devices@,
                    id,
                    DeviceView {
                        profiles: d.profiles.insert(
                            index,
                            Profile { index, description, available, classes },
                        ),
                        ..d
                    },
                )
                &&& new.nodes@ == old.nodes@ && new.clients@ == old.clients@
                &&& new.links@ == old.links@ && new.metadatas@ == old.metadatas@
                &&& new.metadatas_by_name@ == old.metadatas_by_name@
            },
            MonitorEvent::DeviceProfile(id, index) => {
                &&& devices_set(
                    old.devices@,
                    new.devices@,
                    id,
                    DeviceView { profile_index: Some(index), ..device_or_new(old.devices@, id) },
                )
                &&& new.nodes@ == old.nodes@ && new.clients@ == old.clients@
                &&& new.links@ == old.links@ && new.metadatas@ == old.metadatas@
                &&& new.metadatas_by_name@ == old.metadatas_by_name@
            },
            MonitorEvent::DeviceRoute(
                id,
                index,
                device,
                profiles,
                description,
                available,
                volumes,
                mute,
            ) => {
                let d = device_or_new(old.devices@, id);
                &&& devices_set(
                    old.devices@,
                    new.devices@,
                    id,
                    DeviceView {
                        routes: d.routes.insert(
                            device,
                            Route { index, device, profiles, description, available, volumes, mute },
                        ),
                        ..d
                    },
                )
                &&& new.nodes@ == old.nodes@ && new.clients@ == old.clients@
                &&& new.links@ == old.links@ && new.metadatas@ == old.metadatas@
                &&& new.metadatas_by_name@ == old.metadatas_by_name@
            },
            MonitorEvent::DeviceEnumRoute(id, index, description, available, profiles, devices) => {
                let d = device_or_new(old.devices@, id);
                &&& devices_set(
                    old.devices@,
                    new.devices@,
                    id,
                    DeviceView {
                        enum_routes: d.enum_routes.insert(
                            index,
                            EnumRoute { index, description, available, profiles, devices },
                        ),
                        ..d
                    },
                )
                &&& new.nodes@ == old.nodes@ && new.clients@ == old.clients@
                &&& new.links@ == old.links@ && new.metadatas@ == old.metadatas@
                &&& new.metadatas_by_name@ == old.metadatas_by_name@
            },
            MonitorEvent::NodeProperties(id, props) => {
                &&& new.nodes@ == old.nodes@.insert(id.0, Node { props, ..node_or_new(old.nodes@, id) })
                &&& new.clients@ == old.clients@ && new.devices@ == old.devices@
                &&& new.links@ == old.links@ && new.metadatas@ == old.metadatas@
                &&& new.metadatas_by_name@ == old.metadatas_by_name@
            },
            MonitorEvent::NodeMute(id, mute) => {
                &&& new.nodes@ == old.nodes@.insert(
                    id.0,
                    Node { mute: Some(mute), ..node_or_new(old.nodes@, id) },
                )
                &&& new.clients@ == old.clients@ && new.devices@ == old.devices@
                &&& new.links@ == old.links@ && new.metadatas@ == old.metadatas@
                &&& new.metadatas_by_name@ == old.metadatas_by_name@
            },
            MonitorEvent::NodePeaks(id, peaks) => {
                let n = node_or_new(old.nodes@, id);
                &&& new.nodes@ == old.nodes@.insert(
                    id.0,
                    if n.rate is Some {
                        Node { peaks: Some(peaks), ..n }
                    } else {
                        n
                    },
                )
                &&& new.clients@ == old.clients@ && new.devices@ == old.devices@
                &&& new.links@ == old.links@ && new.metadatas@ == old.metadatas@
                &&& new.metadatas_by_name@ == old.metadatas_by_name@
            },
            MonitorEvent::NodeRate(id, rate) => {
                &&& new.nodes@ == old.nodes@.insert(
                    id.0,
                    Node { rate: Some(rate), ..node_or_new(old.nodes@, id) },
                )
                &&& new.clients@ == old.clients@ && new.devices@ == old.devices@
                &&& new.links@ == old.links@ && new.metadatas@ == old.metadatas@
                &&& new.metadatas_by_name@ == old.metadatas_by_name@
            },
            MonitorEvent::NodePositions(id, positions) => {
                &&& new.nodes@ == old.nodes@.insert(
                    id.0,
                    Node { positions: Some(positions), ..node_or_new(old.nodes@, id) },
                )
                &&& new.clients@ == old.clients@ && new.devices@ == old.devices@
                &&& new.links@ == old.links@ && new.metadatas@ == old.metadatas@
                &&& new.metadatas_by_name@ == old.metadatas_by_name@
            },
            MonitorEvent::NodeVolumes(id, volumes) => {
                &&& new.nodes@ == old.nodes@.insert(
                    id.0,
                    Node { volumes: Some(volumes), ..node_or_new(old.nodes@, id) },
                )
                &&& new.clients@ == old.clients@ && new.devices@ == old.devices@
                &&& new.links@ == old.links@ && new.metadatas@ == old.metadatas@
                &&& new.metadatas_by_name@ == old.metadatas_by_name@
            },
            MonitorEvent::Link(id, output, input) => {
                &&& new.links@ == old.links@.insert(id.0, Link { output, input })
                &&& new.nodes@ == old.nodes@ && new.clients@ == old.clients@
                &&& new.devices@ == old.devices@ && new.metadatas@ == old.metadatas@
                &&& new.metadatas_by_name@ == old.metadatas_by_name@
            },
            MonitorEvent::MetadataMetadataName(id, name) => {
                &&& metadatas_set(
                    old.metadatas@,
                    new.metadatas@,
                    id,
                    MetadataView { metadata_name: Some(name), ..metadata_or_new(old.metadatas@, id) },
                )
                &&& new.metadatas_by_name@ == old.metadatas_by_name@.insert(name@, id)
                &&& new.nodes@ == old.nodes@ && new.clients@ == old.clients@
                &&& new.devices@ == old.devices@ && new.links@ == old.links@
            },
            MonitorEvent::MetadataProperty(id, subject, key, value) => {
                let m = metadata_or_new(old.metadatas@, id);
                &&& metadatas_set(
                    old.metadatas@,
                    new.metadatas@,
                    id,
                    MetadataView {
                        properties: m.properties.insert(
                            subject,
                            properties_after(subject_properties(m, subject), key, value),
                        ),
                        ..m
                    },
                )
                &&& new.metadatas_by_name@ == old.metadatas_by_name@
                &&& new.nodes@ == old.nodes@ && new.clients@ == old.clients@
                &&& new.devices@ == old.devices@ && new.links@ == old.links@
            },
            MonitorEvent::StreamStopped(id) => {
                &&& new.nodes@ == if old.nodes@.contains_key(id.0) {
                    old.nodes@.insert(id.0, Node { peaks: None, ..old.nodes@[id.0] })
                } else {
                    old.nodes@
                }
                &&& new.clients@ == old.clients@ && new.devices@ == old.devices@
                &&& new.links@ == old.links@ && new.metadatas@ == old.metadatas@
                &&& new.metadatas_by_name@ == old.metadatas_by_name@
            },
            MonitorEvent::Removed(id) => {
                &&& new.links@ == old.links@.remove(id.0)
                &&& new.devices@ == old.devices@.remove(id.0)
                &&& new.clients@ == old.clients@.remove(id.0)
                &&& new.nodes@ == old.nodes@.remove(id.0)
                &&& new.metadatas@ == old.metadatas@.remove(id.0)
                &&& new.metadatas_by_name@ == if old.metadatas@.contains_key(id.0)
                    && old.metadatas@[id.0].metadata_name is Some {
                    old.metadatas_by_name@.remove(old.metadatas@[id.0].metadata_name->0@)
                } else {
                    old.metadatas_by_name@
                }
            },
        }
    }
}

/// Each key of the map, once, in the order the map yields them.
pub fn keys_of<K: Copy, V>(m: &HashMap<K, V>) -> (ids: Vec<K>)
    requires
        obeys_key_model::<K>(),
    ensures
        lists_keys(ids@, m@),
{
    let mut ids: Vec<K> = Vec::new();
    let ghost all = spec_keys_iter(m).remaining().unref();
    proof {
        axiom_spec_keys_iter(m);
    }
    for k in it: m.keys()
        invariant
            it.seq().unref() == all,
            ids@ == it.seq().unref().take(it.index() as int),
    {
        ids.push(*k);
    }
    assert(ids@ =~= all);
    ids
}

fn take_node(nodes: &mut HashMap<u32, Node>, id: ObjectId) -> (node: Node)
    ensures
        node == node_or_new(old(nodes)@, id),
        final(nodes)@ == old(nodes)@.remove(id.0),
{
    match nodes.remove(&id.0) {
        Some(n) => n,
        None => Node::new(id),
    }
}

fn take_device(devices: &mut HashMap<u32, Device>, id: ObjectId) -> (device: Device)
    ensures
        device@ == device_or_new(old(devices)@, id),
        final(devices)@ == old(devices)@.remove(id.0),
{
    match devices.remove(&id.0) {
        Some(d) => d,
        None => Device::new(id),
    }
}

fn take_metadata(metadatas: &mut HashMap<u32, Metadata>, id: ObjectId) -> (metadata: Metadata)
    ensures
        metadata@ == metadata_or_new(old(metadatas)@, id),
        final(metadatas)@ == old(metadatas)@.remove(id.0),
{
    match metadatas.remove(&id.0) {
        Some(m) => m,
        None => Metadata::new(id),
    }
}

proof fn lemma_devices_put(old: Map<u32, Device>, id: ObjectId, d: Device)
    ensures
        devices_set(old, old.remove(id.0).insert(id.0, d), id, d@),
{
    assert(old.remove(id.0).insert(id.0, d).dom() =~= old.dom().insert(id.0));
}

proof fn lemma_metadatas_put(old: Map<u32, Metadata>, id: ObjectId, m: Metadata)
    ensures
        metadatas_set(old, old.remove(id.0).insert(id.0, m), id, m@),
{
    assert(old.remove(id.0).insert(id.0, m).dom() =~= old.dom().insert(id.0));
}

fn vec_eq_u32(a: &Vec<u32>, b: &Vec<u32>) -> (equal: bool)
    ensures
        equal == (a@ == b@),
{
    if a.len() != b.len() {
        return false;
    }
    let mut i: usize = 0;
    while i < a.len()
        invariant
            a.len() == b.len(),
            i <= a.len(),
            forall|j: int| 0 <= j < i ==> a@[j] == b@[j],
        decreases a.len() - i,
    {
        if a[i] != b[i] {
            return false;
        }
        i += 1;
    }
    assert(a@ =~= b@);
    true
}

pub(crate) fn contains_id(v: &Vec<ObjectId>, x: ObjectId) -> (found: bool)
    ensures
        found == v@.contains(x),
{
    let mut i: usize = 0;
    while i < v.len()
        invariant
            i <= v.len(),
            forall|j: int| 0 <= j < i ==> v@[j] != x,
        decreases v.len() - i,
    {
        if v[i] == x {
            return true;
        }
        i += 1;
    }
    false
}

impl Node {
    pub fn new(id: ObjectId) -> (node: Node)
        ensures
            node == empty_node(id),
    {
        Node {
            id,
            props: PropertyStore::new(),
            volumes: None,
            mute: None,
            peaks: None,
            rate: None,
            positions: None,
        }
    }
}

impl Device {
    pub fn new(id: ObjectId) -> (device: Device)
        ensures
            device@ == empty_device(id),
    {
        Device {
            id,
            props: PropertyStore::new(),
            profile_index: None,
            profiles: HashMap::new(),
            routes: HashMap::new(),
            enum_routes: HashMap::new(),
        }
    }
}

impl Metadata {
    pub fn new(id: ObjectId) -> (metadata: Metadata)
        ensures
            metadata@ == empty_metadata(id),
    {
        let m = Metadata { id, metadata_name: None, properties: HashMap::new() };
        assert(m@.properties =~= Map::<u32, Map<Seq<char>, String>>::empty());
        m
    }
}

impl State {
    /// Nothing has been reported: every map is empty and nothing is dirty.
    pub open spec fn is_empty_state(self) -> bool {
        &&& self.clients@ == Map::<u32, Client>::empty()
        &&& self.nodes@ == Map::<u32, Node>::empty()
        &&& self.devices@ == Map::<u32, Device>::empty()
        &&& self.links@ == Map::<u32, Link>::empty()
        &&& self.metadatas@ == Map::<u32, Metadata>::empty()
        &&& self.metadatas_by_name@ == Map::<Seq<char>, ObjectId>::empty()
        &&& self.dirty == StateDirty::Clean
    }

    pub fn new() -> (state: State)
        ensures
            state.is_empty_state(),
    {
        State {
            clients: HashMap::new(),
            nodes: HashMap::new(),
            devices: HashMap::new(),
            links: HashMap::new(),
            metadatas: HashMap::new(),
            metadatas_by_name: StrMap::new(),
            dirty: StateDirty::Clean,
        }
    }

    /// Returns the objects that input to the given object, one per link, in
    /// the order the links are stored.
    pub fn inputs(&self, id: ObjectId) -> (inputs: Vec<ObjectId>)
        ensures
            exists|ks: Seq<u32>| lists_keys(ks, self.links@) && inputs@ == inputs_along(self.links@, ks, id),
    {
        let ks = keys_of(&self.links);
        let mut inputs: Vec<ObjectId> = Vec::new();
        let mut i: usize = 0;
        while i < ks.len()
            invariant
                lists_keys(ks@, self.links@),
                i <= ks.len(),
                inputs@ == inputs_along(self.links@, ks@.take(i as int), id),
            decreases ks.len() - i,
        {
            assert(ks@.take(i + 1).drop_last() =~= ks@.take(i as int));
            assert(ks@.to_set().contains(ks@[i as int]));
            let link = self.links.get(&ks[i]).unwrap();
            if link.input == id {
                inputs.push(link.output);
            }
            i += 1;
        }
        assert(ks@.take(ks.len() as int) =~= ks@);
        inputs
    }

    /// Returns the objects that the given object outputs to, one per link, in
    /// the order the links are stored.
    pub fn outputs(&self, id: ObjectId) -> (outputs: Vec<ObjectId>)
        ensures
            exists|ks: Seq<u32>| lists_keys(ks, self.links@) && outputs@ == outputs_along(self.links@, ks, id),
    {
        let ks = keys_of(&self.links);
        let mut outputs: Vec<ObjectId> = Vec::new();
        let mut i: usize = 0;
        while i < ks.len()
            invariant
                lists_keys(ks@, self.links@),
                i <= ks.len(),
                outputs@ == outputs_along(self.links@, ks@.take(i as int), id),
            decreases ks.len() - i,
        {
            assert(ks@.take(i + 1).drop_last() =~= ks@.take(i as int));
            assert(ks@.to_set().contains(ks@[i as int]));
            let link = self.links.get(&ks[i]).unwrap();
            if link.output == id {
                outputs.push(link.input);
            }
            i += 1;
        }
        assert(ks@.take(ks.len() as int) =~= ks@);
        outputs
    }

    /// The metadata object that is named `metadata_name`.
    pub fn get_metadata_by_name(&self, metadata_name: &str) -> (metadata: Option<&Metadata>)
        ensures
            match metadata {
                Some(m) => self.metadatas_by_name@.contains_key(metadata_name@)
                    && self.metadatas@.contains_key(self.metadatas_by_name@[metadata_name@].0)
                    && *m == self.metadatas@[self.metadatas_by_name@[metadata_name@].0],
                None => !(self.metadatas_by_name@.contains_key(metadata_name@)
                    && self.metadatas@.contains_key(self.metadatas_by_name@[metadata_name@].0)),
            },
    {
        match self.metadatas_by_name.get(metadata_name) {
            Some(id) => self.metadatas.get(&id.0),
            None => None,
        }
    }

    /// Update the state based on the supplied event. Decisions to start or
    /// stop capturing are queued on `capture_manager`.
    pub fn update(&mut self, capture_manager: &mut CaptureManager, event: MonitorEvent)
        ensures
            State::updated(*old(self), *final(self), event),
            final(capture_manager)@ == capture_after(*old(self), old(capture_manager)@, event),
    {
        let peaks_only = match &event {
            MonitorEvent::NodePeaks(..) => true,
            _ => false,
        };
        self.dirty = match self.dirty {
            StateDirty::Clean | StateDirty::PeaksOnly => if peaks_only {
                StateDirty::PeaksOnly
            } else {
                StateDirty::Everything
            },
            StateDirty::Everything => StateDirty::Everything,
        };
        match event {
            MonitorEvent::ClientProperties(id, props) => {
                let client_id = match self.clients.remove(&id.0) {
                    Some(c) => c.id,
                    None => id,
                };
                self.clients.insert(id.0, Client { id: client_id, props });
                assert(self.clients@ =~= old(self).clients@.insert(
                    id.0,
                    Client { id: client_id_or(old(self).clients@, id), props },
                ));
            },
            MonitorEvent::DeviceProperties(id, props) => {
                let mut d = take_device(&mut self.devices, id);
                d.props = props;
                proof {
                    lemma_devices_put(old(self).devices@, id, d);
                }
                self.devices.insert(id.0, d);
            },
            MonitorEvent::DeviceEnumProfile(id, index, description, available, classes) => {
                let mut d = take_device(&mut self.devices, id);
                d.profiles.insert(index, Profile { index, description, available, classes });
                proof {
                    lemma_devices_put(old(self).devices@, id, d);
                }
                self.devices.insert(id.0, d);
            },
            MonitorEvent::DeviceProfile(id, index) => {
                let mut d = take_device(&mut self.devices, id);
                d.profile_index = Some(index);
                proof {
                    lemma_devices_put(old(self).devices@, id, d);
                }
                self.devices.insert(id.0, d);
            },
            MonitorEvent::DeviceRoute(
                id,
                index,
                device,
                profiles,
                description,
                available,
                volumes,
                mute,
            ) => {
                let mut d = take_device(&mut self.devices, id);
                d.routes.insert(
                    device,
                    Route { index, device, profiles, description, available, volumes, mute },
                );
                proof {
                    lemma_devices_put(old(self).devices@, id, d);
                }
                self.devices.insert(id.0, d);
            },
            MonitorEvent::DeviceEnumRoute(id, index, description, available, profiles, devices) => {
                let mut d = take_device(&mut self.devices, id);
                d.enum_routes.insert(
                    index,
                    EnumRoute { index, description, available, profiles, devices },
                );
                proof {
                    lemma_devices_put(old(self).devices@, id, d);
                }
                self.devices.insert(id.0, d);
            },
            MonitorEvent::NodeProperties(id, props) => {
                let mut n = take_node(&mut self.nodes, id);
                n.props = props;
                self.nodes.insert(id.0, n);
                assert(self.nodes@ =~= old(self).nodes@.insert(
                    id.0,
                    Node { props, ..node_or_new(old(self).nodes@, id) },
                ));
                match self.nodes.get(&id.0) {
                    Some(node) => capture_manager.on_node(node),
                    None => {},
                }
            },
            MonitorEvent::NodeMute(id, mute) => {
                let mut n = take_node(&mut self.nodes, id);
                n.mute = Some(mute);
                self.nodes.insert(id.0, n);
                assert(self.nodes@ =~= old(self).nodes@.insert(
                    id.0,
                    Node { mute: Some(mute), ..node_or_new(old(self).nodes@, id) },
                ));
            },
            MonitorEvent::NodePeaks(id, peaks) => {
                let mut n = take_node(&mut self.nodes, id);
                if n.rate.is_some() {
                    n.peaks = Some(peaks);
                }
                self.nodes.insert(id.0, n);
                assert(self.nodes@ =~= old(self).nodes@.insert(id.0, n));
            },
            MonitorEvent::NodeRate(id, rate) => {
                let mut n = take_node(&mut self.nodes, id);
                n.rate = Some(rate);
                self.nodes.insert(id.0, n);
                assert(self.nodes@ =~= old(self).nodes@.insert(
                    id.0,
                    Node { rate: Some(rate), ..node_or_new(old(self).nodes@, id) },
                ));
            },
            MonitorEvent::NodePositions(id, positions) => {
                match self.nodes.get(&id.0) {
                    Some(node) => {
                        let changed = match &node.positions {
                            Some(p) => !vec_eq_u32(p, &positions),
                            None => false,
                        };
                        if changed {
                            capture_manager.on_positions_changed(node);
                        }
                    },
                    None => {},
                }
                let mut n = take_node(&mut self.nodes, id);
                n.positions = Some(positions);
                self.nodes.insert(id.0, n);
                assert(self.nodes@ =~= old(self).nodes@.insert(
                    id.0,
                    Node { positions: Some(positions), ..node_or_new(old(self).nodes@, id) },
                ));
            },
            MonitorEvent::NodeVolumes(id, volumes) => {
                let mut n = take_node(&mut self.nodes, id);
                n.volumes = Some(volumes);
                self.nodes.insert(id.0, n);
                assert(self.nodes@ =~= old(self).nodes@.insert(
                    id.0,
                    Node { volumes: Some(volumes), ..node_or_new(old(self).nodes@, id) },
                ));
            },
            MonitorEvent::Link(id, output, input) => {
                let ins = self.inputs(input);
                proof {
                    let ks = choose|ks: Seq<u32>| lists_keys(ks, self.links@) && ins@ == inputs_along(self.links@, ks, input);
                    lemma_inputs_along_contains(self.links@, ks, input, output);
                    if linked(self.links@, output, input) {
                        let k = choose|k: u32| #[trigger] self.links@.contains_key(k) && self.links@[k].input == input && self.links@[k].output == output;
                        assert(ks.to_set().contains(k));
                        let i = choose|i: int| 0 <= i < ks.len() && ks[i] == k;
                        assert(self.links@[ks[i]].input == input);
                    }
                    if ins@.contains(output) {
                        let i = choose|i: int| 0 <= i < ks.len() && self.links@[#[trigger] ks[i]].input == input && self.links@[ks[i]].output == output;
                        assert(ks.to_set().contains(ks[i]));
                        assert(self.links@.contains_key(ks[i]));
                    }
                }
                if !contains_id(&ins, output) {
                    match self.nodes.get(&input.0) {
                        Some(node) => capture_manager.on_link(node),
                        None => {},
                    }
                }
                self.links.insert(id.0, Link { output, input });
            },
            MonitorEvent::MetadataMetadataName(id, metadata_name) => {
                let mut m = take_metadata(&mut self.metadatas, id);
                m.metadata_name = Some(metadata_name.clone());
                proof {
                    lemma_metadatas_put(old(self).metadatas@, id, m);
                }
                self.metadatas.insert(id.0, m);
                self.metadatas_by_name.insert(metadata_name, id);
            },
            MonitorEvent::MetadataProperty(id, subject, key, value) => {
                let mut m = take_metadata(&mut self.metadatas, id);
                let ghost mv = m@;
                let mut props = match m.properties.remove(&subject) {
                    Some(p) => p,
                    None => StrMap::new(),
                };
                assert(props@ == subject_properties(mv, subject));
                match key {
                    Some(k) => {
                        match value {
                            Some(v) => props.insert(k, v),
                            None => {
                                props.remove(k.as_str());
                            },
                        }
                    },
                    None => props.clear(),
                }
                m.properties.insert(subject, props);
                assert(m@.properties =~= mv.properties.insert(subject, props@));
                proof {
                    lemma_metadatas_put(old(self).metadatas@, id, m);
                }
                self.metadatas.insert(id.0, m);
            },
            MonitorEvent::StreamStopped(id) => {
                if self.nodes.contains_key(&id.0) {
                    let mut n = take_node(&mut self.nodes, id);
                    n.peaks = None;
                    self.nodes.insert(id.0, n);
                    assert(self.nodes@ =~= old(self).nodes@.insert(
                        id.0,
                        Node { peaks: None, ..old(self).nodes@[id.0] },
                    ));
                }
            },
            MonitorEvent::Removed(id) => {
                match self.links.remove(&id.0) {
                    Some(link) => {
                        let ins = self.inputs(link.input);
                        proof {
                            let ks = choose|ks: Seq<u32>| lists_keys(ks, self.links@) && ins@ == inputs_along(self.links@, ks, link.input);
                            lemma_inputs_along_len(self.links@, ks, link.input);
                            assert(ks.to_set().filter(|k: u32| self.links@[k].input == link.input) =~= input_links(self.links@, link.input));
                        }
                        if ins.len() == 0 {
                            match self.nodes.get(&link.input.0) {
                                Some(node) => capture_manager.on_removed(node),
                                None => {},
                            }
                        }
                    },
                    None => {},
                }
                self.devices.remove(&id.0);
                self.clients.remove(&id.0);
                match self.nodes.remove(&id.0) {
                    Some(node) => capture_manager.on_removed(&node),
                    None => {},
                }
                match self.metadatas.remove(&id.0) {
                    Some(m) => {
                        match m.metadata_name {
                            Some(name) => {
                                self.metadatas_by_name.remove(name.as_str());
                            },
                            None => {},
                        }
                    },
                    None => {},
                }
            },
        }
    }
}

impl Default for State {
    fn default() -> (state: State)
        ensures
            state.is_empty_state(),
    {
        State::new()
    }
}

/// Every object is stored under its own id.
pub open spec fn ids_consistent(s: State) -> bool {
    &&& forall|k: u32| #[trigger] s.clients@.contains_key(k) ==> s.clients@[k].id.0 == k
    &&& forall|k: u32| #[trigger] s.nodes@.contains_key(k) ==> s.nodes@[k].id.0 == k
    &&& forall|k: u32| #[trigger] s.devices@.contains_key(k) ==> s.devices@[k].id.0 == k
    &&& forall|k: u32| #[trigger] s.metadatas@.contains_key(k) ==> s.metadatas@[k].id.0 == k
}

/// Every event keeps each object stored under its own id.
pub proof fn lemma_update_keeps_ids(old: State, new: State, event: MonitorEvent)
    requires
        ids_consistent(old),
        State::updated(old, new, event),
    ensures
        ids_consistent(new),
{
    match event {
        MonitorEvent::DeviceProperties(id, _) => assert(new.devices@[id.0].id == id),
        MonitorEvent::DeviceEnumProfile(id, _, _, _, _) => assert(new.devices@[id.0].id == id),
        MonitorEvent::DeviceProfile(id, _) => assert(new.devices@[id.0].id == id),
        MonitorEvent::DeviceRoute(id, _, _, _, _, _, _, _) => assert(new.devices@[id.0].id == id),
        MonitorEvent::DeviceEnumRoute(id, _, _, _, _, _) => assert(new.devices@[id.0].id == id),
        MonitorEvent::MetadataMetadataName(id, _) => assert(new.metadatas@[id.0].id == id),
        MonitorEvent::MetadataProperty(id, _, _, _) => assert(new.metadatas@[id.0].id == id),
        _ => {},
    }
}

/// Reading a metadata property gives back the value last written to it.
pub proof fn lemma_metadata_property_written(
    old: State,
    new: State,
    id: ObjectId,
    subject: u32,
    key: String,
    value: String,
)
    requires
        State::updated(old, new, MonitorEvent::MetadataProperty(id, subject, Some(key), Some(value))),
    ensures
        new.metadatas@.contains_key(id.0),
        new.metadatas@[id.0]@.properties.contains_key(subject),
        new.metadatas@[id.0]@.properties[subject].contains_key(key@),
        new.metadatas@[id.0]@.properties[subject][key@] == value,
{
}

/// Writing a property without a value removes it, and leaves the other
/// subjects of the metadata object as they were.
pub proof fn lemma_metadata_property_removed(
    old: State,
    new: State,
    id: ObjectId,
    subject: u32,
    key: String,
)
    requires
        State::updated(old, new, MonitorEvent::MetadataProperty(id, subject, Some(key), None)),
    ensures
        !new.metadatas@[id.0]@.properties[subject].contains_key(key@),
        forall|other: u32|
            other != subject ==> (#[trigger] new.metadatas@[id.0]@.properties.contains_key(other)
                <==> metadata_or_new(old.metadatas@, id).properties.contains_key(other)),
        forall|other: u32|
            other != subject && #[trigger] new.metadatas@[id.0]@.properties.contains_key(other)
                ==> new.metadatas@[id.0]@.properties[other] == metadata_or_new(
                old.metadatas@,
                id,
            ).properties[other],
{
}

/// A property event without a key clears the subject's properties, and
/// leaves the other subjects as they were.
pub proof fn lemma_metadata_subject_cleared(
    old: State,
    new: State,
    id: ObjectId,
    subject: u32,
    value: Option<String>,
)
    requires
        State::updated(old, new, MonitorEvent::MetadataProperty(id, subject, None, value)),
    ensures
        new.metadatas@[id.0]@.properties[subject] == Map::<Seq<char>, String>::empty(),
        forall|other: u32|
            other != subject && #[trigger] new.metadatas@[id.0]@.properties.contains_key(other)
                ==> new.metadatas@[id.0]@.properties[other] == metadata_or_new(
                old.metadatas@,
                id,
            ).properties[other],
{
}

/// Naming a metadata object makes it findable by that name.
pub proof fn lemma_metadata_named(old: State, new: State, id: ObjectId, name: String)
    requires
        State::updated(old, new, MonitorEvent::MetadataMetadataName(id, name)),
    ensures
        new.metadatas_by_name@.contains_key(name@),
        new.metadatas_by_name@[name@] == id,
        new.metadatas@.contains_key(id.0),
        new.metadatas@[id.0].metadata_name == Some(name),
{
}

/// After an object is removed, no part of the state holds it, and a
/// metadata object that was removed can no longer be found by its name.
pub proof fn lemma_removed_is_gone(old: State, new: State, id: ObjectId)
    requires
        State::updated(old, new, MonitorEvent::Removed(id)),
    ensures
        !new.clients@.contains_key(id.0),
        !new.nodes@.contains_key(id.0),
        !new.devices@.contains_key(id.0),
        !new.links@.contains_key(id.0),
        !new.metadatas@.contains_key(id.0),
        old.metadatas@.contains_key(id.0) && old.metadatas@[id.0].metadata_name is Some
            ==> !new.metadatas_by_name@.contains_key(old.metadatas@[id.0].metadata_name->0@),
{
}

/// Only events that carry peak levels can leave the state anything but
/// fully dirty, and they never make a dirty state clean.
pub proof fn lemma_dirty_only_grows(dirty: StateDirty, peaks_only: bool)
    ensures
        dirty_after(dirty, peaks_only) != StateDirty::Clean,
        !peaks_only ==> dirty_after(dirty, peaks_only) == StateDirty::Everything,
        dirty == StateDirty::Everything ==> dirty_after(dirty, peaks_only) == StateDirty::Everything,
{
}

/// When capturing is on, removing a node stops its capture.
pub proof fn lemma_removed_node_not_captured(old: State, c: CaptureView, id: ObjectId)
    requires
        c.capture_enabled,
        old.nodes@.contains_key(id.0),
        old.nodes@[id.0].id == id,
    ensures
        !capture_after(old, c, MonitorEvent::Removed(id)).capturing.contains(id.0),
        capture_after(old, c, MonitorEvent::Removed(id)).pending.last() == (
        crate::capture_manager::CaptureCommand::Stop { object_id: id }),
{
}

/// When capturing is on, removing the last input link of a node stops the
/// node's capture; while another input link is left, it goes on.
pub proof fn lemma_last_input_link_stops_capture(old: State, c: CaptureView, link: ObjectId)
    requires
        c.capture_enabled,
        old.links@.contains_key(link.0),
        old.nodes@.contains_key(old.links@[link.0].input.0),
        old.nodes@[old.links@[link.0].input.0].id == old.links@[link.0].input,
        !old.nodes@.contains_key(link.0),
    ensures
        ({
            let input = old.links@[link.0].input;
            let after = capture_after(old, c, MonitorEvent::Removed(link));
            &&& (forall|k: u32| #[trigger] old.links@.contains_key(k) && k != link.0 ==> old.links@[k].input != input)
                ==> !after.capturing.contains(input.0)
            &&& (exists|k: u32| #[trigger] old.links@.contains_key(k) && k != link.0 && old.links@[k].input == input)
                ==> after == c
        }),
{
    let input = old.links@[link.0].input;
    let rest = input_links(old.links@.remove(link.0), input);
    if forall|k: u32| #[trigger] old.links@.contains_key(k) && k != link.0 ==> old.links@[k].input != input {
        assert(rest =~= Set::<u32>::empty());
    }
    if exists|k: u32| #[trigger] old.links@.contains_key(k) && k != link.0 && old.links@[k].input == input {
        let k = choose|k: u32| #[trigger] old.links@.contains_key(k) && k != link.0 && old.links@[k].input == input;
        assert(rest.contains(k));
        vstd::set_lib::lemma_set_empty_equivalency_len(rest);
    }
}

} // verus!
