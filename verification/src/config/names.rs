//! Naming objects: the default templates, the choice of templates for an
//! object (an override that matches it, else the templates of its kind), and
//! the name that the first template which renders gives.

use vstd::prelude::*;

use crate::config::matching::{condition_holds, MatchCondition, PropertyResolver};
use crate::config::name_template::{lemma_render_determined, opt_view, render_spec, NameTemplate, Part, PartView};
use crate::config::property_key::PropertyKey;
use crate::config::tag::{tag_text, ClientTag, DeviceTag, NodeTag, Tag};
use crate::config::{NameOverride, Names, OverrideType};
use crate::media_class::{is_sink, is_source, sink_class, source_class};
use crate::object::ObjectId;
use crate::property_store::{opt_text, property_text, PropertyStore};
use crate::state::{Client, Device, Node, State};

verus! {

broadcast use vstd::std_specs::hash::group_hash_axioms;

// ---------------------------------------------------------------------------
// What tags and keys stand for

pub open spec fn device_tag_text(p: PropertyStore, t: DeviceTag) -> Option<Seq<char>> {
    match t {
        DeviceTag::DeviceName => opt_text(p.device_name),
        DeviceTag::DeviceNick => opt_text(p.device_nick),
        DeviceTag::DeviceDescription => opt_text(p.device_description),
    }
}

pub open spec fn node_tag_text(p: PropertyStore, t: NodeTag) -> Option<Seq<char>> {
    match t {
        NodeTag::NodeName => opt_text(p.node_name),
        NodeTag::NodeNick => opt_text(p.node_nick),
        NodeTag::NodeDescription => opt_text(p.node_description),
        NodeTag::MediaName => opt_text(p.media_name),
    }
}

pub open spec fn client_tag_text(p: PropertyStore, t: ClientTag) -> Option<Seq<char>> {
    match t {
        ClientTag::ApplicationName => opt_text(p.application_name),
        ClientTag::ApplicationProcessBinary => opt_text(p.application_process_binary),
    }
}

/// A tag is written `object:property`, and its value is the property of
/// that name: `client:application.process.binary` is the
/// `application.process.binary` property, and so on for every tag.
pub proof fn lemma_tags_read_named_properties(p: PropertyStore)
    ensures
        forall|t: ClientTag|
            tag_text(Tag::Client(t)).take(7) == "client:"@ && #[trigger] client_tag_text(p, t) == property_text(
                p,
                tag_text(Tag::Client(t)).skip(7),
            ),
        forall|t: DeviceTag|
            tag_text(Tag::Device(t)).take(7) == "device:"@ && #[trigger] device_tag_text(p, t) == property_text(
                p,
                tag_text(Tag::Device(t)).skip(7),
            ),
        forall|t: NodeTag|
            tag_text(Tag::Node(t)).take(5) == "node:"@ && #[trigger] node_tag_text(p, t) == property_text(
                p,
                tag_text(Tag::Node(t)).skip(5),
            ),
{
    reveal_strlit("device:device.name");
    reveal_strlit("device:device.nick");
    reveal_strlit("device:device.description");
    reveal_strlit("node:node.name");
    reveal_strlit("node:node.nick");
    reveal_strlit("node:node.description");
    reveal_strlit("node:media.name");
    reveal_strlit("client:application.name");
    reveal_strlit("client:application.process.binary");
    reveal_strlit("node.name");
    reveal_strlit("node.nick");
    reveal_strlit("node.description");
    reveal_strlit("media.name");
    reveal_strlit("media.class");
    reveal_strlit("device.name");
    reveal_strlit("device.nick");
    reveal_strlit("device.description");
    reveal_strlit("application.name");
    reveal_strlit("application.process.binary");
    reveal_strlit("device:");
    reveal_strlit("node:");
    reveal_strlit("client:");
    assert forall|t: ClientTag|
        tag_text(Tag::Client(t)).take(7) == "client:"@ && #[trigger] client_tag_text(p, t) == property_text(
            p,
            tag_text(Tag::Client(t)).skip(7),
        ) by {
        match t {
            ClientTag::ApplicationName => {
                assert(tag_text(Tag::Client(t)).take(7) =~= "client:"@);
                assert(tag_text(Tag::Client(t)).skip(7) =~= "application.name"@);
                assert("application.name"@[0] != "node.description"@[0]);
            },
            ClientTag::ApplicationProcessBinary => {
                assert(tag_text(Tag::Client(t)).take(7) =~= "client:"@);
                assert(tag_text(Tag::Client(t)).skip(7) =~= "application.process.binary"@);
            },
        }
    }
    assert forall|t: DeviceTag|
        tag_text(Tag::Device(t)).take(7) == "device:"@ && #[trigger] device_tag_text(p, t) == property_text(
            p,
            tag_text(Tag::Device(t)).skip(7),
        ) by {
        assert(tag_text(Tag::Device(t)).take(7) =~= "device:"@);
        match t {
            DeviceTag::DeviceName => {
                assert(tag_text(Tag::Device(t)).skip(7) =~= "device.name"@);
                assert("device.name"@[0] != "media.class"@[0]);
            },
            DeviceTag::DeviceNick => {
                assert(tag_text(Tag::Device(t)).skip(7) =~= "device.nick"@);
                assert("device.nick"@[0] != "media.class"@[0]);
                assert("device.nick"@[8] != "device.name"@[8]);
            },
            DeviceTag::DeviceDescription => assert(tag_text(Tag::Device(t)).skip(7) =~= "device.description"@),
        }
    }
    assert forall|t: NodeTag|
        tag_text(Tag::Node(t)).take(5) == "node:"@ && #[trigger] node_tag_text(p, t) == property_text(
            p,
            tag_text(Tag::Node(t)).skip(5),
        ) by {
        assert(tag_text(Tag::Node(t)).take(5) =~= "node:"@);
        match t {
            NodeTag::NodeName => assert(tag_text(Tag::Node(t)).skip(5) =~= "node.name"@),
            NodeTag::NodeNick => {
                assert(tag_text(Tag::Node(t)).skip(5) =~= "node.nick"@);
                assert("node.nick"@[6] != "node.name"@[6]);
            },
            NodeTag::NodeDescription => assert(tag_text(Tag::Node(t)).skip(5) =~= "node.description"@),
            NodeTag::MediaName => assert(tag_text(Tag::Node(t)).skip(5) =~= "media.name"@),
        }
    }
}

/// A `client:` tag of a node reads the property of that name of the node's
/// client, when the state knows its client; a `device:` tag that of its
/// device.
pub proof fn lemma_node_tags_read_linked_properties(node: Node, state: &State)
    ensures
        forall|t: ClientTag|
            linked_client_props(state, node.props.client_id) matches Some(c) ==> #[trigger] node_tag_value(
                node,
                state,
                Tag::Client(t),
            ) == property_text(c, tag_text(Tag::Client(t)).skip(7)),
        forall|t: DeviceTag|
            linked_device_props(state, node.props.device_id) matches Some(d) ==> #[trigger] node_tag_value(
                node,
                state,
                Tag::Device(t),
            ) == property_text(d, tag_text(Tag::Device(t)).skip(7)),
{
    match linked_client_props(state, node.props.client_id) {
        Some(c) => lemma_tags_read_named_properties(c),
        None => {},
    }
    match linked_device_props(state, node.props.device_id) {
        Some(d) => lemma_tags_read_named_properties(d),
        None => {},
    }
}

/// The properties of the device that `id` names, if it names one.
pub open spec fn linked_device_props(state: &State, id: Option<ObjectId>) -> Option<PropertyStore> {
    match id {
        Some(id) => if state.devices@.contains_key(id.0) {
            Some(state.devices@[id.0].props)
        } else {
            None
        },
        None => None,
    }
}

/// The properties of the client that `id` names, if it names one.
pub open spec fn linked_client_props(state: &State, id: Option<ObjectId>) -> Option<PropertyStore> {
    match id {
        Some(id) => if state.clients@.contains_key(id.0) {
            Some(state.clients@[id.0].props)
        } else {
            None
        },
        None => None,
    }
}

/// A tag of a node: its own properties for `node:` tags, those of its device
/// for `device:` tags and those of its client for `client:` tags.
pub open spec fn node_tag_value(node: Node, state: &State, tag: Tag) -> Option<Seq<char>> {
    match tag {
        Tag::Node(t) => node_tag_text(node.props, t),
        Tag::Device(t) => match linked_device_props(state, node.props.device_id) {
            Some(p) => device_tag_text(p, t),
            None => None,
        },
        Tag::Client(t) => match linked_client_props(state, node.props.client_id) {
            Some(p) => client_tag_text(p, t),
            None => None,
        },
    }
}

/// A property key of a node, resolved as its tags are; a bare key names the
/// node's own property.
pub open spec fn node_key_value(node: Node, state: &State, key: PropertyKey) -> Option<Seq<char>> {
    match key {
        PropertyKey::Node(name) => property_text(node.props, name@),
        PropertyKey::Bare(name) => property_text(node.props, name@),
        PropertyKey::Device(name) => match linked_device_props(state, node.props.device_id) {
            Some(p) => property_text(p, name@),
            None => None,
        },
        PropertyKey::Client(name) => match linked_client_props(state, node.props.client_id) {
            Some(p) => property_text(p, name@),
            None => None,
        },
    }
}

/// A tag of a device: only `device:` tags, from its own properties.
pub open spec fn device_tag_value(device: Device, tag: Tag) -> Option<Seq<char>> {
    match tag {
        Tag::Device(t) => device_tag_text(device.props, t),
        _ => None,
    }
}

/// A property key of a device: `device:` and bare keys name its own
/// properties.
pub open spec fn device_key_value(device: Device, key: PropertyKey) -> Option<Seq<char>> {
    match key {
        PropertyKey::Device(name) => property_text(device.props, name@),
        PropertyKey::Bare(name) => property_text(device.props, name@),
        _ => None,
    }
}

fn clone_text(s: &Option<String>) -> (r: Option<String>)
    ensures
        opt_text(r) == opt_text(*s),
{
    match s {
        Some(v) => Some(v.clone()),
        None => None,
    }
}

fn device_tag(p: &PropertyStore, t: DeviceTag) -> (r: Option<String>)
    ensures
        opt_text(r) == device_tag_text(*p, t),
{
    match t {
        DeviceTag::DeviceName => clone_text(&p.device_name),
        DeviceTag::DeviceNick => clone_text(&p.device_nick),
        DeviceTag::DeviceDescription => clone_text(&p.device_description),
    }
}

fn node_tag(p: &PropertyStore, t: NodeTag) -> (r: Option<String>)
    ensures
        opt_text(r) == node_tag_text(*p, t),
{
    match t {
        NodeTag::NodeName => clone_text(&p.node_name),
        NodeTag::NodeNick => clone_text(&p.node_nick),
        NodeTag::NodeDescription => clone_text(&p.node_description),
        NodeTag::MediaName => clone_text(&p.media_name),
    }
}

fn client_tag(p: &PropertyStore, t: ClientTag) -> (r: Option<String>)
    ensures
        opt_text(r) == client_tag_text(*p, t),
{
    match t {
        ClientTag::ApplicationName => clone_text(&p.application_name),
        ClientTag::ApplicationProcessBinary => clone_text(&p.application_process_binary),
    }
}

fn property_of(p: &PropertyStore, name: &String) -> (r: Option<String>)
    ensures
        opt_text(r) == property_text(*p, name@),
{
    match p.property(name.as_str()) {
        Some(v) => Some(v.clone()),
        None => None,
    }
}

fn linked_device<'a>(state: &'a State, id: Option<ObjectId>) -> (r: Option<&'a PropertyStore>)
    ensures
        match r {
            Some(p) => linked_device_props(state, id) == Some(*p),
            None => linked_device_props(state, id) is None,
        },
{
    match id {
        Some(id) => match state.devices.get(&id.0) {
            Some(d) => Some(&d.props),
            None => None,
        },
        None => None,
    }
}

fn linked_client<'a>(state: &'a State, id: Option<ObjectId>) -> (r: Option<&'a PropertyStore>)
    ensures
        match r {
            Some(p) => linked_client_props(state, id) == Some(*p),
            None => linked_client_props(state, id) is None,
        },
{
    match id {
        Some(id) => match state.clients.get(&id.0) {
            Some(c) => Some(&c.props),
            None => None,
        },
        None => None,
    }
}

impl PropertyResolver for Node {
    open spec fn tag_value(&self, state: &State, tag: Tag) -> Option<Seq<char>> {
        node_tag_value(*self, state, tag)
    }

    open spec fn key_value(&self, state: &State, key: PropertyKey) -> Option<Seq<char>> {
        node_key_value(*self, state, key)
    }

    fn resolve_key(&self, state: &State, tag: Tag) -> (value: Option<String>) {
        match tag {
            Tag::Node(t) => node_tag(&self.props, t),
            Tag::Device(t) => match linked_device(state, self.props.device_id) {
                Some(p) => device_tag(p, t),
                None => None,
            },
            Tag::Client(t) => match linked_client(state, self.props.client_id) {
                Some(p) => client_tag(p, t),
                None => None,
            },
        }
    }

    fn resolve_property(&self, state: &State, key: &PropertyKey) -> (value: Option<String>) {
        match key {
            PropertyKey::Node(name) => property_of(&self.props, name),
            PropertyKey::Bare(name) => property_of(&self.props, name),
            PropertyKey::Device(name) => match linked_device(state, self.props.device_id) {
                Some(p) => property_of(p, name),
                None => None,
            },
            PropertyKey::Client(name) => match linked_client(state, self.props.client_id) {
                Some(p) => property_of(p, name),
                None => None,
            },
        }
    }
}

impl PropertyResolver for Device {
    open spec fn tag_value(&self, state: &State, tag: Tag) -> Option<Seq<char>> {
        device_tag_value(*self, tag)
    }

    open spec fn key_value(&self, state: &State, key: PropertyKey) -> Option<Seq<char>> {
        device_key_value(*self, key)
    }

    fn resolve_key(&self, state: &State, tag: Tag) -> (value: Option<String>) {
        match tag {
            Tag::Device(t) => device_tag(&self.props, t),
            _ => None,
        }
    }

    fn resolve_property(&self, state: &State, key: &PropertyKey) -> (value: Option<String>) {
        match key {
            PropertyKey::Device(name) => property_of(&self.props, name),
            PropertyKey::Bare(name) => property_of(&self.props, name),
            _ => None,
        }
    }
}


// ---------------------------------------------------------------------------
// Choosing the templates

/// An override applies to an object of kind `ty` when it lists that kind and
/// one of its conditions holds for the object.
pub open spec fn override_applies<T: PropertyResolver>(
    o: NameOverride,
    ty: OverrideType,
    r: &T,
    state: &State,
) -> bool {
    &&& o.types@.contains(ty)
    &&& exists|k: int| 0 <= k < o.matches@.len() && condition_holds(#[trigger] o.matches@[k], r, state)
}

/// `i` is the first override in `ovs` that applies.
pub open spec fn is_first_override<T: PropertyResolver>(
    ovs: Seq<NameOverride>,
    ty: OverrideType,
    r: &T,
    state: &State,
    i: int,
) -> bool {
    &&& 0 <= i < ovs.len()
    &&& override_applies(ovs[i], ty, r, state)
    &&& forall|j: int| 0 <= j < i ==> !override_applies(#[trigger] ovs[j], ty, r, state)
}

/// The templates of the first override that applies, else `default`.
pub open spec fn chosen_templates<T: PropertyResolver>(
    ovs: Seq<NameOverride>,
    ty: OverrideType,
    r: &T,
    state: &State,
    default: Seq<NameTemplate>,
) -> Seq<NameTemplate> {
    if exists|i: int| is_first_override(ovs, ty, r, state, i) {
        ovs[choose|i: int| is_first_override(ovs, ty, r, state, i)].templates@
    } else {
        default
    }
}

/// There is at most one first override.
pub proof fn lemma_first_override_unique<T: PropertyResolver>(
    ovs: Seq<NameOverride>,
    ty: OverrideType,
    r: &T,
    state: &State,
    i: int,
    j: int,
)
    requires
        is_first_override(ovs, ty, r, state, i),
        is_first_override(ovs, ty, r, state, j),
    ensures
        i == j,
{
    if i < j {
        assert(!override_applies(ovs[i], ty, r, state));
    } else if j < i {
        assert(!override_applies(ovs[j], ty, r, state));
    }
}

/// The templates chosen when override `i` is the first that applies.
pub proof fn lemma_chosen_first<T: PropertyResolver>(
    ovs: Seq<NameOverride>,
    ty: OverrideType,
    r: &T,
    state: &State,
    default: Seq<NameTemplate>,
    i: int,
)
    requires
        is_first_override(ovs, ty, r, state, i),
    ensures
        chosen_templates(ovs, ty, r, state, default) == ovs[i].templates@,
{
    let c = choose|c: int| is_first_override(ovs, ty, r, state, c);
    lemma_first_override_unique(ovs, ty, r, state, i, c);
}

fn contains_type(types: &Vec<OverrideType>, ty: OverrideType) -> (found: bool)
    ensures
        found == types@.contains(ty),
{
    let mut i: usize = 0;
    while i < types.len()
        invariant
            i <= types.len(),
            forall|j: int| 0 <= j < i ==> types@[j] != ty,
        decreases types.len() - i,
    {
        if types[i] == ty {
            assert(types@[i as int] == ty);
            return true;
        }
        i += 1;
    }
    false
}

fn any_condition<T: PropertyResolver>(conditions: &Vec<MatchCondition>, state: &State, r: &T) -> (found: bool)
    ensures
        found == exists|k: int| 0 <= k < conditions@.len() && condition_holds(#[trigger] conditions@[k], r, state),
{
    let mut i: usize = 0;
    while i < conditions.len()
        invariant
            i <= conditions.len(),
            forall|j: int| 0 <= j < i ==> !condition_holds(#[trigger] conditions@[j], r, state),
        decreases conditions.len() - i,
    {
        if conditions[i].matches(state, r) {
            return true;
        }
        i += 1;
    }
    false
}

/// Something that can be named: it resolves tags, gives the templates that
/// apply to it, and has a name to fall back on.
pub trait NameResolver: PropertyResolver + Sized {
    /// The name to fall back on.
    spec fn fallback_name(&self) -> Option<Seq<char>>;

    /// The templates that apply to this object.
    spec fn template_choice(&self, state: &State, names: Names) -> Seq<NameTemplate>;

    fn fallback(&self) -> (name: Option<&String>)
        ensures
            match name {
                Some(s) => self.fallback_name() == Some(s@),
                None => self.fallback_name() is None,
            },
    ;

    fn templates<'a>(&self, state: &State, names: &'a Names) -> (t: &'a Vec<NameTemplate>)
        ensures
            t@ == self.template_choice(state, *names),
    ;

    /// The templates of the first override of kind `override_type` whose
    /// conditions this object meets.
    fn name_override<'a>(
        &self,
        state: &State,
        overrides: &'a [NameOverride],
        override_type: OverrideType,
    ) -> (t: Option<&'a Vec<NameTemplate>>)
        ensures
            match t {
                Some(t) => exists|i: int|
                    is_first_override(overrides@, override_type, self, state, i) && *t
                        == overrides@[i].templates,
                None => forall|j: int|
                    0 <= j < overrides@.len() ==> !override_applies(
                        #[trigger] overrides@[j],
                        override_type,
                        self,
                        state,
                    ),
            },
    {
        let mut i: usize = 0;
        while i < overrides.len()
            invariant
                i <= overrides@.len(),
                forall|j: int|
                    0 <= j < i ==> !override_applies(#[trigger] overrides@[j], override_type, self, state),
            decreases overrides.len() - i,
        {
            let o = &overrides[i];
            if contains_type(&o.types, override_type) && any_condition(&o.matches, state, self) {
                assert(is_first_override(overrides@, override_type, self, state, i as int));
                return Some(&o.templates);
            }
            i += 1;
        }
        None
    }
}

/// The choice of templates given what `name_override` returned.
proof fn lemma_override_choice<T: PropertyResolver>(
    r: &T,
    state: &State,
    ovs: Seq<NameOverride>,
    ty: OverrideType,
    found: Option<&Vec<NameTemplate>>,
    default: Seq<NameTemplate>,
)
    requires
        match found {
            Some(t) => exists|i: int| is_first_override(ovs, ty, r, state, i) && *t == ovs[i].templates,
            None => forall|j: int| 0 <= j < ovs.len() ==> !override_applies(#[trigger] ovs[j], ty, r, state),
        },
    ensures
        chosen_templates(ovs, ty, r, state, default) == match found {
            Some(t) => t@,
            None => default,
        },
{
    match found {
        Some(t) => {
            let i = choose|i: int| is_first_override(ovs, ty, r, state, i) && *t == ovs[i].templates;
            lemma_chosen_first(ovs, ty, r, state, default, i);
        },
        None => {
            assert(!exists|i: int| is_first_override(ovs, ty, r, state, i));
        },
    }
}

/// A node is named as an endpoint when it is a sink or a source.
pub open spec fn is_endpoint(node: Node) -> bool {
    match node.props.media_class {
        Some(c) => sink_class(c@) || source_class(c@),
        None => false,
    }
}

impl NameResolver for Node {
    open spec fn fallback_name(&self) -> Option<Seq<char>> {
        opt_text(self.props.node_name)
    }

    open spec fn template_choice(&self, state: &State, names: Names) -> Seq<NameTemplate> {
        if is_endpoint(*self) {
            chosen_templates(names.overrides@, OverrideType::Endpoint, self, state, names.endpoint@)
        } else {
            chosen_templates(names.overrides@, OverrideType::Stream, self, state, names.stream@)
        }
    }

    fn fallback(&self) -> (name: Option<&String>) {
        match &self.props.node_name {
            Some(s) => Some(s),
            None => None,
        }
    }

    fn templates<'a>(&self, state: &State, names: &'a Names) -> (t: &'a Vec<NameTemplate>) {
        let endpoint = match &self.props.media_class {
            Some(c) => is_sink(c.as_str()) || is_source(c.as_str()),
            None => false,
        };
        let ty = if endpoint { OverrideType::Endpoint } else { OverrideType::Stream };
        let found = self.name_override(state, names.overrides.as_slice(), ty);
        proof {
            let default = if endpoint { names.endpoint@ } else { names.stream@ };
            lemma_override_choice(self, state, names.overrides@, ty, found, default);
        }
        match found {
            Some(t) => t,
            None => if endpoint {
                &names.endpoint
            } else {
                &names.stream
            },
        }
    }
}

impl NameResolver for Device {
    open spec fn fallback_name(&self) -> Option<Seq<char>> {
        opt_text(self.props.device_name)
    }

    open spec fn template_choice(&self, state: &State, names: Names) -> Seq<NameTemplate> {
        chosen_templates(names.overrides@, OverrideType::Device, self, state, names.device@)
    }

    fn fallback(&self) -> (name: Option<&String>) {
        match &self.props.device_name {
            Some(s) => Some(s),
            None => None,
        }
    }

    fn templates<'a>(&self, state: &State, names: &'a Names) -> (t: &'a Vec<NameTemplate>) {
        let found = self.name_override(state, names.overrides.as_slice(), OverrideType::Device);
        proof {
            lemma_override_choice(self, state, names.overrides@, OverrideType::Device, found, names.device@);
        }
        match found {
            Some(t) => t,
            None => &names.device,
        }
    }
}

// ---------------------------------------------------------------------------
// Resolving a name

/// What an object's tags stand for.
pub open spec fn tag_lookup<T: PropertyResolver>(r: &T, state: &State) -> spec_fn(Tag) -> Option<Seq<char>> {
    |t: Tag| r.tag_value(state, t)
}

pub open spec fn template_views(ts: Seq<NameTemplate>) -> Seq<Seq<PartView>> {
    ts.map_values(|t: NameTemplate| t@)
}

/// The rendering of the first template that renders, else the fallback.
pub open spec fn first_rendered(
    ts: Seq<Seq<PartView>>,
    lookup: spec_fn(Tag) -> Option<Seq<char>>,
    fallback: Option<Seq<char>>,
) -> Option<Seq<char>>
    decreases ts.len(),
{
    if ts.len() == 0 {
        fallback
    } else {
        match render_spec(ts[0], lookup) {
            Some(s) => Some(s),
            None => first_rendered(ts.skip(1), lookup, fallback),
        }
    }
}

/// The name of an object under `names`: that of the first of its templates
/// that renders, else its fallback name.
pub open spec fn resolved_name<T: NameResolver>(names: Names, state: &State, r: &T) -> Option<Seq<char>> {
    first_rendered(
        template_views(r.template_choice(state, names)),
        tag_lookup(r, state),
        r.fallback_name(),
    )
}

fn node_template(t: NodeTag) -> (p: Part)
    ensures
        p@ == PartView::Tag(Tag::Node(t)),
{
    Part::Tag(Tag::Node(t))
}

fn device_template(t: DeviceTag) -> (template: NameTemplate)
    ensures
        template@ == seq![PartView::Tag(Tag::Device(t))],
{
    let mut parts: Vec<Part> = Vec::new();
    parts.push(Part::Tag(Tag::Device(t)));
    let template = NameTemplate { parts };
    assert(template@ =~= seq![PartView::Tag(Tag::Device(t))]);
    template
}

/// The parts of `{node:node.name}: {node:media.name}`.
pub open spec fn default_stream_views() -> Seq<Seq<PartView>> {
    seq![
        seq![
            PartView::Tag(Tag::Node(NodeTag::NodeName)),
            PartView::Literal(": "@),
            PartView::Tag(Tag::Node(NodeTag::MediaName)),
        ],
    ]
}

/// The parts of `{device:device.nick}` and `{node:node.description}`.
pub open spec fn default_endpoint_views() -> Seq<Seq<PartView>> {
    seq![
        seq![PartView::Tag(Tag::Device(DeviceTag::DeviceNick))],
        seq![PartView::Tag(Tag::Node(NodeTag::NodeDescription))],
    ]
}

/// The parts of `{device:device.nick}` and `{device:device.description}`.
pub open spec fn default_device_views() -> Seq<Seq<PartView>> {
    seq![
        seq![PartView::Tag(Tag::Device(DeviceTag::DeviceNick))],
        seq![PartView::Tag(Tag::Device(DeviceTag::DeviceDescription))],
    ]
}

impl Names {
    /// `{node:node.name}: {node:media.name}`
    pub fn default_stream() -> (templates: Vec<NameTemplate>)
        ensures
            template_views(templates@) == default_stream_views(),
    {
        let mut parts: Vec<Part> = Vec::new();
        parts.push(node_template(NodeTag::NodeName));
        parts.push(Part::Literal(String::from_str(": ")));
        parts.push(node_template(NodeTag::MediaName));
        let template = NameTemplate { parts };
        let mut templates: Vec<NameTemplate> = Vec::new();
        templates.push(template);
        assert(template_views(templates@) =~= seq![templates@[0]@]);
        assert(templates@[0]@ =~= seq![
            PartView::Tag(Tag::Node(NodeTag::NodeName)),
            PartView::Literal(": "@),
            PartView::Tag(Tag::Node(NodeTag::MediaName)),
        ]);
        templates
    }

    /// `{device:device.nick}`, then `{node:node.description}`.
    pub fn default_endpoint() -> (templates: Vec<NameTemplate>)
        ensures
            template_views(templates@) == default_endpoint_views(),
    {
        let mut templates: Vec<NameTemplate> = Vec::new();
        templates.push(device_template(DeviceTag::DeviceNick));
        let mut parts: Vec<Part> = Vec::new();
        parts.push(node_template(NodeTag::NodeDescription));
        let template = NameTemplate { parts };
        assert(template@ =~= seq![PartView::Tag(Tag::Node(NodeTag::NodeDescription))]);
        templates.push(template);
        assert(template_views(templates@) =~= seq![templates@[0]@, templates@[1]@]);
        templates
    }

    /// `{device:device.nick}`, then `{device:device.description}`.
    pub fn default_device() -> (templates: Vec<NameTemplate>)
        ensures
            template_views(templates@) == default_device_views(),
    {
        let mut templates: Vec<NameTemplate> = Vec::new();
        templates.push(device_template(DeviceTag::DeviceNick));
        templates.push(device_template(DeviceTag::DeviceDescription));
        assert(template_views(templates@) =~= seq![templates@[0]@, templates@[1]@]);
        templates
    }

    /// The name of an object: that of the first of its templates (those of
    /// the first override that applies to it, else those of its kind) that
    /// renders, else its fallback name.
    pub fn resolve<T: NameResolver>(&self, state: &State, resolver: &T) -> (name: Option<String>)
        ensures
            opt_view(name) == resolved_name(*self, state, resolver),
    {
        let templates = resolver.templates(state, self);
        let ghost ts = template_views(templates@);
        let ghost g = tag_lookup(resolver, state);
        let ghost fb = resolver.fallback_name();
        let lookup = |key: Tag| -> (value: Option<String>)
            ensures
                opt_view(value) == resolver.tag_value(state, key),
            { resolver.resolve_key(state, key) };
        assert(ts.skip(0) =~= ts);
        let mut i: usize = 0;
        while i < templates.len()
            invariant
                i <= templates@.len(),
                ts == template_views(templates@),
                templates@ == resolver.template_choice(state, *self),
                g == tag_lookup(resolver, state),
                fb == resolver.fallback_name(),
                first_rendered(ts.skip(i as int), g, fb) == first_rendered(ts, g, fb),
                forall|t: Tag, r: Option<String>| call_ensures(lookup, (t,), r) ==> opt_view(r) == g(t),
                forall|t: Tag| lookup.requires((t,)),
            decreases templates.len() - i,
        {
            let rendered = templates[i].render(lookup);
            proof {
                lemma_render_determined(templates@[i as int]@, lookup, g, opt_view(rendered));
                assert(ts.skip(i as int)[0] == templates@[i as int]@);
                assert(ts.skip(i as int).len() > 0);
                assert(ts.skip(i as int).skip(1) =~= ts.skip(i + 1));
            }
            if rendered.is_some() {
                return rendered;
            }
            i += 1;
        }
        assert(ts.skip(i as int).len() == 0);
        match resolver.fallback() {
            Some(s) => Some(s.clone()),
            None => None,
        }
    }
}

impl Default for Names {
    fn default() -> (names: Names)
        ensures
            template_views(names.stream@) == default_stream_views(),
            template_views(names.endpoint@) == default_endpoint_views(),
            template_views(names.device@) == default_device_views(),
            names.overrides@.len() == 0,
    {
        Names {
            stream: Names::default_stream(),
            endpoint: Names::default_endpoint(),
            device: Names::default_device(),
            overrides: Vec::new(),
        }
    }
}

// ---------------------------------------------------------------------------
// Laws of naming

/// The name comes from the first template that renders: when template `k`
/// renders to `s` and none before it renders, the name is `s`.
pub proof fn lemma_first_rendering_wins(
    ts: Seq<Seq<PartView>>,
    lookup: spec_fn(Tag) -> Option<Seq<char>>,
    fallback: Option<Seq<char>>,
    k: int,
)
    requires
        0 <= k < ts.len(),
        render_spec(ts[k], lookup) is Some,
        forall|j: int| 0 <= j < k ==> render_spec(#[trigger] ts[j], lookup) is None,
    ensures
        first_rendered(ts, lookup, fallback) == render_spec(ts[k], lookup),
    decreases k,
{
    if k > 0 {
        assert forall|j: int| 0 <= j < k - 1 implies render_spec(#[trigger] ts.skip(1)[j], lookup) is None by {
            assert(ts.skip(1)[j] == ts[j + 1]);
        }
        lemma_first_rendering_wins(ts.skip(1), lookup, fallback, k - 1);
        assert(render_spec(ts[0], lookup) is None);
    }
}

/// When no template renders, the name is the fallback.
pub proof fn lemma_fallback_when_none_renders(
    ts: Seq<Seq<PartView>>,
    lookup: spec_fn(Tag) -> Option<Seq<char>>,
    fallback: Option<Seq<char>>,
)
    requires
        forall|j: int| 0 <= j < ts.len() ==> render_spec(#[trigger] ts[j], lookup) is None,
    ensures
        first_rendered(ts, lookup, fallback) == fallback,
    decreases ts.len(),
{
    if ts.len() > 0 {
        assert forall|j: int| 0 <= j < ts.len() - 1 implies render_spec(#[trigger] ts.skip(1)[j], lookup) is None by {
            assert(ts.skip(1)[j] == ts[j + 1]);
        }
        lemma_fallback_when_none_renders(ts.skip(1), lookup, fallback);
        assert(render_spec(ts[0], lookup) is None);
    }
}

/// Overrides come first: a node that the override at `i` is the first to
/// apply to is named from that override's templates, whatever the templates
/// of its kind are.
pub proof fn lemma_node_override_precedes(names: Names, state: &State, node: &Node, i: int)
    requires
        is_first_override(
            names.overrides@,
            if is_endpoint(*node) { OverrideType::Endpoint } else { OverrideType::Stream },
            node,
            state,
            i,
        ),
    ensures
        resolved_name(names, state, node) == first_rendered(
            template_views(names.overrides@[i].templates@),
            tag_lookup(node, state),
            opt_text(node.props.node_name),
        ),
{
    let ty = if is_endpoint(*node) { OverrideType::Endpoint } else { OverrideType::Stream };
    let default = if is_endpoint(*node) { names.endpoint@ } else { names.stream@ };
    lemma_chosen_first(names.overrides@, ty, node, state, default, i);
}

/// A device that the override at `i` is the first to apply to is named from
/// that override's templates.
pub proof fn lemma_device_override_precedes(names: Names, state: &State, device: &Device, i: int)
    requires
        is_first_override(names.overrides@, OverrideType::Device, device, state, i),
    ensures
        resolved_name(names, state, device) == first_rendered(
            template_views(names.overrides@[i].templates@),
            tag_lookup(device, state),
            opt_text(device.props.device_name),
        ),
{
    lemma_chosen_first(names.overrides@, OverrideType::Device, device, state, names.device@, i);
}

/// Without an override that applies, a node is named from the templates of
/// its kind: the endpoint templates for sinks and sources, else the stream
/// templates.
pub proof fn lemma_node_default_templates(names: Names, state: &State, node: &Node)
    requires
        forall|j: int|
            0 <= j < names.overrides@.len() ==> !override_applies(
                #[trigger] names.overrides@[j],
                if is_endpoint(*node) { OverrideType::Endpoint } else { OverrideType::Stream },
                node,
                state,
            ),
    ensures
        resolved_name(names, state, node) == first_rendered(
            template_views(if is_endpoint(*node) { names.endpoint@ } else { names.stream@ }),
            tag_lookup(node, state),
            opt_text(node.props.node_name),
        ),
{
    let ty = if is_endpoint(*node) { OverrideType::Endpoint } else { OverrideType::Stream };
    assert(!exists|i: int| is_first_override(names.overrides@, ty, node, state, i));
}

} // verus!
