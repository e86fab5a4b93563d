use wiremix::capture_manager::CaptureManager;
use wiremix::config::matching::{MatchCondition, MatchValue};
use wiremix::config::name_template::NameTemplate;
use wiremix::config::property_key::PropertyKey;
use wiremix::config::{NameOverride, Names, OverrideType};
use wiremix::object::ObjectId;
use wiremix::property_store::PropertyStore;
use wiremix::state::{MonitorEvent, State};

#[test]
fn default_stream() {
    // Just make sure this doesn't panic.
    let _ = Names::default_stream();
}

#[test]
fn default_endpoint() {
    // Just make sure this doesn't panic.
    let _ = Names::default_endpoint();
}

#[test]
fn default_device() {
    // Just make sure this doesn't panic.
    let _ = Names::default_device();
}

#[test]
fn default_templates_are_their_texts() {
    let stream: NameTemplate = "{node:node.name}: {node:media.name}".parse().unwrap();
    assert_eq!(Names::default_stream(), vec![stream]);
    let endpoint: Vec<NameTemplate> = vec![
        "{device:device.nick}".parse().unwrap(),
        "{node:node.description}".parse().unwrap(),
    ];
    assert_eq!(Names::default_endpoint(), endpoint);
    let device: Vec<NameTemplate> = vec![
        "{device:device.nick}".parse().unwrap(),
        "{device:device.description}".parse().unwrap(),
    ];
    assert_eq!(Names::default_device(), device);
}

struct Fixture {
    state: State,
    capture_manager: CaptureManager,
    device_id: ObjectId,
    node_id: ObjectId,
    client_id: ObjectId,
    node_props: PropertyStore,
}

impl Fixture {
    fn new() -> Self {
        let mut state = State::default();
        let mut capture_manager = CaptureManager::default();

        let device_id = ObjectId::from_raw_id(0);
        let node_id = ObjectId::from_raw_id(1);
        let client_id = ObjectId::from_raw_id(2);

        let mut device_props = PropertyStore::default();
        device_props.set_device_name(String::from("Device name"));
        device_props.set_device_nick(String::from("Device nick"));

        let mut node_props = PropertyStore::default();
        node_props.set_node_name(String::from("Node name"));
        node_props.set_node_nick(String::from("Node nick"));

        let mut client_props = PropertyStore::default();
        client_props.set_application_name(String::from("Client name"));

        let events = vec![
            MonitorEvent::DeviceProperties(device_id, device_props.duplicate()),
            MonitorEvent::NodeProperties(node_id, node_props.duplicate()),
            MonitorEvent::ClientProperties(client_id, client_props.duplicate()),
        ];

        for event in events {
            state.update(&mut capture_manager, event);
        }

        Self {
            state,
            capture_manager,
            device_id,
            node_id,
            client_id,
            node_props,
        }
    }

    fn update_node(&mut self) {
        let props = self.node_props.duplicate();
        self.state
            .update(&mut self.capture_manager, MonitorEvent::NodeProperties(self.node_id, props));
    }
}

#[test]
fn render_endpoint() {
    let mut fixture = Fixture::new();
    fixture.node_props.set_media_class(String::from("Audio/Sink"));
    fixture.update_node();

    let names = Names {
        endpoint: vec!["{node:node.nick}".parse().unwrap()],
        ..Default::default()
    };

    let node = fixture.state.nodes.get(&fixture.node_id.0).unwrap();
    let result = names.resolve(&fixture.state, node);
    assert_eq!(result, Some(String::from("Node nick")))
}

#[test]
fn render_endpoint_missing_key() {
    let mut fixture = Fixture::new();
    fixture.node_props.set_media_class(String::from("Audio/Sink"));
    fixture.update_node();

    let names = Names {
        endpoint: vec!["{node:node.description}".parse().unwrap()],
        ..Default::default()
    };

    let node = fixture.state.nodes.get(&fixture.node_id.0).unwrap();
    let result = names.resolve(&fixture.state, node);
    // Should fall back to node name
    assert_eq!(result, Some(String::from("Node name")))
}

#[test]
fn render_device_missing_key() {
    let fixture = Fixture::new();

    let names = Names {
        device: vec!["{device:device.description}".parse().unwrap()],
        ..Default::default()
    };

    let device = fixture.state.devices.get(&fixture.device_id.0).unwrap();
    let result = names.resolve(&fixture.state, device);
    // Should fall back to device name
    assert_eq!(result, Some(String::from("Device name")))
}

#[test]
fn render_endpoint_linked_device() {
    let mut fixture = Fixture::new();
    fixture.node_props.set_media_class(String::from("Audio/Sink"));
    fixture.node_props.set_device_id(fixture.device_id);
    fixture.update_node();

    let names = Names {
        endpoint: vec!["{device:device.nick}".parse().unwrap()],
        ..Default::default()
    };

    let node = fixture.state.nodes.get(&fixture.node_id.0).unwrap();
    let result = names.resolve(&fixture.state, node);
    assert_eq!(result, Some(String::from("Device nick")))
}

#[test]
fn render_endpoint_linked_device_missing_key() {
    let mut fixture = Fixture::new();
    fixture.node_props.set_media_class(String::from("Audio/Sink"));
    fixture.node_props.set_device_id(fixture.device_id);
    fixture.update_node();

    let names = Names {
        endpoint: vec!["{device:device.description}".parse().unwrap()],
        ..Default::default()
    };

    let node = fixture.state.nodes.get(&fixture.node_id.0).unwrap();
    let result = names.resolve(&fixture.state, node);
    // Should fall back to node name
    assert_eq!(result, Some(String::from("Node name")))
}

#[test]
fn render_endpoint_no_linked_device() {
    let mut fixture = Fixture::new();
    fixture.node_props.set_media_class(String::from("Audio/Sink"));
    fixture.update_node();

    let names = Names {
        endpoint: vec!["{device:device.nick}".parse().unwrap()],
        ..Default::default()
    };

    let node = fixture.state.nodes.get(&fixture.node_id.0).unwrap();
    let result = names.resolve(&fixture.state, node);
    // Should fall back to node name
    assert_eq!(result, Some(String::from("Node name")))
}

#[test]
fn render_stream() {
    let fixture = Fixture::new();

    let names = Names {
        stream: vec!["{node:node.nick}".parse().unwrap()],
        ..Default::default()
    };

    let node = fixture.state.nodes.get(&fixture.node_id.0).unwrap();
    let result = names.resolve(&fixture.state, node);
    assert_eq!(result, Some(String::from("Node nick")))
}

#[test]
fn render_stream_linked_client() {
    let mut fixture = Fixture::new();
    fixture.node_props.set_client_id(fixture.client_id);
    fixture.update_node();

    let names = Names {
        stream: vec!["{client:application.name}".parse().unwrap()],
        ..Default::default()
    };

    let node = fixture.state.nodes.get(&fixture.node_id.0).unwrap();
    let result = names.resolve(&fixture.state, node);
    assert_eq!(result, Some(String::from("Client name")))
}

#[test]
fn render_precedence() {
    let fixture = Fixture::new();

    let names = Names {
        stream: vec![
            "{node:node.description}".parse().unwrap(),
            "{node:node.nick}".parse().unwrap(),
        ],
        ..Default::default()
    };

    let node = fixture.state.nodes.get(&fixture.node_id.0).unwrap();
    let result = names.resolve(&fixture.state, node);
    assert_eq!(result, Some(String::from("Node nick")))
}

fn node_name_condition(key: &str, value: &str) -> MatchCondition {
    MatchCondition(vec![(
        PropertyKey::Node(String::from(key)),
        MatchValue::Literal(String::from(value)),
    )])
}

#[test]
fn render_override_match() {
    let fixture = Fixture::new();

    let names = Names {
        overrides: vec![NameOverride {
            types: vec![OverrideType::Device, OverrideType::Stream],
            matches: vec![node_name_condition("node.name", "Node name")],
            templates: vec![
                "{node:node.description}".parse().unwrap(),
                "{node:node.nick}".parse().unwrap(),
            ],
        }],
        ..Default::default()
    };

    let node = fixture.state.nodes.get(&fixture.node_id.0).unwrap();
    let result = names.resolve(&fixture.state, node);
    assert_eq!(result, Some(String::from("Node nick")))
}

#[test]
fn render_override_type_mismatch() {
    let fixture = Fixture::new();

    let names = Names {
        overrides: vec![NameOverride {
            types: vec![OverrideType::Device],
            matches: vec![node_name_condition("node.name", "Node name")],
            templates: vec!["{node:node.nick}".parse().unwrap()],
        }],
        ..Default::default()
    };

    let node = fixture.state.nodes.get(&fixture.node_id.0).unwrap();
    let result = names.resolve(&fixture.state, node);
    assert_eq!(result, Some(String::from("Node name")))
}

#[test]
fn render_override_value_mismatch() {
    let fixture = Fixture::new();

    let names = Names {
        overrides: vec![NameOverride {
            types: vec![OverrideType::Device],
            matches: vec![node_name_condition("node.description", "Node name")],
            templates: vec!["{node:node.nick}".parse().unwrap()],
        }],
        ..Default::default()
    };

    let node = fixture.state.nodes.get(&fixture.node_id.0).unwrap();
    let result = names.resolve(&fixture.state, node);
    assert_eq!(result, Some(String::from("Node name")))
}

#[test]
fn render_override_empty_templates() {
    let fixture = Fixture::new();

    let names = Names {
        overrides: vec![NameOverride {
            types: vec![OverrideType::Device, OverrideType::Stream],
            matches: vec![node_name_condition("node.name", "Node name")],
            templates: vec![],
        }],
        ..Default::default()
    };

    let node = fixture.state.nodes.get(&fixture.node_id.0).unwrap();
    let result = names.resolve(&fixture.state, node);
    assert_eq!(result, Some(String::from("Node name")))
}

#[test]
fn override_for_endpoint_precedes_endpoint_templates() {
    let mut fixture = Fixture::new();
    fixture.node_props.set_media_class(String::from("Audio/Source"));
    fixture.update_node();

    let names = Names {
        endpoint: vec!["{node:node.name}".parse().unwrap()],
        overrides: vec![NameOverride {
            types: vec![OverrideType::Endpoint],
            matches: vec![node_name_condition("node.name", "Node name")],
            templates: vec!["[{node:node.nick}]".parse().unwrap()],
        }],
        ..Default::default()
    };

    let node = fixture.state.nodes.get(&fixture.node_id.0).unwrap();
    assert_eq!(names.resolve(&fixture.state, node), Some(String::from("[Node nick]")));
}

#[test]
fn device_resolves_only_device_tags() {
    let fixture = Fixture::new();

    let names = Names {
        device: vec![
            "{node:node.name}".parse().unwrap(),
            "{device:device.nick}!".parse().unwrap(),
        ],
        ..Default::default()
    };

    let device = fixture.state.devices.get(&fixture.device_id.0).unwrap();
    assert_eq!(names.resolve(&fixture.state, device), Some(String::from("Device nick!")));
}

#[test]
fn nothing_to_fall_back_on() {
    let mut state = State::default();
    let mut capture_manager = CaptureManager::default();
    let id = ObjectId::from_raw_id(5);
    state.update(&mut capture_manager, MonitorEvent::NodeProperties(id, PropertyStore::default()));
    let names = Names::default();
    let node = state.nodes.get(&5).unwrap();
    assert_eq!(names.resolve(&state, node), None);
}
