use std::collections::HashSet;

use wiremix::capture_manager::CaptureManager;
use wiremix::config::Names;
use wiremix::object::ObjectId;
use wiremix::object_list::{ObjectList, OBJECT_ROWS};
use wiremix::property_store::PropertyStore;
use wiremix::state::{MonitorEvent, State};
use wiremix::view::{ListKind, NodeKind, View};

fn init() -> State {
    let mut state = State::default();
    let mut capture_manager = CaptureManager::default();

    for i in 1..11 {
        let object_id = ObjectId::from_raw_id(i);
        let mut props = PropertyStore::default();
        props.set_node_description(String::from("Test node"));
        props.set_media_class(String::from("Stream/Output/Audio"));
        props.set_media_name(String::from("Media name"));
        props.set_node_name(String::from("Node name"));
        props.set_object_serial(i as u64);

        let events = vec![
            MonitorEvent::NodeProperties(object_id, props),
            MonitorEvent::NodePositions(object_id, vec![0, 1]),
            MonitorEvent::NodeRate(object_id, 44100),
            MonitorEvent::NodePeaks(object_id, vec![0, 0]),
            MonitorEvent::NodeVolumes(object_id, vec![0, 0]),
            MonitorEvent::NodeMute(object_id, false),
        ];
        for event in events {
            state.update(&mut capture_manager, event);
        }
    }

    state
}

#[test]
fn object_list_up_overflow() {
    let state = init();
    let view = View::from(&state, &Names::default());

    // The list area of three objects, without header and footer.
    let list_height = OBJECT_ROWS * 3;
    let mut object_list = ObjectList::new(ListKind::Node(NodeKind::All), None);
    // Select first object
    object_list.down(&view);
    assert_eq!(object_list.top, 0);
    assert_eq!(object_list.selected, Some(ObjectId::from_raw_id(1)));

    object_list.up(&view);
    object_list.update(list_height, &view);
    assert_eq!(object_list.top, 0);
    assert_eq!(object_list.selected, Some(ObjectId::from_raw_id(1)));
}

#[test]
fn object_list_down_overflow() {
    let state = init();
    let view = View::from(&state, &Names::default());

    let list_height = OBJECT_ROWS * 3;
    let mut object_list = ObjectList::new(ListKind::Node(NodeKind::All), None);
    // Select first object
    object_list.down(&view);
    assert_eq!(object_list.top, 0);
    assert_eq!(object_list.selected, Some(ObjectId::from_raw_id(1)));

    let nodes_len = view.nodes.len();

    for _ in 0..(nodes_len * 2) {
        object_list.down(&view);
    }

    object_list.update(list_height, &view);
    assert_eq!(object_list.top, 7);
    assert_eq!(object_list.selected, Some(ObjectId::from_raw_id(10)));
}

#[test]
fn object_list_update_selects_first() {
    let state = init();
    let view = View::from(&state, &Names::default());
    let mut object_list = ObjectList::new(ListKind::Node(NodeKind::Playback), None);
    object_list.update(OBJECT_ROWS * 2, &view);
    assert_eq!(object_list.selected, Some(ObjectId::from_raw_id(1)));
    assert_eq!(object_list.top, 0);
    // A selection that left the list is replaced by the first object.
    object_list.selected = Some(ObjectId::from_raw_id(99));
    object_list.top = 20;
    object_list.update(OBJECT_ROWS * 2, &view);
    assert_eq!(object_list.selected, Some(ObjectId::from_raw_id(1)));
    assert_eq!(object_list.top, 0);
}

#[test]
fn object_list_dropdown_moves_within() {
    let state = init();
    let view = View::from(&state, &Names::default());
    let mut object_list = ObjectList::new(ListKind::Node(NodeKind::Playback), None);
    object_list.down(&view);
    object_list.dropdown_selected = Some(0);
    object_list.up(&view);
    assert_eq!(object_list.dropdown_selected, Some(0));
    object_list.down(&view);
    assert_eq!(object_list.dropdown_selected, Some(1));
    assert_eq!(object_list.selected, Some(ObjectId::from_raw_id(1)));
    object_list.dropdown_close();
    assert_eq!(object_list.dropdown_selected, None);
}

#[test]
fn object_list_down_then_up_returns() {
    let state = init();
    let view = View::from(&state, &Names::default());
    let mut object_list = ObjectList::new(ListKind::Node(NodeKind::All), None);
    object_list.down(&view);
    object_list.down(&view);
    object_list.down(&view);
    assert_eq!(object_list.selected, Some(ObjectId::from_raw_id(3)));
    object_list.down(&view);
    assert_eq!(object_list.selected, Some(ObjectId::from_raw_id(4)));
    object_list.up(&view);
    assert_eq!(object_list.selected, Some(ObjectId::from_raw_id(3)));
    object_list.up(&view);
    object_list.down(&view);
    assert_eq!(object_list.selected, Some(ObjectId::from_raw_id(3)));
}

#[test]
fn object_list_more_indicators() {
    let state = init();
    let view = View::from(&state, &Names::default());
    let mut object_list = ObjectList::new(ListKind::Node(NodeKind::All), None);
    assert!(!object_list.more_above());
    assert!(object_list.more_below(OBJECT_ROWS * 3, &view));
    object_list.top = 7;
    assert!(object_list.more_above());
    assert!(!object_list.more_below(OBJECT_ROWS * 3, &view));
    object_list.top = 6;
    assert!(object_list.more_below(OBJECT_ROWS * 3, &view));
    // Three rows left over show the last object whole.
    assert!(!object_list.more_below(OBJECT_ROWS * 3 + 3, &view));
    assert!(object_list.more_below(OBJECT_ROWS * 3 + 2, &view));
}

fn visible_set(object_list: &ObjectList, list_height: u16, view: &View) -> HashSet<ObjectId> {
    object_list.visible_objects(list_height, view).into_iter().collect()
}

/// A minimal node with the given media class.
fn create_node(
    state: &mut State,
    capture_manager: &mut CaptureManager,
    object_id: ObjectId,
    media_class: &str,
    node_name: &str,
) {
    let mut props = PropertyStore::default();
    props.set_node_description(String::from("Test node"));
    props.set_media_class(String::from(media_class));
    props.set_media_name(String::from("Media name"));
    props.set_node_name(String::from(node_name));
    props.set_object_serial(object_id.as_raw() as u64);
    state.update(capture_manager, MonitorEvent::NodeProperties(object_id, props));
    state.update(capture_manager, MonitorEvent::NodeVolumes(object_id, vec![1.0f32.to_bits(); 2]));
    state.update(capture_manager, MonitorEvent::NodeMute(object_id, false));
}

/// A device with a profile and a route for card device 0.
fn create_device(state: &mut State, capture_manager: &mut CaptureManager, device_id: ObjectId) {
    state.update(capture_manager, MonitorEvent::DeviceProperties(device_id, PropertyStore::default()));
    state.update(capture_manager, MonitorEvent::DeviceProfile(device_id, 1));
    state.update(
        capture_manager,
        MonitorEvent::DeviceRoute(device_id, 0, 0, vec![1], String::new(), true, vec![1.0f32.to_bits()], false),
    );
}

/// A default metadata object whose `key` for `subject` is `value`.
fn set_metadata(state: &mut State, capture_manager: &mut CaptureManager, subject: u32, key: &str, value: &str) {
    let metadata_id = ObjectId::from_raw_id(300);
    state.update(capture_manager, MonitorEvent::MetadataMetadataName(metadata_id, String::from("default")));
    state.update(
        capture_manager,
        MonitorEvent::MetadataProperty(metadata_id, subject, Some(String::from(key)), Some(String::from(value))),
    );
}

#[test]
fn visible_objects_changes_with_scroll() {
    let state = init();
    let view = View::from(&state, &Names::default());
    let list_height = OBJECT_ROWS * 3;
    let mut object_list = ObjectList::new(ListKind::Node(NodeKind::All), None);

    // Start at top
    let visible = visible_set(&object_list, list_height, &view);
    assert_eq!(visible.len(), 4);
    assert!(visible.contains(&ObjectId::from_raw_id(0)));
    assert!(visible.contains(&ObjectId::from_raw_id(1)));
    assert!(visible.contains(&ObjectId::from_raw_id(2)));
    assert!(visible.contains(&ObjectId::from_raw_id(3)));

    // Scroll down
    object_list.top = 5;
    let visible = visible_set(&object_list, list_height, &view);
    assert_eq!(visible.len(), 4);
    assert!(visible.contains(&ObjectId::from_raw_id(0)));
    assert!(visible.contains(&ObjectId::from_raw_id(6)));
    assert!(visible.contains(&ObjectId::from_raw_id(7)));
    assert!(visible.contains(&ObjectId::from_raw_id(8)));

    // Scroll up
    object_list.top = 4;
    let visible = visible_set(&object_list, list_height, &view);
    assert_eq!(visible.len(), 4);
    assert!(visible.contains(&ObjectId::from_raw_id(0)));
    assert!(visible.contains(&ObjectId::from_raw_id(5)));
    assert!(visible.contains(&ObjectId::from_raw_id(6)));
    assert!(visible.contains(&ObjectId::from_raw_id(7)));
}

#[test]
fn visible_objects_includes_linked_clients() {
    let mut state = init();
    let mut capture_manager = CaptureManager::default();
    let mut props = state.nodes.get(&1).unwrap().props.duplicate();
    props.set_client_id(ObjectId::from_raw_id(101));
    state.update(&mut capture_manager, MonitorEvent::NodeProperties(ObjectId::from_raw_id(1), props));

    let view = View::from(&state, &Names::default());
    let object_list = ObjectList::new(ListKind::Node(NodeKind::All), None);
    let visible = visible_set(&object_list, OBJECT_ROWS, &view);
    assert_eq!(visible.len(), 3);
    assert!(visible.contains(&ObjectId::from_raw_id(0)));
    assert!(visible.contains(&ObjectId::from_raw_id(1)));
    assert!(visible.contains(&ObjectId::from_raw_id(101)));
}

#[test]
fn visible_objects_includes_linked_devices() {
    let mut state = init();
    let mut capture_manager = CaptureManager::default();
    let mut props = state.nodes.get(&1).unwrap().props.duplicate();
    props.set_device_id(ObjectId::from_raw_id(101));
    props.set_card_profile_device(0);
    state.update(&mut capture_manager, MonitorEvent::NodeProperties(ObjectId::from_raw_id(1), props));
    create_device(&mut state, &mut capture_manager, ObjectId::from_raw_id(101));

    let view = View::from(&state, &Names::default());
    let object_list = ObjectList::new(ListKind::Node(NodeKind::All), None);
    let visible = visible_set(&object_list, OBJECT_ROWS, &view);
    assert_eq!(visible.len(), 3);
    assert!(visible.contains(&ObjectId::from_raw_id(0)));
    assert!(visible.contains(&ObjectId::from_raw_id(1)));
    assert!(visible.contains(&ObjectId::from_raw_id(101)));
}

#[test]
fn visible_objects_includes_target() {
    let mut state = State::default();
    let mut capture_manager = CaptureManager::default();
    let stream_id = ObjectId::from_raw_id(0);
    create_node(&mut state, &mut capture_manager, stream_id, "Stream/Output/Audio", "stream");
    let sink_id = ObjectId::from_raw_id(100);
    create_node(&mut state, &mut capture_manager, sink_id, "Audio/Sink", "sink");
    state.update(&mut capture_manager, MonitorEvent::Link(ObjectId::from_raw_id(200), stream_id, sink_id));
    set_metadata(&mut state, &mut capture_manager, stream_id.as_raw(), "target.node", "100");

    let view = View::from(&state, &Names::default());
    let object_list = ObjectList::new(ListKind::Node(NodeKind::Playback), None);
    let visible = visible_set(&object_list, OBJECT_ROWS, &view);
    assert!(visible.contains(&stream_id));
    assert!(visible.contains(&sink_id));
}

#[test]
fn visible_objects_includes_target_client() {
    let mut state = State::default();
    let mut capture_manager = CaptureManager::default();
    let stream_id = ObjectId::from_raw_id(0);
    create_node(&mut state, &mut capture_manager, stream_id, "Stream/Output/Audio", "stream");
    let sink_id = ObjectId::from_raw_id(100);
    let sink_client_id = ObjectId::from_raw_id(101);
    let mut props = PropertyStore::default();
    props.set_node_description(String::from("Test sink"));
    props.set_media_class(String::from("Audio/Sink"));
    props.set_media_name(String::from("Media name"));
    props.set_node_name(String::from("sink"));
    props.set_object_serial(100);
    props.set_client_id(sink_client_id);
    state.update(&mut capture_manager, MonitorEvent::NodeProperties(sink_id, props));
    state.update(&mut capture_manager, MonitorEvent::NodeVolumes(sink_id, vec![1.0f32.to_bits(); 2]));
    state.update(&mut capture_manager, MonitorEvent::NodeMute(sink_id, false));
    state.update(&mut capture_manager, MonitorEvent::Link(ObjectId::from_raw_id(200), stream_id, sink_id));
    set_metadata(&mut state, &mut capture_manager, stream_id.as_raw(), "target.node", "100");

    let view = View::from(&state, &Names::default());
    let object_list = ObjectList::new(ListKind::Node(NodeKind::Playback), None);
    let visible = visible_set(&object_list, OBJECT_ROWS, &view);
    assert!(visible.contains(&stream_id));
    assert!(visible.contains(&sink_id));
    assert!(visible.contains(&sink_client_id));
}

#[test]
fn visible_objects_includes_target_device() {
    let mut state = State::default();
    let mut capture_manager = CaptureManager::default();
    let stream_id = ObjectId::from_raw_id(0);
    create_node(&mut state, &mut capture_manager, stream_id, "Stream/Output/Audio", "stream");
    let sink_id = ObjectId::from_raw_id(100);
    let sink_device_id = ObjectId::from_raw_id(101);
    let mut props = PropertyStore::default();
    props.set_node_description(String::from("Test sink"));
    props.set_media_class(String::from("Audio/Sink"));
    props.set_media_name(String::from("Media name"));
    props.set_node_name(String::from("sink"));
    props.set_object_serial(100);
    props.set_device_id(sink_device_id);
    props.set_card_profile_device(0);
    state.update(&mut capture_manager, MonitorEvent::NodeProperties(sink_id, props));
    state.update(&mut capture_manager, MonitorEvent::NodeVolumes(sink_id, vec![1.0f32.to_bits(); 2]));
    state.update(&mut capture_manager, MonitorEvent::NodeMute(sink_id, false));
    create_device(&mut state, &mut capture_manager, sink_device_id);
    state.update(&mut capture_manager, MonitorEvent::Link(ObjectId::from_raw_id(200), stream_id, sink_id));
    set_metadata(&mut state, &mut capture_manager, stream_id.as_raw(), "target.node", "100");

    let view = View::from(&state, &Names::default());
    let object_list = ObjectList::new(ListKind::Node(NodeKind::Playback), None);
    let visible = visible_set(&object_list, OBJECT_ROWS, &view);
    assert!(visible.contains(&stream_id));
    assert!(visible.contains(&sink_id));
    assert!(visible.contains(&sink_device_id));
}

#[test]
fn visible_objects_includes_default_sink() {
    let mut state = State::default();
    let mut capture_manager = CaptureManager::default();
    let stream_id = ObjectId::from_raw_id(0);
    create_node(&mut state, &mut capture_manager, stream_id, "Stream/Output/Audio", "stream");
    let sink_id = ObjectId::from_raw_id(100);
    create_node(&mut state, &mut capture_manager, sink_id, "Audio/Sink", "default_sink");
    set_metadata(&mut state, &mut capture_manager, 0, "default.audio.sink", "{\"name\":\"default_sink\"}");

    let view = View::from(&state, &Names::default());
    assert!(view.default_sink.is_some());
    let object_list = ObjectList::new(ListKind::Node(NodeKind::Playback), None);
    let visible = visible_set(&object_list, OBJECT_ROWS, &view);
    assert!(visible.contains(&stream_id));
    assert!(visible.contains(&sink_id));
}

#[test]
fn visible_objects_includes_default_source() {
    let mut state = State::default();
    let mut capture_manager = CaptureManager::default();
    let stream_id = ObjectId::from_raw_id(0);
    create_node(&mut state, &mut capture_manager, stream_id, "Stream/Input/Audio", "stream");
    let source_id = ObjectId::from_raw_id(100);
    create_node(&mut state, &mut capture_manager, source_id, "Audio/Source", "default_source");
    set_metadata(&mut state, &mut capture_manager, 0, "default.audio.source", "{\"name\":\"default_source\"}");

    let view = View::from(&state, &Names::default());
    assert!(view.default_source.is_some());
    let object_list = ObjectList::new(ListKind::Node(NodeKind::Recording), None);
    let visible = visible_set(&object_list, OBJECT_ROWS, &view);
    assert!(visible.contains(&stream_id));
    assert!(visible.contains(&source_id));
}

#[test]
fn visible_objects_are_distinct() {
    let state = init();
    let view = View::from(&state, &Names::default());
    let object_list = ObjectList::new(ListKind::Node(NodeKind::All), None);
    let ids = object_list.visible_objects(OBJECT_ROWS * 3, &view);
    let set: HashSet<ObjectId> = ids.iter().copied().collect();
    assert_eq!(ids.len(), set.len());
    assert_eq!(ids[0], ObjectId::from_raw_id(0));
}
