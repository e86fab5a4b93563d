use wiremix::capture_manager::CaptureManager;
use wiremix::command::Command;
use wiremix::node_list::{NodeList, NODE_ROWS};
use wiremix::object::ObjectId;
use wiremix::property_store::PropertyStore;
use wiremix::state::{self, MonitorEvent, State};

fn init() -> State {
    let mut state = State::default();
    let mut capture_manager = CaptureManager::default();
    for i in 0..10 {
        let obj_id = ObjectId::from_raw_id(i);
        let mut props = PropertyStore::default();
        props.set_node_description(String::from("Test node"));
        state.update(&mut capture_manager, MonitorEvent::NodeProperties(obj_id, props));
    }
    state
}

#[test]
fn node_list_up_overflow() {
    let state = init();

    // The list area of three nodes, without header and footer.
    let list_height = NODE_ROWS * 3;
    let mut node_list = NodeList::new(|_node: &state::Node| true);

    node_list.up(&state);
    node_list.update(list_height, &state);
    assert_eq!(node_list.top, 0);
    assert_eq!(node_list.selected, Some(ObjectId::from_raw_id(0)));
}

#[test]
fn node_list_down_overflow() {
    let state = init();

    let list_height = NODE_ROWS * 3;
    let mut node_list = NodeList::new(|_node: &state::Node| true);

    let nodes_len = state.nodes.len();

    for _ in 0..(nodes_len * 2) {
        node_list.down(&state);
    }

    node_list.update(list_height, &state);
    assert_eq!(node_list.top, 7);
    assert_eq!(node_list.selected, Some(ObjectId::from_raw_id(9)));
}

#[test]
fn node_list_remove_last_nodes() {
    let mut state = init();

    let list_height = NODE_ROWS * 3;
    let mut node_list = NodeList::new(|_node: &state::Node| true);

    let nodes_len = state.nodes.len();

    // Move to end of list
    for _ in 0..(nodes_len * 2) {
        node_list.down(&state);
    }
    node_list.update(list_height, &state);
    assert_eq!(node_list.top, 7);
    assert_eq!(node_list.selected, Some(ObjectId::from_raw_id(9)));

    // Remove the visible nodes
    state.nodes.remove(&7);
    state.nodes.remove(&8);
    state.nodes.remove(&9);
    // Viewport is now below end of list

    node_list.update(list_height, &state);
    assert_eq!(node_list.top, 4);
    assert_eq!(node_list.selected, None);
}

#[test]
fn node_list_filter_keeps_some_nodes() {
    let state = init();
    let node_list = NodeList::new(|node: &state::Node| node.id.0 % 2 == 1);
    let ids: Vec<u32> = node_list.filtered_nodes(&state).iter().map(|n| n.id.0).collect();
    assert_eq!(ids, vec![1, 3, 5, 7, 9]);
}

#[test]
fn node_list_set_default() {
    let mut state = State::default();
    let mut capture_manager = CaptureManager::default();
    let mut props = PropertyStore::default();
    props.set_node_name(String::from("speakers"));
    props.set_media_class(String::from("Audio/Sink"));
    state.update(&mut capture_manager, MonitorEvent::NodeProperties(ObjectId::from_raw_id(4), props));
    state.update(
        &mut capture_manager,
        MonitorEvent::MetadataMetadataName(ObjectId::from_raw_id(9), String::from("default")),
    );
    let mut node_list = NodeList::new(|_node: &state::Node| true);
    assert!(node_list.set_default(&state).is_none());
    node_list.down(&state);
    match node_list.set_default(&state) {
        Some(Command::MetadataSetProperty(md, subject, key, ty, value)) => {
            assert_eq!(md, ObjectId::from_raw_id(9));
            assert_eq!(subject, 0);
            assert_eq!(key, "default.configured.audio.sink");
            assert_eq!(ty.as_deref(), Some("Spa:String:JSON"));
            assert_eq!(value.as_deref(), Some("{\"name\":\"speakers\"}"));
        }
        other => panic!("unexpected {:?}", other),
    }
}
