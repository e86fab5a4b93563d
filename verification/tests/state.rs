use wiremix::capture_manager::CaptureManager;
use wiremix::object::ObjectId;
use wiremix::property_store::PropertyStore;
use wiremix::state::{MonitorEvent, State};
use wiremix::str_map::StrMap;

#[test]
fn state_metadata_insert() {
    let mut state = State::default();
    let mut capture_manager = CaptureManager::default();
    let obj_id = ObjectId::from_raw_id(0);
    let metadata_name = String::from("metadata0");
    state.update(
        &mut capture_manager,
        MonitorEvent::MetadataMetadataName(obj_id, metadata_name.clone()),
    );

    let metadata = state.metadatas.get(&obj_id.0).unwrap();
    assert_eq!(metadata.metadata_name, Some(metadata_name.clone()));

    let metadata = state.get_metadata_by_name(&metadata_name).unwrap();
    assert_eq!(metadata.metadata_name, Some(metadata_name));
}

#[test]
fn state_metadata_remove() {
    let mut state = State::default();
    let mut capture_manager = CaptureManager::default();
    let obj_id = ObjectId::from_raw_id(0);
    let metadata_name = String::from("metadata0");
    state.update(
        &mut capture_manager,
        MonitorEvent::MetadataMetadataName(obj_id, metadata_name.clone()),
    );

    state.update(&mut capture_manager, MonitorEvent::Removed(obj_id));

    assert!(!state.metadatas.contains_key(&obj_id.0));
    assert!(!state.metadatas_by_name.contains_key(&metadata_name));
    assert!(state.get_metadata_by_name(&metadata_name).is_none());
}

fn get_metadata_properties<'a>(state: &'a State, obj_id: &ObjectId, subject: u32) -> &'a StrMap<String> {
    state
        .metadatas
        .get(&obj_id.0)
        .unwrap()
        .properties
        .get(&subject)
        .unwrap()
}

#[test]
fn state_metadata_clear_property() {
    let mut state = State::default();
    let mut capture_manager = CaptureManager::default();
    let obj_id = ObjectId::from_raw_id(0);
    let metadata_name = String::from("metadata0");
    state.update(
        &mut capture_manager,
        MonitorEvent::MetadataMetadataName(obj_id, metadata_name.clone()),
    );

    let key = String::from("key");
    let value = String::from("value");

    state.update(
        &mut capture_manager,
        MonitorEvent::MetadataProperty(obj_id, 0, Some(key.clone()), Some(value.clone())),
    );
    state.update(
        &mut capture_manager,
        MonitorEvent::MetadataProperty(obj_id, 1, Some(key.clone()), Some(value.clone())),
    );
    assert_eq!(get_metadata_properties(&state, &obj_id, 0).get(&key), Some(&value));
    assert_eq!(get_metadata_properties(&state, &obj_id, 1).get(&key), Some(&value));

    state.update(
        &mut capture_manager,
        MonitorEvent::MetadataProperty(obj_id, 0, Some(key.clone()), None),
    );
    assert_eq!(get_metadata_properties(&state, &obj_id, 0).get(&key), None);
    assert_eq!(get_metadata_properties(&state, &obj_id, 1).get(&key), Some(&value));
}

#[test]
fn state_metadata_clear_all_properties() {
    let mut state = State::default();
    let mut capture_manager = CaptureManager::default();
    let obj_id = ObjectId::from_raw_id(0);
    let metadata_name = String::from("metadata0");
    state.update(
        &mut capture_manager,
        MonitorEvent::MetadataMetadataName(obj_id, metadata_name.clone()),
    );

    let key = String::from("key");
    let value = String::from("value");

    state.update(
        &mut capture_manager,
        MonitorEvent::MetadataProperty(obj_id, 0, Some(key.clone()), Some(value.clone())),
    );
    state.update(
        &mut capture_manager,
        MonitorEvent::MetadataProperty(obj_id, 1, Some(key.clone()), Some(value.clone())),
    );
    assert!(!get_metadata_properties(&state, &obj_id, 0).is_empty());
    assert!(!get_metadata_properties(&state, &obj_id, 1).is_empty());

    state.update(&mut capture_manager, MonitorEvent::MetadataProperty(obj_id, 0, None, None));

    assert!(get_metadata_properties(&state, &obj_id, 0).is_empty());
    assert!(!get_metadata_properties(&state, &obj_id, 1).is_empty());
}

#[test]
fn links_give_inputs_and_outputs() {
    let mut state = State::default();
    let mut capture_manager = CaptureManager::default();
    let a = ObjectId::from_raw_id(1);
    let b = ObjectId::from_raw_id(2);
    state.update(&mut capture_manager, MonitorEvent::Link(ObjectId::from_raw_id(10), a, b));
    assert_eq!(state.outputs(a), vec![b]);
    assert_eq!(state.inputs(b), vec![a]);
    assert!(state.inputs(a).is_empty());
    state.update(&mut capture_manager, MonitorEvent::Removed(ObjectId::from_raw_id(10)));
    assert!(state.outputs(a).is_empty());
}

#[test]
fn removed_object_is_gone() {
    let mut state = State::default();
    let mut capture_manager = CaptureManager::default();
    let id = ObjectId::from_raw_id(3);
    state.update(&mut capture_manager, MonitorEvent::NodeMute(id, true));
    assert!(state.nodes.contains_key(&3));
    state.update(&mut capture_manager, MonitorEvent::Removed(id));
    assert!(!state.nodes.contains_key(&3));
}

#[test]
fn capture_stops_with_last_input_link() {
    let mut state = State::default();
    let mut capture_manager = CaptureManager::new(true);
    let sink = ObjectId::from_raw_id(2);
    let mut props = PropertyStore::default();
    props.set_media_class(String::from("Audio/Sink"));
    props.set_object_serial(2);
    state.update(&mut capture_manager, MonitorEvent::NodeProperties(sink, props));
    state.update(&mut capture_manager, MonitorEvent::Link(ObjectId::from_raw_id(10), ObjectId::from_raw_id(1), sink));
    assert!(capture_manager.is_capturing(sink));
    state.update(&mut capture_manager, MonitorEvent::Link(ObjectId::from_raw_id(11), ObjectId::from_raw_id(3), sink));
    state.update(&mut capture_manager, MonitorEvent::Removed(ObjectId::from_raw_id(10)));
    // Another input link is left, so the capture goes on.
    assert!(capture_manager.is_capturing(sink));
    state.update(&mut capture_manager, MonitorEvent::Removed(ObjectId::from_raw_id(11)));
    assert!(!capture_manager.is_capturing(sink));
}
