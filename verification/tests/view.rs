use wiremix::capture_manager::CaptureManager;
use wiremix::command::Command;
use wiremix::config::Names;
use wiremix::device_kind::DeviceKind;
use wiremix::object::ObjectId;
use wiremix::property_store::PropertyStore;
use wiremix::state::{MonitorEvent, State};
use wiremix::view::{has_target_from, sort_by_title, ListKind, NodeKind, Target, View};

fn node(state: &mut State, cm: &mut CaptureManager, id: u32, class: &str, name: &str, serial: u64) {
    let object_id = ObjectId::from_raw_id(id);
    let mut props = PropertyStore::default();
    props.set_media_class(String::from(class));
    props.set_node_name(String::from(name));
    props.set_node_description(String::from(name));
    props.set_object_serial(serial);
    state.update(cm, MonitorEvent::NodeProperties(object_id, props));
    state.update(cm, MonitorEvent::NodeVolumes(object_id, vec![0x3f80_0000, 0x3f80_0000]));
    state.update(cm, MonitorEvent::NodeMute(object_id, false));
}

/// A playback stream linked to the second of two sinks, and the default
/// metadata naming the first sink the default.
fn fixture() -> State {
    let mut state = State::default();
    let mut cm = CaptureManager::default();
    node(&mut state, &mut cm, 10, "Audio/Sink", "speakers", 3);
    node(&mut state, &mut cm, 11, "Audio/Sink", "headphones", 2);
    node(&mut state, &mut cm, 20, "Stream/Output/Audio", "player", 1);
    node(&mut state, &mut cm, 30, "Audio/Source", "mic", 4);
    state.update(
        &mut cm,
        MonitorEvent::Link(ObjectId::from_raw_id(40), ObjectId::from_raw_id(20), ObjectId::from_raw_id(11)),
    );
    state.update(
        &mut cm,
        MonitorEvent::MetadataMetadataName(ObjectId::from_raw_id(50), String::from("default")),
    );
    state.update(
        &mut cm,
        MonitorEvent::MetadataProperty(
            ObjectId::from_raw_id(50),
            0,
            Some(String::from("default.audio.sink")),
            Some(String::from("{\"name\":\"speakers\"}")),
        ),
    );
    state
}

fn names() -> Names {
    Names {
        stream: vec!["{node:node.name}".parse().unwrap()],
        endpoint: vec!["{node:node.description}".parse().unwrap()],
        ..Default::default()
    }
}

#[test]
fn view_lists_nodes_by_serial() {
    let state = fixture();
    let view = View::from(&state, &names());
    let ids = |v: &Vec<ObjectId>| v.iter().map(|o| o.0).collect::<Vec<u32>>();
    assert_eq!(ids(&view.nodes_all), vec![20, 11, 10, 30]);
    assert_eq!(ids(&view.nodes_playback), vec![20]);
    assert_eq!(ids(&view.nodes_output), vec![11, 10]);
    assert_eq!(ids(&view.nodes_input), vec![30]);
    assert!(view.nodes_recording.is_empty());
    assert_eq!(view.len(ListKind::Node(NodeKind::All)), 4);
    assert_eq!(view.metadata_id, Some(ObjectId::from_raw_id(50)));
}

#[test]
fn view_sinks_and_sources_sorted_by_title() {
    let state = fixture();
    let view = View::from(&state, &names());
    assert_eq!(
        view.sinks,
        vec![
            (Target::Node(ObjectId::from_raw_id(11)), String::from("headphones")),
            (Target::Node(ObjectId::from_raw_id(10)), String::from("speakers")),
        ]
    );
    assert_eq!(
        view.sources,
        vec![
            (Target::Node(ObjectId::from_raw_id(11)), String::from("Monitor of headphones")),
            (Target::Node(ObjectId::from_raw_id(10)), String::from("Monitor of speakers")),
            (Target::Node(ObjectId::from_raw_id(30)), String::from("mic")),
        ]
    );
}

#[test]
fn view_default_sink_from_metadata() {
    let state = fixture();
    let view = View::from(&state, &names());
    assert_eq!(view.default_sink, Some(Target::Node(ObjectId::from_raw_id(10))));
    assert_eq!(view.default_source, None);
    assert!(view.nodes.get(&10).unwrap().is_default_sink);
    assert!(!view.nodes.get(&11).unwrap().is_default_sink);
}

#[test]
fn view_stream_follows_default_without_target() {
    let state = fixture();
    let view = View::from(&state, &names());
    let player = view.nodes.get(&20).unwrap();
    assert_eq!(player.target, Some(Target::Default));
    assert_eq!(player.target_title, "headphones");
    assert_eq!(player.title, "player");
    assert_eq!(player.volumes, vec![0x3f80_0000, 0x3f80_0000]);
}

#[test]
fn view_stream_with_its_own_target() {
    let mut state = fixture();
    let mut cm = CaptureManager::default();
    state.update(
        &mut cm,
        MonitorEvent::MetadataProperty(
            ObjectId::from_raw_id(50),
            20,
            Some(String::from("target.object")),
            Some(String::from("11")),
        ),
    );
    let view = View::from(&state, &names());
    let player = view.nodes.get(&20).unwrap();
    assert_eq!(player.target, Some(Target::Node(ObjectId::from_raw_id(11))));
    assert_eq!(player.target_title, "headphones");
}

#[test]
fn has_target_cases() {
    assert!(!has_target_from(None, None));
    assert!(!has_target_from(Some(-1), Some(-1)));
    assert!(has_target_from(Some(5), None));
    assert!(has_target_from(Some(-1), Some(7)));
    assert!(has_target_from(None, Some(0)));
}

#[test]
fn view_node_targets_put_default_first() {
    let state = fixture();
    let view = View::from(&state, &names());
    let (targets, selected) = view.node_targets(ObjectId::from_raw_id(20)).unwrap();
    assert_eq!(
        targets,
        vec![
            (Target::Default, String::from("Default: speakers")),
            (Target::Node(ObjectId::from_raw_id(11)), String::from("headphones")),
            (Target::Node(ObjectId::from_raw_id(10)), String::from("speakers")),
        ]
    );
    assert_eq!(selected, 0);
    assert!(view.node_targets(ObjectId::from_raw_id(99)).is_none());
    let (sink_targets, _) = view.node_targets(ObjectId::from_raw_id(10)).unwrap();
    assert!(sink_targets.is_empty());
}

#[test]
fn view_navigation() {
    let state = fixture();
    let view = View::from(&state, &names());
    let all = ListKind::Node(NodeKind::All);
    let id = ObjectId::from_raw_id;
    assert_eq!(view.next_id(all, None), Some(id(20)));
    assert_eq!(view.next_id(all, Some(id(20))), Some(id(11)));
    assert_eq!(view.next_id(all, Some(id(30))), None);
    assert_eq!(view.previous_id(all, Some(id(20))), Some(id(20)));
    assert_eq!(view.previous_id(all, Some(id(10))), Some(id(11)));
    assert_eq!(view.next_id(all, Some(id(99))), None);
    assert_eq!(view.position(all, id(10)), Some(2));
    assert_eq!(view.full_nodes(NodeKind::Output).len(), 2);
    assert!(view.full_devices().is_empty());
}

#[test]
fn view_commands() {
    let state = fixture();
    let view = View::from(&state, &names());
    match view.set_default(ObjectId::from_raw_id(11), DeviceKind::Sink) {
        Some(Command::MetadataSetProperty(md, subject, key, ty, value)) => {
            assert_eq!(md, ObjectId::from_raw_id(50));
            assert_eq!(subject, 0);
            assert_eq!(key, "default.configured.audio.sink");
            assert_eq!(ty.as_deref(), Some("Spa:String:JSON"));
            assert_eq!(value.as_deref(), Some("{\"name\":\"headphones\"}"));
        }
        other => panic!("unexpected {:?}", other),
    }
    let commands = view.set_target(ObjectId::from_raw_id(20), Target::Node(ObjectId::from_raw_id(1234)));
    assert_eq!(commands.len(), 2);
    match &commands[1] {
        Command::MetadataSetProperty(_, subject, key, ty, value) => {
            assert_eq!(*subject, 20);
            assert_eq!(key, "target.node");
            assert_eq!(ty.as_deref(), Some("Spa:Id"));
            assert_eq!(value.as_deref(), Some("1234"));
        }
        other => panic!("unexpected {:?}", other),
    }
    match view.mute(ObjectId::from_raw_id(20)) {
        Some(Command::NodeMute(id, mute)) => {
            assert_eq!(id, ObjectId::from_raw_id(20));
            assert!(mute);
        }
        other => panic!("unexpected {:?}", other),
    }
    let route = view.set_target(ObjectId::from_raw_id(20), Target::Route(ObjectId::from_raw_id(7), 2, 3));
    assert_eq!(route.len(), 1);
}

#[test]
fn view_json_quoting() {
    let mut state = fixture();
    let mut cm = CaptureManager::default();
    node(&mut state, &mut cm, 12, "Audio/Sink", "say \"hi\"", 9);
    let view = View::from(&state, &names());
    match view.set_default(ObjectId::from_raw_id(12), DeviceKind::Sink) {
        Some(Command::MetadataSetProperty(_, _, _, _, value)) => {
            assert_eq!(value.as_deref(), Some("{\"name\":\"say \\\"hi\\\"\"}"));
        }
        other => panic!("unexpected {:?}", other),
    }
}

#[test]
fn view_update_peaks_only_changes_peaks() {
    let mut state = fixture();
    let mut cm = CaptureManager::default();
    let mut view = View::from(&state, &names());
    // Peaks are kept only for nodes whose stream has started.
    state.update(&mut cm, MonitorEvent::NodeRate(ObjectId::from_raw_id(20), 48000));
    state.update(&mut cm, MonitorEvent::NodePeaks(ObjectId::from_raw_id(20), vec![1, 2]));
    view.update_peaks(&state);
    let player = view.nodes.get(&20).unwrap();
    assert_eq!(player.peaks, Some(vec![1, 2]));
    assert_eq!(player.title, "player");
}

#[test]
fn view_json_escapes_controls() {
    let mut state = fixture();
    let mut cm = CaptureManager::default();
    node(&mut state, &mut cm, 12, "Audio/Sink", "a\tb\\c\u{1f}", 9);
    let view = View::from(&state, &names());
    match view.set_default(ObjectId::from_raw_id(12), DeviceKind::Sink) {
        Some(Command::MetadataSetProperty(_, _, _, _, value)) => {
            assert_eq!(value.as_deref(), Some("{\"name\":\"a\\tb\\\\c\\u001f\"}"));
        }
        other => panic!("unexpected {:?}", other),
    }
}

#[test]
fn equal_titles_keep_their_order() {
    let t = |i: u32, title: &str| (Target::Node(ObjectId::from_raw_id(i)), String::from(title));
    let sorted = sort_by_title(vec![t(1, "b"), t(2, "a"), t(3, "b"), t(4, "a"), t(5, "b")]);
    assert_eq!(sorted, vec![t(2, "a"), t(4, "a"), t(1, "b"), t(3, "b"), t(5, "b")]);
}
