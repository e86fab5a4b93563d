use wiremix::app::{App, Event};
use wiremix::config::Names;
use wiremix::config::keybinding::default_keybindings;
use wiremix::key::{KeyCode, KeyEvent, NONE};
use wiremix::object::ObjectId;
use wiremix::property_store::PropertyStore;
use wiremix::state::{MonitorEvent, StateDirty};
use wiremix::command::Command;
use wiremix::tabs::KeyOutcome;

fn stream_events(i: u32) -> Vec<MonitorEvent> {
    let object_id = ObjectId::from_raw_id(i);
    let mut props = PropertyStore::default();
    props.set_node_description(String::from("Test node"));
    props.set_media_class(String::from("Stream/Output/Audio"));
    props.set_media_name(String::from("Media name"));
    props.set_node_name(String::from("Node name"));
    props.set_object_serial(i as u64);
    vec![
        MonitorEvent::NodeProperties(object_id, props),
        MonitorEvent::NodePositions(object_id, vec![0, 1]),
        MonitorEvent::NodeRate(object_id, 44100),
        MonitorEvent::NodePeaks(object_id, vec![0, 0]),
        MonitorEvent::NodeVolumes(object_id, vec![0, 0]),
        MonitorEvent::NodeMute(object_id, false),
    ]
}

#[test]
fn app_starts_on_first_tab() {
    let app = App::new(Names::default(), true, default_keybindings());
    assert!(!app.exit);
    assert!(!app.is_ready);
    assert_eq!(app.tabs.selected, 0);
    assert_eq!(app.tabs.lists.len(), 5);
    assert_eq!(app.tabs.titles, vec!["Playback", "Recording", "Output Devices", "Input Devices", "Configuration"]);
    assert!(app.state.nodes.is_empty());
    assert!(app.view.nodes.is_empty());
    assert!(app.tabs.lists.iter().all(|l| l.selected.is_none() && l.top == 0));
}

#[test]
fn app_errors_end_unless_ignored() {
    let mut app = App::new(Names::default(), true, default_keybindings());
    app.handle_event(Event::Error(String::from("no global 12")));
    assert!(!app.exit);
    app.handle_event(Event::Error(String::from("connection lost")));
    assert!(app.exit);
    assert_eq!(app.error_message, Some(String::from("connection lost")));
}

#[test]
fn app_quits_on_q() {
    let mut app = App::new(Names::default(), true, default_keybindings());
    assert!(matches!(app.handle_event(Event::Key(KeyEvent { code: KeyCode::Char('q'), modifiers: NONE })), KeyOutcome::Exit));
    assert!(app.exit);
    assert_eq!(app.error_message, None);
}

#[test]
fn app_selects_first_object_once_ready() {
    let mut app = App::new(Names::default(), true, default_keybindings());
    for i in 1..4 {
        for event in stream_events(i) {
            app.handle_event(Event::Monitor(event));
        }
    }
    assert_eq!(app.state.dirty, StateDirty::Everything);
    app.refresh();
    assert_eq!(app.state.dirty, StateDirty::Clean);
    assert_eq!(app.view.nodes_playback.len(), 3);
    // Nothing is selected before the monitor is ready.
    assert_eq!(app.tabs.lists[0].selected, None);
    app.handle_event(Event::Ready);
    assert!(app.is_ready);
    app.refresh();
    assert_eq!(app.tabs.lists[0].selected, Some(ObjectId::from_raw_id(1)));
    app.handle_event(Event::Key(KeyEvent { code: KeyCode::Char('j'), modifiers: NONE }));
    assert_eq!(app.tabs.lists[0].selected, Some(ObjectId::from_raw_id(2)));
    app.handle_event(Event::Key(KeyEvent { code: KeyCode::Char('L'), modifiers: NONE }));
    assert_eq!(app.tabs.selected, 1);
    app.handle_event(Event::Key(KeyEvent { code: KeyCode::Char('H'), modifiers: NONE }));
    assert_eq!(app.tabs.selected, 0);
}

#[test]
fn volume_commands_go_to_the_node() {
    let mut app = App::new(Names::default(), true, default_keybindings());
    for event in stream_events(1) {
        app.handle_event(Event::Monitor(event));
    }
    app.refresh();
    let id = ObjectId::from_raw_id(1);
    match app.view.volume_command(id, vec![5, 6], false) {
        Some(Command::NodeVolumes(node, levels)) => {
            assert_eq!(node, id);
            assert_eq!(levels, vec![5, 6]);
        }
        other => panic!("unexpected {other:?}"),
    }
    assert!(app.view.volume_command(id, vec![5, 6], true).is_none());
    assert!(app.view.volume_command(ObjectId::from_raw_id(9), vec![5, 6], false).is_none());
}
