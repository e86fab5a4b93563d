use wiremix::config::char_set::CharSet;
use wiremix::device_kind::DeviceKind;
use wiremix::object::ObjectId;
use wiremix::object_list::ObjectList;
use wiremix::view::{Device, ListKind, Node, NodeKind, Target};
use wiremix::widget::{
    is_default, meter_segments, node_title, target_line, title_line, Area,
    DeviceWidget, DropdownWidget, MouseButton, MouseKind, NodeAction, NodeWidget, ObjectListWidget,
};
use wiremix::tabs::ListAction;

fn node() -> Node {
    Node {
        object_id: ObjectId::from_raw_id(7),
        object_serial: 7,
        name: String::from("sink"),
        title: String::from("Speakers playing"),
        title_source_sink: Some(String::from("Speakers")),
        media_class: String::from("Audio/Sink"),
        routes: None,
        target_title: String::from("Analog Output"),
        target: Some(Target::Default),
        volumes: vec![],
        mute: false,
        peaks: None,
        positions: None,
        device_info: None,
        client_id: None,
        is_default_sink: true,
        is_default_source: false,
    }
}

#[test]
fn node_title_prefers_sink_title_in_device_lists() {
    let n = node();
    assert_eq!(node_title(&n, Some(DeviceKind::Sink)), "Speakers");
    assert_eq!(node_title(&n, None), "Speakers playing");
    assert!(is_default(&n, Some(DeviceKind::Sink)));
    assert!(!is_default(&n, Some(DeviceKind::Source)));
    assert!(!is_default(&n, None));
}

#[test]
fn header_lines() {
    let char_set = CharSet::default();
    let n = node();
    assert_eq!(
        target_line(&char_set, &n),
        vec![char_set.default_target.clone(), String::from(" "), String::from("Analog Output")]
    );
    let mut other = node();
    other.target = Some(Target::Node(ObjectId::from_raw_id(3)));
    assert_eq!(target_line(&char_set, &other), vec![String::from("Analog Output")]);

    assert_eq!(
        title_line(&char_set, &n, Some(DeviceKind::Sink), 20),
        vec![char_set.default_endpoint.clone(), String::from(" "), String::from("Speakers")]
    );
    assert_eq!(
        title_line(&char_set, &n, None, 10),
        vec![String::from(" "), String::from(" "), String::from("Speaker...")]
    );
}

#[test]
fn dropdown_areas() {
    let mut list = ObjectList::new(ListKind::Node(NodeKind::Playback), None);
    list.targets = vec![
        (Target::Default, String::from("Default")),
        (Target::Node(ObjectId::from_raw_id(2)), String::from("Headphones")),
    ];
    let list_area = Area { x: 0, y: 1, width: 80, height: 20 };
    let object_area = Area { x: 1, y: 6, width: 79, height: 3 };
    let area = NodeWidget::dropdown_area(&list, &list_area, &object_area);
    assert_eq!(area, Area { x: 66, y: 5, width: 14, height: 4 });
    let area = DeviceWidget::dropdown_area(&list, &list_area, &object_area);
    assert_eq!(area, Area { x: 4, y: 7, width: 14, height: 4 });

    list.targets = (0..9)
        .map(|i| (Target::Node(ObjectId::from_raw_id(i)), String::from("x")))
        .collect();
    let top = Area { x: 0, y: 0, width: 3, height: 3 };
    let area = NodeWidget::dropdown_area(&list, &top, &top);
    assert_eq!(area, Area { x: 0, y: 0, width: 5, height: 7 });
    assert_eq!(NodeWidget::height(), 3);
    assert_eq!(DeviceWidget::spacing(), 2);
}

#[test]
fn meter_cells() {
    assert_eq!(meter_segments(5, 8, 10), (5, 0, 5));
    assert_eq!(meter_segments(10, 8, 10), (8, 2, 0));
    assert_eq!(meter_segments(0, 8, 10), (0, 0, 10));
    assert_eq!(meter_segments(12, 8, 10), (8, 4, 0));
}

#[test]
fn dropdown_mouse_areas() {
    let mut list = ObjectList::new(ListKind::Node(NodeKind::Playback), None);
    list.targets = (0..7)
        .map(|i| (Target::Node(ObjectId::from_raw_id(i)), format!("Target {i}")))
        .collect();
    let area = Area { x: 0, y: 1, width: 80, height: 20 };
    let dropdown = Area { x: 10, y: 5, width: 20, height: 7 };
    let areas = DropdownWidget::mouse_areas(&list, area, dropdown, 1);
    assert_eq!(areas.len(), 9);
    let click = vec![MouseKind::Down(MouseButton::Left)];
    assert!(areas.iter().all(|m| m.kinds == click));
    assert_eq!(areas[0].area, area);
    assert_eq!(areas[0].actions, vec![ListAction::ClosePopup]);
    assert_eq!(areas[1].area, dropdown);
    assert!(areas[1].actions.is_empty());
    assert_eq!(areas[2].area, Area { x: 10, y: 5, width: 20, height: 1 });
    assert_eq!(areas[2].actions, vec![ListAction::ScrollUp]);
    assert_eq!(areas[3].area, Area { x: 10, y: 11, width: 20, height: 1 });
    assert_eq!(areas[3].actions, vec![ListAction::ScrollDown]);
    for i in 0..5 {
        assert_eq!(areas[4 + i].area, Area { x: 10, y: 6 + i as u16, width: 20, height: 1 });
        assert_eq!(
            areas[4 + i].actions,
            vec![ListAction::SetTarget(Target::Node(ObjectId::from_raw_id(1 + i as u32)))]
        );
    }

    // Scrolled to the end: no bottom marker, two entries left.
    let areas = DropdownWidget::mouse_areas(&list, area, dropdown, 5);
    assert_eq!(areas.len(), 5);
    assert_eq!(areas[2].actions, vec![ListAction::ScrollUp]);
    assert_eq!(areas[4].actions, vec![ListAction::SetTarget(Target::Node(ObjectId::from_raw_id(6)))]);

    // At the top of a short list: borders only, then the entries.
    list.targets.truncate(2);
    let small = Area { x: 10, y: 5, width: 20, height: 4 };
    let areas = DropdownWidget::mouse_areas(&list, area, small, 0);
    assert_eq!(areas.len(), 4);
    assert_eq!(areas[2].area, Area { x: 10, y: 6, width: 20, height: 1 });
}

#[test]
fn device_lines() {
    let char_set = CharSet::default();
    let device = Device {
        object_id: ObjectId::from_raw_id(40),
        object_serial: 40,
        title: String::from("Built-in Audio"),
        profiles: vec![],
        target_title: String::from("Analog Stereo Duplex"),
        target: None,
    };
    assert_eq!(
        DeviceWidget::title_line(&device),
        vec![String::from("   "), String::from("Built-in Audio")]
    );
    assert_eq!(
        DeviceWidget::target_line(&char_set, &device),
        vec![
            String::from("    "),
            char_set.dropdown.clone(),
            String::from(" "),
            String::from("Analog Stereo Duplex")
        ]
    );
}

#[test]
fn dropdown_clamped_to_list() {
    let area = Area { x: 0, y: 1, width: 80, height: 20 };
    let out = Area { x: 70, y: 18, width: 20, height: 7 };
    assert_eq!(out.clamp(&area), Area { x: 60, y: 14, width: 20, height: 7 });
    let tall = Area { x: 5, y: 0, width: 100, height: 30 };
    assert_eq!(tall.clamp(&area), Area { x: 0, y: 1, width: 80, height: 20 });

    let mut list = ObjectList::new(ListKind::Node(NodeKind::Playback), None);
    list.targets = vec![(Target::Default, String::from("Default"))];
    let areas = DropdownWidget::mouse_areas(&list, area, out, 0);
    assert_eq!(areas[1].area, Area { x: 60, y: 14, width: 20, height: 7 });
    assert_eq!(areas[2].area, Area { x: 60, y: 15, width: 20, height: 1 });
}

#[test]
fn object_list_mouse_areas() {
    let header = Area { x: 0, y: 0, width: 80, height: 1 };
    let list = Area { x: 0, y: 1, width: 80, height: 20 };
    let footer = Area { x: 0, y: 21, width: 80, height: 1 };
    let areas = ObjectListWidget::mouse_areas(header, list, footer);
    assert_eq!(areas.len(), 4);
    assert_eq!(areas[0].area, header);
    assert_eq!(areas[0].kinds, vec![MouseKind::Down(MouseButton::Left)]);
    assert_eq!(areas[0].actions, vec![ListAction::ScrollUp]);
    assert_eq!(areas[1].area, footer);
    assert_eq!(areas[1].actions, vec![ListAction::ScrollDown]);
    assert_eq!(areas[2].kinds, vec![MouseKind::ScrollUp]);
    assert_eq!(areas[3].kinds, vec![MouseKind::ScrollDown]);
    assert_eq!(areas[3].actions, vec![ListAction::ScrollDown]);
}

#[test]
fn node_mouse_areas() {
    let id = ObjectId::from_raw_id(7);
    let area = Area { x: 0, y: 2, width: 40, height: 3 };
    let header = Area { x: 30, y: 2, width: 9, height: 1 };
    let label = Area { x: 1, y: 3, width: 6, height: 1 };
    let areas = NodeWidget::mouse_areas(id, area, header, label);
    let select = NodeAction::List(ListAction::SelectObject(id));
    assert_eq!(areas.len(), 6);
    assert_eq!(areas[0].area, area);
    assert_eq!(areas[0].kinds, vec![MouseKind::Down(MouseButton::Left)]);
    assert_eq!(areas[0].actions, vec![select]);
    assert_eq!(areas[1].kinds, vec![MouseKind::Down(MouseButton::Right)]);
    assert_eq!(areas[1].actions, vec![select, NodeAction::List(ListAction::SetDefault)]);
    assert_eq!(areas[2].kinds, vec![MouseKind::ScrollLeft]);
    assert_eq!(areas[2].actions, vec![select, NodeAction::RelativeVolume(-1)]);
    assert_eq!(areas[3].kinds, vec![MouseKind::ScrollRight]);
    assert_eq!(areas[3].actions, vec![select, NodeAction::RelativeVolume(1)]);
    assert_eq!(areas[4].area, header);
    assert_eq!(areas[4].actions, vec![select, NodeAction::List(ListAction::OpenPopup)]);
    assert_eq!(areas[5].area, label);
    assert_eq!(areas[5].actions, vec![select, NodeAction::List(ListAction::ToggleMute)]);
}

#[test]
fn device_mouse_areas() {
    let id = ObjectId::from_raw_id(3);
    let area = Area { x: 0, y: 0, width: 30, height: 3 };
    let target = Area { x: 2, y: 1, width: 20, height: 1 };
    let areas = DeviceWidget::mouse_areas(id, area, target);
    assert_eq!(areas.len(), 2);
    assert_eq!(areas[0].area, area);
    assert_eq!(areas[0].actions, vec![ListAction::SelectObject(id)]);
    assert_eq!(areas[1].area, target);
    assert_eq!(areas[1].kinds, vec![MouseKind::Down(MouseButton::Left)]);
    assert_eq!(areas[1].actions, vec![ListAction::SelectObject(id), ListAction::OpenPopup]);
}
