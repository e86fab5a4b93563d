use wiremix::config::{
    default_char_set_name, default_mouse, default_theme_name, initial_tab, max_volume_limit, take_char_set, Peaks,
    Settings, TabKind,
};
use wiremix::config::char_set::CharSet;
use wiremix::media_class;
use wiremix::monitor::device_status::{DeviceStatusTracker, ParamKind};
use wiremix::monitor::sync_registry::SyncRegistry;
use wiremix::names::format_string::FormatString;
use wiremix::names::tag::{NodeTag, Tag as FormatTag};
use wiremix::object::ObjectId;
use wiremix::config::keybinding::{default_keybindings, merge_keybindings, Action};
use wiremix::key::{control_char_key, KeyCode, KeyEvent, CONTROL, NONE, SHIFT};
use wiremix::tabs::{ignored_error, KeyOutcome, ListAction, Tabs};
use wiremix::widget::{area_hit, Area, HelpWidget, MouseArea, MouseButton, MouseKind};
use wiremix::text::decimal;
use wiremix::view::View;

#[test]
fn decimal_text_of_numbers() {
    assert_eq!(decimal(0), "0");
    assert_eq!(decimal(7), "7");
    assert_eq!(decimal(10), "10");
    assert_eq!(decimal(4294967295), "4294967295");
}

#[test]
fn device_status_tracks_flags() {
    let mut tracker = DeviceStatusTracker::new();
    let id = ObjectId::from_raw_id(3);
    assert!(tracker.get(id).is_none());
    tracker.set(id, ParamKind::Profile);
    let status = tracker.get(id).unwrap();
    assert!(status.get(ParamKind::Profile));
    assert!(!status.get(ParamKind::EnumProfile));
    assert!(!status.get(ParamKind::Other));
    tracker.set(id, ParamKind::EnumProfile);
    assert!(tracker.get(id).unwrap().get(ParamKind::EnumProfile));
    assert!(tracker.remove(&id).is_some());
    assert!(tracker.get(id).is_none());
}

#[test]
fn sync_registry_reports_done_once() {
    let mut registry = SyncRegistry::default();
    assert!(registry.wants_sync());
    registry.global(1);
    registry.global(2);
    assert!(!registry.done(1));
    assert!(registry.done(2));
    assert!(!registry.wants_sync());
    registry.global(3);
    assert!(!registry.done(3));
}

#[test]
fn format_strings_check_tags() {
    let ok = FormatString::parse("{node:node.name} on {device:device.nick}").unwrap();
    assert_eq!(ok.to_string(), "{node:node.name} on {device:device.nick}");
    assert_eq!(
        FormatString::parse("{node:volume}").unwrap_err(),
        "\"node:volume\" is not implemented"
    );
    assert!(FormatString::parse("no tags at all").is_ok());
    // Capitals are not tag characters, so this brace pair is not a tag.
    assert!(FormatString::parse("{Hello}").is_ok());
    assert_eq!(FormatString::from_raw("{x}").to_string(), "{x}");
}

#[test]
fn format_tags_round_trip() {
    let tag = FormatTag::Node(NodeTag::MediaName);
    assert_eq!(tag.to_string(), "node:media.name");
    let parsed: FormatTag = "node:media.name".parse().unwrap();
    assert_eq!(parsed, tag);
    assert!("client:application.name".parse::<FormatTag>().is_err());
}

#[test]
fn config_defaults() {
    assert!(default_mouse());
    assert_eq!(default_char_set_name(), "default");
    assert_eq!(default_theme_name(), "default");
    assert_eq!(Peaks::default(), Peaks::Auto);
}

#[test]
fn take_char_set_by_name() {
    let mut sets = CharSet::defaults();
    assert_eq!(take_char_set(&mut sets, "compat").unwrap_err(), "char_set 'compat' does not exist");
    let set = take_char_set(&mut sets, "default").unwrap();
    assert_eq!(set.dropdown, "▼");
    assert!(sets.is_empty());
}

#[test]
fn settings_take_command_line() {
    let mut settings = Settings {
        remote: None,
        mouse: true,
        peaks: None,
        char_set: String::from("default"),
        theme: String::from("default"),
    };
    settings.apply_options(&Some(String::from("r")), true, false, Some(Peaks::Mono), &None, &Some(String::from("plain")));
    assert_eq!(settings.remote.as_deref(), Some("r"));
    assert!(!settings.mouse);
    assert_eq!(settings.peaks, Some(Peaks::Mono));
    assert_eq!(settings.char_set, "default");
    assert_eq!(settings.theme, "plain");
}

#[test]
fn media_classes() {
    assert!(media_class::is_sink("Audio/Sink"));
    assert!(media_class::is_sink("Audio/Duplex"));
    assert!(media_class::is_source("Audio/Source/Virtual"));
    assert!(!media_class::is_source("Audio/Sink"));
    assert!(media_class::is_sink_input("Stream/Output/Audio"));
    assert!(media_class::is_source_output("Stream/Input/Audio"));
}

#[test]
fn ignored_monitor_errors() {
    assert!(ignored_error("no global 12"));
    assert!(ignored_error("unknown resource 3"));
    assert!(ignored_error("Received error event"));
    assert!(!ignored_error("Received error event!"));
    assert!(!ignored_error("connection lost"));
}

#[test]
fn tabs_cycle_and_select() {
    let mut tabs = Tabs::new();
    assert_eq!(tabs.titles.len(), 5);
    assert_eq!(tabs.titles[2], "Output Devices");
    tabs.select_previous();
    assert_eq!(tabs.selected, 4);
    tabs.select_next();
    assert_eq!(tabs.selected, 0);
    let view = View::new();
    let commands = tabs.handle_action(ListAction::SelectTab(3), &view);
    assert!(commands.is_empty());
    assert_eq!(tabs.selected, 3);
    tabs.handle_action(ListAction::SelectObject(ObjectId::from_raw_id(8)), &view);
    assert_eq!(tabs.lists[3].selected, Some(ObjectId::from_raw_id(8)));
    assert!(tabs.handle_action(ListAction::ToggleMute, &view).is_empty());
}

#[test]
fn keys_drive_the_tabs() {
    let mut tabs = Tabs::new();
    let view = View::new();
    let b = default_keybindings();
    let key = |code: KeyCode| KeyEvent { code, modifiers: NONE };
    assert!(matches!(tabs.handle_key(key(KeyCode::Char('q')), &b, &view), KeyOutcome::Exit));
    assert!(matches!(tabs.handle_key(key(KeyCode::Char('l')), &b, &view), KeyOutcome::RelativeVolume(1)));
    assert!(matches!(tabs.handle_key(key(KeyCode::Char('h')), &b, &view), KeyOutcome::RelativeVolume(-1)));
    assert!(matches!(tabs.handle_key(key(KeyCode::Right), &b, &view), KeyOutcome::RelativeVolume(1)));
    assert!(matches!(tabs.handle_key(key(KeyCode::Char('5')), &b, &view), KeyOutcome::AbsoluteVolume(50)));
    assert!(matches!(tabs.handle_key(key(KeyCode::Char('`')), &b, &view), KeyOutcome::AbsoluteVolume(0)));
    assert!(matches!(tabs.handle_key(key(KeyCode::Char('0')), &b, &view), KeyOutcome::AbsoluteVolume(100)));
    assert!(matches!(tabs.handle_key(key(KeyCode::Char('H')), &b, &view), KeyOutcome::Commands(c) if c.is_empty()));
    assert_eq!(tabs.selected, 4);
    tabs.handle_key(key(KeyCode::Char('L')), &b, &view);
    tabs.handle_key(key(KeyCode::Tab), &b, &view);
    assert_eq!(tabs.selected, 1);
    tabs.handle_key(KeyEvent { code: KeyCode::BackTab, modifiers: SHIFT }, &b, &view);
    assert_eq!(tabs.selected, 0);
    tabs.handle_key(key(KeyCode::Char('L')), &b, &view);
    tabs.lists[1].dropdown_selected = Some(2);
    tabs.handle_key(key(KeyCode::Char('k')), &b, &view);
    assert_eq!(tabs.lists[1].dropdown_selected, Some(1));
    tabs.handle_key(key(KeyCode::Up), &b, &view);
    assert_eq!(tabs.lists[1].dropdown_selected, Some(0));
    tabs.handle_key(key(KeyCode::Esc), &b, &view);
    assert_eq!(tabs.lists[1].dropdown_selected, None);
    assert!(matches!(tabs.handle_key(key(KeyCode::Other), &b, &view), KeyOutcome::Commands(c) if c.is_empty()));
    assert_eq!(tabs.selected, 1);
}

#[test]
fn keys_follow_the_given_bindings() {
    let mut tabs = Tabs::new();
    let view = View::new();
    let key = |code: KeyCode| KeyEvent { code, modifiers: NONE };
    let b = merge_keybindings(vec![
        (key(KeyCode::Char('x')), Action::Exit),
        (key(KeyCode::Char('q')), Action::Nothing),
        (key(KeyCode::Char('?')), Action::Help),
    ]);
    assert!(matches!(tabs.handle_key(key(KeyCode::Char('x')), &b, &view), KeyOutcome::Exit));
    assert!(matches!(tabs.handle_key(key(KeyCode::Char('q')), &b, &view), KeyOutcome::Commands(c) if c.is_empty()));
    assert!(matches!(tabs.handle_key(key(KeyCode::Char('?')), &b, &view), KeyOutcome::Help));
    assert_eq!(tabs.selected, 0);
}

#[test]
fn clicks_go_to_the_top_area() {
    let kinds = vec![MouseKind::Down(MouseButton::Left)];
    let areas = vec![
        MouseArea { area: Area { x: 0, y: 0, width: 10, height: 10 }, kinds: kinds.clone(), actions: vec!["list"] },
        MouseArea { area: Area { x: 2, y: 2, width: 3, height: 1 }, kinds: kinds.clone(), actions: vec!["button"] },
        MouseArea { area: Area { x: 0, y: 0, width: 10, height: 10 }, kinds: vec![MouseKind::ScrollUp], actions: vec!["scroll"] },
    ];
    assert_eq!(area_hit(&areas, 3, 2, MouseKind::Down(MouseButton::Left)), Some(1));
    assert_eq!(area_hit(&areas, 5, 2, MouseKind::Down(MouseButton::Left)), Some(0));
    assert_eq!(area_hit(&areas, 3, 2, MouseKind::ScrollUp), Some(2));
    assert_eq!(area_hit(&areas, 10, 2, MouseKind::Down(MouseButton::Left)), None);
    assert_eq!(area_hit(&areas, 3, 2, MouseKind::Down(MouseButton::Right)), None);
}

#[test]
fn control_characters_as_keys() {
    assert_eq!(control_char_key(3), Some(KeyEvent { code: KeyCode::Char('c'), modifiers: CONTROL }));
    assert_eq!(control_char_key(4), Some(KeyEvent { code: KeyCode::Char('d'), modifiers: CONTROL }));
    assert_eq!(control_char_key(28), Some(KeyEvent { code: KeyCode::Char('4'), modifiers: CONTROL }));
    assert_eq!(control_char_key(9), Some(KeyEvent { code: KeyCode::Tab, modifiers: NONE }));
    assert_eq!(control_char_key(27), Some(KeyEvent { code: KeyCode::Esc, modifiers: NONE }));
    assert_eq!(control_char_key(b'q'), Some(KeyEvent { code: KeyCode::Char('q'), modifiers: NONE }));
    assert_eq!(control_char_key(0), None);
    assert_eq!(control_char_key(127), None);
    assert_eq!(control_char_key(200), None);
}

#[test]
fn tab_labels_mark_the_shown_tab() {
    let mut tabs = Tabs::new();
    tabs.select_next();
    let labels = tabs.labels();
    assert_eq!(labels[0], " Playback ");
    assert_eq!(labels[1], "[Recording]");
    assert_eq!(labels[4], " Configuration ");
}

#[test]
fn help_scrolling() {
    assert_eq!(HelpWidget::base_width(), 8);
    // Scrolled past the end: back so that the last row is at the bottom.
    assert_eq!(HelpWidget::settled_position(10, 8, 5), 5);
    assert_eq!(HelpWidget::settled_position(10, 3, 5), 3);
    assert_eq!(HelpWidget::settled_position(3, 2, 5), 0);
    assert!(HelpWidget::more_above(1));
    assert!(!HelpWidget::more_above(0));
    assert!(HelpWidget::more_below(10, 3, 5));
    assert!(!HelpWidget::more_below(10, 5, 5));
}

#[test]
fn format_string_braces_match_left_to_right() {
    // An unclosed run does not hide the tag after it.
    assert_eq!(
        FormatString::parse("{x{node:volume}").unwrap_err(),
        "\"node:volume\" is not implemented"
    );
    // Digits, `.`, `/` and `:` are tag characters; `_` is not.
    assert_eq!(FormatString::parse("{a/1}").unwrap_err(), "\"a/1\" is not implemented");
    assert!(FormatString::parse("{a_b}").is_ok());
    assert_eq!(FormatString::parse("{}").unwrap_err(), "\"\" is not implemented");
}

#[test]
fn initial_tab_defaults_to_the_first() {
    assert_eq!(initial_tab(None), 0);
    assert_eq!(initial_tab(Some(TabKind::Playback)), 0);
    assert_eq!(initial_tab(Some(TabKind::Input)), 3);
    assert_eq!(initial_tab(Some(TabKind::Configuration)), 4);
}

#[test]
fn max_volume_limit_is_dropped_when_not_enforced() {
    assert_eq!(max_volume_limit(true, Some(150.0f32)), None);
    assert_eq!(max_volume_limit(false, Some(150.0f32)), Some(150.0));
    assert_eq!(max_volume_limit::<f32>(false, None), None);
}
