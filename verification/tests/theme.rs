use wiremix::config::take_theme;
use wiremix::config::theme::{Color, Style, Theme, ThemeOverlay, BOLD, REVERSED};

fn overlay(inherit: Option<&str>) -> ThemeOverlay {
    ThemeOverlay {
        inherit: inherit.map(String::from),
        default_device: None,
        default_stream: None,
        selector: None,
        tab: None,
        tab_selected: None,
        tab_marker: None,
        list_more: None,
        node_title: None,
        node_target: None,
        volume: None,
        volume_empty: None,
        volume_filled: None,
        meter_inactive: None,
        meter_active: None,
        meter_overload: None,
        meter_center_inactive: None,
        meter_center_active: None,
        config_device: None,
        config_profile: None,
        dropdown_icon: None,
        dropdown_border: None,
        dropdown_item: None,
        dropdown_selected: None,
        dropdown_more: None,
    }
}

#[test]
fn inherit_nonexistent() {
    let mut o = overlay(Some("doesntexist"));
    o.tab_selected = Some(Style::default());
    let theme = Theme::try_from_overlay(o);
    assert!(theme.is_err());
    assert_eq!(theme.unwrap_err(), "'doesntexist' is not a built-in theme");
}

#[test]
fn inherit() {
    let defaults = Theme::defaults();
    for builtin_key in ["default", "nocolor", "plain"] {
        let builtin = defaults.get(builtin_key).unwrap();
        let mut o = overlay(Some(builtin_key));
        o.tab_selected = Some(Style::default());
        let theme = Theme::try_from_overlay(o).unwrap();
        assert_eq!(theme.tab_selected, Style::default());
        assert_eq!(theme.selector, builtin.selector);
    }
}

#[test]
fn built_in_themes() {
    let default = Theme::default();
    assert_eq!(default.selector.fg, Some(Color::LightCyan));
    assert_eq!(default.meter_overload.fg, Some(Color::Red));
    assert_eq!(default.dropdown_selected.add_modifier, REVERSED);
    let nocolor = Theme::nocolor();
    assert_eq!(nocolor.selector.fg, None);
    assert_eq!(nocolor.selector.add_modifier, BOLD);
    assert_eq!(nocolor.dropdown_selected.add_modifier, REVERSED | BOLD);
    assert_eq!(Theme::plain().selector, Style::default());
    assert_eq!(Theme::try_from_overlay(overlay(None)).unwrap(), default);
}

#[test]
fn merge_keeps_built_ins() {
    let mut mine = overlay(Some("plain"));
    mine.volume = Some(Style { fg: Some(Color::Rgb(1, 2, 3)), ..Style::default() });
    let mut nocolor = overlay(None);
    nocolor.tab = Some(Style { bg: Some(Color::Indexed(4)), ..Style::default() });
    let merged = Theme::merge(vec![(String::from("mine"), mine), (String::from("nocolor"), nocolor)]).unwrap();
    let theme = merged.get("mine").unwrap();
    assert_eq!(theme.volume.fg, Some(Color::Rgb(1, 2, 3)));
    assert_eq!(theme.selector, Style::default());
    // A configured theme replaces the built-in theme of its name.
    let replaced = merged.get("nocolor").unwrap();
    assert_eq!(replaced.tab.bg, Some(Color::Indexed(4)));
    assert_eq!(replaced.selector, Theme::default().selector);
    assert_eq!(*merged.get("default").unwrap(), Theme::default());
    assert_eq!(*merged.get("plain").unwrap(), Theme::plain());
    assert!(merged.get("other").is_none());

    let refused = Theme::merge(vec![(String::from("bad"), overlay(Some("fancy")))]);
    assert_eq!(refused.unwrap_err(), "'fancy' is not a built-in theme");
}

#[test]
fn take_theme_by_name() {
    let mut themes = Theme::defaults();
    assert_eq!(take_theme(&mut themes, "plain").unwrap(), Theme::plain());
    assert!(themes.get("plain").is_none());
    assert_eq!(take_theme(&mut themes, "fancy").unwrap_err(), "theme 'fancy' does not exist");
}
