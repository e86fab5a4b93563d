use wiremix::config::char_set::{CharSet, CharSetOverlay};

fn empty_overlay() -> CharSetOverlay {
    CharSetOverlay {
        inherit: None,
        default_endpoint: None,
        default_target: None,
        object_selected_top: None,
        object_selected_center: None,
        object_selected_bottom: None,
        objects_more: None,
        volume_bar_background: None,
        volume_bar_foreground: None,
        meter_left: None,
        meter_left_overload: None,
        meter_left_unlit: None,
        meter_right: None,
        meter_right_overload: None,
        meter_right_unlit: None,
        meter_live_left: None,
        meter_live_left_unlit: None,
        meter_live_right: None,
        meter_live_right_unlit: None,
        dropdown: None,
        dropdown_item_selected: None,
        dropdown_more: None,
        tab_selected_left: None,
        tab_selected_right: None,
    }
}

#[test]
fn test_empty_overlay() {
    let overlay = empty_overlay();
    CharSet::try_from_overlay(overlay).unwrap();
}

#[test]
fn test_override_default() {
    let overlay = CharSetOverlay { dropdown: Some(String::from("$")), ..empty_overlay() };
    let char_set = CharSet::try_from_overlay(overlay).unwrap();

    assert_eq!(char_set.dropdown, "$")
}

#[test]
fn test_override_fallbacks_unset() {
    let overlay = CharSetOverlay { meter_right: Some(String::from("$")), ..empty_overlay() };
    let char_set = CharSet::try_from_overlay(overlay).unwrap();

    assert_eq!(char_set.meter_right, "$");
    assert_eq!(char_set.meter_right_overload, "$");
    assert_eq!(char_set.meter_right_unlit, "$");
}

#[test]
fn test_override_fallbacks_set() {
    let overlay = CharSetOverlay {
        meter_right: Some(String::from("$")),
        meter_right_overload: Some(String::from("%")),
        meter_right_unlit: Some(String::from(".")),
        ..empty_overlay()
    };
    let char_set = CharSet::try_from_overlay(overlay).unwrap();

    assert_eq!(char_set.meter_right, "$");
    assert_eq!(char_set.meter_right_overload, "%");
    assert_eq!(char_set.meter_right_unlit, ".");
}

#[test]
fn test_width_too_narrow() {
    let overlay = CharSetOverlay { meter_right: Some(String::from("")), ..empty_overlay() };
    let char_set = CharSet::try_from_overlay(overlay);
    assert!(char_set.is_err());
}

#[test]
fn test_width_too_wide() {
    let overlay = CharSetOverlay { meter_right: Some(String::from("$$")), ..empty_overlay() };
    let char_set = CharSet::try_from_overlay(overlay);
    assert!(char_set.is_err());
}

#[test]
fn test_width_correct() {
    let overlay = CharSetOverlay { meter_right: Some(String::from("$")), ..empty_overlay() };
    let char_set = CharSet::try_from_overlay(overlay).unwrap();
    assert_eq!(char_set.meter_right, "$");
}

#[test]
fn test_width_grapheme_cluster() {
    let overlay = CharSetOverlay { meter_right: Some(String::from("⚓︎")), ..empty_overlay() };
    let char_set = CharSet::try_from_overlay(overlay).unwrap();
    assert_eq!(char_set.meter_right, "⚓︎");
}

#[test]
fn test_width_unlimited() {
    let overlay = CharSetOverlay {
        objects_more: Some(String::from("")),
        dropdown_more: Some(String::from("$$$$$$$$$$$$$$$$$$$$$$$$")),
        ..empty_overlay()
    };
    let char_set = CharSet::try_from_overlay(overlay).unwrap();
    assert_eq!(char_set.objects_more, "");
    assert_eq!(char_set.dropdown_more, "$$$$$$$$$$$$$$$$$$$$$$$$");
}

#[test]
fn test_inherit_nonexistent() {
    let overlay = CharSetOverlay {
        inherit: Some(String::from("doesntexist")),
        meter_right: Some(String::from("$")),
        ..empty_overlay()
    };
    let char_set = CharSet::try_from_overlay(overlay);
    assert!(char_set.is_err());
}

#[test]
fn test_inherit_default() {
    let overlay = CharSetOverlay {
        inherit: Some(String::from("default")),
        meter_right: Some(String::from("$")),
        ..empty_overlay()
    };
    let char_set = CharSet::try_from_overlay(overlay).unwrap();
    assert_eq!(char_set.meter_right, "$");
    assert_eq!(char_set.meter_left, "▮");
}

#[test]
fn char_set_error_messages() {
    let overlay = CharSetOverlay { inherit: Some(String::from("compat")), ..empty_overlay() };
    assert_eq!(
        CharSet::try_from_overlay(overlay).unwrap_err(),
        "'compat' is not a built-in character set"
    );
    let overlay = CharSetOverlay {
        dropdown: Some(String::from("ab")),
        meter_left: Some(String::from("xy")),
        ..empty_overlay()
    };
    // The first field of the wrong width, in the order of the set.
    assert_eq!(
        CharSet::try_from_overlay(overlay).unwrap_err(),
        "meter_left must be 1 characters wide"
    );
}

#[test]
fn char_set_merge_adds_default() {
    let merged = CharSet::merge(vec![(
        String::from("mine"),
        CharSetOverlay { dropdown: Some(String::from("v")), ..empty_overlay() },
    )])
    .unwrap();
    assert_eq!(merged.get("mine").unwrap().dropdown, "v");
    assert_eq!(merged.get("default").unwrap().dropdown, "▼");
    let defaults = CharSet::defaults();
    assert_eq!(defaults.get("default").unwrap().meter_live_left, "■");
}

#[test]
fn char_set_merge_refuses_bad_set() {
    let merged = CharSet::merge(vec![(
        String::from("bad"),
        CharSetOverlay { tab_selected_left: Some(String::from("<<")), ..empty_overlay() },
    )]);
    assert_eq!(merged.unwrap_err(), "tab_selected_left must be 1 characters wide");
}
