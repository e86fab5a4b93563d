//! Themes: the style of each part of the mixer's display. Three themes
//! are built in; a configured theme starts from one of them and replaces
//! the styles it gives.

use vstd::prelude::*;

use crate::str_map::StrMap;
use crate::text::{concat, str_eq};

verus! {

/// A terminal color, as the terminal library names them.
#[derive(Debug, Clone, Copy, PartialEq, Eq, Structural)]
pub enum Color {
    Reset,
    Black,
    Red,
    Green,
    Yellow,
    Blue,
    Magenta,
    Cyan,
    Gray,
    DarkGray,
    LightRed,
    LightGreen,
    LightYellow,
    LightBlue,
    LightMagenta,
    LightCyan,
    White,
    Rgb(u8, u8, u8),
    Indexed(u8),
}

/// Text modifiers, each a bit of a style's set of modifiers.
pub const BOLD: u16 = 0x1;
pub const DIM: u16 = 0x2;
pub const ITALIC: u16 = 0x4;
pub const UNDERLINED: u16 = 0x8;
pub const SLOW_BLINK: u16 = 0x10;
pub const RAPID_BLINK: u16 = 0x20;
pub const REVERSED: u16 = 0x40;
pub const HIDDEN: u16 = 0x80;
pub const CROSSED_OUT: u16 = 0x100;

/// How text is drawn: its colors, and the modifiers it adds and removes.
#[derive(Debug, Clone, Copy, PartialEq, Eq, Structural)]
pub struct Style {
    pub fg: Option<Color>,
    pub bg: Option<Color>,
    pub underline_color: Option<Color>,
    pub add_modifier: u16,
    pub sub_modifier: u16,
}

/// The style that changes nothing.
pub open spec fn plain_style() -> Style {
    Style { fg: None, bg: None, underline_color: None, add_modifier: 0, sub_modifier: 0 }
}

/// Text in a color.
pub open spec fn colored(c: Color) -> Style {
    Style { fg: Some(c), ..plain_style() }
}

/// Text with modifiers.
pub open spec fn modified(m: u16) -> Style {
    Style { add_modifier: m, ..plain_style() }
}

impl Default for Style {
    fn default() -> (s: Style)
        ensures
            s == plain_style(),
    {
        Style { fg: None, bg: None, underline_color: None, add_modifier: 0, sub_modifier: 0 }
    }
}

/// The style of each part of the display.
#[derive(Debug, Clone, Copy, PartialEq, Eq, Structural)]
pub struct Theme {
    pub default_device: Style,
    pub default_stream: Style,
    pub selector: Style,
    pub tab: Style,
    pub tab_selected: Style,
    pub tab_marker: Style,
    pub list_more: Style,
    pub node_title: Style,
    pub node_target: Style,
    pub volume: Style,
    pub volume_empty: Style,
    pub volume_filled: Style,
    pub meter_inactive: Style,
    pub meter_active: Style,
    pub meter_overload: Style,
    pub meter_center_inactive: Style,
    pub meter_center_active: Style,
    pub config_device: Style,
    pub config_profile: Style,
    pub dropdown_icon: Style,
    pub dropdown_border: Style,
    pub dropdown_item: Style,
    pub dropdown_selected: Style,
    pub dropdown_more: Style,
}

/// A theme as configured: the built-in theme it starts from, and the
/// styles it replaces.
#[derive(Debug)]
pub struct ThemeOverlay {
    pub inherit: Option<String>,
    pub default_device: Option<Style>,
    pub default_stream: Option<Style>,
    pub selector: Option<Style>,
    pub tab: Option<Style>,
    pub tab_selected: Option<Style>,
    pub tab_marker: Option<Style>,
    pub list_more: Option<Style>,
    pub node_title: Option<Style>,
    pub node_target: Option<Style>,
    pub volume: Option<Style>,
    pub volume_empty: Option<Style>,
    pub volume_filled: Option<Style>,
    pub meter_inactive: Option<Style>,
    pub meter_active: Option<Style>,
    pub meter_overload: Option<Style>,
    pub meter_center_inactive: Option<Style>,
    pub meter_center_active: Option<Style>,
    pub config_device: Option<Style>,
    pub config_profile: Option<Style>,
    pub dropdown_icon: Option<Style>,
    pub dropdown_border: Option<Style>,
    pub dropdown_item: Option<Style>,
    pub dropdown_selected: Option<Style>,
    pub dropdown_more: Option<Style>,
}

/// The built-in `default` theme.
pub open spec fn default_theme() -> Theme {
    Theme {
        default_device: plain_style(),
        default_stream: plain_style(),
        selector: colored(Color::LightCyan),
        tab: plain_style(),
        tab_selected: colored(Color::LightCyan),
        tab_marker: colored(Color::LightCyan),
        list_more: colored(Color::DarkGray),
        node_title: plain_style(),
        node_target: plain_style(),
        volume: plain_style(),
        volume_empty: colored(Color::DarkGray),
        volume_filled: colored(Color::LightBlue),
        meter_inactive: colored(Color::DarkGray),
        meter_active: colored(Color::LightGreen),
        meter_overload: colored(Color::Red),
        meter_center_inactive: colored(Color::DarkGray),
        meter_center_active: colored(Color::LightGreen),
        config_device: plain_style(),
        config_profile: plain_style(),
        dropdown_icon: plain_style(),
        dropdown_border: plain_style(),
        dropdown_item: plain_style(),
        dropdown_selected: Style { fg: Some(Color::LightCyan), add_modifier: REVERSED, ..plain_style() },
        dropdown_more: colored(Color::DarkGray),
    }
}

/// The built-in `nocolor` theme, which uses no colors.
pub open spec fn nocolor_theme() -> Theme {
    Theme {
        default_device: plain_style(),
        default_stream: plain_style(),
        selector: modified(BOLD),
        tab: plain_style(),
        tab_selected: modified(BOLD),
        tab_marker: modified(BOLD),
        list_more: plain_style(),
        node_title: plain_style(),
        node_target: plain_style(),
        volume: plain_style(),
        volume_empty: modified(DIM),
        volume_filled: modified(BOLD),
        meter_inactive: modified(DIM),
        meter_active: modified(BOLD),
        meter_overload: modified(BOLD),
        meter_center_inactive: modified(DIM),
        meter_center_active: modified(BOLD),
        config_device: plain_style(),
        config_profile: plain_style(),
        dropdown_icon: plain_style(),
        dropdown_border: plain_style(),
        dropdown_item: plain_style(),
        dropdown_selected: modified(REVERSED | BOLD),
        dropdown_more: plain_style(),
    }
}

/// The built-in `plain` theme, which styles nothing.
pub open spec fn plain_theme() -> Theme {
    Theme {
        default_device: plain_style(),
        default_stream: plain_style(),
        selector: plain_style(),
        tab: plain_style(),
        tab_selected: plain_style(),
        tab_marker: plain_style(),
        list_more: plain_style(),
        node_title: plain_style(),
        node_target: plain_style(),
        volume: plain_style(),
        volume_empty: plain_style(),
        volume_filled: plain_style(),
        meter_inactive: plain_style(),
        meter_active: plain_style(),
        meter_overload: plain_style(),
        meter_center_inactive: plain_style(),
        meter_center_active: plain_style(),
        config_device: plain_style(),
        config_profile: plain_style(),
        dropdown_icon: plain_style(),
        dropdown_border: plain_style(),
        dropdown_item: plain_style(),
        dropdown_selected: plain_style(),
        dropdown_more: plain_style(),
    }
}

/// The built-in theme of a name.
pub open spec fn built_in_theme(name: Seq<char>) -> Option<Theme> {
    if name == "default"@ {
        Some(default_theme())
    } else if name == "nocolor"@ {
        Some(nocolor_theme())
    } else if name == "plain"@ {
        Some(plain_theme())
    } else {
        None
    }
}

/// The theme that an overlay starts from: the one it inherits, else
/// `default`; nothing when it inherits a theme that is not built in.
pub open spec fn overlay_base(o: ThemeOverlay) -> Option<Theme> {
    match o.inherit {
        Some(name) => built_in_theme(name@),
        None => Some(default_theme()),
    }
}

/// A configured style, else the one of the base.
pub open spec fn pick_style(value: Option<Style>, base: Style) -> Style {
    match value {
        Some(s) => s,
        None => base,
    }
}

/// The base with the styles that the overlay gives.
pub open spec fn overlaid_theme(o: ThemeOverlay, base: Theme) -> Theme {
    Theme {
        default_device: pick_style(o.default_device, base.default_device),
        default_stream: pick_style(o.default_stream, base.default_stream),
        selector: pick_style(o.selector, base.selector),
        tab: pick_style(o.tab, base.tab),
        tab_selected: pick_style(o.tab_selected, base.tab_selected),
        tab_marker: pick_style(o.tab_marker, base.tab_marker),
        list_more: pick_style(o.list_more, base.list_more),
        node_title: pick_style(o.node_title, base.node_title),
        node_target: pick_style(o.node_target, base.node_target),
        volume: pick_style(o.volume, base.volume),
        volume_empty: pick_style(o.volume_empty, base.volume_empty),
        volume_filled: pick_style(o.volume_filled, base.volume_filled),
        meter_inactive: pick_style(o.meter_inactive, base.meter_inactive),
        meter_active: pick_style(o.meter_active, base.meter_active),
        meter_overload: pick_style(o.meter_overload, base.meter_overload),
        meter_center_inactive: pick_style(o.meter_center_inactive, base.meter_center_inactive),
        meter_center_active: pick_style(o.meter_center_active, base.meter_center_active),
        config_device: pick_style(o.config_device, base.config_device),
        config_profile: pick_style(o.config_profile, base.config_profile),
        dropdown_icon: pick_style(o.dropdown_icon, base.dropdown_icon),
        dropdown_border: pick_style(o.dropdown_border, base.dropdown_border),
        dropdown_item: pick_style(o.dropdown_item, base.dropdown_item),
        dropdown_selected: pick_style(o.dropdown_selected, base.dropdown_selected),
        dropdown_more: pick_style(o.dropdown_more, base.dropdown_more),
    }
}

/// Why an overlay is refused: it inherits a theme that is not built in.
pub open spec fn theme_error(o: ThemeOverlay) -> Option<Seq<char>> {
    match overlay_base(o) {
        Some(_) => None,
        None => Some("'"@ + o.inherit->0@ + "' is not a built-in theme"@),
    }
}

fn pick(value: Option<Style>, base: Style) -> (s: Style)
    ensures
        s == pick_style(value, base),
{
    match value {
        Some(s) => s,
        None => base,
    }
}

fn overlaid(overlay: ThemeOverlay, base: Theme) -> (t: Theme)
    ensures
        t == overlaid_theme(overlay, base),
{
    Theme {
        default_device: pick(overlay.default_device, base.default_device),
        default_stream: pick(overlay.default_stream, base.default_stream),
        selector: pick(overlay.selector, base.selector),
        tab: pick(overlay.tab, base.tab),
        tab_selected: pick(overlay.tab_selected, base.tab_selected),
        tab_marker: pick(overlay.tab_marker, base.tab_marker),
        list_more: pick(overlay.list_more, base.list_more),
        node_title: pick(overlay.node_title, base.node_title),
        node_target: pick(overlay.node_target, base.node_target),
        volume: pick(overlay.volume, base.volume),
        volume_empty: pick(overlay.volume_empty, base.volume_empty),
        volume_filled: pick(overlay.volume_filled, base.volume_filled),
        meter_inactive: pick(overlay.meter_inactive, base.meter_inactive),
        meter_active: pick(overlay.meter_active, base.meter_active),
        meter_overload: pick(overlay.meter_overload, base.meter_overload),
        meter_center_inactive: pick(overlay.meter_center_inactive, base.meter_center_inactive),
        meter_center_active: pick(overlay.meter_center_active, base.meter_center_active),
        config_device: pick(overlay.config_device, base.config_device),
        config_profile: pick(overlay.config_profile, base.config_profile),
        dropdown_icon: pick(overlay.dropdown_icon, base.dropdown_icon),
        dropdown_border: pick(overlay.dropdown_border, base.dropdown_border),
        dropdown_item: pick(overlay.dropdown_item, base.dropdown_item),
        dropdown_selected: pick(overlay.dropdown_selected, base.dropdown_selected),
        dropdown_more: pick(overlay.dropdown_more, base.dropdown_more),
    }
}

impl Default for Theme {
    fn default() -> (t: Theme)
        ensures
            t == default_theme(),
    {
        Theme {
            default_device: Style::default(),
            default_stream: Style::default(),
            selector: Style { fg: Some(Color::LightCyan), ..Style::default() },
            tab: Style::default(),
            tab_selected: Style { fg: Some(Color::LightCyan), ..Style::default() },
            tab_marker: Style { fg: Some(Color::LightCyan), ..Style::default() },
            list_more: Style { fg: Some(Color::DarkGray), ..Style::default() },
            node_title: Style::default(),
            node_target: Style::default(),
            volume: Style::default(),
            volume_empty: Style { fg: Some(Color::DarkGray), ..Style::default() },
            volume_filled: Style { fg: Some(Color::LightBlue), ..Style::default() },
            meter_inactive: Style { fg: Some(Color::DarkGray), ..Style::default() },
            meter_active: Style { fg: Some(Color::LightGreen), ..Style::default() },
            meter_overload: Style { fg: Some(Color::Red), ..Style::default() },
            meter_center_inactive: Style { fg: Some(Color::DarkGray), ..Style::default() },
            meter_center_active: Style { fg: Some(Color::LightGreen), ..Style::default() },
            config_device: Style::default(),
            config_profile: Style::default(),
            dropdown_icon: Style::default(),
            dropdown_border: Style::default(),
            dropdown_item: Style::default(),
            dropdown_selected: Style { fg: Some(Color::LightCyan), add_modifier: REVERSED, ..Style::default() },
            dropdown_more: Style { fg: Some(Color::DarkGray), ..Style::default() },
        }
    }
}

impl Theme {
    pub fn nocolor() -> (t: Theme)
        ensures
            t == nocolor_theme(),
    {
        Theme {
            default_device: Style::default(),
            default_stream: Style::default(),
            selector: Style { add_modifier: BOLD, ..Style::default() },
            tab: Style::default(),
            tab_selected: Style { add_modifier: BOLD, ..Style::default() },
            tab_marker: Style { add_modifier: BOLD, ..Style::default() },
            list_more: Style::default(),
            node_title: Style::default(),
            node_target: Style::default(),
            volume: Style::default(),
            volume_empty: Style { add_modifier: DIM, ..Style::default() },
            volume_filled: Style { add_modifier: BOLD, ..Style::default() },
            meter_inactive: Style { add_modifier: DIM, ..Style::default() },
            meter_active: Style { add_modifier: BOLD, ..Style::default() },
            meter_overload: Style { add_modifier: BOLD, ..Style::default() },
            meter_center_inactive: Style { add_modifier: DIM, ..Style::default() },
            meter_center_active: Style { add_modifier: BOLD, ..Style::default() },
            config_device: Style::default(),
            config_profile: Style::default(),
            dropdown_icon: Style::default(),
            dropdown_border: Style::default(),
            dropdown_item: Style::default(),
            dropdown_selected: Style { add_modifier: REVERSED | BOLD, ..Style::default() },
            dropdown_more: Style::default(),
        }
    }

    pub fn plain() -> (t: Theme)
        ensures
            t == plain_theme(),
    {
        Theme {
            default_device: Style::default(),
            default_stream: Style::default(),
            selector: Style::default(),
            tab: Style::default(),
            tab_selected: Style::default(),
            tab_marker: Style::default(),
            list_more: Style::default(),
            node_title: Style::default(),
            node_target: Style::default(),
            volume: Style::default(),
            volume_empty: Style::default(),
            volume_filled: Style::default(),
            meter_inactive: Style::default(),
            meter_active: Style::default(),
            meter_overload: Style::default(),
            meter_center_inactive: Style::default(),
            meter_center_active: Style::default(),
            config_device: Style::default(),
            config_profile: Style::default(),
            dropdown_icon: Style::default(),
            dropdown_border: Style::default(),
            dropdown_item: Style::default(),
            dropdown_selected: Style::default(),
            dropdown_more: Style::default(),
        }
    }

    /// The theme an overlay gives over the built-in theme it inherits (by
    /// default `default`); refuses one that inherits a theme that is not
    /// built in.
    pub fn try_from_overlay(overlay: ThemeOverlay) -> (result: Result<Theme, String>)
        ensures
            match result {
                Ok(t) => theme_error(overlay) is None && t == overlaid_theme(overlay, overlay_base(overlay)->0),
                Err(m) => theme_error(overlay) == Some(m@),
            },
    {
        proof {
            reveal_strlit("default");
            reveal_strlit("nocolor");
            reveal_strlit("plain");
        }
        let base = match &overlay.inherit {
            Some(name) => {
                if str_eq(name.as_str(), "default") {
                    Theme::default()
                } else if str_eq(name.as_str(), "nocolor") {
                    Theme::nocolor()
                } else if str_eq(name.as_str(), "plain") {
                    Theme::plain()
                } else {
                    let m = concat("'", name.as_str());
                    return Err(concat(m.as_str(), "' is not a built-in theme"));
                }
            },
            None => Theme::default(),
        };
        Ok(overlaid(overlay, base))
    }
}

/// The names of configured themes.
pub open spec fn configured_theme(configured: Seq<(String, ThemeOverlay)>, k: Seq<char>) -> bool {
    exists|i: int| 0 <= i < configured.len() && (#[trigger] configured[i]).0@ == k
}

/// `i` is the last entry for its name.
pub open spec fn last_for_name(configured: Seq<(String, ThemeOverlay)>, i: int) -> bool {
    forall|j: int| i < j < configured.len() ==> (#[trigger] configured[j]).0@ != configured[i].0@
}

/// The themes merged from the configured ones: each configured theme over
/// its base (the last given for a name), and each built-in theme under its
/// name unless one is configured under that name.
pub open spec fn merged_themes(configured: Seq<(String, ThemeOverlay)>, m: Map<Seq<char>, Theme>) -> bool {
    &&& forall|k: Seq<char>| #[trigger]
        m.contains_key(k) <==> (configured_theme(configured, k) || built_in_theme(k) is Some)
    &&& forall|i: int|
        0 <= i < configured.len() && last_for_name(configured, i) ==> m[(#[trigger] configured[i]).0@]
            == overlaid_theme(configured[i].1, overlay_base(configured[i].1)->0)
    &&& forall|k: Seq<char>|
        !configured_theme(configured, k) && #[trigger] built_in_theme(k) is Some ==> m[k] == built_in_theme(
            k,
        )->0
}

impl Theme {
    /// The built-in themes, by name.
    pub fn defaults() -> (themes: StrMap<Theme>)
        ensures
            forall|k: Seq<char>| #[trigger] themes@.contains_key(k) <==> built_in_theme(k) is Some,
            forall|k: Seq<char>| #[trigger] built_in_theme(k) is Some ==> themes@[k] == built_in_theme(k)->0,
    {
        proof {
            reveal_strlit("default");
            reveal_strlit("nocolor");
            reveal_strlit("plain");
        }
        let mut themes = StrMap::new();
        themes.insert(String::from_str("default"), Theme::default());
        themes.insert(String::from_str("nocolor"), Theme::nocolor());
        themes.insert(String::from_str("plain"), Theme::plain());
        proof {
            assert("default"@[0] != "nocolor"@[0]);
            assert("default"@.len() != "plain"@.len());
            assert("nocolor"@.len() != "plain"@.len());
        }
        themes
    }

    /// Builds each configured theme over its base, and adds each built-in
    /// theme whose name is not configured. Refuses the first configured
    /// theme that is refused, with its error.
    pub fn merge(configured: Vec<(String, ThemeOverlay)>) -> (result: Result<StrMap<Theme>, String>)
        ensures
            match result {
                Ok(m) => (forall|i: int| 0 <= i < configured@.len() ==> theme_error(
                    (#[trigger] configured@[i]).1,
                ) is None) && merged_themes(configured@, m@),
                Err(message) => exists|i: int|
                    0 <= i < configured@.len() && theme_error((#[trigger] configured@[i]).1) == Some(
                        message@,
                    ) && forall|j: int| 0 <= j < i ==> theme_error(#[trigger] configured@[j].1) is None,
            },
    {
        let ghost all = configured@;
        let mut rest = configured;
        let mut merged: StrMap<Theme> = StrMap::new();
        let mut i: usize = 0;
        let n = rest.len();
        while i < n
            invariant
                n == all.len(),
                all == configured@,
                i <= n,
                rest@ == all.skip(i as int),
                forall|j: int| 0 <= j < i ==> theme_error(#[trigger] all[j].1) is None,
                forall|k: Seq<char>| #[trigger] merged@.contains_key(k) <==> configured_theme(all.take(i as int), k),
                forall|j: int|
                    0 <= j < i && last_for_name(all.take(i as int), j) ==> merged@[(#[trigger] all[j]).0@]
                        == overlaid_theme(all[j].1, overlay_base(all[j].1)->0),
            decreases n - i,
        {
            assert(rest@[0] == all[i as int]);
            let (name, overlay) = rest.remove(0);
            assert(rest@ =~= all.skip(i + 1));
            match Theme::try_from_overlay(overlay) {
                Ok(theme) => {
                    merged.insert(name, theme);
                    proof {
                        let t = all.take(i + 1);
                        assert(t =~= all.take(i as int).push(all[i as int]));
                        assert forall|k: Seq<char>| #[trigger] merged@.contains_key(k) <==> configured_theme(t, k) by {
                            if configured_theme(all.take(i as int), k) {
                                let j = choose|j: int| 0 <= j < i && (#[trigger] all.take(i as int)[j]).0@ == k;
                                assert(t[j] == all.take(i as int)[j]);
                            }
                            if configured_theme(t, k) {
                                let j = choose|j: int| 0 <= j < t.len() && (#[trigger] t[j]).0@ == k;
                                if j < i {
                                    assert(all.take(i as int)[j] == t[j]);
                                }
                            }
                            assert(t[i as int] == all[i as int]);
                        }
                        assert forall|j: int| 0 <= j < i + 1 && last_for_name(t, j) implies merged@[(
                        #[trigger] all[j]).0@] == overlaid_theme(all[j].1, overlay_base(all[j].1)->0) by {
                            if j < i {
                                assert(t[i as int] == all[i as int]);
                                assert(all[j].0@ != all[i as int].0@);
                                assert forall|x: int| j < x < i implies (#[trigger] all.take(i as int)[x]).0@
                                    != all.take(i as int)[j].0@ by {
                                    assert(t[x] == all.take(i as int)[x]);
                                }
                            }
                        }
                    }
                },
                Err(message) => {
                    assert(theme_error(all[i as int].1) == Some(message@));
                    return Err(message);
                },
            }
            i += 1;
        }
        assert(all.take(n as int) =~= all);
        proof {
            reveal_strlit("default");
            reveal_strlit("nocolor");
            reveal_strlit("plain");
        }
        let ghost configured_only = merged@;
        if !merged.contains_key("default") {
            merged.insert(String::from_str("default"), Theme::default());
        }
        if !merged.contains_key("nocolor") {
            merged.insert(String::from_str("nocolor"), Theme::nocolor());
        }
        if !merged.contains_key("plain") {
            merged.insert(String::from_str("plain"), Theme::plain());
        }
        proof {
            assert forall|j: int|
                0 <= j < all.len() && last_for_name(all, j) implies merged@[(#[trigger] all[j]).0@]
                == overlaid_theme(all[j].1, overlay_base(all[j].1)->0) by {
                assert(configured_theme(all, all[j].0@));
                assert(configured_only.contains_key(all[j].0@));
            }
            assert forall|k: Seq<char>|
                !configured_theme(all, k) && #[trigger] built_in_theme(k) is Some implies merged@[k]
                == built_in_theme(k)->0 by {
                assert(!configured_only.contains_key(k));
            }
        }
        Ok(merged)
    }
}

} // verus!
