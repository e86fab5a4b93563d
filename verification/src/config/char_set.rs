//! The characters the mixer draws with, and how a configured character set
//! overrides the built-in one. Each character is checked for its width.

use vstd::prelude::*;

use crate::str_map::StrMap;
use crate::text::{concat, decimal, decimal_text, str_eq};
use crate::width::{str_width, text_width};

verus! {

/// The characters the mixer draws with.
#[derive(Debug)]
pub struct CharSet {
    pub default_endpoint: String,
    pub default_target: String,
    pub object_selected_top: String,
    pub object_selected_center: String,
    pub object_selected_bottom: String,
    pub objects_more: String,
    pub volume_bar_background: String,
    pub volume_bar_foreground: String,
    pub meter_left: String,
    pub meter_left_overload: String,
    pub meter_left_unlit: String,
    pub meter_right: String,
    pub meter_right_overload: String,
    pub meter_right_unlit: String,
    pub meter_live_left: String,
    pub meter_live_left_unlit: String,
    pub meter_live_right: String,
    pub meter_live_right_unlit: String,
    pub dropdown: String,
    pub dropdown_item_selected: String,
    pub dropdown_more: String,
    pub tab_selected_left: String,
    pub tab_selected_right: String,
}

/// A character set as configured: it may inherit from a built-in set, and
/// gives only the characters it changes.
#[derive(Debug)]
pub struct CharSetOverlay {
    pub inherit: Option<String>,
    pub default_endpoint: Option<String>,
    pub default_target: Option<String>,
    pub object_selected_top: Option<String>,
    pub object_selected_center: Option<String>,
    pub object_selected_bottom: Option<String>,
    pub objects_more: Option<String>,
    pub volume_bar_background: Option<String>,
    pub volume_bar_foreground: Option<String>,
    pub meter_left: Option<String>,
    pub meter_left_overload: Option<String>,
    pub meter_left_unlit: Option<String>,
    pub meter_right: Option<String>,
    pub meter_right_overload: Option<String>,
    pub meter_right_unlit: Option<String>,
    pub meter_live_left: Option<String>,
    pub meter_live_left_unlit: Option<String>,
    pub meter_live_right: Option<String>,
    pub meter_live_right_unlit: Option<String>,
    pub dropdown: Option<String>,
    pub dropdown_item_selected: Option<String>,
    pub dropdown_more: Option<String>,
    pub tab_selected_left: Option<String>,
    pub tab_selected_right: Option<String>,
}



/// The characters an overlay gives, in the order of the fields.
pub open spec fn overlay_texts(o: CharSetOverlay) -> Seq<Option<String>> {
    seq![
        o.default_endpoint,
        o.default_target,
        o.object_selected_top,
        o.object_selected_center,
        o.object_selected_bottom,
        o.objects_more,
        o.volume_bar_background,
        o.volume_bar_foreground,
        o.meter_left,
        o.meter_left_overload,
        o.meter_left_unlit,
        o.meter_right,
        o.meter_right_overload,
        o.meter_right_unlit,
        o.meter_live_left,
        o.meter_live_left_unlit,
        o.meter_live_right,
        o.meter_live_right_unlit,
        o.dropdown,
        o.dropdown_item_selected,
        o.dropdown_more,
        o.tab_selected_left,
        o.tab_selected_right,
    ]
}

/// The names of the fields, in order.
pub open spec fn field_name(field: int) -> Seq<char> {
    seq![
        "default_endpoint"@,
        "default_target"@,
        "object_selected_top"@,
        "object_selected_center"@,
        "object_selected_bottom"@,
        "objects_more"@,
        "volume_bar_background"@,
        "volume_bar_foreground"@,
        "meter_left"@,
        "meter_left_overload"@,
        "meter_left_unlit"@,
        "meter_right"@,
        "meter_right_overload"@,
        "meter_right_unlit"@,
        "meter_live_left"@,
        "meter_live_left_unlit"@,
        "meter_live_right"@,
        "meter_live_right_unlit"@,
        "dropdown"@,
        "dropdown_item_selected"@,
        "dropdown_more"@,
        "tab_selected_left"@,
        "tab_selected_right"@,
    ][field]
}

/// The width a field's characters must have; 0 for no limit.
pub open spec fn field_width(field: int) -> nat {
    if field == 5 || field == 20 {
        0
    } else {
        1
    }
}


/// A configured value, else the value of its fallback, else the default.
pub open spec fn pick(value: Option<String>, fallback: Option<String>, default: Seq<char>) -> Seq<char> {
    match value {
        Some(v) => v@,
        None => match fallback {
            Some(f) => f@,
            None => default,
        },
    }
}

/// `c` is the built-in character set.
pub open spec fn is_default_char_set(c: CharSet) -> bool {
    &&& c.default_endpoint@ == "◇"@
    &&& c.default_target@ == "◇"@
    &&& c.object_selected_top@ == "░"@
    &&& c.object_selected_center@ == "▒"@
    &&& c.object_selected_bottom@ == "░"@
    &&& c.objects_more@ == "•••"@
    &&& c.volume_bar_background@ == "╌"@
    &&& c.volume_bar_foreground@ == "━"@
    &&& c.meter_left@ == "▮"@
    &&& c.meter_left_overload@ == "▮"@
    &&& c.meter_left_unlit@ == "▮"@
    &&& c.meter_right@ == "▮"@
    &&& c.meter_right_overload@ == "▮"@
    &&& c.meter_right_unlit@ == "▮"@
    &&& c.meter_live_left@ == "■"@
    &&& c.meter_live_left_unlit@ == "■"@
    &&& c.meter_live_right@ == "■"@
    &&& c.meter_live_right_unlit@ == "■"@
    &&& c.dropdown@ == "▼"@
    &&& c.dropdown_item_selected@ == ">"@
    &&& c.dropdown_more@ == "•••"@
    &&& c.tab_selected_left@ == "["@
    &&& c.tab_selected_right@ == "]"@
}

/// `c` is the set an accepted overlay gives: each character as the overlay
/// gives it, else (for the other meter characters of a group) as the
/// group's first is given, else the built-in one.
pub open spec fn overlaid_char_set(o: CharSetOverlay, c: CharSet) -> bool {
    &&& c.default_endpoint@ == pick(o.default_endpoint, None, "◇"@)
    &&& c.default_target@ == pick(o.default_target, None, "◇"@)
    &&& c.object_selected_top@ == pick(o.object_selected_top, None, "░"@)
    &&& c.object_selected_center@ == pick(o.object_selected_center, None, "▒"@)
    &&& c.object_selected_bottom@ == pick(o.object_selected_bottom, None, "░"@)
    &&& c.objects_more@ == pick(o.objects_more, None, "•••"@)
    &&& c.volume_bar_background@ == pick(o.volume_bar_background, None, "╌"@)
    &&& c.volume_bar_foreground@ == pick(o.volume_bar_foreground, None, "━"@)
    &&& c.meter_left@ == pick(o.meter_left, None, "▮"@)
    &&& c.meter_left_overload@ == pick(o.meter_left_overload, o.meter_left, "▮"@)
    &&& c.meter_left_unlit@ == pick(o.meter_left_unlit, o.meter_left, "▮"@)
    &&& c.meter_right@ == pick(o.meter_right, None, "▮"@)
    &&& c.meter_right_overload@ == pick(o.meter_right_overload, o.meter_right, "▮"@)
    &&& c.meter_right_unlit@ == pick(o.meter_right_unlit, o.meter_right, "▮"@)
    &&& c.meter_live_left@ == pick(o.meter_live_left, None, "■"@)
    &&& c.meter_live_left_unlit@ == pick(o.meter_live_left_unlit, o.meter_live_left, "■"@)
    &&& c.meter_live_right@ == pick(o.meter_live_right, None, "■"@)
    &&& c.meter_live_right_unlit@ == pick(o.meter_live_right_unlit, o.meter_live_right, "■"@)
    &&& c.dropdown@ == pick(o.dropdown, None, "▼"@)
    &&& c.dropdown_item_selected@ == pick(o.dropdown_item_selected, None, ">"@)
    &&& c.dropdown_more@ == pick(o.dropdown_more, None, "•••"@)
    &&& c.tab_selected_left@ == pick(o.tab_selected_left, None, "["@)
    &&& c.tab_selected_right@ == pick(o.tab_selected_right, None, "]"@)
}

/// The message for a field of the wrong width.
pub open spec fn width_message(field: int) -> Seq<char> {
    field_name(field) + " must be "@ + decimal_text(field_width(field)) + " characters wide"@
}

/// Whether the overlay's value for `field`, if any, has the width the field
/// needs.
pub open spec fn width_ok(o: CharSetOverlay, field: int) -> bool {
    match overlay_texts(o)[field] {
        Some(v) => field_width(field) == 0 || text_width(v@) == field_width(field),
        None => true,
    }
}

/// The first field, from `from` on, whose value has the wrong width.
pub open spec fn first_bad_width(o: CharSetOverlay, from: int) -> Option<int>
    decreases 23 - from,
{
    if from >= 23 || from < 0 {
        None
    } else if !width_ok(o, from) {
        Some(from)
    } else {
        first_bad_width(o, from + 1)
    }
}


/// The error an overlay is refused with: an inherited set that is not
/// built in, else the first field of the wrong width.
pub open spec fn overlay_error(o: CharSetOverlay) -> Option<Seq<char>> {
    match o.inherit {
        Some(name) => if name@ != "default"@ {
            Some("'"@ + name@ + "' is not a built-in character set"@)
        } else {
            match first_bad_width(o, 0) {
                Some(f) => Some(width_message(f)),
                None => None,
            }
        },
        None => match first_bad_width(o, 0) {
            Some(f) => Some(width_message(f)),
            None => None,
        },
    }
}

impl Default for CharSet {
    fn default() -> (c: CharSet)
        ensures
            is_default_char_set(c),
    {
        let c = CharSet {
            default_endpoint: String::from_str("◇"),
            default_target: String::from_str("◇"),
            object_selected_top: String::from_str("░"),
            object_selected_center: String::from_str("▒"),
            object_selected_bottom: String::from_str("░"),
            objects_more: String::from_str("•••"),
            volume_bar_background: String::from_str("╌"),
            volume_bar_foreground: String::from_str("━"),
            meter_left: String::from_str("▮"),
            meter_left_overload: String::from_str("▮"),
            meter_left_unlit: String::from_str("▮"),
            meter_right: String::from_str("▮"),
            meter_right_overload: String::from_str("▮"),
            meter_right_unlit: String::from_str("▮"),
            meter_live_left: String::from_str("■"),
            meter_live_left_unlit: String::from_str("■"),
            meter_live_right: String::from_str("■"),
            meter_live_right_unlit: String::from_str("■"),
            dropdown: String::from_str("▼"),
            dropdown_item_selected: String::from_str(">"),
            dropdown_more: String::from_str("•••"),
            tab_selected_left: String::from_str("["),
            tab_selected_right: String::from_str("]"),
        };
        c
    }
}

/// Checks that the overlay's value for `field`, if any, has the needed width.
fn check_width(value: &Option<String>, name: &str, width: usize) -> (r: Result<(), String>)
    requires
        width <= 1,
    ensures
        match r {
            Ok(()) => match value {
                Some(v) => width == 0 || text_width(v@) == width,
                None => true,
            },
            Err(m) => (match value {
                Some(v) => width != 0 && text_width(v@) != width,
                None => false,
            }) && m@ == name@ + " must be "@ + decimal_text(width as nat) + " characters wide"@,
        },
{
    match value {
        Some(v) => {
            if width > 0 && str_width(v.as_str()) != width {
                let m = concat(name, " must be ");
                let m = concat(m.as_str(), decimal(width as u32).as_str());
                let m = concat(m.as_str(), " characters wide");
                return Err(m);
            }
            Ok(())
        },
        None => Ok(()),
    }
}

fn take_text(value: Option<String>, fallback: &Option<String>, default: &str) -> (t: String)
    ensures
        t@ == match value {
            Some(v) => v@,
            None => match fallback {
                Some(f) => f@,
                None => default@,
            },
        },
{
    match value {
        Some(v) => v,
        None => match fallback {
            Some(f) => f.clone(),
            None => String::from_str(default),
        },
    }
}

/// The overlay's value for the field at `field`.
fn overlay_field(o: &CharSetOverlay, field: usize) -> (v: &Option<String>)
    requires
        field < 23,
    ensures
        *v == overlay_texts(*o)[field as int],
{
    match field {
        0 => &o.default_endpoint,
        1 => &o.default_target,
        2 => &o.object_selected_top,
        3 => &o.object_selected_center,
        4 => &o.object_selected_bottom,
        5 => &o.objects_more,
        6 => &o.volume_bar_background,
        7 => &o.volume_bar_foreground,
        8 => &o.meter_left,
        9 => &o.meter_left_overload,
        10 => &o.meter_left_unlit,
        11 => &o.meter_right,
        12 => &o.meter_right_overload,
        13 => &o.meter_right_unlit,
        14 => &o.meter_live_left,
        15 => &o.meter_live_left_unlit,
        16 => &o.meter_live_right,
        17 => &o.meter_live_right_unlit,
        18 => &o.dropdown,
        19 => &o.dropdown_item_selected,
        20 => &o.dropdown_more,
        21 => &o.tab_selected_left,
        _ => &o.tab_selected_right,
    }
}

fn field_name_exec(field: usize) -> (name: &'static str)
    requires
        field < 23,
    ensures
        name@ == field_name(field as int),
{
    match field {
        0 => "default_endpoint",
        1 => "default_target",
        2 => "object_selected_top",
        3 => "object_selected_center",
        4 => "object_selected_bottom",
        5 => "objects_more",
        6 => "volume_bar_background",
        7 => "volume_bar_foreground",
        8 => "meter_left",
        9 => "meter_left_overload",
        10 => "meter_left_unlit",
        11 => "meter_right",
        12 => "meter_right_overload",
        13 => "meter_right_unlit",
        14 => "meter_live_left",
        15 => "meter_live_left_unlit",
        16 => "meter_live_right",
        17 => "meter_live_right_unlit",
        18 => "dropdown",
        19 => "dropdown_item_selected",
        20 => "dropdown_more",
        21 => "tab_selected_left",
        _ => "tab_selected_right",
    }
}

fn field_width_exec(field: usize) -> (width: usize)
    requires
        field < 23,
    ensures
        width == field_width(field as int),
{
    if field == 5 || field == 20 {
        0
    } else {
        1
    }
}

/// The first field of the wrong width, as an error.
fn check_widths(o: &CharSetOverlay) -> (r: Result<(), String>)
    ensures
        match r {
            Ok(()) => first_bad_width(*o, 0) is None,
            Err(m) => first_bad_width(*o, 0) matches Some(f) && m@ == width_message(f),
        },
{
    let mut i: usize = 0;
    while i < 23
        invariant
            i <= 23,
            forall|f: int| 0 <= f < i ==> width_ok(*o, f),
        decreases 23 - i,
    {
        match check_width(overlay_field(o, i), field_name_exec(i), field_width_exec(i)) {
            Ok(()) => {},
            Err(m) => {
                proof {
                    lemma_first_bad_width_at(*o, i as int);
                }
                return Err(m);
            },
        }
        i += 1;
    }
    proof {
        lemma_no_bad_width(*o);
    }
    Ok(())
}

/// The character set an overlay gives, its fields taken as `overlaid_text`
/// says.
fn overlaid(overlay: CharSetOverlay) -> (c: CharSet)
    ensures
        overlaid_char_set(overlay, c),
{
        let ghost o = overlay;
        let CharSetOverlay {
            inherit: _,
            default_endpoint,
            default_target,
            object_selected_top,
            object_selected_center,
            object_selected_bottom,
            objects_more,
            volume_bar_background,
            volume_bar_foreground,
            meter_left,
            meter_left_overload,
            meter_left_unlit,
            meter_right,
            meter_right_overload,
            meter_right_unlit,
            meter_live_left,
            meter_live_left_unlit,
            meter_live_right,
            meter_live_right_unlit,
            dropdown,
            dropdown_item_selected,
            dropdown_more,
            tab_selected_left,
            tab_selected_right,
        } = overlay;
        let meter_left_overload_text = take_text(meter_left_overload, &meter_left, "▮");
        let meter_left_unlit_text = take_text(meter_left_unlit, &meter_left, "▮");
        let meter_right_overload_text = take_text(meter_right_overload, &meter_right, "▮");
        let meter_right_unlit_text = take_text(meter_right_unlit, &meter_right, "▮");
        let meter_live_left_unlit_text = take_text(meter_live_left_unlit, &meter_live_left, "■");
        let meter_live_right_unlit_text = take_text(meter_live_right_unlit, &meter_live_right, "■");
        let default_endpoint_text = take_text(default_endpoint, &None, "◇");
        let default_target_text = take_text(default_target, &None, "◇");
        let object_selected_top_text = take_text(object_selected_top, &None, "░");
        let object_selected_center_text = take_text(object_selected_center, &None, "▒");
        let object_selected_bottom_text = take_text(object_selected_bottom, &None, "░");
        let objects_more_text = take_text(objects_more, &None, "•••");
        let volume_bar_background_text = take_text(volume_bar_background, &None, "╌");
        let volume_bar_foreground_text = take_text(volume_bar_foreground, &None, "━");
        let meter_left_text = take_text(meter_left, &None, "▮");
        let meter_right_text = take_text(meter_right, &None, "▮");
        let meter_live_left_text = take_text(meter_live_left, &None, "■");
        let meter_live_right_text = take_text(meter_live_right, &None, "■");
        let dropdown_text = take_text(dropdown, &None, "▼");
        let dropdown_item_selected_text = take_text(dropdown_item_selected, &None, ">");
        let dropdown_more_text = take_text(dropdown_more, &None, "•••");
        let tab_selected_left_text = take_text(tab_selected_left, &None, "[");
        let tab_selected_right_text = take_text(tab_selected_right, &None, "]");
        let c = CharSet {
            default_endpoint: default_endpoint_text,
            default_target: default_target_text,
            object_selected_top: object_selected_top_text,
            object_selected_center: object_selected_center_text,
            object_selected_bottom: object_selected_bottom_text,
            objects_more: objects_more_text,
            volume_bar_background: volume_bar_background_text,
            volume_bar_foreground: volume_bar_foreground_text,
            meter_left: meter_left_text,
            meter_left_overload: meter_left_overload_text,
            meter_left_unlit: meter_left_unlit_text,
            meter_right: meter_right_text,
            meter_right_overload: meter_right_overload_text,
            meter_right_unlit: meter_right_unlit_text,
            meter_live_left: meter_live_left_text,
            meter_live_left_unlit: meter_live_left_unlit_text,
            meter_live_right: meter_live_right_text,
            meter_live_right_unlit: meter_live_right_unlit_text,
            dropdown: dropdown_text,
            dropdown_item_selected: dropdown_item_selected_text,
            dropdown_more: dropdown_more_text,
            tab_selected_left: tab_selected_left_text,
            tab_selected_right: tab_selected_right_text,
        };
        c
}

impl CharSet {
    /// The character set an overlay gives over the built-in one. Refuses an
    /// inherited set that is not built in, and the first character of the
    /// wrong width.
    pub fn try_from_overlay(overlay: CharSetOverlay) -> (result: Result<CharSet, String>)
        ensures
            match result {
                Ok(c) => overlay_error(overlay) is None && overlaid_char_set(overlay, c),
                Err(m) => overlay_error(overlay) == Some(m@),
            },
    {
        proof {
            reveal_strlit("default");
        }
        match &overlay.inherit {
            Some(name) => {
                if !str_eq(name.as_str(), "default") {
                    let m = concat("'", name.as_str());
                    return Err(concat(m.as_str(), "' is not a built-in character set"));
                }
            },
            None => {},
        }
        match check_widths(&overlay) {
            Ok(()) => {},
            Err(m) => return Err(m),
        }
        Ok(overlaid(overlay))
    }
}

/// When the fields before `field` have their widths and `field` does not,
/// it is the first of the wrong width.
proof fn lemma_first_bad_width_at(o: CharSetOverlay, field: int)
    requires
        0 <= field < 23,
        forall|f: int| 0 <= f < field ==> width_ok(o, f),
        !width_ok(o, field),
    ensures
        first_bad_width(o, 0) == Some(field),
{
    lemma_first_bad_width_from(o, 0, field);
}

proof fn lemma_first_bad_width_from(o: CharSetOverlay, from: int, field: int)
    requires
        0 <= from <= field < 23,
        forall|f: int| from <= f < field ==> width_ok(o, f),
        !width_ok(o, field),
    ensures
        first_bad_width(o, from) == Some(field),
    decreases field - from,
{
    if from < field {
        lemma_first_bad_width_from(o, from + 1, field);
    }
}

/// When every field has its width, none is the first of the wrong width.
proof fn lemma_no_bad_width(o: CharSetOverlay)
    requires
        forall|f: int| 0 <= f < 23 ==> width_ok(o, f),
    ensures
        first_bad_width(o, 0) is None,
{
    lemma_no_bad_width_from(o, 0);
}

proof fn lemma_no_bad_width_from(o: CharSetOverlay, from: int)
    requires
        0 <= from <= 23,
        forall|f: int| from <= f < 23 ==> width_ok(o, f),
    ensures
        first_bad_width(o, from) is None,
    decreases 23 - from,
{
    if from < 23 {
        lemma_no_bad_width_from(o, from + 1);
    }
}

/// The keys of configured sets.
pub open spec fn configured_key(configured: Seq<(String, CharSetOverlay)>, k: Seq<char>) -> bool {
    exists|i: int| 0 <= i < configured.len() && (#[trigger] configured[i]).0@ == k
}

/// `i` is the last entry for its key.
pub open spec fn last_for_key(configured: Seq<(String, CharSetOverlay)>, i: int) -> bool {
    forall|j: int| i < j < configured.len() ==> (#[trigger] configured[j]).0@ != configured[i].0@
}

/// The sets merged from the configured ones: each configured set over the
/// built-in one (the last given for a name), and the built-in set as
/// `default` unless one is configured under that name.
pub open spec fn merged_sets(configured: Seq<(String, CharSetOverlay)>, m: Map<Seq<char>, CharSet>) -> bool {
    &&& forall|k: Seq<char>| #[trigger] m.contains_key(k) <==> (configured_key(configured, k) || k == "default"@)
    &&& forall|i: int|
        0 <= i < configured.len() && last_for_key(configured, i) ==> overlaid_char_set(
            (#[trigger] configured[i]).1,
            m[configured[i].0@],
        )
    &&& !configured_key(configured, "default"@) ==> is_default_char_set(m["default"@])
}

impl CharSet {
    /// The built-in character sets, by name.
    pub fn defaults() -> (sets: StrMap<CharSet>)
        ensures
            sets@.dom() == set!["default"@],
            is_default_char_set(sets@["default"@]),
    {
        let mut sets = StrMap::new();
        sets.insert(String::from_str("default"), CharSet::default());
        assert(sets@.dom() =~= set!["default"@]);
        sets
    }

    /// Builds each configured set over the built-in one, and adds the
    /// built-in set as `default` unless one is configured. Refuses the first
    /// configured set that is refused, with its error.
    pub fn merge(configured: Vec<(String, CharSetOverlay)>) -> (result: Result<StrMap<CharSet>, String>)
        ensures
            match result {
                Ok(m) => (forall|i: int| 0 <= i < configured@.len() ==> overlay_error(
                    (#[trigger] configured@[i]).1,
                ) is None) && merged_sets(configured@, m@),
                Err(message) => exists|i: int|
                    0 <= i < configured@.len() && overlay_error((#[trigger] configured@[i]).1) == Some(
                        message@,
                    ) && forall|j: int| 0 <= j < i ==> overlay_error(#[trigger] configured@[j].1) is None,
            },
    {
        let ghost all = configured@;
        let mut rest = configured;
        let mut merged: StrMap<CharSet> = StrMap::new();
        let mut i: usize = 0;
        let n = rest.len();
        while i < n
            invariant
                n == all.len(),
                all == configured@,
                i <= n,
                rest@ == all.skip(i as int),
                forall|j: int| 0 <= j < i ==> overlay_error(#[trigger] all[j].1) is None,
                forall|k: Seq<char>| #[trigger] merged@.contains_key(k) <==> configured_key(all.take(i as int), k),
                forall|j: int|
                    0 <= j < i && last_for_key(all.take(i as int), j) ==> overlaid_char_set(
                        (#[trigger] all[j]).1,
                        merged@[all[j].0@],
                    ),
            decreases n - i,
        {
            assert(rest@[0] == all[i as int]);
            let (name, overlay) = rest.remove(0);
            assert(rest@ =~= all.skip(i + 1));
            match CharSet::try_from_overlay(overlay) {
                Ok(set) => {
                    let ghost before = merged@;
                    merged.insert(name, set);
                    proof {
                        let t = all.take(i + 1);
                        assert(t =~= all.take(i as int).push(all[i as int]));
                        assert forall|k: Seq<char>| #[trigger] merged@.contains_key(k) <==> configured_key(t, k) by {
                            if configured_key(all.take(i as int), k) {
                                let j = choose|j: int| 0 <= j < i && (#[trigger] all.take(i as int)[j]).0@ == k;
                                assert(t[j] == all.take(i as int)[j]);
                            }
                            if configured_key(t, k) {
                                let j = choose|j: int| 0 <= j < t.len() && (#[trigger] t[j]).0@ == k;
                                if j < i {
                                    assert(all.take(i as int)[j] == t[j]);
                                }
                            }
                            assert(t[i as int] == all[i as int]);
                        }
                        assert forall|j: int|
                            0 <= j < i + 1 && last_for_key(t, j) implies overlaid_char_set(
                            (#[trigger] all[j]).1,
                            merged@[all[j].0@],
                        ) by {
                            if j < i {
                                assert(t[i as int] == all[i as int]);
                                assert(all[j].0@ != all[i as int].0@);
                                assert forall|x: int| j < x < i implies (#[trigger] all.take(i as int)[x]).0@
                                    != all.take(i as int)[j].0@ by {
                                    assert(t[x] == all.take(i as int)[x]);
                                }
                            }
                        }
                    }
                },
                Err(message) => {
                    assert(overlay_error(all[i as int].1) == Some(message@));
                    return Err(message);
                },
            }
            i += 1;
        }
        assert(all.take(n as int) =~= all);
        proof {
            reveal_strlit("default");
        }
        if !merged.contains_key("default") {
            let ghost before = merged@;
            merged.insert(String::from_str("default"), CharSet::default());
            assert forall|j: int|
                0 <= j < all.len() && last_for_key(all, j) implies overlaid_char_set(
                (#[trigger] all[j]).1,
                merged@[all[j].0@],
            ) by {
                assert(configured_key(all, all[j].0@));
                assert(all[j].0@ != "default"@);
            }
        }
        Ok(merged)
    }
}

} // verus!
