//! Mixer configuration: how objects are named, and the settings that the
//! configuration file gives.

pub mod char_set;
pub mod filter;
pub mod help;
pub mod keybinding;
pub mod matching;
pub mod name_override;
pub mod name_template;
pub mod names;
pub mod property_key;
pub mod tag;
pub mod style_text;
pub mod theme;

use vstd::prelude::*;

use crate::config::char_set::CharSet;
use crate::config::theme::Theme;
use crate::config::matching::MatchCondition;
use crate::str_map::StrMap;
use crate::text::concat;
use crate::config::name_template::NameTemplate;

verus! {

/// How peak meters are drawn.
#[derive(Debug, Clone, Copy, PartialEq, Eq, Structural)]
pub enum Peaks {
    Off,
    Mono,
    Auto,
}

/// The templates that name objects, tried in order, and the overrides that
/// replace them for the objects they match.
#[derive(Debug)]
pub struct Names {
    pub stream: Vec<NameTemplate>,
    pub endpoint: Vec<NameTemplate>,
    pub device: Vec<NameTemplate>,
    pub overrides: Vec<NameOverride>,
}

/// The kinds of object that an override applies to.
#[derive(Debug, Clone, Copy, PartialEq, Eq, Structural)]
pub enum OverrideType {
    Stream,
    Endpoint,
    Device,
}

/// Templates that name the objects of the given kinds that match one of
/// the conditions.
#[derive(Debug, PartialEq, Eq)]
pub struct NameOverride {
    pub types: Vec<OverrideType>,
    pub matches: Vec<MatchCondition>,
    pub templates: Vec<NameTemplate>,
}

impl Default for Peaks {
    fn default() -> (peaks: Peaks)
        ensures
            peaks == Peaks::Auto,
    {
        Peaks::Auto
    }
}

/// Mouse support is on unless configured off.
pub fn default_mouse() -> (mouse: bool)
    ensures
        mouse,
{
    true
}

/// The character set used unless another is configured.
pub fn default_char_set_name() -> (name: String)
    ensures
        name@ == "default"@,
{
    String::from_str("default")
}

/// The theme used unless another is configured.
pub fn default_theme_name() -> (name: String)
    ensures
        name@ == "default"@,
{
    String::from_str("default")
}

/// Takes the character set named `name` out of the sets; refuses a name
/// that no set has.
pub fn take_char_set(char_sets: &mut StrMap<CharSet>, name: &str) -> (result: Result<CharSet, String>)
    ensures
        final(char_sets)@ == old(char_sets)@.remove(name@),
        match result {
            Ok(c) => old(char_sets)@.contains_key(name@) && c == old(char_sets)@[name@],
            Err(message) => !old(char_sets)@.contains_key(name@) && message@ == "char_set '"@ + name@
                + "' does not exist"@,
        },
{
    match char_sets.remove(name) {
        Some(c) => Ok(c),
        None => {
            let m = concat("char_set '", name);
            Err(concat(m.as_str(), "' does not exist"))
        },
    }
}

/// Takes the theme named `name` out of the themes; refuses a name that no
/// theme has.
pub fn take_theme(themes: &mut StrMap<Theme>, name: &str) -> (result: Result<Theme, String>)
    ensures
        final(themes)@ == old(themes)@.remove(name@),
        match result {
            Ok(t) => old(themes)@.contains_key(name@) && t == old(themes)@[name@],
            Err(message) => !old(themes)@.contains_key(name@) && message@ == "theme '"@ + name@
                + "' does not exist"@,
        },
{
    match themes.remove(name) {
        Some(t) => Ok(t),
        None => {
            let m = concat("theme '", name);
            Err(concat(m.as_str(), "' does not exist"))
        },
    }
}

/// The settings that the command line can override, other than the frame
/// rate.
#[derive(Debug)]
pub struct Settings {
    pub remote: Option<String>,
    pub mouse: bool,
    pub peaks: Option<Peaks>,
    pub char_set: String,
    pub theme: String,
}

impl Settings {
    /// Overrides the settings with those given on the command line: each
    /// that is given replaces the configured one; `no_mouse` turns mouse
    /// support off and `mouse` on.
    pub fn apply_options(
        &mut self,
        remote: &Option<String>,
        no_mouse: bool,
        mouse: bool,
        peaks: Option<Peaks>,
        char_set: &Option<String>,
        theme: &Option<String>,
    )
        ensures
            final(self).remote == match remote {
                Some(r) => Some(*r),
                None => old(self).remote,
            },
            final(self).mouse == if mouse {
                true
            } else if no_mouse {
                false
            } else {
                old(self).mouse
            },
            final(self).peaks == match peaks {
                Some(p) => Some(p),
                None => old(self).peaks,
            },
            final(self).char_set@ == match char_set {
                Some(c) => c@,
                None => old(self).char_set@,
            },
            final(self).theme@ == match theme {
                Some(t) => t@,
                None => old(self).theme@,
            },
    {
        match remote {
            Some(r) => {
                self.remote = Some(r.clone());
            },
            None => {},
        }
        if no_mouse {
            self.mouse = false;
        }
        if mouse {
            self.mouse = true;
        }
        match peaks {
            Some(p) => {
                self.peaks = Some(p);
            },
            None => {},
        }
        match char_set {
            Some(c) => {
                self.char_set = c.clone();
            },
            None => {},
        }
        match theme {
            Some(t) => {
                self.theme = t.clone();
            },
            None => {},
        }
    }
}

/// A tab the mixer can open on.
#[derive(Debug, Clone, Copy, PartialEq, Eq, Structural)]
pub enum TabKind {
    Playback,
    Recording,
    Output,
    Input,
    Configuration,
}

/// The position of a tab among the mixer's tabs.
pub open spec fn tab_index(t: TabKind) -> usize {
    match t {
        TabKind::Playback => 0,
        TabKind::Recording => 1,
        TabKind::Output => 2,
        TabKind::Input => 3,
        TabKind::Configuration => 4,
    }
}

impl TabKind {
    /// The position of the tab among the mixer's tabs.
    pub fn index(self) -> (i: usize)
        ensures
            i == tab_index(self),
    {
        match self {
            TabKind::Playback => 0,
            TabKind::Recording => 1,
            TabKind::Output => 2,
            TabKind::Input => 3,
            TabKind::Configuration => 4,
        }
    }
}

/// The tab the mixer opens on: the one asked for, else the first.
pub fn initial_tab(tab: Option<TabKind>) -> (i: usize)
    ensures
        i == match tab {
            Some(t) => tab_index(t),
            None => 0,
        },
{
    match tab {
        Some(t) => t.index(),
        None => 0,
    }
}

/// The volume limit in effect: none when the limit is not enforced, else
/// the one given, if any.
pub fn max_volume_limit<T>(no_enforce: bool, limit: Option<T>) -> (l: Option<T>)
    ensures
        l == if no_enforce {
            None
        } else {
            limit
        },
{
    if no_enforce {
        None
    } else {
        limit
    }
}

} // verus!
