//! A key naming a property of an object, or of the device or client linked
//! to it: `node:node.name`, `device:device.nick`, `client:application.name`,
//! or a bare `node.name` for the object itself.

use vstd::prelude::*;

use crate::text::{chars_of, concat, has_prefix, strip_prefix};

verus! {

#[derive(Debug, Clone, PartialEq, Eq)]
pub enum PropertyKey {
    Device(String),
    Node(String),
    Client(String),
    Bare(String),
}

/// The text of a property key.
pub open spec fn key_text(key: PropertyKey) -> Seq<char> {
    match key {
        PropertyKey::Device(s) => "device:"@ + s@,
        PropertyKey::Node(s) => "node:"@ + s@,
        PropertyKey::Client(s) => "client:"@ + s@,
        PropertyKey::Bare(s) => s@,
    }
}

/// The property name in a key's text: what follows the first prefix among
/// `client:`, `device:` and `node:` that the text begins with, or the whole
/// text.
pub open spec fn key_name_of(s: Seq<char>) -> Seq<char> {
    if has_prefix(s, "client:"@) {
        s.skip(7)
    } else if has_prefix(s, "device:"@) {
        s.skip(7)
    } else if has_prefix(s, "node:"@) {
        s.skip(5)
    } else {
        s
    }
}

/// The key that a text stands for, when its property name is not empty.
pub open spec fn key_matches_text(key: PropertyKey, s: Seq<char>) -> bool {
    match key {
        PropertyKey::Client(name) => has_prefix(s, "client:"@) && name@ == s.skip(7),
        PropertyKey::Device(name) => !has_prefix(s, "client:"@) && has_prefix(s, "device:"@)
            && name@ == s.skip(7),
        PropertyKey::Node(name) => !has_prefix(s, "client:"@) && !has_prefix(s, "device:"@)
            && has_prefix(s, "node:"@) && name@ == s.skip(5),
        PropertyKey::Bare(name) => !has_prefix(s, "client:"@) && !has_prefix(s, "device:"@)
            && !has_prefix(s, "node:"@) && name@ == s,
    }
}

/// The message for a key with an empty property name.
pub open spec fn empty_key_message(s: Seq<char>) -> Seq<char> {
    "Empty property name in \""@ + s + seq!['"']
}

impl PropertyKey {
    /// Reads a property key from its text.
    pub fn parse(s: &str) -> (result: Result<PropertyKey, String>)
        ensures
            match result {
                Ok(key) => key_matches_text(key, s@) && key_name_of(s@).len() > 0,
                Err(message) => key_name_of(s@).len() == 0 && message@ == empty_key_message(s@),
            },
    {
        proof {
            reveal_strlit("client:");
            reveal_strlit("device:");
            reveal_strlit("node:");
        }
        let chars = chars_of(s);
        let key = if let Some(name) = strip_prefix(&chars, "client:") {
            PropertyKey::Client(name)
        } else if let Some(name) = strip_prefix(&chars, "device:") {
            PropertyKey::Device(name)
        } else if let Some(name) = strip_prefix(&chars, "node:") {
            PropertyKey::Node(name)
        } else {
            PropertyKey::Bare(String::from_str(s))
        };
        let empty = match &key {
            PropertyKey::Device(name) => name.as_str().unicode_len() == 0,
            PropertyKey::Node(name) => name.as_str().unicode_len() == 0,
            PropertyKey::Client(name) => name.as_str().unicode_len() == 0,
            PropertyKey::Bare(name) => name.as_str().unicode_len() == 0,
        };
        if empty {
            let front = concat("Empty property name in \"", s);
            let message = concat(front.as_str(), "\"");
            proof {
                reveal_strlit("\"");
            }
            assert(message@ =~= empty_key_message(s@));
            Err(message)
        } else {
            Ok(key)
        }
    }

    /// The text of the key.
    pub fn to_string(&self) -> (s: String)
        ensures
            s@ == key_text(*self),
    {
        match self {
            PropertyKey::Device(name) => concat("device:", name.as_str()),
            PropertyKey::Node(name) => concat("node:", name.as_str()),
            PropertyKey::Client(name) => concat("client:", name.as_str()),
            PropertyKey::Bare(name) => name.clone(),
        }
    }
}

/// Writing out a parsed key gives back the text it was read from.
pub proof fn lemma_key_text_of_parsed(s: Seq<char>, key: PropertyKey)
    requires
        key_matches_text(key, s),
    ensures
        key_text(key) == s,
{
    reveal_strlit("client:");
    reveal_strlit("device:");
    reveal_strlit("node:");
    match key {
        PropertyKey::Client(name) => assert(s =~= "client:"@ + s.skip(7)),
        PropertyKey::Device(name) => assert(s =~= "device:"@ + s.skip(7)),
        PropertyKey::Node(name) => assert(s =~= "node:"@ + s.skip(5)),
        PropertyKey::Bare(name) => {},
    }
}

impl std::str::FromStr for PropertyKey {
    type Err = String;

    fn from_str(s: &str) -> (result: Result<Self, Self::Err>)
        ensures
            match result {
                Ok(key) => key_matches_text(key, s@) && key_name_of(s@).len() > 0,
                Err(message) => key_name_of(s@).len() == 0 && message@ == empty_key_message(s@),
            },
    {
        PropertyKey::parse(s)
    }
}

} // verus!
