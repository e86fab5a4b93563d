//! The tags that format strings may hold: properties of a node and of its
//! device.

use vstd::prelude::*;

use crate::config::tag as config_tag;
use crate::config::tag::{lemma_tag_text_injective, tag_text};
use crate::text::str_eq;

verus! {

#[derive(Debug, Clone, Copy, PartialEq, Eq, Structural)]
pub enum Tag {
    Device(DeviceTag),
    Node(NodeTag),
}

#[derive(Debug, Clone, Copy, PartialEq, Eq, Structural)]
pub enum DeviceTag {
    DeviceName,
    DeviceNick,
    DeviceDescription,
}

#[derive(Debug, Clone, Copy, PartialEq, Eq, Structural)]
pub enum NodeTag {
    NodeName,
    NodeNick,
    NodeDescription,
    MediaName,
}

/// A text that names no tag.
#[derive(Debug, Clone, Copy, PartialEq, Eq, Structural)]
pub struct ParseTagError;

/// The tag of the newer scheme with the same text.
pub open spec fn as_template_tag(t: Tag) -> config_tag::Tag {
    match t {
        Tag::Device(DeviceTag::DeviceName) => config_tag::Tag::Device(config_tag::DeviceTag::DeviceName),
        Tag::Device(DeviceTag::DeviceNick) => config_tag::Tag::Device(config_tag::DeviceTag::DeviceNick),
        Tag::Device(DeviceTag::DeviceDescription) => config_tag::Tag::Device(
            config_tag::DeviceTag::DeviceDescription,
        ),
        Tag::Node(NodeTag::NodeName) => config_tag::Tag::Node(config_tag::NodeTag::NodeName),
        Tag::Node(NodeTag::NodeNick) => config_tag::Tag::Node(config_tag::NodeTag::NodeNick),
        Tag::Node(NodeTag::NodeDescription) => config_tag::Tag::Node(config_tag::NodeTag::NodeDescription),
        Tag::Node(NodeTag::MediaName) => config_tag::Tag::Node(config_tag::NodeTag::MediaName),
    }
}

/// The text of a tag, as it stands inside braces.
pub open spec fn format_tag_text(t: Tag) -> Seq<char> {
    tag_text(as_template_tag(t))
}

/// Whether some tag is written as `s`.
pub open spec fn is_format_tag_text(s: Seq<char>) -> bool {
    exists|t: Tag| format_tag_text(t) == s
}

impl Tag {
    /// The text of the tag.
    pub fn to_string(&self) -> (s: String)
        ensures
            s@ == format_tag_text(*self),
    {
        let text = match self {
            Tag::Device(DeviceTag::DeviceName) => "device:device.name",
            Tag::Device(DeviceTag::DeviceNick) => "device:device.nick",
            Tag::Device(DeviceTag::DeviceDescription) => "device:device.description",
            Tag::Node(NodeTag::NodeName) => "node:node.name",
            Tag::Node(NodeTag::NodeNick) => "node:node.nick",
            Tag::Node(NodeTag::NodeDescription) => "node:node.description",
            Tag::Node(NodeTag::MediaName) => "node:media.name",
        };
        String::from_str(text)
    }

    /// Reads a tag from its text.
    pub fn parse(s: &str) -> (result: Result<Tag, ParseTagError>)
        ensures
            match result {
                Ok(t) => format_tag_text(t) == s@,
                Err(_) => !is_format_tag_text(s@),
            },
    {
        if str_eq(s, "device:device.name") {
            Ok(Tag::Device(DeviceTag::DeviceName))
        } else if str_eq(s, "device:device.nick") {
            Ok(Tag::Device(DeviceTag::DeviceNick))
        } else if str_eq(s, "device:device.description") {
            Ok(Tag::Device(DeviceTag::DeviceDescription))
        } else if str_eq(s, "node:node.name") {
            Ok(Tag::Node(NodeTag::NodeName))
        } else if str_eq(s, "node:node.nick") {
            Ok(Tag::Node(NodeTag::NodeNick))
        } else if str_eq(s, "node:node.description") {
            Ok(Tag::Node(NodeTag::NodeDescription))
        } else if str_eq(s, "node:media.name") {
            Ok(Tag::Node(NodeTag::MediaName))
        } else {
            Err(ParseTagError)
        }
    }
}

/// Reading back the text of a tag gives the same tag.
pub proof fn lemma_format_tag_round_trip(t: Tag, parsed: Tag)
    requires
        format_tag_text(parsed) == format_tag_text(t),
    ensures
        parsed == t,
{
    lemma_tag_text_injective(as_template_tag(t), as_template_tag(parsed));
}

impl std::str::FromStr for Tag {
    type Err = ParseTagError;

    fn from_str(s: &str) -> (result: Result<Self, Self::Err>)
        ensures
            match result {
                Ok(t) => format_tag_text(t) == s@,
                Err(_) => !is_format_tag_text(s@),
            },
    {
        Tag::parse(s)
    }
}

} // verus!
