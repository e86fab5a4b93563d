//! The tags that name templates may hold, such as `{node:node.name}`.
//! Each names a PipeWire property of a node, of its device or of its client.

use vstd::prelude::*;

use crate::text::{concat, str_eq};

verus! {

#[derive(Debug, Copy, Clone, PartialEq, Eq, Structural)]
pub enum Tag {
    Device(DeviceTag),
    Node(NodeTag),
    Client(ClientTag),
}

#[derive(Debug, Copy, Clone, PartialEq, Eq, Structural)]
pub enum DeviceTag {
    DeviceName,
    DeviceNick,
    DeviceDescription,
}

#[derive(Debug, Copy, Clone, PartialEq, Eq, Structural)]
pub enum NodeTag {
    NodeName,
    NodeNick,
    NodeDescription,
    MediaName,
}

#[derive(Debug, Copy, Clone, PartialEq, Eq, Structural)]
pub enum ClientTag {
    ApplicationName,
    ApplicationProcessBinary,
}

/// The text that stands for a tag inside braces.
pub open spec fn tag_text(tag: Tag) -> Seq<char> {
    match tag {
        Tag::Device(DeviceTag::DeviceName) => "device:device.name"@,
        Tag::Device(DeviceTag::DeviceNick) => "device:device.nick"@,
        Tag::Device(DeviceTag::DeviceDescription) => "device:device.description"@,
        Tag::Node(NodeTag::NodeName) => "node:node.name"@,
        Tag::Node(NodeTag::NodeNick) => "node:node.nick"@,
        Tag::Node(NodeTag::NodeDescription) => "node:node.description"@,
        Tag::Node(NodeTag::MediaName) => "node:media.name"@,
        Tag::Client(ClientTag::ApplicationName) => "client:application.name"@,
        Tag::Client(ClientTag::ApplicationProcessBinary) => "client:application.process.binary"@,
    }
}

/// Whether some tag is written as `s`.
pub open spec fn is_tag_text(s: Seq<char>) -> bool {
    exists|tag: Tag| tag_text(tag) == s
}

/// The message of a refused tag: `"<s>" is not implemented`.
pub open spec fn unknown_tag_message(s: Seq<char>) -> Seq<char> {
    seq!['"'] + s + "\" is not implemented"@
}

/// No two tags are written alike.
pub proof fn lemma_tag_text_injective(a: Tag, b: Tag)
    ensures
        tag_text(a) == tag_text(b) ==> a == b,
{
    reveal_strlit("device:device.name");
    reveal_strlit("device:device.nick");
    reveal_strlit("device:device.description");
    reveal_strlit("node:node.name");
    reveal_strlit("node:node.nick");
    reveal_strlit("node:node.description");
    reveal_strlit("node:media.name");
    reveal_strlit("client:application.name");
    reveal_strlit("client:application.process.binary");
    if tag_text(a) == tag_text(b) {
        let ta = tag_text(a);
        let tb = tag_text(b);
        assert(ta.len() == tb.len());
        assert(ta.len() == 18 ==> ta[15] == tb[15]);
        assert(ta.len() == 14 ==> ta[11] == tb[11]);
        match a {
            Tag::Device(_) => assert(ta[0] == tb[0]),
            Tag::Node(_) => assert(ta[0] == tb[0]),
            Tag::Client(_) => assert(ta[0] == tb[0]),
        }
    }
}

impl Tag {
    /// Reads a tag from its text.
    pub fn parse(s: &str) -> (result: Result<Tag, String>)
        ensures
            match result {
                Ok(tag) => tag_text(tag) == s@,
                Err(message) => !is_tag_text(s@) && message@ == unknown_tag_message(s@),
            },
    {
        if str_eq(s, "device:device.name") {
            Ok(Tag::Device(DeviceTag::DeviceName))
        } else if str_eq(s, "device:device.nick") {
            Ok(Tag::Device(DeviceTag::DeviceNick))
        } else if str_eq(s, "device:device.description") {
            Ok(Tag::Device(DeviceTag::DeviceDescription))
        } else if str_eq(s, "node:node.name") {
            Ok(Tag::Node(NodeTag::NodeName))
        } else if str_eq(s, "node:node.nick") {
            Ok(Tag::Node(NodeTag::NodeNick))
        } else if str_eq(s, "node:node.description") {
            Ok(Tag::Node(NodeTag::NodeDescription))
        } else if str_eq(s, "node:media.name") {
            Ok(Tag::Node(NodeTag::MediaName))
        } else if str_eq(s, "client:application.name") {
            Ok(Tag::Client(ClientTag::ApplicationName))
        } else if str_eq(s, "client:application.process.binary") {
            Ok(Tag::Client(ClientTag::ApplicationProcessBinary))
        } else {
            let quoted = concat("\"", s);
            let message = concat(quoted.as_str(), "\" is not implemented");
            proof {
                reveal_strlit("\"");
            }
            assert(message@ =~= unknown_tag_message(s@));
            Err(message)
        }
    }

    /// The text of the tag, as it stands inside braces.
    pub fn to_string(&self) -> (s: String)
        ensures
            s@ == tag_text(*self),
    {
        let text = match self {
            Tag::Device(DeviceTag::DeviceName) => "device:device.name",
            Tag::Device(DeviceTag::DeviceNick) => "device:device.nick",
            Tag::Device(DeviceTag::DeviceDescription) => "device:device.description",
            Tag::Node(NodeTag::NodeName) => "node:node.name",
            Tag::Node(NodeTag::NodeNick) => "node:node.nick",
            Tag::Node(NodeTag::NodeDescription) => "node:node.description",
            Tag::Node(NodeTag::MediaName) => "node:media.name",
            Tag::Client(ClientTag::ApplicationName) => "client:application.name",
            Tag::Client(ClientTag::ApplicationProcessBinary) => "client:application.process.binary",
        };
        String::from_str(text)
    }
}

/// Reading back the text of a tag gives the same tag: the only tag that
/// `Tag::parse` can return for `tag_text(tag)` is `tag` itself (and it cannot
/// refuse that text, since it is the text of a tag).
pub proof fn lemma_tag_round_trip(tag: Tag, parsed: Tag)
    requires
        tag_text(parsed) == tag_text(tag),
    ensures
        parsed == tag,
        is_tag_text(tag_text(tag)),
{
    lemma_tag_text_injective(tag, parsed);
}

impl std::str::FromStr for Tag {
    type Err = String;

    fn from_str(s: &str) -> (result: Result<Self, Self::Err>)
        ensures
            match result {
                Ok(tag) => tag_text(tag) == s@,
                Err(message) => !is_tag_text(s@) && message@ == unknown_tag_message(s@),
            },
    {
        Tag::parse(s)
    }
}

} // verus!
