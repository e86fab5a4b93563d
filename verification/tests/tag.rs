use wiremix::config::property_key::PropertyKey;
use wiremix::config::tag::{ClientTag, DeviceTag, NodeTag, Tag};

#[test]
fn device_variants() {
    for device_tag in [DeviceTag::DeviceName, DeviceTag::DeviceNick, DeviceTag::DeviceDescription] {
        // Do a round-trip conversion and compare results.
        let tag = Tag::Device(device_tag);
        let tag_str = tag.to_string();
        let parsed_tag: Tag = tag_str.parse().unwrap();
        assert_eq!(tag, parsed_tag);
    }
}

#[test]
fn node_variants() {
    for node_tag in [NodeTag::NodeName, NodeTag::NodeNick, NodeTag::NodeDescription, NodeTag::MediaName] {
        // Do a round-trip conversion and compare results.
        let tag = Tag::Node(node_tag);
        let tag_str = tag.to_string();
        let parsed_tag: Tag = tag_str.parse().unwrap();
        assert_eq!(tag, parsed_tag);
    }
}

#[test]
fn client_variants() {
    for client_tag in [ClientTag::ApplicationName, ClientTag::ApplicationProcessBinary] {
        // Do a round-trip conversion and compare results.
        let tag = Tag::Client(client_tag);
        let tag_str = tag.to_string();
        let parsed_tag: Tag = tag_str.parse().unwrap();
        assert_eq!(tag, parsed_tag);
    }
}

#[test]
fn tag_texts() {
    assert_eq!(Tag::Node(NodeTag::MediaName).to_string(), "node:media.name");
    assert_eq!(
        Tag::Client(ClientTag::ApplicationProcessBinary).to_string(),
        "client:application.process.binary"
    );
    assert_eq!(Tag::parse("node:nick"), Err(String::from("\"node:nick\" is not implemented")));
}

#[test]
fn property_key_prefixes() {
    assert_eq!(PropertyKey::parse("node:node.name"), Ok(PropertyKey::Node(String::from("node.name"))));
    assert_eq!(
        PropertyKey::parse("device:device.nick"),
        Ok(PropertyKey::Device(String::from("device.nick")))
    );
    assert_eq!(
        PropertyKey::parse("client:application.name"),
        Ok(PropertyKey::Client(String::from("application.name")))
    );
    assert_eq!(PropertyKey::parse("media.class"), Ok(PropertyKey::Bare(String::from("media.class"))));
    assert_eq!(
        PropertyKey::parse("node:"),
        Err(String::from("Empty property name in \"node:\""))
    );
    assert_eq!(PropertyKey::parse(""), Err(String::from("Empty property name in \"\"")));
}

#[test]
fn property_key_round_trip() {
    for text in ["node:node.name", "device:device.nick", "client:x", "bare.key"] {
        let key = PropertyKey::parse(text).unwrap();
        assert_eq!(key.to_string(), text);
    }
}
