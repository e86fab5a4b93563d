use wiremix::config::matching::{MatchCondition, MatchValue};
use wiremix::config::name_override::NameOverrideRaw;
use wiremix::config::name_template::NameTemplate;
use wiremix::config::property_key::PropertyKey;
use wiremix::config::{NameOverride, OverrideType};

fn templates() -> Vec<NameTemplate> {
    vec!["{node:node.name}".parse().unwrap()]
}

fn spotify_condition() -> MatchCondition {
    MatchCondition(vec![(
        PropertyKey::Node(String::from("node.name")),
        MatchValue::Literal(String::from("spotify")),
    )])
}

#[test]
fn new_style() {
    let raw = NameOverrideRaw {
        types: vec![OverrideType::Stream],
        property: None,
        value: None,
        matches: Some(vec![spotify_condition()]),
        templates: templates(),
    };
    let ovr: NameOverride = NameOverride::from_raw(raw).unwrap();
    assert_eq!(ovr.matches.len(), 1);
}

#[test]
fn legacy_style() {
    let raw = NameOverrideRaw {
        types: vec![OverrideType::Stream],
        property: Some(PropertyKey::parse("node:node.name").unwrap()),
        value: Some(String::from("spotify")),
        matches: None,
        templates: templates(),
    };
    let ovr: NameOverride = NameOverride::from_raw(raw).unwrap();
    assert_eq!(ovr.matches.len(), 1);
}

#[test]
fn both_is_error() {
    let raw = NameOverrideRaw {
        types: vec![OverrideType::Stream],
        property: Some(PropertyKey::parse("node:node.name").unwrap()),
        value: Some(String::from("spotify")),
        matches: Some(vec![spotify_condition()]),
        templates: templates(),
    };
    assert!(NameOverride::from_raw(raw).is_err());
}

#[test]
fn neither_is_error() {
    let raw = NameOverrideRaw {
        types: vec![OverrideType::Stream],
        property: None,
        value: None,
        matches: None,
        templates: templates(),
    };
    assert!(NameOverride::from_raw(raw).is_err());
}

#[test]
fn property_without_value_is_error() {
    let raw = NameOverrideRaw {
        types: vec![OverrideType::Stream],
        property: Some(PropertyKey::parse("node:node.name").unwrap()),
        value: None,
        matches: None,
        templates: templates(),
    };
    assert!(NameOverride::from_raw(raw).is_err());
}

#[test]
fn value_without_property_is_error() {
    let raw = NameOverrideRaw {
        types: vec![OverrideType::Stream],
        property: None,
        value: Some(String::from("spotify")),
        matches: None,
        templates: templates(),
    };
    assert!(NameOverride::from_raw(raw).is_err());
}

#[test]
fn legacy_equivalent_to_new() {
    let legacy = NameOverrideRaw {
        types: vec![OverrideType::Stream],
        property: Some(PropertyKey::parse("node:node.name").unwrap()),
        value: Some(String::from("spotify")),
        matches: None,
        templates: templates(),
    };
    let new = NameOverrideRaw {
        types: vec![OverrideType::Stream],
        property: None,
        value: None,
        matches: Some(vec![spotify_condition()]),
        templates: templates(),
    };
    assert_eq!(NameOverride::from_raw(legacy).unwrap(), NameOverride::from_raw(new).unwrap());
}

#[test]
fn override_error_messages() {
    let both = NameOverrideRaw {
        types: vec![],
        property: None,
        value: Some(String::from("v")),
        matches: Some(vec![]),
        templates: vec![],
    };
    assert_eq!(
        NameOverride::from_raw(both).unwrap_err(),
        "cannot specify both `matches` and `property`/`value`"
    );
    let neither = NameOverrideRaw { types: vec![], property: None, value: None, matches: None, templates: vec![] };
    assert_eq!(
        NameOverride::from_raw(neither).unwrap_err(),
        "must specify either `matches` or `property`/`value`"
    );
    let property = NameOverrideRaw {
        types: vec![],
        property: Some(PropertyKey::Bare(String::from("x"))),
        value: None,
        matches: None,
        templates: vec![],
    };
    assert_eq!(NameOverride::from_raw(property).unwrap_err(), "`property` requires `value`");
    let value = NameOverrideRaw {
        types: vec![],
        property: None,
        value: Some(String::from("v")),
        matches: None,
        templates: vec![],
    };
    assert_eq!(NameOverride::from_raw(value).unwrap_err(), "`value` requires `property`");
}
