use wiremix::config::name_template::{NameTemplate, Part, TemplateError};
use wiremix::config::tag::{DeviceTag, NodeTag, Tag};

#[test]
fn test_no_tags() {
    let s = String::from("Hello");
    let template: Result<NameTemplate, _> = s.parse();
    assert!(template.is_ok());
    assert_eq!(
        template.unwrap(),
        NameTemplate {
            parts: vec![Part::Literal(s.clone())],
        }
    );
}

#[test]
fn test_good_tag() {
    let s = String::from("Hello {node:node.name}");
    let template: Result<NameTemplate, _> = s.parse();
    assert!(template.is_ok());
    assert_eq!(
        template.unwrap(),
        NameTemplate {
            parts: vec![
                Part::Literal(String::from("Hello ")),
                Part::Tag(Tag::Node(NodeTag::NodeName)),
            ],
        }
    );
}

#[test]
fn test_unimplemented_tag() {
    let s = String::from("Hello {world}");
    let template: Result<NameTemplate, _> = s.parse();
    assert!(template.is_err());
}

#[test]
fn test_escapes() {
    let s = String::from("Hello }} {{ {{ {node:node.name} }}");
    let template: Result<NameTemplate, _> = s.parse();
    assert!(template.is_ok());
    assert_eq!(
        template.unwrap(),
        NameTemplate {
            parts: vec![
                Part::Literal(String::from("Hello } { { ")),
                Part::Tag(Tag::Node(NodeTag::NodeName)),
                Part::Literal(String::from(" }")),
            ],
        }
    );
}

#[test]
fn test_extra_opening() {
    let s = String::from("Hello { {node:node.name}}");
    let template: Result<NameTemplate, _> = s.parse();
    assert!(template.is_err());
}

#[test]
fn test_extra_closing() {
    let s = String::from("Hello {node:node.name}}");
    let template: Result<NameTemplate, _> = s.parse();
    assert!(template.is_err());
}

#[test]
fn test_empty_tag() {
    let s = String::from("Hello {}");
    let template: Result<NameTemplate, _> = s.parse();
    assert!(template.is_err());
}

#[test]
fn test_nested_escapes() {
    let s = String::from("Hello {{{{}}}}");
    let template: Result<NameTemplate, _> = s.parse();
    assert!(template.is_ok());
    assert_eq!(
        template.unwrap(),
        NameTemplate {
            parts: vec![Part::Literal(String::from("Hello {{}}")),],
        }
    );
}

#[test]
fn test_render_empty() {
    let s = String::from("");
    let template: Result<NameTemplate, _> = s.parse();
    assert!(template.is_ok());
    let rendered = template.unwrap().render(|_: Tag| None::<String>);
    assert_eq!(rendered, Some(s));
}

#[test]
fn test_render_tags() {
    let s = String::from("{node:node.name}{device:device.name}");
    let template: Result<NameTemplate, _> = s.parse();
    assert!(template.is_ok());
    let rendered = template.unwrap().render(|tag: Tag| match tag {
        Tag::Node(NodeTag::NodeName) => Some(String::from("foo")),
        Tag::Device(DeviceTag::DeviceName) => Some(String::from("bar")),
        _ => None,
    });
    assert_eq!(rendered, Some(String::from("foobar")));
}

#[test]
fn test_render_missing_tag() {
    let s = String::from("{node:node.name}{device:device.name}");
    let template: Result<NameTemplate, _> = s.parse();
    assert!(template.is_ok());
    let rendered = template.unwrap().render(|tag: Tag| match tag {
        Tag::Node(NodeTag::NodeName) => Some(String::from("foo")),
        _ => None,
    });
    assert_eq!(rendered, None)
}

#[test]
fn test_render_mixed() {
    let s = String::from("let {node:node.name} = {device:device.name};");
    let template: Result<NameTemplate, _> = s.parse();
    assert!(template.is_ok());
    let rendered = template.unwrap().render(|tag: Tag| match tag {
        Tag::Node(NodeTag::NodeName) => Some(String::from("foo")),
        Tag::Device(DeviceTag::DeviceName) => Some(String::from("bar")),
        _ => None,
    });
    assert_eq!(rendered, Some(String::from("let foo = bar;")));
}

#[test]
fn template_errors_are_told_apart() {
    let open: Result<NameTemplate, _> = "a {node:node.name".parse();
    assert_eq!(open.unwrap_err(), TemplateError::UnmatchedOpen);
    let close: Result<NameTemplate, _> = "a } b".parse();
    assert_eq!(close.unwrap_err(), TemplateError::UnmatchedClose);
    let unknown: Result<NameTemplate, _> = "{node:volume}".parse();
    assert_eq!(unknown.unwrap_err(), TemplateError::UnknownTag(String::from("node:volume")));
}

#[test]
fn template_error_messages() {
    assert_eq!(TemplateError::UnmatchedOpen.message(), "'{' without '}'");
    assert_eq!(TemplateError::UnmatchedClose.message(), "'}' without '{'");
    assert_eq!(
        TemplateError::UnknownTag(String::from("x")).message(),
        "\"x\" is not implemented"
    );
}

#[test]
fn render_gives_each_tag_its_value_once() {
    let template: NameTemplate = "{node:media.name}/{node:media.name}".parse().unwrap();
    let rendered = template.render(|tag: Tag| match tag {
        Tag::Node(NodeTag::MediaName) => Some(String::from("song")),
        _ => None,
    });
    assert_eq!(rendered, Some(String::from("song/song")));
}

#[test]
fn brace_free_text_is_one_literal() {
    let t = NameTemplate::parse_string("plain text").unwrap();
    assert_eq!(t.parts, vec![Part::Literal(String::from("plain text"))]);
    assert!(NameTemplate::parse_string("").unwrap().parts.is_empty());
    // Escaped braces merge into the literal around them.
    let t = NameTemplate::parse_string("a {{b}} c").unwrap();
    assert_eq!(t.parts, vec![Part::Literal(String::from("a {b} c"))]);
}
