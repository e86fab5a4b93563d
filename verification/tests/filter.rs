use wiremix::config::filter::Filter;
use wiremix::config::matching::{MatchCondition, MatchValue};
use wiremix::config::property_key::PropertyKey;

fn filter(id: Option<&str>, name: &str) -> Filter {
    Filter {
        id: id.map(String::from),
        matches: vec![MatchCondition(vec![(
            PropertyKey::Bare(String::from("node.name")),
            MatchValue::Literal(String::from(name)),
        )])],
    }
}

#[test]
fn filter_defaults() {
    let defaults = Filter::defaults();
    assert_eq!(defaults.len(), 3);
    assert_eq!(defaults[0].id, None);
    assert_eq!(defaults[1].id.as_deref(), Some("pavucontrol-capture"));
    assert_eq!(defaults[2].id.as_deref(), Some("ncpamixer-capture"));
    assert_eq!(defaults[0].matches, filter(None, "wiremix-capture").matches);
    assert_eq!(defaults[1].matches, filter(None, "PulseAudio Volume Control").matches);
}

#[test]
fn filter_merge_replaces_by_id() {
    let merged = Filter::merge_with_defaults(vec![
        filter(Some("ncpamixer-capture"), "other"),
        filter(None, "extra"),
        filter(Some("new"), "new"),
    ]);
    assert_eq!(merged.len(), 5);
    assert_eq!(merged[2].id.as_deref(), Some("ncpamixer-capture"));
    assert_eq!(merged[2].matches, filter(None, "other").matches);
    assert_eq!(merged[3].matches, filter(None, "extra").matches);
    assert_eq!(merged[4].id.as_deref(), Some("new"));
}
