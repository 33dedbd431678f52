use rrweb_replay::error::ConvertError;
use rrweb_replay::events::{find_event_by_type, Event};
use rrweb_replay::json::JsonValue;
use rrweb_replay::pipeline::{convert_events_to_script, extract_initial_url};

fn obj(entries: Vec<(&str, JsonValue)>) -> JsonValue {
    JsonValue::Obj(
        entries
            .into_iter()
            .map(|(k, v)| (k.to_string(), v))
            .collect(),
    )
}

fn meta_event(href: &str) -> Event {
    Event {
        event_type: 4,
        data: obj(vec![("href", JsonValue::Str(href.to_string()))]),
        timestamp: 0,
    }
}

fn snapshot_with_button() -> Event {
    let button = obj(vec![
        ("id", JsonValue::Int(5)),
        ("tagName", JsonValue::Str("button".to_string())),
        (
            "attributes",
            obj(vec![("id", JsonValue::Str("submit-btn".to_string()))]),
        ),
    ]);
    let root = obj(vec![
        ("id", JsonValue::Int(1)),
        ("childNodes", JsonValue::Arr(vec![button])),
    ]);
    Event {
        event_type: 2,
        data: obj(vec![("node", root)]),
        timestamp: 1,
    }
}

fn click_event(id: i64, ts: i64) -> Event {
    Event {
        event_type: 3,
        data: obj(vec![
            ("source", JsonValue::Int(2)),
            ("type", JsonValue::Int(2)),
            ("id", JsonValue::Int(id)),
        ]),
        timestamp: ts,
    }
}

#[test]
fn conversion_without_snapshot_fails_and_produces_nothing() {
    let events = vec![meta_event("http://site.test"), click_event(5, 2)];
    let result = convert_events_to_script(&events);
    assert!(matches!(result, Err(ConvertError::MissingSnapshot)));
}

#[test]
fn click_on_known_button_yields_hash_selector_in_code() {
    let events = vec![
        meta_event("http://site.test/start"),
        snapshot_with_button(),
        click_event(5, 20),
    ];
    let out = convert_events_to_script(&events).unwrap();
    assert_eq!(out.initial_url, "http://site.test/start");
    assert!(!out.used_default_url);
    assert!(out
        .action_sequence
        .contains("await page.locator(\"#submit-btn\").click();"));
}

#[test]
fn missing_meta_event_substitutes_placeholder_url() {
    let events = vec![snapshot_with_button()];
    let out = convert_events_to_script(&events).unwrap();
    assert_eq!(out.initial_url, "http://example.com");
    assert!(out.used_default_url);
}

#[test]
fn meta_event_without_href_substitutes_placeholder_url() {
    let events = vec![
        Event {
            event_type: 4,
            data: obj(vec![]),
            timestamp: 0,
        },
        snapshot_with_button(),
    ];
    let out = convert_events_to_script(&events).unwrap();
    assert_eq!(out.initial_url, "http://example.com");
    assert!(out.used_default_url);
}

#[test]
fn action_on_absent_node_becomes_skip_comment_without_statement() {
    let events = vec![snapshot_with_button(), click_event(99, 5)];
    let out = convert_events_to_script(&events).unwrap();
    assert!(out.action_sequence.contains(
        "// Action skipped: Could not generate stable selector for <node_not_found_id_99> element."
    ));
    assert!(!out.action_sequence.contains("page.locator"));
}

#[test]
fn first_meta_event_wins() {
    let events = vec![
        meta_event("http://first.test"),
        meta_event("http://second.test"),
        snapshot_with_button(),
    ];
    let url = extract_initial_url(&events);
    assert_eq!(url, Some("http://first.test".to_string()));
}

#[test]
fn find_event_by_type_returns_first_match() {
    let events = vec![
        meta_event("http://a.test"),
        snapshot_with_button(),
        meta_event("http://b.test"),
    ];
    let found = find_event_by_type(&events, 4).unwrap();
    assert_eq!(found.timestamp, 0);
    assert!(find_event_by_type(&events, 8).is_none());
}
