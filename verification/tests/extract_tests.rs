use rrweb_replay::action::ActionType;
use rrweb_replay::error::ConvertError;
use rrweb_replay::events::Event;
use rrweb_replay::extract::preprocess_rrweb_data;
use rrweb_replay::json::JsonValue;

fn obj(entries: Vec<(&str, JsonValue)>) -> JsonValue {
    JsonValue::Obj(
        entries
            .into_iter()
            .map(|(k, v)| (k.to_string(), v))
            .collect(),
    )
}

fn snapshot_event(node: JsonValue) -> Event {
    Event {
        event_type: 2,
        data: obj(vec![("node", node)]),
        timestamp: 0,
    }
}

fn minimal_snapshot() -> Event {
    snapshot_event(obj(vec![("id", JsonValue::Int(1))]))
}

fn input_event(id: i64, text: &str, ts: i64) -> Event {
    Event {
        event_type: 3,
        data: obj(vec![
            ("source", JsonValue::Int(5)),
            ("id", JsonValue::Int(id)),
            ("text", JsonValue::Str(text.to_string())),
        ]),
        timestamp: ts,
    }
}

fn click_event(id: i64, ts: i64) -> Event {
    Event {
        event_type: 3,
        data: obj(vec![
            ("source", JsonValue::Int(2)),
            ("type", JsonValue::Int(2)),
            ("id", JsonValue::Int(id)),
        ]),
        timestamp: ts,
    }
}

#[test]
fn missing_snapshot_fails_with_distinct_error() {
    let events = vec![click_event(5, 10)];
    let result = preprocess_rrweb_data(&events);
    assert!(matches!(result, Err(ConvertError::MissingSnapshot)));
}

#[test]
fn empty_event_list_fails_with_missing_snapshot() {
    let events: Vec<Event> = vec![];
    let result = preprocess_rrweb_data(&events);
    assert!(matches!(result, Err(ConvertError::MissingSnapshot)));
}

#[test]
fn consecutive_inputs_coalesce_to_latest_value_before_click() {
    let events = vec![
        minimal_snapshot(),
        input_event(7, "ab", 100),
        input_event(7, "abc", 101),
        click_event(9, 102),
    ];
    let (_dom, actions) = preprocess_rrweb_data(&events).unwrap();
    assert_eq!(actions.len(), 2);
    assert_eq!(actions[0].action_type, ActionType::Input);
    assert_eq!(actions[0].rrweb_id, 7);
    assert_eq!(actions[0].value, Some("abc".to_string()));
    assert_eq!(actions[0].timestamp, 101);
    assert_eq!(actions[1].action_type, ActionType::Click);
    assert_eq!(actions[1].rrweb_id, 9);
    assert_eq!(actions[1].timestamp, 102);
}

#[test]
fn end_of_stream_flushes_buffer_in_insertion_order() {
    let events = vec![
        minimal_snapshot(),
        input_event(3, "first", 10),
        input_event(8, "second", 11),
        input_event(3, "first-updated", 12),
    ];
    let (_dom, actions) = preprocess_rrweb_data(&events).unwrap();
    assert_eq!(actions.len(), 2);
    assert_eq!(actions[0].rrweb_id, 3);
    assert_eq!(actions[0].value, Some("first-updated".to_string()));
    assert_eq!(actions[0].timestamp, 12);
    assert_eq!(actions[1].rrweb_id, 8);
    assert_eq!(actions[1].value, Some("second".to_string()));
}

#[test]
fn click_flushes_buffer_before_appending_click() {
    let events = vec![
        minimal_snapshot(),
        input_event(4, "text", 50),
        click_event(4, 60),
        input_event(4, "after", 70),
    ];
    let (_dom, actions) = preprocess_rrweb_data(&events).unwrap();
    assert_eq!(actions.len(), 3);
    assert_eq!(actions[0].action_type, ActionType::Input);
    assert_eq!(actions[0].value, Some("text".to_string()));
    assert_eq!(actions[1].action_type, ActionType::Click);
    assert_eq!(actions[1].timestamp, 60);
    assert_eq!(actions[2].action_type, ActionType::Input);
    assert_eq!(actions[2].value, Some("after".to_string()));
}

#[test]
fn mutation_and_unknown_sources_are_ignored() {
    let events = vec![
        minimal_snapshot(),
        Event {
            event_type: 3,
            data: obj(vec![("source", JsonValue::Int(0))]),
            timestamp: 1,
        },
        Event {
            event_type: 3,
            data: obj(vec![("source", JsonValue::Int(3))]),
            timestamp: 2,
        },
        Event {
            event_type: 4,
            data: obj(vec![("href", JsonValue::Str("http://x".to_string()))]),
            timestamp: 3,
        },
    ];
    let (_dom, actions) = preprocess_rrweb_data(&events).unwrap();
    assert_eq!(actions.len(), 0);
}

#[test]
fn click_without_target_id_is_ignored_and_keeps_buffer() {
    let events = vec![
        minimal_snapshot(),
        input_event(2, "kept", 1),
        Event {
            event_type: 3,
            data: obj(vec![
                ("source", JsonValue::Int(2)),
                ("type", JsonValue::Int(2)),
            ]),
            timestamp: 2,
        },
    ];
    let (_dom, actions) = preprocess_rrweb_data(&events).unwrap();
    assert_eq!(actions.len(), 1);
    assert_eq!(actions[0].value, Some("kept".to_string()));
}

#[test]
fn non_click_mouse_interaction_is_ignored() {
    let events = vec![
        minimal_snapshot(),
        Event {
            event_type: 3,
            data: obj(vec![
                ("source", JsonValue::Int(2)),
                ("type", JsonValue::Int(1)),
                ("id", JsonValue::Int(5)),
            ]),
            timestamp: 1,
        },
    ];
    let (_dom, actions) = preprocess_rrweb_data(&events).unwrap();
    assert_eq!(actions.len(), 0);
}

#[test]
fn snapshot_without_node_payload_still_succeeds_with_empty_map() {
    let events = vec![
        Event {
            event_type: 2,
            data: obj(vec![]),
            timestamp: 0,
        },
        click_event(5, 1),
    ];
    let (dom, actions) = preprocess_rrweb_data(&events).unwrap();
    assert!(dom.get(5).is_none());
    assert_eq!(actions.len(), 1);
}

#[test]
fn error_messages_are_distinct() {
    assert_eq!(
        ConvertError::MissingSnapshot.message(),
        "Error: No initial full snapshot (type 2) event found in recording."
    );
    assert_eq!(
        ConvertError::MalformedInput.message(),
        "Error: Malformed recording input."
    );
    assert_ne!(ConvertError::MissingSnapshot, ConvertError::MalformedInput);
}
