use rrweb_replay::dom::{parse_dom_snapshot, DomMap};
use rrweb_replay::json::JsonValue;

fn obj(entries: Vec<(&str, JsonValue)>) -> JsonValue {
    JsonValue::Obj(
        entries
            .into_iter()
            .map(|(k, v)| (k.to_string(), v))
            .collect(),
    )
}

#[test]
fn parses_node_with_tag_attributes_and_text() {
    let node = obj(vec![
        ("id", JsonValue::Int(10)),
        ("tagName", JsonValue::Str("button".to_string())),
        (
            "attributes",
            obj(vec![("id", JsonValue::Str("go".to_string()))]),
        ),
        ("textContent", JsonValue::Str("Go!".to_string())),
    ]);
    let mut dom = DomMap::new();
    parse_dom_snapshot(&node, &mut dom, None);
    let info = dom.get(10).unwrap();
    assert_eq!(info.rrweb_id, 10);
    assert_eq!(info.tag_name, Some("button".to_string()));
    assert_eq!(info.text_content, Some("Go!".to_string()));
    assert_eq!(info.parent_id, None);
    assert_eq!(info.attributes.get("id"), Some(&"go".to_string()));
}

#[test]
fn children_are_parsed_with_parent_linkage() {
    let node = obj(vec![
        ("id", JsonValue::Int(1)),
        (
            "childNodes",
            JsonValue::Arr(vec![
                obj(vec![("id", JsonValue::Int(2))]),
                obj(vec![("id", JsonValue::Int(3))]),
            ]),
        ),
    ]);
    let mut dom = DomMap::new();
    parse_dom_snapshot(&node, &mut dom, None);
    assert!(dom.get(1).is_some());
    assert_eq!(dom.get(2).unwrap().parent_id, Some(1));
    assert_eq!(dom.get(3).unwrap().parent_id, Some(1));
}

#[test]
fn node_without_id_is_skipped_with_its_subtree() {
    let node = obj(vec![
        ("id", JsonValue::Int(1)),
        (
            "childNodes",
            JsonValue::Arr(vec![obj(vec![
                ("tagName", JsonValue::Str("div".to_string())),
                (
                    "childNodes",
                    JsonValue::Arr(vec![obj(vec![("id", JsonValue::Int(5))])]),
                ),
            ])]),
        ),
    ]);
    let mut dom = DomMap::new();
    parse_dom_snapshot(&node, &mut dom, None);
    assert!(dom.get(1).is_some());
    assert!(dom.get(5).is_none());
}

#[test]
fn attribute_values_are_coerced_or_dropped() {
    let node = obj(vec![
        ("id", JsonValue::Int(4)),
        (
            "attributes",
            obj(vec![
                ("width", JsonValue::Int(42)),
                ("hidden", JsonValue::Bool(true)),
                ("shown", JsonValue::Bool(false)),
                ("ratio", JsonValue::Num("3.5".to_string())),
                ("title", JsonValue::Str("hello".to_string())),
                ("broken", JsonValue::Null),
                ("nested", JsonValue::Arr(vec![])),
            ]),
        ),
    ]);
    let mut dom = DomMap::new();
    parse_dom_snapshot(&node, &mut dom, None);
    let info = dom.get(4).unwrap();
    assert_eq!(info.attributes.get("width"), Some(&"42".to_string()));
    assert_eq!(info.attributes.get("hidden"), Some(&"true".to_string()));
    assert_eq!(info.attributes.get("shown"), Some(&"false".to_string()));
    assert_eq!(info.attributes.get("ratio"), Some(&"3.5".to_string()));
    assert_eq!(info.attributes.get("title"), Some(&"hello".to_string()));
    assert_eq!(info.attributes.get("broken"), None);
    assert_eq!(info.attributes.get("nested"), None);
}

#[test]
fn duplicate_node_id_keeps_latest_entry() {
    let node = obj(vec![
        ("id", JsonValue::Int(1)),
        (
            "childNodes",
            JsonValue::Arr(vec![
                obj(vec![
                    ("id", JsonValue::Int(2)),
                    ("tagName", JsonValue::Str("first".to_string())),
                ]),
                obj(vec![
                    ("id", JsonValue::Int(2)),
                    ("tagName", JsonValue::Str("second".to_string())),
                ]),
            ]),
        ),
    ]);
    let mut dom = DomMap::new();
    parse_dom_snapshot(&node, &mut dom, None);
    assert_eq!(dom.get(2).unwrap().tag_name, Some("second".to_string()));
}

#[test]
fn non_object_node_yields_nothing() {
    let mut dom = DomMap::new();
    parse_dom_snapshot(&JsonValue::Str("oops".to_string()), &mut dom, None);
    assert!(dom.get(0).is_none());
    assert!(dom.get(1).is_none());
}

#[test]
fn lookup_of_absent_id_is_a_miss_not_an_error() {
    let mut dom = DomMap::new();
    parse_dom_snapshot(&obj(vec![("id", JsonValue::Int(1))]), &mut dom, None);
    assert!(dom.get(77).is_none());
}
