use rrweb_replay::action::{ActionType, SimplifiedAction};
use rrweb_replay::dom::{AttrMap, DomMap, NodeInfo};
use rrweb_replay::selector::{
    create_attr_selector, escape_class_token, escape_quotes, generate_selectors_for_actions,
    synthesize_selector,
};

fn node_with_attrs(tag: Option<&str>, attrs: Vec<(&str, &str)>) -> NodeInfo {
    let mut map = AttrMap::new();
    for (k, v) in attrs {
        map.insert(k.to_string(), v.to_string());
    }
    NodeInfo {
        rrweb_id: 1,
        tag_name: tag.map(|t| t.to_string()),
        attributes: map,
        parent_id: None,
        text_content: None,
    }
}

#[test]
fn plain_id_attribute_gives_hash_selector() {
    let node = node_with_attrs(Some("button"), vec![("id", "submit-btn")]);
    assert_eq!(synthesize_selector(&node), "#submit-btn");
}

#[test]
fn id_with_internal_whitespace_uses_attribute_equality_form() {
    let node = node_with_attrs(Some("div"), vec![("id", "a b")]);
    assert_eq!(synthesize_selector(&node), "*[id = \"a b\"]");
}

#[test]
fn id_with_tab_whitespace_uses_attribute_equality_form() {
    let node = node_with_attrs(Some("div"), vec![("id", "a\tb")]);
    assert_eq!(synthesize_selector(&node), "*[id = \"a\tb\"]");
}

#[test]
fn synthesis_is_deterministic() {
    let node = node_with_attrs(
        Some("input"),
        vec![("class", " btn primary"), ("name", "email")],
    );
    let first = synthesize_selector(&node);
    let second = synthesize_selector(&node);
    assert_eq!(first, second);
}

#[test]
fn empty_id_falls_through_to_data_testid() {
    let node = node_with_attrs(Some("div"), vec![("id", ""), ("data-testid", "main-card")]);
    assert_eq!(synthesize_selector(&node), "*[data-testid = \"main-card\"]");
}

#[test]
fn data_cy_used_when_earlier_strategies_miss() {
    let node = node_with_attrs(Some("div"), vec![("data-cy", "login")]);
    assert_eq!(synthesize_selector(&node), "*[data-cy = \"login\"]");
}

#[test]
fn name_attribute_used_when_earlier_strategies_miss() {
    let node = node_with_attrs(Some("input"), vec![("name", "email")]);
    assert_eq!(synthesize_selector(&node), "*[name = \"email\"]");
}

#[test]
fn strategy_order_prefers_data_testid_over_name() {
    let node = node_with_attrs(
        Some("input"),
        vec![("name", "email"), ("data-testid", "field")],
    );
    assert_eq!(synthesize_selector(&node), "*[data-testid = \"field\"]");
}

#[test]
fn first_class_token_combined_with_tag() {
    let node = node_with_attrs(Some("button"), vec![("class", "btn primary")]);
    assert_eq!(synthesize_selector(&node), "button.btn");
}

#[test]
fn class_token_special_characters_are_escaped() {
    let node = node_with_attrs(Some("a"), vec![("class", "btn.primary:hover")]);
    assert_eq!(synthesize_selector(&node), "a.btn\\.primary\\:hover");
}

#[test]
fn class_without_tag_uses_star() {
    let node = node_with_attrs(None, vec![("class", "  spaced  out ")]);
    assert_eq!(synthesize_selector(&node), "*.spaced");
}

#[test]
fn whitespace_only_class_gives_sentinel() {
    let node = node_with_attrs(Some("span"), vec![("class", "   ")]);
    assert_eq!(synthesize_selector(&node), "SELECTOR_GENERATION_FAILED::span");
}

#[test]
fn no_strategy_and_no_tag_gives_unknown_sentinel() {
    let node = node_with_attrs(None, vec![]);
    assert_eq!(
        synthesize_selector(&node),
        "SELECTOR_GENERATION_FAILED::unknown"
    );
}

#[test]
fn attribute_value_quotes_are_escaped() {
    let node = node_with_attrs(Some("div"), vec![("data-testid", "say \"hi\"")]);
    assert_eq!(
        synthesize_selector(&node),
        "*[data-testid = \"say \\\"hi\\\"\"]"
    );
}

#[test]
fn later_attribute_entry_shadows_earlier_one() {
    let node = node_with_attrs(Some("div"), vec![("id", "old"), ("id", "new")]);
    assert_eq!(synthesize_selector(&node), "#new");
}

#[test]
fn escape_quotes_exact() {
    assert_eq!(escape_quotes("a\"b\"c"), "a\\\"b\\\"c");
    assert_eq!(escape_quotes("plain"), "plain");
}

#[test]
fn escape_class_token_exact() {
    assert_eq!(escape_class_token("a:b.c"), "a\\:b\\.c");
}

#[test]
fn create_attr_selector_exact() {
    assert_eq!(create_attr_selector("name", "user"), "*[name = \"user\"]");
}

#[test]
fn unresolved_target_gets_node_not_found_sentinel() {
    let dom = DomMap::new();
    let actions = vec![SimplifiedAction {
        action_type: ActionType::Click,
        rrweb_id: 99,
        value: None,
        timestamp: 5,
    }];
    let with_selectors = generate_selectors_for_actions(&actions, &dom).unwrap();
    assert_eq!(with_selectors.len(), 1);
    assert_eq!(
        with_selectors[0].selector,
        "SELECTOR_GENERATION_FAILED::node_not_found_id_99"
    );
    assert_eq!(with_selectors[0].rrweb_id, 99);
    assert_eq!(with_selectors[0].timestamp, 5);
}

#[test]
fn selector_generation_keeps_action_order_and_fields() {
    let mut dom = DomMap::new();
    dom.insert(5, node_with_attrs(Some("button"), vec![("id", "submit-btn")]));
    let actions = vec![
        SimplifiedAction {
            action_type: ActionType::Input,
            rrweb_id: 5,
            value: Some("hello".to_string()),
            timestamp: 1,
        },
        SimplifiedAction {
            action_type: ActionType::Click,
            rrweb_id: 5,
            value: None,
            timestamp: 2,
        },
    ];
    let with_selectors = generate_selectors_for_actions(&actions, &dom).unwrap();
    assert_eq!(with_selectors.len(), 2);
    assert_eq!(with_selectors[0].action_type, ActionType::Input);
    assert_eq!(with_selectors[0].value, Some("hello".to_string()));
    assert_eq!(with_selectors[0].selector, "#submit-btn");
    assert_eq!(with_selectors[1].action_type, ActionType::Click);
    assert_eq!(with_selectors[1].selector, "#submit-btn");
}
