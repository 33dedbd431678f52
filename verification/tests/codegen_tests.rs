use rrweb_replay::action::{ActionType, ActionWithSelector};
use rrweb_replay::codegen::generate_action_sequence_code;

fn click(selector: &str, ts: i64) -> ActionWithSelector {
    ActionWithSelector {
        action_type: ActionType::Click,
        rrweb_id: 1,
        value: None,
        timestamp: ts,
        selector: selector.to_string(),
    }
}

fn input(selector: &str, value: &str, ts: i64) -> ActionWithSelector {
    ActionWithSelector {
        action_type: ActionType::Input,
        rrweb_id: 1,
        value: Some(value.to_string()),
        timestamp: ts,
        selector: selector.to_string(),
    }
}

#[test]
fn click_action_emits_fault_isolated_statement() {
    let code = generate_action_sequence_code(&vec![click("#submit-btn", 42)]).unwrap();
    assert!(code.contains("  // Timestamp: 42\n"));
    assert!(code.contains("  // Action: Click, Selector: '#submit-btn'\n"));
    assert!(code.contains("  try {\n"));
    assert!(code.contains("    await page.locator(\"#submit-btn\").click();\n"));
    assert!(code.contains("  } catch (error) {\n"));
    assert!(code.contains("console.warn('Action failed for selector [#submit-btn]:'"));
}

#[test]
fn input_action_emits_fill_with_escaped_value() {
    let code = generate_action_sequence_code(&vec![input("#field", "a\"b\\c", 7)]).unwrap();
    assert!(code.contains("    await page.locator(\"#field\").fill(\"a\\\"b\\\\c\");\n"));
}

#[test]
fn masked_value_is_replaced_by_placeholder_everywhere() {
    let value = "QUJDREVGR0hJSktMTU5PUFFSU1RVVldYWVo=";
    let code = generate_action_sequence_code(&vec![input("#pw", value, 1)]).unwrap();
    assert!(code.contains("TODO: Add realistic test data"));
    assert!(code.contains("// Input value seems obscured/masked, using placeholder:"));
    assert!(!code.contains(value));
}

#[test]
fn short_alphanumeric_value_is_emitted_literally() {
    let code = generate_action_sequence_code(&vec![input("#user", "alice123", 1)]).unwrap();
    assert!(code.contains("fill(\"alice123\")"));
    assert!(!code.contains("TODO: Add realistic test data"));
}

#[test]
fn long_value_with_space_is_not_masked() {
    let value = "this is a long sentence value";
    let code = generate_action_sequence_code(&vec![input("#field", value, 1)]).unwrap();
    assert!(code.contains(value));
    assert!(!code.contains("TODO: Add realistic test data"));
}

#[test]
fn twenty_char_boundary_is_not_masked() {
    let value = "A2345678901234567890";
    assert_eq!(value.len(), 20);
    let code = generate_action_sequence_code(&vec![input("#field", value, 1)]).unwrap();
    assert!(code.contains(value));
    assert!(!code.contains("TODO: Add realistic test data"));
}

#[test]
fn sentinel_selector_emits_skip_comment_and_no_statement() {
    let code = generate_action_sequence_code(&vec![click(
        "SELECTOR_GENERATION_FAILED::node_not_found_id_99",
        3,
    )])
    .unwrap();
    assert!(code.contains(
        "  // Action skipped: Could not generate stable selector for <node_not_found_id_99> element."
    ));
    assert!(!code.contains("page.locator"));
}

#[test]
fn sentinel_with_tag_names_the_tag() {
    let code =
        generate_action_sequence_code(&vec![click("SELECTOR_GENERATION_FAILED::div", 3)]).unwrap();
    assert!(code.contains("for <div> element."));
}

#[test]
fn input_without_value_emits_only_comments() {
    let action = ActionWithSelector {
        action_type: ActionType::Input,
        rrweb_id: 1,
        value: None,
        timestamp: 9,
        selector: "#x".to_string(),
    };
    let code = generate_action_sequence_code(&vec![action]).unwrap();
    assert!(code.contains("  // Action: Input, Selector: '#x'"));
    assert!(!code.contains("page.locator"));
}

#[test]
fn preamble_attempts_cookie_consent_dismissal() {
    let code = generate_action_sequence_code(&vec![]).unwrap();
    assert!(code.starts_with("  // Attempt to dismiss common cookie banners first\n"));
    assert!(code.contains("Accept|Agree|Allow|Got it"));
}

#[test]
fn output_has_no_trailing_whitespace() {
    let code = generate_action_sequence_code(&vec![click("#a", 1)]).unwrap();
    assert_eq!(code, code.trim_end());
}

#[test]
fn selector_backslashes_are_spaced_in_click_warning() {
    let code = generate_action_sequence_code(&vec![click("a.btn\\.primary", 1)]).unwrap();
    assert!(code.contains("    await page.locator(\"a.btn\\.primary\").click();\n"));
    assert!(code.contains("console.warn('Action failed for selector [a.btn .primary]:'"));
}

#[test]
fn selector_backslashes_are_removed_in_input_warning() {
    let code = generate_action_sequence_code(&vec![input("a.btn\\.primary", "v", 1)]).unwrap();
    assert!(code.contains("console.warn('Action failed for selector [a.btn.primary]:'"));
}

#[test]
fn actions_appear_in_original_order() {
    let code =
        generate_action_sequence_code(&vec![input("#first", "v", 1), click("#second", 2)]).unwrap();
    let first_pos = code.find("#first").unwrap();
    let second_pos = code.find("#second").unwrap();
    assert!(first_pos < second_pos);
}
