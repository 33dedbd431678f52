use rrweb_replay::strutil::{
    first_token, has_nonspace, has_whitespace, i64_to_string, str_eq, str_starts_with, trim_end,
};
use rrweb_replay::template::{fill_template, replace_all};

#[test]
fn i64_rendering_exact_values() {
    assert_eq!(i64_to_string(0), "0");
    assert_eq!(i64_to_string(7), "7");
    assert_eq!(i64_to_string(123), "123");
    assert_eq!(i64_to_string(-1), "-1");
    assert_eq!(i64_to_string(-9876), "-9876");
    assert_eq!(i64_to_string(i64::MAX), "9223372036854775807");
    assert_eq!(i64_to_string(i64::MIN), "-9223372036854775808");
}

#[test]
fn str_eq_compares_by_characters() {
    assert!(str_eq("abc", "abc"));
    assert!(!str_eq("abc", "abd"));
    assert!(!str_eq("abc", "ab"));
    assert!(str_eq("", ""));
}

#[test]
fn whitespace_checks_cover_unicode_spaces() {
    assert!(has_whitespace("a b"));
    assert!(has_whitespace("a\u{00A0}b"));
    assert!(!has_whitespace("ab"));
    assert!(has_nonspace(" a "));
    assert!(!has_nonspace(" \t\n"));
}

#[test]
fn first_token_skips_leading_whitespace() {
    assert_eq!(first_token("  foo bar"), "foo");
    assert_eq!(first_token("foo"), "foo");
    assert_eq!(first_token("   "), "");
    assert_eq!(first_token(""), "");
}

#[test]
fn trim_end_removes_trailing_whitespace_only() {
    assert_eq!(trim_end("  a b \n\t"), "  a b");
    assert_eq!(trim_end("x"), "x");
    assert_eq!(trim_end(""), "");
}

#[test]
fn starts_with_checks_prefix() {
    assert!(str_starts_with("SELECTOR_GENERATION_FAILED::div", "SELECTOR_GENERATION_FAILED::"));
    assert!(!str_starts_with("#div", "SELECTOR_GENERATION_FAILED::"));
    assert!(!str_starts_with("ab", "abc"));
}

#[test]
fn replace_all_is_left_to_right_without_overlap() {
    assert_eq!(replace_all("aaa", "aa", "b"), "ba");
    assert_eq!(replace_all("x__K__y__K__", "__K__", "!"), "x!y!");
    assert_eq!(replace_all("nothing here", "__K__", "!"), "nothing here");
}

#[test]
fn fill_template_substitutes_both_placeholders() {
    let template = "await page.goto('__START_URL__');\n// __ACTION_SEQUENCE__\ndone";
    let filled = fill_template(template, "http://site.test", "  await click();");
    assert_eq!(
        filled,
        "await page.goto('http://site.test');\n  await click();\ndone"
    );
}

#[test]
fn fill_template_replaces_every_url_occurrence() {
    let template = "__START_URL__ and __START_URL__";
    let filled = fill_template(template, "u", "unused");
    assert_eq!(filled, "u and u");
}
