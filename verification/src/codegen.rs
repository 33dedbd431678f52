//! Code emission: renders the ordered actions into replay script lines,
//! with per-action fault isolation, a value-masking policy, and escaping of
//! every literal embedded in generated code.

use vstd::prelude::*;
use vstd::string::*;
use crate::action::{
    spec_action_type_str, view_sel_actions, ActionType, ActionWithSelector, SelActionView,
};
use crate::error::ConvertError;
use crate::selector::spec_sentinel_prefix;
use crate::strutil::{
    i64_to_string, push_char, spec_i64_str, spec_starts_with, spec_trim_end, str_starts_with,
    trim_end,
};

verus! {

/// A string literal escaped for embedding in generated code between double
/// quotes: backticks and double quotes get a backslash.
pub open spec fn spec_escape_js_selector(s: Seq<char>) -> Seq<char>
    decreases s.len(),
{
    if s.len() == 0 {
        Seq::empty()
    } else {
        spec_escape_js_selector(s.drop_last()) + (if s.last() == '`' || s.last() == '"' {
            seq!['\\', s.last()]
        } else {
            seq![s.last()]
        })
    }
}

/// An input value escaped for embedding in generated code: backslashes,
/// backticks and double quotes get a backslash.
pub open spec fn spec_escape_js_value(s: Seq<char>) -> Seq<char>
    decreases s.len(),
{
    if s.len() == 0 {
        Seq::empty()
    } else {
        spec_escape_js_value(s.drop_last()) + (if s.last() == '\\' || s.last() == '`' || s.last()
            == '"' {
            seq!['\\', s.last()]
        } else {
            seq![s.last()]
        })
    }
}

/// Every backslash turned into a space, for cleaner warning text.
pub open spec fn spec_backslash_to_space(s: Seq<char>) -> Seq<char>
    decreases s.len(),
{
    if s.len() == 0 {
        Seq::empty()
    } else {
        spec_backslash_to_space(s.drop_last()) + (if s.last() == '\\' {
            seq![' ']
        } else {
            seq![s.last()]
        })
    }
}

/// Every backslash removed, for cleaner warning text.
pub open spec fn spec_backslash_removed(s: Seq<char>) -> Seq<char>
    decreases s.len(),
{
    if s.len() == 0 {
        Seq::empty()
    } else {
        spec_backslash_removed(s.drop_last()) + (if s.last() == '\\' {
            Seq::<char>::empty()
        } else {
            seq![s.last()]
        })
    }
}

/// Whether `c` may appear in a masked credential-like value: alphanumeric
/// or one of `=`, `+`, `/`.
pub open spec fn spec_is_mask_char(c: char) -> bool {
    ('a' as u32 <= c as u32 && c as u32 <= 'z' as u32) || ('A' as u32 <= c as u32 && c as u32
        <= 'Z' as u32) || ('0' as u32 <= c as u32 && c as u32 <= '9' as u32) || c == '=' || c == '+'
        || c == '/'
}

/// The looks-masked heuristic: more than 20 characters, every one
/// alphanumeric or `=`, `+`, `/`. (A value passing the character test is
/// ASCII, so the character count agrees with the byte count.)
pub open spec fn spec_looks_masked(s: Seq<char>) -> bool {
    s.len() > 20 && forall|i: int| 0 <= i < s.len() ==> spec_is_mask_char(s[i])
}

/// The placeholder emitted instead of a masked input value.
pub open spec fn spec_masked_placeholder() -> Seq<char> {
    "TODO: Add realistic test data"@
}

/// Whether a selector is a failure sentinel.
pub open spec fn spec_is_sentinel(sel: Seq<char>) -> bool {
    spec_starts_with(sel, spec_sentinel_prefix())
}

/// The prefix of `s` up to the first `::`, or all of `s` when there is
/// none.
pub open spec fn spec_until_dcolon(s: Seq<char>) -> Seq<char>
    decreases s.len(),
{
    if s.len() >= 2 && s[0] == ':' && s[1] == ':' {
        Seq::empty()
    } else if s.len() == 0 {
        Seq::empty()
    } else {
        seq![s[0]] + spec_until_dcolon(s.drop_first())
    }
}

/// The element name a failure sentinel carries: what stands between the
/// sentinel prefix and the next `::` (or the end).
pub open spec fn spec_failed_tag(sel: Seq<char>) -> Seq<char> {
    spec_until_dcolon(sel.subrange(spec_sentinel_prefix().len() as int, sel.len() as int))
}

/// Escapes backticks and double quotes for embedding in generated code.
pub fn escape_js_selector(s: &str) -> (r: String)
    ensures
        r@ == spec_escape_js_selector(s@),
{
    let len = s.unicode_len();
    let mut out = String::new();
    let mut i: usize = 0;
    while i < len
        invariant
            i <= len,
            len == s@.len(),
            out@ == spec_escape_js_selector(s@.subrange(0, i as int)),
        decreases len - i,
    {
        let c = s.get_char(i);
        if c == '`' || c == '"' {
            push_char(&mut out, '\\');
            push_char(&mut out, c);
        } else {
            push_char(&mut out, c);
        }
        proof {
            assert(s@.subrange(0, i + 1).drop_last() =~= s@.subrange(0, i as int));
            assert(s@.subrange(0, i + 1).last() == s@[i as int]);
            assert(out@ =~= spec_escape_js_selector(s@.subrange(0, i + 1)));
        }
        i = i + 1;
    }
    proof {
        assert(s@.subrange(0, len as int) =~= s@);
    }
    out
}

/// Escapes backslashes, backticks and double quotes for embedding in
/// generated code.
pub fn escape_js_value(s: &str) -> (r: String)
    ensures
        r@ == spec_escape_js_value(s@),
{
    let len = s.unicode_len();
    let mut out = String::new();
    let mut i: usize = 0;
    while i < len
        invariant
            i <= len,
            len == s@.len(),
            out@ == spec_escape_js_value(s@.subrange(0, i as int)),
        decreases len - i,
    {
        let c = s.get_char(i);
        if c == '\\' || c == '`' || c == '"' {
            push_char(&mut out, '\\');
            push_char(&mut out, c);
        } else {
            push_char(&mut out, c);
        }
        proof {
            assert(s@.subrange(0, i + 1).drop_last() =~= s@.subrange(0, i as int));
            assert(s@.subrange(0, i + 1).last() == s@[i as int]);
            assert(out@ =~= spec_escape_js_value(s@.subrange(0, i + 1)));
        }
        i = i + 1;
    }
    proof {
        assert(s@.subrange(0, len as int) =~= s@);
    }
    out
}

fn backslash_to_space(s: &str) -> (r: String)
    ensures
        r@ == spec_backslash_to_space(s@),
{
    let len = s.unicode_len();
    let mut out = String::new();
    let mut i: usize = 0;
    while i < len
        invariant
            i <= len,
            len == s@.len(),
            out@ == spec_backslash_to_space(s@.subrange(0, i as int)),
        decreases len - i,
    {
        let c = s.get_char(i);
        if c == '\\' {
            push_char(&mut out, ' ');
        } else {
            push_char(&mut out, c);
        }
        proof {
            assert(s@.subrange(0, i + 1).drop_last() =~= s@.subrange(0, i as int));
            assert(s@.subrange(0, i + 1).last() == s@[i as int]);
            assert(out@ =~= spec_backslash_to_space(s@.subrange(0, i + 1)));
        }
        i = i + 1;
    }
    proof {
        assert(s@.subrange(0, len as int) =~= s@);
    }
    out
}

fn backslash_removed(s: &str) -> (r: String)
    ensures
        r@ == spec_backslash_removed(s@),
{
    let len = s.unicode_len();
    let mut out = String::new();
    let mut i: usize = 0;
    while i < len
        invariant
            i <= len,
            len == s@.len(),
            out@ == spec_backslash_removed(s@.subrange(0, i as int)),
        decreases len - i,
    {
        let c = s.get_char(i);
        if c != '\\' {
            push_char(&mut out, c);
        }
        proof {
            assert(s@.subrange(0, i + 1).drop_last() =~= s@.subrange(0, i as int));
            assert(s@.subrange(0, i + 1).last() == s@[i as int]);
            assert(out@ =~= spec_backslash_removed(s@.subrange(0, i + 1)));
        }
        i = i + 1;
    }
    proof {
        assert(s@.subrange(0, len as int) =~= s@);
    }
    out
}

/// Tests the looks-masked heuristic.
pub fn looks_masked(s: &str) -> (r: bool)
    ensures
        r == spec_looks_masked(s@),
{
    let len = s.unicode_len();
    if len <= 20 {
        return false;
    }
    let mut i: usize = 0;
    while i < len
        invariant
            i <= len,
            len == s@.len(),
            forall|j: int| 0 <= j < i ==> spec_is_mask_char(s@[j]),
        decreases len - i,
    {
        let c = s.get_char(i);
        let u = c as u32;
        let ok = (u >= 'a' as u32 && u <= 'z' as u32) || (u >= 'A' as u32 && u <= 'Z' as u32) || (u
            >= '0' as u32 && u <= '9' as u32) || c == '=' || c == '+' || c == '/';
        if !ok {
            return false;
        }
        i = i + 1;
    }
    true
}

proof fn lemma_until_dcolon_at(s: Seq<char>, j: int)
    requires
        0 <= j <= s.len(),
        forall|k: int| 0 <= k < j ==> !(k + 1 < s.len() && #[trigger] s[k] == ':' && s[k + 1] == ':'),
        j == s.len() || (j + 1 < s.len() && s[j] == ':' && s[j + 1] == ':'),
    ensures
        spec_until_dcolon(s) == s.subrange(0, j),
    decreases j,
{
    if j > 0 {
        assert(!(s.len() >= 2 && s[0] == ':' && s[1] == ':'));
        lemma_until_dcolon_at(s.drop_first(), j - 1);
        assert(seq![s[0]] + s.drop_first().subrange(0, j - 1) =~= s.subrange(0, j));
    } else {
        if s.len() >= 2 && s[0] == ':' && s[1] == ':' {
            assert(s.subrange(0, 0) =~= Seq::<char>::empty());
        } else if s.len() == 0 {
            assert(s.subrange(0, 0) =~= Seq::<char>::empty());
        } else {
            assert(1 < s.len() && s[0] == ':' && s[1] == ':');
        }
    }
}

/// When the selector is a failure sentinel, the element name it carries;
/// `None` for a real selector.
pub fn sentinel_failed_tag(selector: &str) -> (r: Option<String>)
    ensures
        match r {
            Some(tag) => spec_is_sentinel(selector@) && tag@ == spec_failed_tag(selector@),
            None => !spec_is_sentinel(selector@),
        },
{
    let prefix = "SELECTOR_GENERATION_FAILED::";
    if !str_starts_with(selector, prefix) {
        return None;
    }
    let plen = prefix.unicode_len();
    let len = selector.unicode_len();
    let ghost rest = selector@.subrange(plen as int, len as int);
    let mut j: usize = plen;
    while j < len
        invariant
            plen <= j <= len,
            plen == spec_sentinel_prefix().len(),
            len == selector@.len(),
            rest == selector@.subrange(plen as int, len as int),
            forall|k: int|
                0 <= k < j - plen ==> !(k + 1 < rest.len() && #[trigger] rest[k] == ':' && rest[k
                    + 1] == ':'),
        ensures
            plen <= j <= len,
            len == selector@.len(),
            forall|k: int|
                0 <= k < j - plen ==> !(k + 1 < rest.len() && #[trigger] rest[k] == ':' && rest[k
                    + 1] == ':'),
            j == len || (j + 1 < len && selector@[j as int] == ':' && selector@[j + 1] == ':'),
        decreases len - j,
    {
        if j + 1 < len && selector.get_char(j) == ':' && selector.get_char(j + 1) == ':' {
            break;
        }
        proof {
            assert(rest[j - plen] == selector@[j as int]);
            assert(j - plen + 1 < rest.len() ==> rest[j - plen + 1] == selector@[j + 1]);
        }
        j = j + 1;
    }
    let mut out = String::new();
    let mut k: usize = plen;
    while k < j
        invariant
            plen <= k <= j <= len,
            len == selector@.len(),
            out@ == selector@.subrange(plen as int, k as int),
        decreases j - k,
    {
        push_char(&mut out, selector.get_char(k));
        proof {
            assert(selector@.subrange(plen as int, k as int).push(selector@[k as int])
                =~= selector@.subrange(plen as int, k + 1));
        }
        k = k + 1;
    }
    proof {
        lemma_until_dcolon_at(rest, j - plen);
        assert(rest.subrange(0, j - plen) =~= selector@.subrange(plen as int, j as int));
    }
    Some(out)
}


/// The descriptive comment above one action: timestamp, kind, selector,
/// and, for input actions, the value (masked values show the placeholder,
/// never the literal).
pub open spec fn spec_comment_for_action(a: SelActionView) -> Seq<char> {
    "  // Timestamp: "@ + spec_i64_str(a.timestamp) + "\n"@ + "  // Action: "@
        + spec_action_type_str(a.action_type) + ", Selector: '"@ + a.selector + "'"@ + (match a.value {
        Some(v) => ", Value: '"@ + (if spec_looks_masked(v) {
            spec_masked_placeholder()
        } else {
            v
        }) + "'"@,
        None => Seq::<char>::empty(),
    }) + "\n"@
}

/// The fault-isolated click statement for a selector.
pub open spec fn spec_click_block(sel: Seq<char>) -> Seq<char> {
    let esc = spec_escape_js_selector(sel);
    "  try {\n"@ + "    await page.locator(\""@ + esc + "\").click();\n"@
        + "  } catch (error) {\n"@ + "    console.warn('Action failed for selector ["@
        + spec_backslash_to_space(esc) + "]:', (error as Error).message);\n"@ + "  }\n"@
}

/// The fault-isolated fill statement for a selector and value; a masked
/// value is replaced by the placeholder annotation.
pub open spec fn spec_input_block(sel: Seq<char>, value: Seq<char>) -> Seq<char> {
    let esc = spec_escape_js_selector(sel);
    "  try {\n"@ + (if spec_looks_masked(value) {
        "    // Input value seems obscured/masked, using placeholder:\n"@
            + "    await page.locator(\""@ + esc + "\").fill(\""@ + spec_masked_placeholder()
            + "\");\n"@
    } else {
        "    await page.locator(\""@ + esc + "\").fill(\""@ + spec_escape_js_value(value)
            + "\");\n"@
    }) + "  } catch (error) {\n"@ + "    console.warn('Action failed for selector ["@
        + spec_backslash_removed(esc) + "]:', (error as Error).message);\n"@ + "  }\n"@
}

/// The skip comment emitted instead of a statement when no selector could
/// be generated.
pub open spec fn spec_skip_comment(sel: Seq<char>) -> Seq<char> {
    "  // Action skipped: Could not generate stable selector for <"@ + spec_failed_tag(sel)
        + "> element.\n"@
}

/// The executable part emitted for one action: a skip comment for a
/// sentinel, a click or fill block otherwise (an input action without a
/// value emits nothing).
pub open spec fn spec_exec_part(a: SelActionView) -> Seq<char> {
    if spec_is_sentinel(a.selector) {
        spec_skip_comment(a.selector)
    } else {
        match a.action_type {
            ActionType::Click => spec_click_block(a.selector),
            ActionType::Input => match a.value {
                Some(v) => spec_input_block(a.selector, v),
                None => Seq::<char>::empty(),
            },
        }
    }
}

/// Everything emitted for one action, with a blank line after it.
pub open spec fn spec_action_code(a: SelActionView) -> Seq<char> {
    spec_comment_for_action(a) + spec_exec_part(a) + "\n"@
}

/// The fixed best-effort cookie-consent dismissal that precedes the first
/// action, itself fault-isolated.
pub open spec fn spec_preamble() -> Seq<char> {
    "  // Attempt to dismiss common cookie banners first\n"@
        + "  await page.getByRole('button', { name: /Accept|Agree|Allow|Got it/i }).click({ timeout: 5000 }).catch(() => { console.log('Cookie banner not found or dismissed already within 5s.'); });\n\n"@
}

/// The code emitted for a whole action list, in order.
pub open spec fn spec_actions_code(actions: Seq<SelActionView>) -> Seq<char>
    decreases actions.len(),
{
    if actions.len() == 0 {
        Seq::<char>::empty()
    } else {
        spec_actions_code(actions.drop_last()) + spec_action_code(actions.last())
    }
}

/// The generated action-sequence fragment: the preamble, one block per
/// action in original order, trailing whitespace trimmed.
pub open spec fn spec_generate_code(actions: Seq<SelActionView>) -> Seq<char> {
    spec_trim_end(spec_preamble() + spec_actions_code(actions))
}

fn emit_comment(out: &mut String, action: &ActionWithSelector)
    ensures
        final(out)@ == old(out)@ + spec_comment_for_action(action@),
{
    out.append("  // Timestamp: ");
    let ts = i64_to_string(action.timestamp);
    out.append(ts.as_str());
    out.append("\n");
    out.append("  // Action: ");
    out.append(action.action_type.kind_str());
    out.append(", Selector: '");
    out.append(action.selector.as_str());
    out.append("'");
    match &action.value {
        Some(val) => {
            out.append(", Value: '");
            if looks_masked(val.as_str()) {
                out.append("TODO: Add realistic test data");
            } else {
                out.append(val.as_str());
            }
            out.append("'");
        },
        None => {},
    }
    out.append("\n");
    proof {
        assert(out@ =~= old(out)@ + spec_comment_for_action(action@));
    }
}

fn emit_click_block(out: &mut String, selector: &String)
    ensures
        final(out)@ == old(out)@ + spec_click_block(selector@),
{
    let escaped_selector = escape_js_selector(selector.as_str());
    out.append("  try {\n");
    out.append("    await page.locator(\"");
    out.append(escaped_selector.as_str());
    out.append("\").click();\n");
    out.append("  } catch (error) {\n");
    out.append("    console.warn('Action failed for selector [");
    let cleaned = backslash_to_space(escaped_selector.as_str());
    out.append(cleaned.as_str());
    out.append("]:', (error as Error).message);\n");
    out.append("  }\n");
    proof {
        assert(out@ =~= old(out)@ + spec_click_block(selector@));
    }
}

fn emit_input_block(out: &mut String, selector: &String, value: &String)
    ensures
        final(out)@ == old(out)@ + spec_input_block(selector@, value@),
{
    let escaped_selector = escape_js_selector(selector.as_str());
    out.append("  try {\n");
    if looks_masked(value.as_str()) {
        out.append("    // Input value seems obscured/masked, using placeholder:\n");
        out.append("    await page.locator(\"");
        out.append(escaped_selector.as_str());
        out.append("\").fill(\"");
        out.append("TODO: Add realistic test data");
        out.append("\");\n");
    } else {
        let escaped_value = escape_js_value(value.as_str());
        out.append("    await page.locator(\"");
        out.append(escaped_selector.as_str());
        out.append("\").fill(\"");
        out.append(escaped_value.as_str());
        out.append("\");\n");
    }
    out.append("  } catch (error) {\n");
    out.append("    console.warn('Action failed for selector [");
    let cleaned = backslash_removed(escaped_selector.as_str());
    out.append(cleaned.as_str());
    out.append("]:', (error as Error).message);\n");
    out.append("  }\n");
    proof {
        assert(out@ =~= old(out)@ + spec_input_block(selector@, value@));
    }
}

fn emit_action(out: &mut String, action: &ActionWithSelector)
    ensures
        final(out)@ == old(out)@ + spec_action_code(action@),
{
    emit_comment(out, action);
    match sentinel_failed_tag(action.selector.as_str()) {
        Some(failed_tag) => {
            out.append("  // Action skipped: Could not generate stable selector for <");
            out.append(failed_tag.as_str());
            out.append("> element.\n");
        },
        None => {
            match action.action_type {
                ActionType::Click => {
                    emit_click_block(out, &action.selector);
                },
                ActionType::Input => {
                    match &action.value {
                        Some(val) => {
                            emit_input_block(out, &action.selector, val);
                        },
                        None => {},
                    }
                },
            }
        },
    }
    out.append("\n");
    proof {
        assert(out@ =~= old(out)@ + spec_action_code(action@));
    }
}

/// Renders the action list into the replay fragment: a descriptive comment
/// per action, a skip comment instead of a statement when the selector is
/// a failure sentinel, and otherwise a fault-isolated click or fill
/// statement, after the fixed cookie-consent preamble.
pub fn generate_action_sequence_code(actions_with_selectors: &Vec<ActionWithSelector>) -> (r:
    Result<String, ConvertError>)
    ensures
        r is Ok,
        r matches Ok(code) ==> code@ == spec_generate_code(
            view_sel_actions(actions_with_selectors@),
        ),
{
    let ghost avs = view_sel_actions(actions_with_selectors@);
    let mut out = String::from_str("  // Attempt to dismiss common cookie banners first\n");
    out.append(
        "  await page.getByRole('button', { name: /Accept|Agree|Allow|Got it/i }).click({ timeout: 5000 }).catch(() => { console.log('Cookie banner not found or dismissed already within 5s.'); });\n\n",
    );
    let mut i: usize = 0;
    while i < actions_with_selectors.len()
        invariant
            i <= actions_with_selectors.len(),
            avs == view_sel_actions(actions_with_selectors@),
            avs.len() == actions_with_selectors@.len(),
            out@ == spec_preamble() + spec_actions_code(avs.subrange(0, i as int)),
        decreases actions_with_selectors.len() - i,
    {
        emit_action(&mut out, &actions_with_selectors[i]);
        proof {
            assert(avs.subrange(0, i + 1).drop_last() =~= avs.subrange(0, i as int));
            assert(avs.subrange(0, i + 1).last() == avs[i as int]);
            assert(out@ =~= spec_preamble() + spec_actions_code(avs.subrange(0, i + 1)));
        }
        i = i + 1;
    }
    proof {
        assert(avs.subrange(0, avs.len() as int) =~= avs);
    }
    let trimmed = trim_end(out.as_str());
    Ok(trimmed)
}

} // verus!
