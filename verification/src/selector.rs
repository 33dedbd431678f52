//! Selector synthesis: for each action, resolve the target node and apply
//! an ordered strategy cascade, first match wins. An action whose target
//! cannot be resolved, or for which no strategy matches, gets a failure
//! sentinel instead of a selector; the pipeline continues regardless.

use vstd::prelude::*;
use vstd::string::*;
use crate::action::{
    view_actions, view_sel_actions, ActionView, ActionWithSelector, SelActionView,
    SimplifiedAction,
};
use crate::assoc::assoc_lookup;
use crate::dom::{DomMap, NodeInfo, NodeView};
use crate::error::ConvertError;
use crate::strutil::{
    first_token, has_nonspace, has_whitespace, i64_to_string, push_char, spec_first_token,
    spec_has_nonspace, spec_has_space, spec_i64_str,
};

verus! {

/// The prefix marking a selector that could not be generated; what follows
/// it names the unresolved element.
pub open spec fn spec_sentinel_prefix() -> Seq<char> {
    "SELECTOR_GENERATION_FAILED::"@
}

/// The failure sentinel naming the given element.
pub open spec fn spec_failure_sentinel(tag: Seq<char>) -> Seq<char> {
    spec_sentinel_prefix() + tag
}

/// The value with every embedded double quote escaped by a backslash; no
/// further CSS-special-character escaping is performed (a documented
/// limitation of the attribute-equality form).
pub open spec fn spec_escape_quotes(s: Seq<char>) -> Seq<char>
    decreases s.len(),
{
    if s.len() == 0 {
        Seq::empty()
    } else {
        spec_escape_quotes(s.drop_last()) + (if s.last() == '"' {
            seq!['\\', '"']
        } else {
            seq![s.last()]
        })
    }
}

/// A class token with `:` and `.` backslash-escaped.
pub open spec fn spec_escape_class(s: Seq<char>) -> Seq<char>
    decreases s.len(),
{
    if s.len() == 0 {
        Seq::empty()
    } else {
        spec_escape_class(s.drop_last()) + (if s.last() == ':' || s.last() == '.' {
            seq!['\\', s.last()]
        } else {
            seq![s.last()]
        })
    }
}

/// The attribute-equality selector on `attr` with the given value.
pub open spec fn spec_attr_selector(attr: Seq<char>, value: Seq<char>) -> Seq<char> {
    "*["@ + attr + " = \""@ + spec_escape_quotes(value) + "\"]"@
}

/// The attribute-equality strategy for one attribute: applies when the
/// node carries the attribute with a non-empty value.
pub open spec fn spec_attr_strategy(
    attrs: Seq<(Seq<char>, Seq<char>)>,
    name: Seq<char>,
) -> Option<Seq<char>> {
    match assoc_lookup(attrs, name) {
        Some(v) => if v.len() > 0 {
            Some(spec_attr_selector(name, v))
        } else {
            None
        },
        None => None,
    }
}

/// The class strategy: the first whitespace-delimited token of a `class`
/// value that holds one, escaped, combined with the tag name (or `*` when
/// the tag name is absent).
pub open spec fn spec_class_strategy(node: NodeView) -> Option<Seq<char>> {
    match assoc_lookup(node.attributes, "class"@) {
        Some(class_val) => if spec_has_nonspace(class_val) {
            let token = spec_escape_class(spec_first_token(class_val));
            Some(
                match node.tag_name {
                    Some(tag) => tag + "."@ + token,
                    None => "*."@ + token,
                },
            )
        } else {
            None
        },
        None => None,
    }
}

/// The selector the strategy cascade synthesizes for a resolved node, in
/// fixed priority: a whitespace-free non-empty `id` as `#id`; a non-empty
/// `id` with whitespace as an attribute-equality selector; then
/// `data-testid`, `data-cy` and `name` attribute-equality selectors; then
/// the class strategy; and, when nothing matched, the failure sentinel
/// naming the tag (or `unknown`).
pub open spec fn spec_selector_for_node(node: NodeView) -> Seq<char> {
    let id_attr = assoc_lookup(node.attributes, "id"@);
    if id_attr is Some && id_attr->0.len() > 0 && !spec_has_space(id_attr->0) {
        "#"@ + id_attr->0
    } else if id_attr is Some && id_attr->0.len() > 0 {
        spec_attr_selector("id"@, id_attr->0)
    } else if spec_attr_strategy(node.attributes, "data-testid"@) is Some {
        spec_attr_strategy(node.attributes, "data-testid"@)->0
    } else if spec_attr_strategy(node.attributes, "data-cy"@) is Some {
        spec_attr_strategy(node.attributes, "data-cy"@)->0
    } else if spec_attr_strategy(node.attributes, "name"@) is Some {
        spec_attr_strategy(node.attributes, "name"@)->0
    } else if spec_class_strategy(node) is Some {
        spec_class_strategy(node)->0
    } else {
        spec_failure_sentinel(
            match node.tag_name {
                Some(tag) => tag,
                None => "unknown"@,
            },
        )
    }
}

/// The selector synthesized for one action: the cascade on the resolved
/// node, or the node-not-found sentinel when the target id is absent from
/// the node map (a non-fatal condition).
pub open spec fn spec_selector_for_action(a: ActionView, dom: Map<int, NodeView>) -> Seq<char> {
    if dom.contains_key(a.rrweb_id) {
        spec_selector_for_node(dom[a.rrweb_id])
    } else {
        spec_failure_sentinel("node_not_found_id_"@ + spec_i64_str(a.rrweb_id))
    }
}

/// One action paired with its synthesized selector.
pub open spec fn spec_action_with_selector(a: ActionView, dom: Map<int, NodeView>) -> SelActionView {
    SelActionView {
        action_type: a.action_type,
        rrweb_id: a.rrweb_id,
        value: a.value,
        timestamp: a.timestamp,
        selector: spec_selector_for_action(a, dom),
    }
}

/// The whole action list paired with selectors, in unchanged order.
pub open spec fn spec_actions_with_selectors(
    actions: Seq<ActionView>,
    dom: Map<int, NodeView>,
) -> Seq<SelActionView> {
    Seq::new(
        actions.len(),
        |i: int|
            if 0 <= i < actions.len() {
                spec_action_with_selector(actions[i], dom)
            } else {
                SelActionView {
                    action_type: crate::action::ActionType::Click,
                    rrweb_id: 0,
                    value: None,
                    timestamp: 0,
                    selector: Seq::empty(),
                }
            },
    )
}

/// Escapes every embedded double quote with a backslash.
pub fn escape_quotes(s: &str) -> (r: String)
    ensures
        r@ == spec_escape_quotes(s@),
{
    let len = s.unicode_len();
    let mut out = String::new();
    let mut i: usize = 0;
    while i < len
        invariant
            i <= len,
            len == s@.len(),
            out@ == spec_escape_quotes(s@.subrange(0, i as int)),
        decreases len - i,
    {
        let c = s.get_char(i);
        if c == '"' {
            push_char(&mut out, '\\');
            push_char(&mut out, '"');
        } else {
            push_char(&mut out, c);
        }
        proof {
            assert(s@.subrange(0, i + 1).drop_last() =~= s@.subrange(0, i as int));
            assert(s@.subrange(0, i + 1).last() == s@[i as int]);
            assert(out@ =~= spec_escape_quotes(s@.subrange(0, i + 1)));
        }
        i = i + 1;
    }
    proof {
        assert(s@.subrange(0, len as int) =~= s@);
    }
    out
}

/// Backslash-escapes `:` and `.` in a class token.
pub fn escape_class_token(s: &str) -> (r: String)
    ensures
        r@ == spec_escape_class(s@),
{
    let len = s.unicode_len();
    let mut out = String::new();
    let mut i: usize = 0;
    while i < len
        invariant
            i <= len,
            len == s@.len(),
            out@ == spec_escape_class(s@.subrange(0, i as int)),
        decreases len - i,
    {
        let c = s.get_char(i);
        if c == ':' || c == '.' {
            push_char(&mut out, '\\');
            push_char(&mut out, c);
        } else {
            push_char(&mut out, c);
        }
        proof {
            assert(s@.subrange(0, i + 1).drop_last() =~= s@.subrange(0, i as int));
            assert(s@.subrange(0, i + 1).last() == s@[i as int]);
            assert(out@ =~= spec_escape_class(s@.subrange(0, i + 1)));
        }
        i = i + 1;
    }
    proof {
        assert(s@.subrange(0, len as int) =~= s@);
    }
    out
}

/// Builds the attribute-equality selector on `attr`, escaping embedded
/// double quotes in the value.
pub fn create_attr_selector(attr: &str, value: &str) -> (r: String)
    ensures
        r@ == spec_attr_selector(attr@, value@),
{
    let mut out = String::from_str("*[");
    out.append(attr);
    out.append(" = \"");
    let esc = escape_quotes(value);
    out.append(esc.as_str());
    out.append("\"]");
    out
}

/// Builds the failure sentinel naming the given element.
fn failure_sentinel(tag: &str) -> (r: String)
    ensures
        r@ == spec_failure_sentinel(tag@),
{
    let mut out = String::from_str("SELECTOR_GENERATION_FAILED::");
    out.append(tag);
    out
}

/// Synthesizes a selector for one resolved node by the strategy cascade.
/// The result depends on the node information alone, so synthesizing twice
/// from the same node yields the identical string.
pub fn synthesize_selector(node_info: &NodeInfo) -> (r: String)
    ensures
        r@ == spec_selector_for_node(node_info@),
{
    match node_info.attributes.get("id") {
        Some(id_val) => {
            if !id_val.as_str().is_empty() && !has_whitespace(id_val.as_str()) {
                let mut out = String::from_str("#");
                out.append(id_val.as_str());
                return out;
            }
            if !id_val.as_str().is_empty() {
                return create_attr_selector("id", id_val.as_str());
            }
        },
        None => {},
    }
    match node_info.attributes.get("data-testid") {
        Some(test_id_val) => {
            if !test_id_val.as_str().is_empty() {
                return create_attr_selector("data-testid", test_id_val.as_str());
            }
        },
        None => {},
    }
    match node_info.attributes.get("data-cy") {
        Some(cy_id_val) => {
            if !cy_id_val.as_str().is_empty() {
                return create_attr_selector("data-cy", cy_id_val.as_str());
            }
        },
        None => {},
    }
    match node_info.attributes.get("name") {
        Some(name_val) => {
            if !name_val.as_str().is_empty() {
                return create_attr_selector("name", name_val.as_str());
            }
        },
        None => {},
    }
    match node_info.attributes.get("class") {
        Some(class_val) => {
            if has_nonspace(class_val.as_str()) {
                let token = first_token(class_val.as_str());
                let escaped = escape_class_token(token.as_str());
                match &node_info.tag_name {
                    Some(tag) => {
                        let mut out = tag.clone();
                        out.append(".");
                        out.append(escaped.as_str());
                        return out;
                    },
                    None => {
                        let mut out = String::from_str("*.");
                        out.append(escaped.as_str());
                        return out;
                    },
                }
            }
        },
        None => {},
    }
    match &node_info.tag_name {
        Some(tag) => failure_sentinel(tag.as_str()),
        None => failure_sentinel("unknown"),
    }
}

/// Pairs every action with a synthesized selector, in unchanged order; an
/// unresolved target id becomes a sentinel, never an error.
pub fn generate_selectors_for_actions(
    simplified_actions: &Vec<SimplifiedAction>,
    dom_map: &DomMap,
) -> (r: Result<Vec<ActionWithSelector>, ConvertError>)
    ensures
        r is Ok,
        r matches Ok(list) ==> view_sel_actions(list@) == spec_actions_with_selectors(
            view_actions(simplified_actions@),
            dom_map@,
        ),
{
    let ghost avs = view_actions(simplified_actions@);
    let mut actions_with_selectors: Vec<ActionWithSelector> = Vec::new();
    let mut i: usize = 0;
    while i < simplified_actions.len()
        invariant
            i <= simplified_actions.len(),
            avs == view_actions(simplified_actions@),
            avs.len() == simplified_actions@.len(),
            view_sel_actions(actions_with_selectors@) == spec_actions_with_selectors(
                avs,
                dom_map@,
            ).subrange(0, i as int),
        decreases simplified_actions.len() - i,
    {
        let action = &simplified_actions[i];
        let generated_selector: String = match dom_map.get(action.rrweb_id) {
            Some(node_info) => synthesize_selector(node_info),
            None => {
                let mut tag = String::from_str("node_not_found_id_");
                let id_str = i64_to_string(action.rrweb_id);
                tag.append(id_str.as_str());
                failure_sentinel(tag.as_str())
            },
        };
        let value: Option<String> = match &action.value {
            Some(v) => Some(v.clone()),
            None => None,
        };
        let with_selector = ActionWithSelector {
            action_type: action.action_type,
            rrweb_id: action.rrweb_id,
            value,
            timestamp: action.timestamp,
            selector: generated_selector,
        };
        proof {
            assert(with_selector@ == spec_action_with_selector(avs[i as int], dom_map@));
        }
        let ghost pre_list = actions_with_selectors@;
        let ghost w = with_selector@;
        actions_with_selectors.push(with_selector);
        proof {
            let full = spec_actions_with_selectors(avs, dom_map@);
            assert(view_sel_actions(pre_list).len() == pre_list.len());
            assert(pre_list.len() == i as int);
            assert(actions_with_selectors@.len() == i + 1);
            assert(actions_with_selectors@ == pre_list.push(actions_with_selectors@.last()));
            assert(actions_with_selectors@.last()@ == w);
            assert forall|j: int| 0 <= j < i + 1 implies view_sel_actions(actions_with_selectors@)[j]
                == full[j] by {
                if j < i {
                    assert(view_sel_actions(actions_with_selectors@)[j]
                        == actions_with_selectors@[j]@);
                    assert(actions_with_selectors@[j] == pre_list[j]);
                    assert(view_sel_actions(pre_list)[j] == full.subrange(0, i as int)[j]);
                } else {
                    assert(view_sel_actions(actions_with_selectors@)[j] == w);
                }
            }
            assert(view_sel_actions(actions_with_selectors@) =~= full.subrange(0, i + 1));
        }
        i = i + 1;
    }
    proof {
        assert(spec_actions_with_selectors(avs, dom_map@).subrange(0, avs.len() as int)
            =~= spec_actions_with_selectors(avs, dom_map@));
    }
    Ok(actions_with_selectors)
}

} // verus!
