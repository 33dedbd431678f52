//! Simplified user actions extracted from a recording, and actions paired
//! with a synthesized selector.

use vstd::prelude::*;

verus! {

/// The kind of one simplified user action.
#[derive(Debug, Clone, Copy, PartialEq, Eq, Structural)]
pub enum ActionType {
    Click,
    Input,
}

/// The label of an action kind, as it is written into generated comments.
pub open spec fn spec_action_type_str(t: ActionType) -> Seq<char> {
    match t {
        ActionType::Click => "Click"@,
        ActionType::Input => "Input"@,
    }
}

impl ActionType {
    /// The label of this action kind.
    pub fn kind_str(&self) -> (r: &'static str)
        ensures
            r@ == spec_action_type_str(*self),
    {
        match self {
            ActionType::Click => "Click",
            ActionType::Input => "Input",
        }
    }
}

/// The model of one simplified action.
pub struct ActionView {
    pub action_type: ActionType,
    pub rrweb_id: int,
    pub value: Option<Seq<char>>,
    pub timestamp: int,
}

/// One simplified action: what was done, to which node, with which input
/// value (for input actions), and when.
#[derive(Debug)]
pub struct SimplifiedAction {
    pub action_type: ActionType,
    pub rrweb_id: i64,
    pub value: Option<String>,
    pub timestamp: i64,
}

impl View for SimplifiedAction {
    type V = ActionView;

    open spec fn view(&self) -> ActionView {
        ActionView {
            action_type: self.action_type,
            rrweb_id: self.rrweb_id as int,
            value: crate::dom::view_opt_string(self.value),
            timestamp: self.timestamp as int,
        }
    }
}

/// Model of a sequence of simplified actions.
pub open spec fn view_actions(s: Seq<SimplifiedAction>) -> Seq<ActionView> {
    Seq::new(
        s.len(),
        |i: int|
            if 0 <= i < s.len() {
                s[i]@
            } else {
                ActionView { action_type: ActionType::Click, rrweb_id: 0, value: None, timestamp: 0 }
            },
    )
}

/// Appends an action to the extracted list.
pub fn add_action(action_list: &mut Vec<SimplifiedAction>, new_action: SimplifiedAction)
    ensures
        final(action_list)@ == old(action_list)@.push(new_action),
        view_actions(final(action_list)@) == view_actions(old(action_list)@).push(new_action@),
{
    let ghost pre = action_list@;
    let ghost av = new_action@;
    action_list.push(new_action);
    proof {
        assert(view_actions(action_list@) =~= view_actions(pre).push(av));
    }
}

/// The model of one action paired with its selector.
pub struct SelActionView {
    pub action_type: ActionType,
    pub rrweb_id: int,
    pub value: Option<Seq<char>>,
    pub timestamp: int,
    pub selector: Seq<char>,
}

/// One simplified action together with the selector synthesized for it. A
/// selector carrying the failure sentinel prefix marks an action that could
/// not be resolved.
#[derive(Debug)]
pub struct ActionWithSelector {
    pub action_type: ActionType,
    pub rrweb_id: i64,
    pub value: Option<String>,
    pub timestamp: i64,
    pub selector: String,
}

impl View for ActionWithSelector {
    type V = SelActionView;

    open spec fn view(&self) -> SelActionView {
        SelActionView {
            action_type: self.action_type,
            rrweb_id: self.rrweb_id as int,
            value: crate::dom::view_opt_string(self.value),
            timestamp: self.timestamp as int,
            selector: self.selector@,
        }
    }
}

/// Model of a sequence of actions with selectors.
pub open spec fn view_sel_actions(s: Seq<ActionWithSelector>) -> Seq<SelActionView> {
    Seq::new(
        s.len(),
        |i: int|
            if 0 <= i < s.len() {
                s[i]@
            } else {
                SelActionView {
                    action_type: ActionType::Click,
                    rrweb_id: 0,
                    value: None,
                    timestamp: 0,
                    selector: Seq::empty(),
                }
            },
    )
}

} // verus!
