//! The conversion pipeline, end to end: validate the events, reconstruct
//! the DOM snapshot, extract the simplified actions, synthesize selectors,
//! and emit the action-sequence code.

use vstd::prelude::*;
use vstd::string::*;
use crate::codegen::{generate_action_sequence_code, spec_generate_code};
use crate::error::ConvertError;
use crate::events::{
    find_event_by_type, spec_find_event, view_events, Event, EVENT_TYPE_META,
};
use crate::extract::{preprocess_rrweb_data, spec_build_dom, spec_extract, spec_has_snapshot};
use crate::json::spec_field_str;
use crate::selector::{generate_selectors_for_actions, spec_actions_with_selectors};

verus! {

/// The initial URL carried by the first Meta event's `href` field, if any.
pub open spec fn spec_initial_url(events: Seq<crate::events::EventView>) -> Option<Seq<char>> {
    match spec_find_event(events, EVENT_TYPE_META as int) {
        Some(meta_event) => spec_field_str(meta_event.data, "href"@),
        None => None,
    }
}

/// The placeholder substituted when no initial URL can be found.
pub open spec fn spec_default_url() -> Seq<char> {
    "http://example.com"@
}

/// Extracts the initial URL from the first Meta event, if one carries an
/// `href` string.
pub fn extract_initial_url(rrweb_events: &Vec<Event>) -> (r: Option<String>)
    ensures
        match r {
            Some(url) => spec_initial_url(view_events(rrweb_events@)) == Some(url@),
            None => spec_initial_url(view_events(rrweb_events@)) is None,
        },
{
    match find_event_by_type(rrweb_events, EVENT_TYPE_META) {
        Some(meta_event) => match meta_event.data.field_str("href") {
            Some(href) => Some(href.to_owned()),
            None => None,
        },
        None => None,
    }
}

/// What a conversion produces: the initial URL (with a note when the
/// placeholder had to stand in for a missing one, a non-fatal condition)
/// and the generated action-sequence code.
pub struct ConversionOutput {
    pub initial_url: String,
    pub action_sequence: String,
    pub used_default_url: bool,
}

/// Runs the whole pipeline over a materialized event sequence. Fails, with
/// no partial output, exactly when the sequence holds no full-snapshot
/// event; an unresolvable action only downgrades to a skip comment in the
/// generated code.
pub fn convert_events_to_script(rrweb_events: &Vec<Event>) -> (r: Result<
    ConversionOutput,
    ConvertError,
>)
    ensures
        r is Ok <==> spec_has_snapshot(view_events(rrweb_events@)),
        r matches Err(e) ==> e == ConvertError::MissingSnapshot,
        r matches Ok(out) ==> {
            &&& out.used_default_url == (spec_initial_url(view_events(rrweb_events@)) is None)
            &&& out.initial_url@ == (match spec_initial_url(view_events(rrweb_events@)) {
                Some(url) => url,
                None => spec_default_url(),
            })
            &&& out.action_sequence@ == spec_generate_code(
                spec_actions_with_selectors(
                    spec_extract(view_events(rrweb_events@)),
                    spec_build_dom(view_events(rrweb_events@)),
                ),
            )
        },
{
    let url_opt = extract_initial_url(rrweb_events);
    let used_default_url = url_opt.is_none();
    let initial_url = match url_opt {
        Some(url) => url,
        None => String::from_str("http://example.com"),
    };

    let (dom_map, simplified_actions) = match preprocess_rrweb_data(rrweb_events) {
        Ok(pair) => pair,
        Err(e) => {
            return Err(e);
        },
    };

    let actions_with_selectors = match generate_selectors_for_actions(
        &simplified_actions,
        &dom_map,
    ) {
        Ok(list) => list,
        Err(e) => {
            return Err(e);
        },
    };

    let action_sequence = match generate_action_sequence_code(&actions_with_selectors) {
        Ok(code) => code,
        Err(e) => {
            return Err(e);
        },
    };

    Ok(ConversionOutput { initial_url, action_sequence, used_default_url })
}

} // verus!
