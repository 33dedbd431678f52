//! Recording events: one full DOM snapshot, a stream of timestamped
//! incremental interaction events, and page metadata.

use vstd::prelude::*;
use crate::json::{JsonValue, JsonView};

verus! {

/// Event kind: a complete recursive DOM tree capture.
pub const EVENT_TYPE_FULL_SNAPSHOT: i64 = 2;

/// Event kind: one interaction or mutation after the snapshot.
pub const EVENT_TYPE_INCREMENTAL: i64 = 3;

/// Event kind: page metadata, carrying the initial URL.
pub const EVENT_TYPE_META: i64 = 4;

/// Incremental source: a DOM mutation (deliberately not applied).
pub const SOURCE_MUTATION: i64 = 0;

/// Incremental source: a mouse interaction.
pub const SOURCE_MOUSE_INTERACTION: i64 = 2;

/// Incremental source: a text input.
pub const SOURCE_INPUT: i64 = 5;

/// Mouse interaction sub-kind: a click.
pub const MOUSE_TYPE_CLICK: i64 = 2;

/// The model of one recording event.
pub struct EventView {
    pub event_type: int,
    pub data: JsonView,
    pub timestamp: int,
}

/// One recording event: its kind, its structured payload, and its
/// timestamp.
#[derive(Debug)]
pub struct Event {
    pub event_type: i64,
    pub data: JsonValue,
    pub timestamp: i64,
}

impl View for Event {
    type V = EventView;

    open spec fn view(&self) -> EventView {
        EventView {
            event_type: self.event_type as int,
            data: self.data@,
            timestamp: self.timestamp as int,
        }
    }
}

/// Model of a sequence of events.
pub open spec fn view_events(s: Seq<Event>) -> Seq<EventView> {
    Seq::new(
        s.len(),
        |i: int|
            if 0 <= i < s.len() {
                s[i]@
            } else {
                EventView { event_type: 0, data: JsonView::Null, timestamp: 0 }
            },
    )
}

/// The first event of the given kind, if any.
pub open spec fn spec_find_event(events: Seq<EventView>, event_type: int) -> Option<EventView>
    decreases events.len(),
{
    if events.len() == 0 {
        None
    } else if events.first().event_type == event_type {
        Some(events.first())
    } else {
        spec_find_event(events.drop_first(), event_type)
    }
}

/// Finds the first event of a specific kind.
pub fn find_event_by_type<'a>(events: &'a Vec<Event>, event_type: i64) -> (r: Option<&'a Event>)
    ensures
        match r {
            Some(ev) => spec_find_event(view_events(events@), event_type as int) == Some(ev@),
            None => spec_find_event(view_events(events@), event_type as int) is None,
        },
{
    let ghost es = view_events(events@);
    proof {
        assert(es.subrange(0, es.len() as int) =~= es);
    }
    let mut i: usize = 0;
    while i < events.len()
        invariant
            i <= events.len(),
            es == view_events(events@),
            es.len() == events@.len(),
            spec_find_event(es, event_type as int) == spec_find_event(
                es.subrange(i as int, es.len() as int),
                event_type as int,
            ),
        decreases events.len() - i,
    {
        let ghost tail = es.subrange(i as int, es.len() as int);
        if events[i].event_type == event_type {
            proof {
                assert(tail.first() == es[i as int]);
            }
            return Some(&events[i]);
        }
        proof {
            assert(tail.first() == es[i as int]);
            assert(tail.drop_first() =~= es.subrange(i + 1, es.len() as int));
        }
        i = i + 1;
    }
    proof {
        assert(es.subrange(es.len() as int, es.len() as int) =~= Seq::<EventView>::empty());
    }
    None
}

} // verus!
