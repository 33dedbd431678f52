//! Action extraction: a single ordered pass over the incremental events of
//! a recording, coalescing consecutive input events per target element.

use vstd::prelude::*;
use vstd::string::*;
use crate::action::{add_action, view_actions, ActionType, ActionView, SimplifiedAction};
use crate::dom::{parse_dom_snapshot, spec_parse_node, DomMap, MAX_SNAPSHOT_DEPTH};
use crate::error::ConvertError;
use crate::events::{
    find_event_by_type, spec_find_event, view_events, Event, EventView, EVENT_TYPE_FULL_SNAPSHOT,
    EVENT_TYPE_INCREMENTAL, MOUSE_TYPE_CLICK, SOURCE_INPUT, SOURCE_MOUSE_INTERACTION,
};
use crate::json::{spec_field_i64, spec_field_str, spec_get, JsonView};

verus! {

/// The per-invocation buffer of pending input events: target id, latest
/// text, latest timestamp, kept in the order ids were first buffered.
pub struct InputBuffer {
    entries: Vec<(i64, String, i64)>,
}

/// The model of the buffer: a sequence of (target id, text, timestamp)
/// triples in insertion order.
pub open spec fn view_buffer_entries(es: Seq<(i64, String, i64)>) -> Seq<(int, Seq<char>, int)> {
    Seq::new(
        es.len(),
        |i: int|
            if 0 <= i < es.len() {
                (es[i].0 as int, es[i].1@, es[i].2 as int)
            } else {
                (0, Seq::<char>::empty(), 0)
            },
    )
}

impl View for InputBuffer {
    type V = Seq<(int, Seq<char>, int)>;

    closed spec fn view(&self) -> Seq<(int, Seq<char>, int)> {
        view_buffer_entries(self.entries@)
    }
}

/// The buffer after an input event for `id`: the entry for `id` is
/// overwritten in place when one exists, keeping its position; otherwise a
/// new entry is appended.
pub open spec fn spec_buf_upsert(
    buf: Seq<(int, Seq<char>, int)>,
    id: int,
    text: Seq<char>,
    ts: int,
) -> Seq<(int, Seq<char>, int)>
    decreases buf.len(),
{
    if buf.len() == 0 {
        seq![(id, text, ts)]
    } else if buf.first().0 == id {
        seq![(id, text, ts)] + buf.drop_first()
    } else {
        seq![buf.first()] + spec_buf_upsert(buf.drop_first(), id, text, ts)
    }
}

/// The input actions a buffer flushes to, in insertion order.
pub open spec fn spec_flush(buf: Seq<(int, Seq<char>, int)>) -> Seq<ActionView> {
    Seq::new(
        buf.len(),
        |i: int|
            if 0 <= i < buf.len() {
                ActionView {
                    action_type: ActionType::Input,
                    rrweb_id: buf[i].0,
                    value: Some(buf[i].1),
                    timestamp: buf[i].2,
                }
            } else {
                ActionView { action_type: ActionType::Click, rrweb_id: 0, value: None, timestamp: 0 }
            },
    )
}

proof fn lemma_buf_upsert_no_match(buf: Seq<(int, Seq<char>, int)>, id: int, text: Seq<char>, ts: int)
    requires
        forall|j: int| 0 <= j < buf.len() ==> buf[j].0 != id,
    ensures
        spec_buf_upsert(buf, id, text, ts) == buf.push((id, text, ts)),
    decreases buf.len(),
{
    if buf.len() == 0 {
        assert(spec_buf_upsert(buf, id, text, ts) =~= buf.push((id, text, ts)));
    } else {
        assert(buf.first().0 != id);
        lemma_buf_upsert_no_match(buf.drop_first(), id, text, ts);
        assert(seq![buf.first()] + buf.drop_first().push((id, text, ts)) =~= buf.push(
            (id, text, ts),
        ));
    }
}

proof fn lemma_buf_upsert_match(
    buf: Seq<(int, Seq<char>, int)>,
    id: int,
    text: Seq<char>,
    ts: int,
    k: int,
)
    requires
        0 <= k < buf.len(),
        buf[k].0 == id,
        forall|j: int| 0 <= j < k ==> buf[j].0 != id,
    ensures
        spec_buf_upsert(buf, id, text, ts) == buf.update(k, (id, text, ts)),
    decreases buf.len(),
{
    if k == 0 {
        assert(buf.first().0 == id);
        assert(seq![(id, text, ts)] + buf.drop_first() =~= buf.update(0, (id, text, ts)));
    } else {
        assert(buf.first().0 != id);
        lemma_buf_upsert_match(buf.drop_first(), id, text, ts, k - 1);
        assert(seq![buf.first()] + buf.drop_first().update(k - 1, (id, text, ts)) =~= buf.update(
            k,
            (id, text, ts),
        ));
    }
}

impl InputBuffer {
    /// An empty buffer.
    pub fn new() -> (r: InputBuffer)
        ensures
            r@ == Seq::<(int, Seq<char>, int)>::empty(),
    {
        let r = InputBuffer { entries: Vec::new() };
        proof {
            assert(r@ =~= Seq::<(int, Seq<char>, int)>::empty());
        }
        r
    }

    /// Buffers the latest text and timestamp for a target id, overwriting
    /// any earlier entry for that id while keeping its position.
    pub fn upsert(&mut self, id: i64, text: String, ts: i64)
        ensures
            final(self)@ == spec_buf_upsert(old(self)@, id as int, text@, ts as int),
    {
        let ghost pre = self@;
        let mut k: usize = 0;
        while k < self.entries.len()
            invariant
                k <= self.entries.len(),
                pre == old(self)@,
                self@ == pre,
                pre == view_buffer_entries(self.entries@),
                pre.len() == self.entries@.len(),
                forall|j: int| 0 <= j < k ==> pre[j].0 != id as int,
            decreases self.entries.len() - k,
        {
            if self.entries[k].0 == id {
                self.entries[k] = (id, text, ts);
                proof {
                    assert(view_buffer_entries(self.entries@) =~= pre.update(
                        k as int,
                        (id as int, text@, ts as int),
                    ));
                    lemma_buf_upsert_match(pre, id as int, text@, ts as int, k as int);
                }
                return;
            }
            k = k + 1;
        }
        self.entries.push((id, text, ts));
        proof {
            assert(view_buffer_entries(self.entries@) =~= pre.push((id as int, text@, ts as int)));
            lemma_buf_upsert_no_match(pre, id as int, text@, ts as int);
        }
    }
}

/// Flushes every buffered input event, in the order the entries were first
/// inserted, appending each as an input action; the buffer is left empty.
pub fn flush_input_buffer(
    current_input_buffer: &mut InputBuffer,
    simplified_actions: &mut Vec<SimplifiedAction>,
)
    ensures
        final(current_input_buffer)@ == Seq::<(int, Seq<char>, int)>::empty(),
        view_actions(final(simplified_actions)@) == view_actions(old(simplified_actions)@)
            + spec_flush(old(current_input_buffer)@),
{
    let ghost buf = current_input_buffer@;
    let ghost pre = view_actions(simplified_actions@);
    let mut i: usize = 0;
    while i < current_input_buffer.entries.len()
        invariant
            i <= current_input_buffer.entries.len(),
            buf == current_input_buffer@,
            buf == view_buffer_entries(current_input_buffer.entries@),
            buf.len() == current_input_buffer.entries@.len(),
            view_actions(simplified_actions@) == pre + spec_flush(buf).subrange(0, i as int),
        decreases current_input_buffer.entries.len() - i,
    {
        let entry_id = current_input_buffer.entries[i].0;
        let entry_text = current_input_buffer.entries[i].1.clone();
        let entry_ts = current_input_buffer.entries[i].2;
        let action = SimplifiedAction {
            action_type: ActionType::Input,
            rrweb_id: entry_id,
            value: Some(entry_text),
            timestamp: entry_ts,
        };
        add_action(simplified_actions, action);
        proof {
            assert(spec_flush(buf).subrange(0, i + 1).drop_last() =~= spec_flush(buf).subrange(
                0,
                i as int,
            ));
            assert(spec_flush(buf).subrange(0, i + 1).last() == spec_flush(buf)[i as int]);
            assert((pre + spec_flush(buf).subrange(0, i as int)).push(spec_flush(buf)[i as int])
                =~= pre + spec_flush(buf).subrange(0, i + 1));
        }
        i = i + 1;
    }
    current_input_buffer.entries.clear();
    proof {
        assert(current_input_buffer@ =~= Seq::<(int, Seq<char>, int)>::empty());
        assert(spec_flush(buf).subrange(0, buf.len() as int) =~= spec_flush(buf));
    }
}

/// The extractor state after a prefix of the event stream: the pending
/// input buffer and the actions emitted so far.
pub struct ExtractState {
    pub buffer: Seq<(int, Seq<char>, int)>,
    pub actions: Seq<ActionView>,
}

/// One step of the extractor. A click flushes the whole buffer in insertion
/// order and then appends the click; an input event upserts the buffer;
/// mutation events and every other source are deliberately ignored.
pub open spec fn spec_step(st: ExtractState, ev: EventView) -> ExtractState {
    if ev.event_type == EVENT_TYPE_INCREMENTAL as int {
        match spec_field_i64(ev.data, "source"@) {
            Some(src) => {
                if src == SOURCE_MOUSE_INTERACTION as int {
                    match spec_field_i64(ev.data, "type"@) {
                        Some(interaction_type) => {
                            if interaction_type == MOUSE_TYPE_CLICK as int {
                                match spec_field_i64(ev.data, "id"@) {
                                    Some(target_id) => ExtractState {
                                        buffer: Seq::empty(),
                                        actions: st.actions + spec_flush(st.buffer) + seq![
                                            ActionView {
                                                action_type: ActionType::Click,
                                                rrweb_id: target_id,
                                                value: None,
                                                timestamp: ev.timestamp,
                                            },
                                        ],
                                    },
                                    None => st,
                                }
                            } else {
                                st
                            }
                        },
                        None => st,
                    }
                } else if src == SOURCE_INPUT as int {
                    match spec_field_i64(ev.data, "id"@) {
                        Some(target_id) => match spec_field_str(ev.data, "text"@) {
                            Some(text) => ExtractState {
                                buffer: spec_buf_upsert(st.buffer, target_id, text, ev.timestamp),
                                actions: st.actions,
                            },
                            None => st,
                        },
                        None => st,
                    }
                } else {
                    st
                }
            },
            None => st,
        }
    } else {
        st
    }
}

/// The extractor state after the whole event stream.
pub open spec fn spec_run(events: Seq<EventView>) -> ExtractState
    decreases events.len(),
{
    if events.len() == 0 {
        ExtractState { buffer: Seq::empty(), actions: Seq::empty() }
    } else {
        spec_step(spec_run(events.drop_last()), events.last())
    }
}

/// The full extracted action list: the actions emitted during the pass,
/// followed by the remaining buffer flushed in insertion order.
pub open spec fn spec_extract(events: Seq<EventView>) -> Seq<ActionView> {
    let st = spec_run(events);
    st.actions + spec_flush(st.buffer)
}

/// The node map reconstructed from the first full-snapshot event: empty
/// when that event carries no `node` payload.
pub open spec fn spec_build_dom(events: Seq<EventView>) -> Map<int, crate::dom::NodeView> {
    match spec_find_event(events, EVENT_TYPE_FULL_SNAPSHOT as int) {
        Some(snapshot_event) => match spec_get(snapshot_event.data, "node"@) {
            Some(node) => spec_parse_node(
                node,
                None,
                Map::empty(),
                MAX_SNAPSHOT_DEPTH as nat,
            ),
            None => Map::empty(),
        },
        None => Map::empty(),
    }
}

/// Whether the event stream holds a full-snapshot event.
pub open spec fn spec_has_snapshot(events: Seq<EventView>) -> bool {
    exists|j: int| 0 <= j < events.len() && events[j].event_type == EVENT_TYPE_FULL_SNAPSHOT as int
}

proof fn lemma_find_some_iff_has(events: Seq<EventView>, event_type: int)
    ensures
        spec_find_event(events, event_type) is Some <==> exists|j: int|
            0 <= j < events.len() && events[j].event_type == event_type,
    decreases events.len(),
{
    if events.len() > 0 {
        lemma_find_some_iff_has(events.drop_first(), event_type);
        if events.first().event_type != event_type {
            if exists|j: int| 0 <= j < events.len() && events[j].event_type == event_type {
                let j = choose|j: int|
                    0 <= j < events.len() && events[j].event_type == event_type;
                assert(j != 0);
                assert(events.drop_first()[j - 1].event_type == event_type);
            }
        }
    }
}

/// Builds the node map from the first full snapshot and extracts the
/// ordered simplified-action list from the incremental events. Fails, with
/// no partial output, exactly when the stream holds no full-snapshot event.
pub fn preprocess_rrweb_data(rrweb_events: &Vec<Event>) -> (r: Result<
    (DomMap, Vec<SimplifiedAction>),
    ConvertError,
>)
    ensures
        r is Ok <==> spec_has_snapshot(view_events(rrweb_events@)),
        r is Err ==> r == Result::<(DomMap, Vec<SimplifiedAction>), ConvertError>::Err(
            ConvertError::MissingSnapshot,
        ),
        r matches Ok((dom_map, actions)) ==> dom_map@ == spec_build_dom(view_events(rrweb_events@))
            && view_actions(actions@) == spec_extract(view_events(rrweb_events@)),
{
    let ghost es = view_events(rrweb_events@);
    let mut dom_map = DomMap::new();
    let mut simplified_actions: Vec<SimplifiedAction> = Vec::new();
    let mut current_input_buffer = InputBuffer::new();

    proof {
        lemma_find_some_iff_has(es, EVENT_TYPE_FULL_SNAPSHOT as int);
    }
    match find_event_by_type(rrweb_events, EVENT_TYPE_FULL_SNAPSHOT) {
        Some(initial_snapshot_event) => {
            match initial_snapshot_event.data.get("node") {
                Some(node_data) => {
                    parse_dom_snapshot(node_data, &mut dom_map, None);
                },
                None => {},
            }
        },
        None => {
            return Err(ConvertError::MissingSnapshot);
        },
    }
    let ghost dm = dom_map@;

    let mut i: usize = 0;
    while i < rrweb_events.len()
        invariant
            i <= rrweb_events.len(),
            es == view_events(rrweb_events@),
            es.len() == rrweb_events@.len(),
            dom_map@ == dm,
            current_input_buffer@ == spec_run(es.subrange(0, i as int)).buffer,
            view_actions(simplified_actions@) == spec_run(es.subrange(0, i as int)).actions,
        decreases rrweb_events.len() - i,
    {
        let ghost prefix = es.subrange(0, i as int);
        let event = &rrweb_events[i];
        proof {
            assert(es.subrange(0, i + 1).drop_last() =~= prefix);
            assert(es.subrange(0, i + 1).last() == es[i as int]);
            assert(es[i as int] == event@);
        }
        if event.event_type == EVENT_TYPE_INCREMENTAL {
            match event.data.field_i64("source") {
                Some(source_type) => {
                    if source_type == SOURCE_MOUSE_INTERACTION {
                        match event.data.field_i64("type") {
                            Some(interaction_type) => {
                                if interaction_type == MOUSE_TYPE_CLICK {
                                    match event.data.field_i64("id") {
                                        Some(target_id) => {
                                            flush_input_buffer(
                                                &mut current_input_buffer,
                                                &mut simplified_actions,
                                            );
                                            let action = SimplifiedAction {
                                                action_type: ActionType::Click,
                                                rrweb_id: target_id,
                                                value: None,
                                                timestamp: event.timestamp,
                                            };
                                            add_action(&mut simplified_actions, action);
                                            proof {
                                                assert(view_actions(simplified_actions@)
                                                    =~= spec_run(es.subrange(0, i + 1)).actions);
                                            }
                                        },
                                        None => {},
                                    }
                                }
                            },
                            None => {},
                        }
                    } else if source_type == SOURCE_INPUT {
                        match event.data.field_i64("id") {
                            Some(target_id) => {
                                match event.data.field_str("text") {
                                    Some(text) => {
                                        let text_owned = text.to_owned();
                                        current_input_buffer.upsert(
                                            target_id,
                                            text_owned,
                                            event.timestamp,
                                        );
                                    },
                                    None => {},
                                }
                            },
                            None => {},
                        }
                    }
                },
                None => {},
            }
        }
        i = i + 1;
    }
    proof {
        assert(es.subrange(0, es.len() as int) =~= es);
    }
    flush_input_buffer(&mut current_input_buffer, &mut simplified_actions);
    Ok((dom_map, simplified_actions))
}

} // verus!
