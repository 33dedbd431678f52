//! The structured payload data carried by a recording event.
//!
//! A payload is a tree of plain values: null, booleans, integers,
//! non-integral numbers (kept by their decimal rendering, since the pipeline
//! only ever stringifies them), strings, arrays and objects. The loader at
//! the application boundary materializes event payloads into this type
//! before the pipeline starts.

use vstd::prelude::*;
use vstd::string::*;
use crate::assoc::{assoc_lookup, lemma_assoc_lookup_skip};
use crate::strutil::{i64_to_string, spec_i64_str, str_eq};

verus! {

/// One node of a structured payload tree.
#[derive(Debug)]
pub enum JsonValue {
    Null,
    Bool(bool),
    Int(i64),
    /// A number with no exact 64-bit integer value, by its decimal rendering.
    Num(String),
    Str(String),
    Arr(Vec<JsonValue>),
    Obj(Vec<(String, JsonValue)>),
}

/// The mathematical model of a payload tree.
pub enum JsonView {
    Null,
    Bool(bool),
    Int(int),
    Num(Seq<char>),
    Str(Seq<char>),
    Arr(Seq<JsonView>),
    Obj(Seq<(Seq<char>, JsonView)>),
}

/// Model of a sequence of payload nodes.
pub open spec fn view_json_seq(items: Seq<JsonValue>) -> Seq<JsonView>
    decreases items,
{
    Seq::new(
        items.len(),
        |i: int|
            if 0 <= i < items.len() {
                view_json(items[i])
            } else {
                JsonView::Null
            },
    )
}

/// Model of a sequence of object entries.
pub open spec fn view_json_entries(es: Seq<(String, JsonValue)>) -> Seq<(Seq<char>, JsonView)>
    decreases es,
{
    Seq::new(
        es.len(),
        |i: int|
            if 0 <= i < es.len() {
                (es[i].0@, view_json(es[i].1))
            } else {
                (Seq::<char>::empty(), JsonView::Null)
            },
    )
}

/// Model of one payload node.
pub open spec fn view_json(v: JsonValue) -> JsonView
    decreases v,
{
    match v {
        JsonValue::Null => JsonView::Null,
        JsonValue::Bool(b) => JsonView::Bool(b),
        JsonValue::Int(n) => JsonView::Int(n as int),
        JsonValue::Num(s) => JsonView::Num(s@),
        JsonValue::Str(s) => JsonView::Str(s@),
        JsonValue::Arr(items) => JsonView::Arr(view_json_seq(items@)),
        JsonValue::Obj(entries) => JsonView::Obj(view_json_entries(entries@)),
    }
}

impl View for JsonValue {
    type V = JsonView;

    open spec fn view(&self) -> JsonView {
        view_json(*self)
    }
}

/// Field lookup on a payload node: defined on objects, `None` elsewhere.
/// The latest entry with the key wins, as it does when a textual object
/// with repeated keys is materialized.
pub open spec fn spec_get(v: JsonView, key: Seq<char>) -> Option<JsonView> {
    match v {
        JsonView::Obj(es) => assoc_lookup(es, key),
        _ => None,
    }
}

/// The 64-bit integer value of a payload node, if it is one.
pub open spec fn spec_as_i64(v: JsonView) -> Option<int> {
    match v {
        JsonView::Int(n) => Some(n),
        _ => None,
    }
}

/// The string value of a payload node, if it is one.
pub open spec fn spec_as_str(v: JsonView) -> Option<Seq<char>> {
    match v {
        JsonView::Str(s) => Some(s),
        _ => None,
    }
}

/// The string an attribute value is coerced to: strings are kept, numbers
/// and booleans are rendered, every other shape is dropped.
pub open spec fn spec_coerce_attr(v: JsonView) -> Option<Seq<char>> {
    match v {
        JsonView::Str(s) => Some(s),
        JsonView::Int(n) => Some(spec_i64_str(n)),
        JsonView::Num(t) => Some(t),
        JsonView::Bool(b) => Some(
            if b {
                "true"@
            } else {
                "false"@
            },
        ),
        _ => None,
    }
}

/// The integer field `key` of an object node, if the node is an object,
/// carries the field, and the field is an integer.
pub open spec fn spec_field_i64(v: JsonView, key: Seq<char>) -> Option<int> {
    match spec_get(v, key) {
        Some(f) => spec_as_i64(f),
        None => None,
    }
}

/// The string field `key` of an object node, if the node is an object,
/// carries the field, and the field is a string.
pub open spec fn spec_field_str(v: JsonView, key: Seq<char>) -> Option<Seq<char>> {
    match spec_get(v, key) {
        Some(f) => spec_as_str(f),
        None => None,
    }
}

impl JsonValue {
    /// Looks the key up among this node's object entries; `None` when this
    /// node is not an object or has no entry with the key.
    pub fn get<'a>(&'a self, key: &str) -> (r: Option<&'a JsonValue>)
        ensures
            match r {
                Some(v) => spec_get(self@, key@) == Some(v@),
                None => spec_get(self@, key@) is None,
            },
    {
        match self {
            JsonValue::Obj(entries) => {
                let ghost es = view_json_entries(entries@);
                let mut i: usize = entries.len();
                while i > 0
                    invariant
                        i <= entries.len(),
                        self@ == JsonView::Obj(es),
                        es == view_json_entries(entries@),
                        es.len() == entries@.len(),
                        forall|j: int| i <= j < es.len() ==> es[j].0 != key@,
                    decreases i,
                {
                    i = i - 1;
                    if str_eq(entries[i].0.as_str(), key) {
                        proof {
                            lemma_assoc_lookup_skip(es, key@, i + 1);
                            assert(es.subrange(0, i + 1).last() == es[i as int]);
                            assert(assoc_lookup(es, key@) == Some(es[i as int].1));
                        }
                        return Some(&entries[i].1);
                    }
                }
                proof {
                    lemma_assoc_lookup_skip(es, key@, 0);
                    assert(es.subrange(0, 0) =~= Seq::<(Seq<char>, JsonView)>::empty());
                }
                None
            },
            _ => None,
        }
    }

    /// The integer value of this node, if it is an integer.
    pub fn as_i64(&self) -> (r: Option<i64>)
        ensures
            match r {
                Some(n) => spec_as_i64(self@) == Some(n as int),
                None => spec_as_i64(self@) is None,
            },
    {
        match self {
            JsonValue::Int(n) => Some(*n),
            _ => None,
        }
    }

    /// The string value of this node, if it is a string.
    pub fn as_str<'a>(&'a self) -> (r: Option<&'a str>)
        ensures
            match r {
                Some(s) => spec_as_str(self@) == Some(s@),
                None => spec_as_str(self@) is None,
            },
    {
        match self {
            JsonValue::Str(s) => Some(s.as_str()),
            _ => None,
        }
    }

    /// The elements of this node, if it is an array.
    pub fn as_array<'a>(&'a self) -> (r: Option<&'a Vec<JsonValue>>)
        ensures
            match r {
                Some(items) => self@ == JsonView::Arr(view_json_seq(items@)),
                None => !(self@ is Arr),
            },
    {
        match self {
            JsonValue::Arr(items) => Some(items),
            _ => None,
        }
    }

    /// The entries of this node, if it is an object.
    pub fn as_object<'a>(&'a self) -> (r: Option<&'a Vec<(String, JsonValue)>>)
        ensures
            match r {
                Some(es) => self@ == JsonView::Obj(view_json_entries(es@)),
                None => !(self@ is Obj),
            },
    {
        match self {
            JsonValue::Obj(entries) => Some(entries),
            _ => None,
        }
    }

    /// The integer field `key` of this node, if there is one.
    pub fn field_i64(&self, key: &str) -> (r: Option<i64>)
        ensures
            match r {
                Some(n) => spec_field_i64(self@, key@) == Some(n as int),
                None => spec_field_i64(self@, key@) is None,
            },
    {
        match self.get(key) {
            Some(f) => f.as_i64(),
            None => None,
        }
    }

    /// The string field `key` of this node, if there is one.
    pub fn field_str<'a>(&'a self, key: &str) -> (r: Option<&'a str>)
        ensures
            match r {
                Some(s) => spec_field_str(self@, key@) == Some(s@),
                None => spec_field_str(self@, key@) is None,
            },
    {
        match self.get(key) {
            Some(f) => f.as_str(),
            None => None,
        }
    }

    /// Coerces this node to an attribute-value string: strings are kept,
    /// numbers and booleans rendered, every other shape dropped.
    pub fn coerce_attr_value(&self) -> (r: Option<String>)
        ensures
            match r {
                Some(s) => spec_coerce_attr(self@) == Some(s@),
                None => spec_coerce_attr(self@) is None,
            },
    {
        match self {
            JsonValue::Str(s) => Some(s.clone()),
            JsonValue::Int(n) => Some(i64_to_string(*n)),
            JsonValue::Num(t) => Some(t.clone()),
            JsonValue::Bool(b) => {
                if *b {
                    Some(String::from_str("true"))
                } else {
                    Some(String::from_str("false"))
                }
            },
            _ => None,
        }
    }
}

} // verus!
