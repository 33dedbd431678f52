//! DOM node information and the node map reconstructed from the full
//! snapshot of a recording.

use vstd::prelude::*;
use vstd::string::*;
use crate::assoc::{assoc_lookup, lemma_assoc_lookup_skip};
use crate::json::{
    spec_coerce_attr, spec_field_i64, spec_field_str, spec_get, view_json_entries, view_json_seq,
    JsonValue, JsonView,
};
use crate::strutil::str_eq;

verus! {

/// The deepest nesting of snapshot nodes the reconstructor follows; a
/// defensive bound, so that malformed input of absurd depth cannot drive
/// the recursion arbitrarily far. Subtrees beyond it are skipped.
pub const MAX_SNAPSHOT_DEPTH: u64 = 1024;

/// The attributes of one DOM node: an association list from attribute name
/// to attribute value. Appending an entry overwrites an earlier entry with
/// the same name.
#[derive(Debug)]
pub struct AttrMap {
    entries: Vec<(String, String)>,
}

impl View for AttrMap {
    type V = Seq<(Seq<char>, Seq<char>)>;

    closed spec fn view(&self) -> Seq<(Seq<char>, Seq<char>)> {
        Seq::new(
            self.entries@.len(),
            |i: int|
                if 0 <= i < self.entries@.len() {
                    (self.entries@[i].0@, self.entries@[i].1@)
                } else {
                    (Seq::<char>::empty(), Seq::<char>::empty())
                },
        )
    }
}

impl AttrMap {
    /// An empty attribute map.
    pub fn new() -> (r: AttrMap)
        ensures
            r@ == Seq::<(Seq<char>, Seq<char>)>::empty(),
    {
        let r = AttrMap { entries: Vec::new() };
        proof {
            assert(r@ =~= Seq::<(Seq<char>, Seq<char>)>::empty());
        }
        r
    }

    /// Records an attribute; a later entry shadows an earlier one with the
    /// same name.
    pub fn insert(&mut self, name: String, value: String)
        ensures
            final(self)@ == old(self)@.push((name@, value@)),
    {
        let ghost pre = self@;
        self.entries.push((name, value));
        proof {
            assert(self@ =~= pre.push((self.entries@.last().0@, self.entries@.last().1@)));
        }
    }

    /// The value recorded for `name`, if any.
    pub fn get<'a>(&'a self, name: &str) -> (r: Option<&'a String>)
        ensures
            match r {
                Some(v) => assoc_lookup(self@, name@) == Some(v@),
                None => assoc_lookup(self@, name@) is None,
            },
    {
        let ghost es = self@;
        let mut i: usize = self.entries.len();
        while i > 0
            invariant
                i <= self.entries.len(),
                es == self@,
                es.len() == self.entries@.len(),
                forall|j: int| i <= j < es.len() ==> es[j].0 != name@,
            decreases i,
        {
            i = i - 1;
            if str_eq(self.entries[i].0.as_str(), name) {
                proof {
                    lemma_assoc_lookup_skip(es, name@, i + 1);
                    assert(es.subrange(0, i + 1).last() == es[i as int]);
                    assert(assoc_lookup(es, name@) == Some(es[i as int].1));
                }
                return Some(&self.entries[i].1);
            }
        }
        proof {
            lemma_assoc_lookup_skip(es, name@, 0);
            assert(es.subrange(0, 0) =~= Seq::<(Seq<char>, Seq<char>)>::empty());
        }
        None
    }
}

/// The model of one reconstructed DOM node.
pub struct NodeView {
    pub rrweb_id: int,
    pub tag_name: Option<Seq<char>>,
    pub attributes: Seq<(Seq<char>, Seq<char>)>,
    pub parent_id: Option<int>,
    pub text_content: Option<Seq<char>>,
}

/// Model of an optional string.
pub open spec fn view_opt_string(o: Option<String>) -> Option<Seq<char>> {
    match o {
        Some(s) => Some(s@),
        None => None,
    }
}

/// Model of an optional 64-bit integer.
pub open spec fn view_opt_i64(o: Option<i64>) -> Option<int> {
    match o {
        Some(n) => Some(n as int),
        None => None,
    }
}

/// Everything the pipeline keeps about one DOM node: its identifier in the
/// recording, the tag name and attributes when present, a non-owning
/// back-reference to the parent, and its text content.
#[derive(Debug)]
pub struct NodeInfo {
    pub rrweb_id: i64,
    pub tag_name: Option<String>,
    pub attributes: AttrMap,
    pub parent_id: Option<i64>,
    pub text_content: Option<String>,
}

impl View for NodeInfo {
    type V = NodeView;

    open spec fn view(&self) -> NodeView {
        NodeView {
            rrweb_id: self.rrweb_id as int,
            tag_name: view_opt_string(self.tag_name),
            attributes: self.attributes@,
            parent_id: view_opt_i64(self.parent_id),
            text_content: view_opt_string(self.text_content),
        }
    }
}

/// The map built by folding the entries left to right, a later entry for an
/// id overwriting an earlier one.
pub open spec fn spec_entries_map(es: Seq<(i64, NodeView)>) -> Map<int, NodeView>
    decreases es.len(),
{
    if es.len() == 0 {
        Map::empty()
    } else {
        spec_entries_map(es.drop_last()).insert(es.last().0 as int, es.last().1)
    }
}

/// The node map of one snapshot: node id to node information, built once
/// from the full snapshot and only looked up afterwards.
#[derive(Debug)]
pub struct DomMap {
    entries: Vec<(i64, NodeInfo)>,
}

proof fn lemma_entries_map_skip(es: Seq<(i64, NodeView)>, key: int, i: int)
    requires
        0 <= i <= es.len(),
        forall|j: int| i <= j < es.len() ==> es[j].0 as int != key,
    ensures
        spec_entries_map(es).contains_key(key) == spec_entries_map(
            es.subrange(0, i),
        ).contains_key(key),
        spec_entries_map(es).contains_key(key) ==> spec_entries_map(es)[key] == spec_entries_map(
            es.subrange(0, i),
        )[key],
    decreases es.len() - i,
{
    if i < es.len() {
        assert(es.last().0 as int != key);
        lemma_entries_map_skip(es.drop_last(), key, i);
        assert(es.drop_last().subrange(0, i) =~= es.subrange(0, i));
    } else {
        assert(es.subrange(0, i) =~= es);
    }
}

/// An empty node model, used to make the entry-view total.
pub open spec fn spec_empty_node() -> NodeView {
    NodeView {
        rrweb_id: 0,
        tag_name: None,
        attributes: Seq::empty(),
        parent_id: None,
        text_content: None,
    }
}

/// The entry list of a node map, viewed entry by entry.
pub open spec fn view_dom_entries(entries: Seq<(i64, NodeInfo)>) -> Seq<(i64, NodeView)> {
    Seq::new(
        entries.len(),
        |i: int|
            if 0 <= i < entries.len() {
                (entries[i].0, entries[i].1@)
            } else {
                (0i64, spec_empty_node())
            },
    )
}

impl View for DomMap {
    type V = Map<int, NodeView>;

    closed spec fn view(&self) -> Map<int, NodeView> {
        spec_entries_map(view_dom_entries(self.entries@))
    }
}

impl DomMap {
    /// An empty node map.
    pub fn new() -> (r: DomMap)
        ensures
            r@ == Map::<int, NodeView>::empty(),
    {
        let r = DomMap { entries: Vec::new() };
        proof {
            assert(view_dom_entries(r.entries@) =~= Seq::<(i64, NodeView)>::empty());
        }
        r
    }

    /// Records a node under its id, overwriting an earlier node with the
    /// same id.
    pub fn insert(&mut self, id: i64, info: NodeInfo)
        ensures
            final(self)@ == old(self)@.insert(id as int, info@),
    {
        let ghost pre_seq = view_dom_entries(self.entries@);
        self.entries.push((id, info));
        proof {
            let post_seq = view_dom_entries(self.entries@);
            assert(post_seq.drop_last() =~= pre_seq);
            assert(post_seq.last() == (id, info@));
        }
    }

    /// Looks a node up by id.
    pub fn get<'a>(&'a self, id: i64) -> (r: Option<&'a NodeInfo>)
        ensures
            match r {
                Some(n) => self@.contains_key(id as int) && self@[id as int] == n@,
                None => !self@.contains_key(id as int),
            },
    {
        let ghost es = view_dom_entries(self.entries@);
        let mut i: usize = self.entries.len();
        while i > 0
            invariant
                i <= self.entries.len(),
                self@ == spec_entries_map(es),
                es.len() == self.entries@.len(),
                forall|j: int| 0 <= j < es.len() ==> es[j] == (self.entries@[j].0, self.entries@[j].1@),
                forall|j: int| i <= j < es.len() ==> es[j].0 as int != id as int,
            decreases i,
        {
            i = i - 1;
            if self.entries[i].0 == id {
                proof {
                    lemma_entries_map_skip(es, id as int, i + 1);
                    let sub = es.subrange(0, i + 1);
                    assert(sub.last() == es[i as int]);
                    assert(spec_entries_map(sub) == spec_entries_map(sub.drop_last()).insert(
                        id as int,
                        es[i as int].1,
                    ));
                }
                return Some(&self.entries[i].1);
            }
        }
        proof {
            lemma_entries_map_skip(es, id as int, 0);
            assert(es.subrange(0, 0) =~= Seq::<(i64, NodeView)>::empty());
        }
        None
    }
}


/// The attribute entries kept from a payload object: values of string,
/// number or boolean shape are coerced to strings, others are dropped.
pub open spec fn spec_coerced_attrs(es: Seq<(Seq<char>, JsonView)>) -> Seq<(Seq<char>, Seq<char>)>
    decreases es.len(),
{
    if es.len() == 0 {
        Seq::empty()
    } else {
        let rest = spec_coerced_attrs(es.drop_last());
        match spec_coerce_attr(es.last().1) {
            Some(v) => rest.push((es.last().0, v)),
            None => rest,
        }
    }
}

/// The attribute list a snapshot node contributes: the coerced entries of
/// its `attributes` object, empty when there is none.
pub open spec fn spec_parse_attrs(node: JsonView) -> Seq<(Seq<char>, Seq<char>)> {
    match spec_get(node, "attributes"@) {
        Some(JsonView::Obj(es)) => spec_coerced_attrs(es),
        _ => Seq::empty(),
    }
}

/// The node information a snapshot node contributes under id `id`.
pub open spec fn spec_node_info(node: JsonView, parent_id: Option<int>, id: int) -> NodeView {
    NodeView {
        rrweb_id: id,
        tag_name: spec_field_str(node, "tagName"@),
        attributes: spec_parse_attrs(node),
        parent_id: parent_id,
        text_content: spec_field_str(node, "textContent"@),
    }
}

/// The node map after visiting one snapshot node: a node without an integer
/// `id` is skipped with its whole subtree; otherwise its information is
/// recorded and its `childNodes` are visited in order, one level deeper.
pub open spec fn spec_parse_node(
    node: JsonView,
    parent_id: Option<int>,
    m: Map<int, NodeView>,
    depth: nat,
) -> Map<int, NodeView>
    decreases depth, 0nat,
{
    if depth == 0 {
        m
    } else {
        match spec_field_i64(node, "id"@) {
            Some(id) => {
                let m1 = m.insert(id, spec_node_info(node, parent_id, id));
                match spec_get(node, "childNodes"@) {
                    Some(JsonView::Arr(children)) => spec_parse_children(
                        children,
                        id,
                        m1,
                        (depth - 1) as nat,
                    ),
                    _ => m1,
                }
            },
            None => m,
        }
    }
}

/// The node map after visiting a list of sibling nodes left to right.
pub open spec fn spec_parse_children(
    children: Seq<JsonView>,
    parent: int,
    m: Map<int, NodeView>,
    depth: nat,
) -> Map<int, NodeView>
    decreases depth, children.len(),
{
    if children.len() == 0 {
        m
    } else {
        spec_parse_node(
            children.last(),
            Some(parent),
            spec_parse_children(children.drop_last(), parent, m, depth),
            depth,
        )
    }
}

fn parse_node_bounded(node: &JsonValue, dom_map: &mut DomMap, parent_id: Option<i64>, depth: u64)
    ensures
        final(dom_map)@ == spec_parse_node(
            node@,
            view_opt_i64(parent_id),
            old(dom_map)@,
            depth as nat,
        ),
    decreases depth,
{
    if depth == 0 {
        return;
    }
    let id: i64 = match node.field_i64("id") {
        Some(id) => id,
        None => {
            return;
        },
    };
    let mut attrs = AttrMap::new();
    match node.get("attributes") {
        Some(av) => {
            match av.as_object() {
                Some(entries) => {
                    let ghost es = view_json_entries(entries@);
                    let mut i: usize = 0;
                    while i < entries.len()
                        invariant
                            i <= entries.len(),
                            es == view_json_entries(entries@),
                            es.len() == entries@.len(),
                            attrs@ == spec_coerced_attrs(es.subrange(0, i as int)),
                        decreases entries.len() - i,
                    {
                        match entries[i].1.coerce_attr_value() {
                            Some(val) => {
                                let name = entries[i].0.clone();
                                attrs.insert(name, val);
                            },
                            None => {},
                        }
                        proof {
                            assert(es.subrange(0, i + 1).drop_last() =~= es.subrange(0, i as int));
                            assert(es.subrange(0, i + 1).last() == es[i as int]);
                        }
                        i = i + 1;
                    }
                    proof {
                        assert(es.subrange(0, es.len() as int) =~= es);
                    }
                },
                None => {},
            }
        },
        None => {},
    }
    let tag_name: Option<String> = match node.field_str("tagName") {
        Some(s) => Some(s.to_owned()),
        None => None,
    };
    let text_content: Option<String> = match node.field_str("textContent") {
        Some(s) => Some(s.to_owned()),
        None => None,
    };
    let info = NodeInfo { rrweb_id: id, tag_name, attributes: attrs, parent_id, text_content };
    proof {
        assert(info@ == spec_node_info(node@, view_opt_i64(parent_id), id as int));
    }
    dom_map.insert(id, info);
    let ghost m1 = dom_map@;
    match node.get("childNodes") {
        Some(cv) => {
            match cv.as_array() {
                Some(children) => {
                    let ghost kids = view_json_seq(children@);
                    let mut i: usize = 0;
                    while i < children.len()
                        invariant
                            i <= children.len(),
                            1 <= depth,
                            kids == view_json_seq(children@),
                            kids.len() == children@.len(),
                            dom_map@ == spec_parse_children(
                                kids.subrange(0, i as int),
                                id as int,
                                m1,
                                (depth - 1) as nat,
                            ),
                        decreases children.len() - i,
                    {
                        parse_node_bounded(&children[i], dom_map, Some(id), depth - 1);
                        proof {
                            assert(kids.subrange(0, i + 1).drop_last() =~= kids.subrange(
                                0,
                                i as int,
                            ));
                            assert(kids.subrange(0, i + 1).last() == kids[i as int]);
                        }
                        i = i + 1;
                    }
                    proof {
                        assert(kids.subrange(0, kids.len() as int) =~= kids);
                    }
                },
                None => {},
            }
        },
        None => {},
    }
}

/// Recursively visits the snapshot node and its child list, recording each
/// node that carries an integer id; a node without one is skipped together
/// with its subtree. Nesting deeper than `MAX_SNAPSHOT_DEPTH` is skipped as
/// a defensive bound against malformed input.
pub fn parse_dom_snapshot(node_data: &JsonValue, dom_map: &mut DomMap, parent_id: Option<i64>)
    ensures
        final(dom_map)@ == spec_parse_node(
            node_data@,
            view_opt_i64(parent_id),
            old(dom_map)@,
            MAX_SNAPSHOT_DEPTH as nat,
        ),
{
    parse_node_bounded(node_data, dom_map, parent_id, MAX_SNAPSHOT_DEPTH);
}

} // verus!
