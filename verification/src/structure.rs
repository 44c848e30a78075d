use vstd::prelude::*;

verus! {

use crate::gid::{gid_view, GID, GIDV};
use crate::strutil::str_eq;
use crate::value::{gvalue_view, GValue, GValueV};

/// One property of a vertex: its own identifier, its key (the label), and
/// its value.
#[derive(Debug)]
pub struct VertexProperty {
    pub id: GID,
    pub label: String,
    pub value: Box<GValue>,
}

/// One property of an edge: a key and a value.
#[derive(Debug)]
pub struct Property {
    pub label: String,
    pub value: Box<GValue>,
}

/// An edge of the graph: its identifier, its label, and the identifiers of
/// the vertices it runs between.
#[derive(Debug, Clone, PartialEq)]
pub struct Edge {
    pub id: GID,
    pub label: String,
    pub in_v: GID,
    pub out_v: GID,
}

/// The trace of one traversal: the values visited, in order.
#[derive(Debug)]
pub struct Path {
    pub objects: Vec<GValue>,
}

/// A vertex of the graph: an identifier, a label, and a multi-valued
/// property mapping from key to an ordered sequence of `VertexProperty`.
/// A key bound to an empty sequence is not distinguished from an absent
/// key: both mean "no such property". Immutable after construction.
#[derive(Debug)]
pub struct Vertex {
    pub(crate) id: GID,
    pub(crate) label: String,
    pub(crate) properties: Vec<(String, Vec<VertexProperty>)>,
}

impl VertexProperty {
    pub fn new(id: GID, label: String, value: GValue) -> (vp: VertexProperty)
        ensures
            vp.id == id,
            vp.label == label,
            vp.value == Box::new(value),
    {
        VertexProperty { id, label, value: Box::new(value) }
    }
}

impl Vertex {
    /// A vertex with the given identifier and label and no properties.
    pub fn with_label(id: GID, label: String) -> (v: Vertex)
        ensures
            v.spec_id() == id,
            v.spec_label() == label,
            v.spec_properties().len() == 0,
    {
        Vertex::new(id, label, Vec::new())
    }

    pub fn new(id: GID, label: String, properties: Vec<(String, Vec<VertexProperty>)>) -> (v:
        Vertex)
        ensures
            v.spec_id() == id,
            v.spec_label() == label,
            v.spec_properties() == properties@,
    {
        Vertex { id, label, properties }
    }

    /// The property entries, in stored order.
    pub closed spec fn spec_properties(&self) -> Seq<(String, Vec<VertexProperty>)> {
        self.properties@
    }

    pub closed spec fn spec_id(&self) -> GID {
        self.id
    }

    pub closed spec fn spec_label(&self) -> String {
        self.label
    }

    pub fn id(&self) -> (r: &GID)
        ensures
            r == self.spec_id(),
    {
        &self.id
    }

    pub fn label(&self) -> (r: &String)
        ensures
            r == self.spec_label(),
    {
        &self.label
    }

    /// The first stored `VertexProperty` under `key`, or `None` when the
    /// key is absent or its sequence is empty.
    pub fn property(&self, key: &str) -> (r: Option<&VertexProperty>)
        ensures
            match r {
                Option::None => (forall|i: int|
                    0 <= i < self.spec_properties().len() ==> self.spec_properties()[i].0@ != key@)
                    || (exists|i: int|
                    {
                        &&& 0 <= i < self.spec_properties().len()
                        &&& self.spec_properties()[i].0@ == key@
                        &&& (forall|j: int|
                            0 <= j < i ==> self.spec_properties()[j].0@ != key@)
                        &&& self.spec_properties()[i].1@.len() == 0
                    }),
                Option::Some(p) => exists|i: int|
                    {
                        &&& 0 <= i < self.spec_properties().len()
                        &&& self.spec_properties()[i].0@ == key@
                        &&& (forall|j: int|
                            0 <= j < i ==> self.spec_properties()[j].0@ != key@)
                        &&& self.spec_properties()[i].1@.len() > 0
                        &&& *p == self.spec_properties()[i].1@[0]
                    },
            },
    {
        let mut i: usize = 0;
        while i < self.properties.len()
            invariant
                0 <= i <= self.properties@.len(),
                forall|j: int| 0 <= j < i ==> self.properties@[j].0@ != key@,
            decreases self.properties@.len() - i,
        {
            if str_eq(self.properties[i].0.as_str(), key) {
                let entry = &self.properties[i].1;
                if entry.len() > 0 {
                    let p = &entry[0];
                    proof {
                        let gi = i as int;
                        assert(0 <= gi < self.spec_properties().len()
                            && self.spec_properties()[gi].0@ == key@ && (forall|j: int|
                            0 <= j < gi ==> self.spec_properties()[j].0@ != key@)
                            && self.spec_properties()[gi].1@.len() > 0 && *p
                            == self.spec_properties()[gi].1@[0]);
                    }
                    return Some(p);
                } else {
                    proof {
                        let gi = i as int;
                        assert(0 <= gi < self.spec_properties().len()
                            && self.spec_properties()[gi].0@ == key@ && (forall|j: int|
                            0 <= j < gi ==> self.spec_properties()[j].0@ != key@)
                            && self.spec_properties()[gi].1@.len() == 0);
                    }
                    return None;
                }
            }
            i += 1;
        }
        None
    }
}

/// The mathematical shape of a `VertexProperty`.
pub struct VertexPropertyV {
    pub id: GIDV,
    pub label: Seq<char>,
    pub value: Box<GValueV>,
}

/// The mathematical shape of a `Property`.
pub struct PropertyV {
    pub label: Seq<char>,
    pub value: Box<GValueV>,
}

/// The mathematical shape of an `Edge`.
pub struct EdgeV {
    pub id: GIDV,
    pub label: Seq<char>,
    pub in_v: GIDV,
    pub out_v: GIDV,
}

/// The mathematical shape of a `Vertex`.
pub struct VertexV {
    pub id: GIDV,
    pub label: Seq<char>,
    pub properties: Seq<(Seq<char>, Seq<VertexPropertyV>)>,
}

/// The shape of a `VertexProperty` value.
pub open spec fn vp_view(p: VertexProperty) -> VertexPropertyV
    decreases p,
{
    VertexPropertyV { id: gid_view(p.id), label: p.label@, value: Box::new(gvalue_view(*p.value)) }
}

/// The shapes of a sequence of vertex properties, in order.
pub open spec fn vps_view(s: Seq<VertexProperty>) -> Seq<VertexPropertyV>
    decreases s,
{
    if s.len() == 0 {
        Seq::empty()
    } else {
        seq![vp_view(s[0])] + vps_view(s.drop_first())
    }
}

/// The shapes of a vertex's property entries, in order.
pub open spec fn props_view(s: Seq<(String, Vec<VertexProperty>)>) -> Seq<
    (Seq<char>, Seq<VertexPropertyV>),
>
    decreases s,
{
    if s.len() == 0 {
        Seq::empty()
    } else {
        seq![(s[0].0@, vps_view(s[0].1@))] + props_view(s.drop_first())
    }
}

/// The shape of a `Vertex` value.
pub open(crate) spec fn vertex_view(v: Vertex) -> VertexV
    decreases v,
{
    VertexV { id: gid_view(v.id), label: v.label@, properties: props_view(v.properties@) }
}

/// The shape of a `Property` value.
pub open spec fn property_view(p: Property) -> PropertyV
    decreases p,
{
    PropertyV { label: p.label@, value: Box::new(gvalue_view(*p.value)) }
}

/// The shape of an `Edge` value.
pub open spec fn edge_view(e: Edge) -> EdgeV {
    EdgeV { id: gid_view(e.id), label: e.label@, in_v: gid_view(e.in_v), out_v: gid_view(e.out_v) }
}

/// `vps_view` maps the sequence element by element.
pub proof fn lemma_vps_view(s: Seq<VertexProperty>)
    ensures
        vps_view(s).len() == s.len(),
        forall|i: int| 0 <= i < s.len() ==> vps_view(s)[i] == vp_view(s[i]),
    decreases s.len(),
{
    if s.len() > 0 {
        lemma_vps_view(s.drop_first());
    }
}

/// `props_view` maps the entries element by element.
pub proof fn lemma_props_view(s: Seq<(String, Vec<VertexProperty>)>)
    ensures
        props_view(s).len() == s.len(),
        forall|i: int| 0 <= i < s.len() ==> props_view(s)[i] == (s[i].0@, vps_view(s[i].1@)),
    decreases s.len(),
{
    if s.len() > 0 {
        lemma_props_view(s.drop_first());
    }
}

impl View for VertexProperty {
    type V = VertexPropertyV;

    open spec fn view(&self) -> VertexPropertyV {
        vp_view(*self)
    }
}

impl View for Property {
    type V = PropertyV;

    open spec fn view(&self) -> PropertyV {
        property_view(*self)
    }
}

impl View for Edge {
    type V = EdgeV;

    open spec fn view(&self) -> EdgeV {
        edge_view(*self)
    }
}

impl View for Vertex {
    type V = VertexV;

    open spec fn view(&self) -> VertexV {
        vertex_view(*self)
    }
}

} // verus!
