use vstd::prelude::*;

verus! {

use crate::errors::GKind;
use crate::gid::GID;
use crate::strutil::str_eq;
use crate::structure::{
    edge_view, property_view, vertex_view, vp_view, Edge, EdgeV, Path, Property, PropertyV,
    Vertex, VertexProperty, VertexPropertyV, VertexV,
};

/// A UTC instant, held as milliseconds since the Unix epoch. The wire
/// format carries timestamps in exactly this form, so no calendar
/// arithmetic is needed here; turning it into a calendar date is the
/// caller's business.
#[derive(Debug, Clone, Copy, PartialEq, Eq, Structural)]
pub struct GDate(pub i64);

/// A universally-unique identifier, held as its 128-bit big-endian value.
/// The wire format carries it as 32 hex digits in five hyphenated groups.
#[derive(Debug, Clone, Copy, PartialEq, Eq, Structural)]
pub struct GUuid(pub u128);

/// An ordered list of values.
#[derive(Debug)]
pub struct List(pub Vec<GValue>);

/// A mapping from string keys to values. Held as an ordered list of
/// entries; `insert` keeps the keys unique with last-write-wins
/// semantics, and `get` finds the first entry with the given key.
#[derive(Debug)]
pub struct GMap(pub Vec<(String, GValue)>);

/// Every value the wire protocol can carry: scalars, collections, and
/// graph entities. A decoded response is a queue of these; a caller
/// narrows one to a concrete type with the fallible conversions in
/// `conversion`.
#[derive(Debug)]
pub enum GValue {
    Int32(i32),
    Int64(i64),
    String(String),
    Date(GDate),
    Uuid(GUuid),
    List(List),
    Mapping(GMap),
    Vertex(Vertex),
    Edge(Edge),
    VertexProperty(VertexProperty),
    Property(Property),
    Path(Path),
}

impl GValue {
    /// The variant tag this value carries.
    pub open spec fn skind(&self) -> GKind {
        match self {
            GValue::Int32(_) => GKind::Int32,
            GValue::Int64(_) => GKind::Int64,
            GValue::String(_) => GKind::String,
            GValue::Date(_) => GKind::Date,
            GValue::Uuid(_) => GKind::Uuid,
            GValue::List(_) => GKind::List,
            GValue::Mapping(_) => GKind::Mapping,
            GValue::Vertex(_) => GKind::Vertex,
            GValue::Edge(_) => GKind::Edge,
            GValue::VertexProperty(_) => GKind::VertexProperty,
            GValue::Property(_) => GKind::Property,
            GValue::Path(_) => GKind::Path,
        }
    }

    /// The variant tag this value carries.
    pub fn kind(&self) -> (k: GKind)
        ensures
            k == self.skind(),
    {
        match self {
            GValue::Int32(_) => GKind::Int32,
            GValue::Int64(_) => GKind::Int64,
            GValue::String(_) => GKind::String,
            GValue::Date(_) => GKind::Date,
            GValue::Uuid(_) => GKind::Uuid,
            GValue::List(_) => GKind::List,
            GValue::Mapping(_) => GKind::Mapping,
            GValue::Vertex(_) => GKind::Vertex,
            GValue::Edge(_) => GKind::Edge,
            GValue::VertexProperty(_) => GKind::VertexProperty,
            GValue::Property(_) => GKind::Property,
            GValue::Path(_) => GKind::Path,
        }
    }
}

/// The value of the first entry in `entries` whose key matches `key`, if
/// any entry does.
pub open spec fn spec_lookup(entries: Seq<(String, GValue)>, key: Seq<char>) -> Option<GValue>
    decreases entries.len(),
{
    if entries.len() == 0 {
        None
    } else if entries[0].0@ == key {
        Some(entries[0].1)
    } else {
        spec_lookup(entries.drop_first(), key)
    }
}

impl GMap {
    /// The keys of the entries, as character sequences.
    pub open spec fn spec_keys(&self) -> Seq<Seq<char>> {
        self.0@.map(|i: int, e: (String, GValue)| e.0@)
    }

    /// No two entries share a key.
    pub open spec fn wf(&self) -> bool {
        forall|i: int, j: int|
            0 <= i < j < self.0@.len() ==> self.0@[i].0@ != self.0@[j].0@
    }

    /// What `get` finds for `key`: the value of the first entry whose key
    /// matches, if any.
    pub open spec fn spec_get(&self, key: Seq<char>) -> Option<GValue> {
        spec_lookup(self.0@, key)
    }

    pub fn new() -> (m: GMap)
        ensures
            m.0@ =~= Seq::<(String, GValue)>::empty(),
            m.wf(),
    {
        GMap(Vec::new())
    }

    pub fn len(&self) -> (n: usize)
        ensures
            n == self.0@.len(),
    {
        self.0.len()
    }

    /// Bind `key` to `value`, replacing an earlier binding of the same key
    /// if one exists: last write wins.
    pub fn insert(&mut self, key: String, value: GValue)
        ensures
            old(self).wf() ==> final(self).wf(),
            (forall|j: int|
                0 <= j < old(self).0@.len() ==> old(self).0@[j].0@ != key@) ==> final(self).0@
                =~= old(self).0@ + seq![(key, value)],
            (exists|i: int|
                0 <= i < old(self).0@.len() && old(self).0@[i].0@ == key@) ==> (exists|i: int|
                {
                    &&& 0 <= i < old(self).0@.len()
                    &&& old(self).0@[i].0@ == key@
                    &&& (forall|j: int| 0 <= j < i ==> old(self).0@[j].0@ != key@)
                    &&& final(self).0@ =~= old(self).0@.remove(i) + seq![(key, value)]
                }),
    {
        let ghost orig = self.0@;
        let mut i: usize = 0;
        while i < self.0.len()
            invariant
                self.0@ == orig,
                old(self).0@ == orig,
                0 <= i <= orig.len(),
                forall|j: int| 0 <= j < i ==> orig[j].0@ != key@,
            decreases orig.len() - i,
        {
            if str_eq(self.0[i].0.as_str(), key.as_str()) {
                let ghost gi = i as int;
                self.0.remove(i);
                self.0.push((key, value));
                proof {
                    assert(old(self).0@ == orig);
                    assert(orig[gi].0@ == key@);
                    let n = self.0@;
                    let m = orig.remove(gi);
                    assert(n =~= m + seq![(key, value)]);
                    assert forall|a: int| 0 <= a < m.len() implies m[a] == (if a < gi {
                        orig[a]
                    } else {
                        orig[a + 1]
                    }) by {
                        assert(m == orig.subrange(0, gi) + orig.subrange(
                            gi + 1,
                            orig.len() as int,
                        ));
                    }
                    if old(self).wf() {
                        assert forall|a: int, b: int| 0 <= a < b < n.len() implies n[a].0@
                            != n[b].0@ by {
                            if b == n.len() - 1 {
                                assert(n[b] == (key, value));
                                assert(n[a] == m[a]);
                                if a < gi {
                                    assert(orig[a].0@ != orig[gi].0@);
                                } else {
                                    assert(orig[gi].0@ != orig[a + 1].0@);
                                }
                            } else {
                                assert(n[a] == m[a] && n[b] == m[b]);
                                if a < gi && b < gi {
                                    assert(orig[a].0@ != orig[b].0@);
                                } else if a < gi {
                                    assert(orig[a].0@ != orig[b + 1].0@);
                                } else {
                                    assert(orig[a + 1].0@ != orig[b + 1].0@);
                                }
                            }
                        }
                    }
                }
                return ;
            }
            i += 1;
        }
        self.0.push((key, value));
    }

    /// The value bound to `key`: the first entry whose key matches, or
    /// `None` when no entry does.
    pub fn get(&self, key: &str) -> (r: Option<&GValue>)
        ensures
            match r {
                Option::None => self.spec_get(key@) is None,
                Option::Some(v) => self.spec_get(key@) == Some(*v),
            },
    {
        let mut i: usize = 0;
        while i < self.0.len()
            invariant
                0 <= i <= self.0@.len(),
                forall|j: int| 0 <= j < i ==> self.0@[j].0@ != key@,
            decreases self.0@.len() - i,
        {
            if str_eq(self.0[i].0.as_str(), key) {
                proof {
                    lemma_spec_lookup_first_match(self.0@, key@, i as int);
                }
                return Some(&self.0[i].1);
            }
            i += 1;
        }
        proof {
            lemma_spec_lookup_no_match(self.0@, key@);
        }
        None
    }
}

/// The lookup finds something exactly when some entry carries the key.
pub proof fn lemma_lookup_contains(entries: Seq<(String, GValue)>, key: Seq<char>)
    ensures
        (spec_lookup(entries, key) is Some) <==> (exists|e: int|
            0 <= e < entries.len() && entries[e].0@ == key),
    decreases entries.len(),
{
    if entries.len() > 0 {
        lemma_lookup_contains(entries.drop_first(), key);
        if entries[0].0@ == key {
        } else {
            if spec_lookup(entries, key) is Some {
                let e = choose|e: int|
                    0 <= e < entries.drop_first().len() && entries.drop_first()[e].0@ == key;
                assert(entries[e + 1].0@ == key);
            }
            if exists|e: int| 0 <= e < entries.len() && entries[e].0@ == key {
                let e = choose|e: int| 0 <= e < entries.len() && entries[e].0@ == key;
                assert(entries.drop_first()[e - 1].0@ == key);
            }
        }
    }
}

/// When the first `i` entries miss `key` and entry `i` matches it, the
/// lookup finds entry `i`.
proof fn lemma_spec_lookup_first_match(entries: Seq<(String, GValue)>, key: Seq<char>, i: int)
    requires
        0 <= i < entries.len(),
        entries[i].0@ == key,
        forall|j: int| 0 <= j < i ==> entries[j].0@ != key,
    ensures
        spec_lookup(entries, key) == Some(entries[i].1),
    decreases i,
{
    if i > 0 {
        lemma_spec_lookup_first_match(entries.drop_first(), key, i - 1);
    }
}

/// When no entry carries `key`, the lookup finds nothing.
proof fn lemma_spec_lookup_no_match(entries: Seq<(String, GValue)>, key: Seq<char>)
    requires
        forall|j: int| 0 <= j < entries.len() ==> entries[j].0@ != key,
    ensures
        spec_lookup(entries, key) is None,
    decreases entries.len(),
{
    if entries.len() > 0 {
        lemma_spec_lookup_no_match(entries.drop_first(), key);
    }
}

/// The mathematical shape of a `GValue`.
pub enum GValueV {
    Int32(i32),
    Int64(i64),
    Str(Seq<char>),
    Date(i64),
    Uuid(u128),
    List(Seq<GValueV>),
    Mapping(Seq<(Seq<char>, GValueV)>),
    Vertex(VertexV),
    Edge(EdgeV),
    VertexProperty(VertexPropertyV),
    Property(PropertyV),
    Path(Seq<GValueV>),
}

/// The shape of a `GValue`.
pub open spec fn gvalue_view(v: GValue) -> GValueV
    decreases v,
{
    match v {
        GValue::Int32(n) => GValueV::Int32(n),
        GValue::Int64(n) => GValueV::Int64(n),
        GValue::String(s) => GValueV::Str(s@),
        GValue::Date(d) => GValueV::Date(d.0),
        GValue::Uuid(u) => GValueV::Uuid(u.0),
        GValue::List(l) => GValueV::List(gvalues_view(l.0@)),
        GValue::Mapping(m) => GValueV::Mapping(entries_view(m.0@)),
        GValue::Vertex(x) => GValueV::Vertex(vertex_view(x)),
        GValue::Edge(x) => GValueV::Edge(edge_view(x)),
        GValue::VertexProperty(x) => GValueV::VertexProperty(vp_view(x)),
        GValue::Property(x) => GValueV::Property(property_view(x)),
        GValue::Path(x) => GValueV::Path(gvalues_view(x.objects@)),
    }
}

/// The shapes of a sequence of values, in order.
pub open spec fn gvalues_view(s: Seq<GValue>) -> Seq<GValueV>
    decreases s,
{
    if s.len() == 0 {
        Seq::empty()
    } else {
        seq![gvalue_view(s[0])] + gvalues_view(s.drop_first())
    }
}

/// The shapes of a mapping's entries, in order.
pub open spec fn entries_view(s: Seq<(String, GValue)>) -> Seq<(Seq<char>, GValueV)>
    decreases s,
{
    if s.len() == 0 {
        Seq::empty()
    } else {
        seq![(s[0].0@, gvalue_view(s[0].1))] + entries_view(s.drop_first())
    }
}

/// `gvalues_view` maps the sequence element by element.
pub proof fn lemma_gvalues_view(s: Seq<GValue>)
    ensures
        gvalues_view(s).len() == s.len(),
        forall|i: int| 0 <= i < s.len() ==> gvalues_view(s)[i] == gvalue_view(s[i]),
    decreases s.len(),
{
    if s.len() > 0 {
        lemma_gvalues_view(s.drop_first());
    }
}

/// `entries_view` maps the entries element by element.
pub proof fn lemma_entries_view(s: Seq<(String, GValue)>)
    ensures
        entries_view(s).len() == s.len(),
        forall|i: int| 0 <= i < s.len() ==> entries_view(s)[i] == (s[i].0@, gvalue_view(s[i].1)),
    decreases s.len(),
{
    if s.len() > 0 {
        lemma_entries_view(s.drop_first());
    }
}

impl View for GValue {
    type V = GValueV;

    open spec fn view(&self) -> GValueV {
        gvalue_view(*self)
    }
}

impl View for GMap {
    type V = Seq<(Seq<char>, GValueV)>;

    open spec fn view(&self) -> Seq<(Seq<char>, GValueV)> {
        entries_view(self.0@)
    }
}

impl View for List {
    type V = Seq<GValueV>;

    open spec fn view(&self) -> Seq<GValueV> {
        gvalues_view(self.0@)
    }
}

} // verus!
