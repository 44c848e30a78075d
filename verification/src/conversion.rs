use vstd::prelude::*;

verus! {

use vstd::pervasive::arbitrary;

use crate::errors::{GKind, GremlinError};
use crate::gid::GID;
use crate::structure::{Edge, Path, Property, Vertex, VertexProperty};
use crate::value::{GDate, GMap, GUuid, GValue, List};

/// A parameter mapping handed to `execute`: named values bound into the
/// traversal script server-side.
#[derive(Debug)]
pub struct Params(pub GMap);

impl Params {
    /// An empty parameter mapping.
    pub fn new() -> (p: Params)
        ensures
            p.0.0@.len() == 0,
    {
        Params(GMap::new())
    }
}

/// Widening conversion into the wire value model. Total: every supported
/// native value has exactly one `GValue` image, described by
/// `gvalue_spec`. Implemented once per native type so that widths are
/// preserved, never merged.
pub trait ToGValue {
    /// Exactly which `GValue` the conversion produces.
    spec fn gvalue_spec(&self, r: GValue) -> bool;

    fn to_gvalue(&self) -> (r: GValue)
        ensures
            self.gvalue_spec(r),
    ;
}

/// Narrowing conversion out of the wire value model, taking ownership.
/// Matches exactly one variant tag and unwraps its payload; any other tag
/// fails with a cast error naming the actual tag and the requested one.
pub trait FromGValue: Sized {
    /// The one variant tag this narrowing accepts.
    spec fn target_kind() -> GKind;

    /// The payload carried by a value of the accepted tag.
    spec fn payload_of(v: GValue) -> Self;

    fn from_gvalue(v: GValue) -> (r: Result<Self, GremlinError>)
        ensures
            v.skind() == Self::target_kind() ==> r == Ok::<Self, GremlinError>(
                Self::payload_of(v),
            ),
            v.skind() != Self::target_kind() ==> r == Err::<Self, GremlinError>(
                GremlinError::Cast(v.skind(), Self::target_kind()),
            ),
    ;
}

/// Narrowing conversion that only borrows: the same matching and failure
/// behaviour as `FromGValue`, but the caller keeps ownership of the
/// value and receives a reference into it.
pub trait BorrowFromGValue: Sized {
    /// The one variant tag this narrowing accepts.
    spec fn borrow_kind() -> GKind;

    /// The payload carried by a value of the accepted tag.
    spec fn borrow_payload(v: GValue) -> Self;

    fn from_gvalue<'a>(v: &'a GValue) -> (r: Result<&'a Self, GremlinError>)
        ensures
            v.skind() == Self::borrow_kind() ==> (r matches Ok(p) && *p == Self::borrow_payload(
                *v,
            )),
            v.skind() != Self::borrow_kind() ==> r == Err::<&'a Self, GremlinError>(
                GremlinError::Cast(v.skind(), Self::borrow_kind()),
            ),
    ;
}

impl ToGValue for i32 {
    open spec fn gvalue_spec(&self, r: GValue) -> bool {
        r == GValue::Int32(*self)
    }

    fn to_gvalue(&self) -> (r: GValue) {
        GValue::Int32(*self)
    }
}

impl ToGValue for i64 {
    open spec fn gvalue_spec(&self, r: GValue) -> bool {
        r == GValue::Int64(*self)
    }

    fn to_gvalue(&self) -> (r: GValue) {
        GValue::Int64(*self)
    }
}

impl ToGValue for GDate {
    open spec fn gvalue_spec(&self, r: GValue) -> bool {
        r == GValue::Date(*self)
    }

    fn to_gvalue(&self) -> (r: GValue) {
        GValue::Date(*self)
    }
}

impl ToGValue for GUuid {
    open spec fn gvalue_spec(&self, r: GValue) -> bool {
        r == GValue::Uuid(*self)
    }

    fn to_gvalue(&self) -> (r: GValue) {
        GValue::Uuid(*self)
    }
}

impl ToGValue for String {
    open spec fn gvalue_spec(&self, r: GValue) -> bool {
        r == GValue::String(*self)
    }

    fn to_gvalue(&self) -> (r: GValue) {
        GValue::String(self.clone())
    }
}

impl ToGValue for &str {
    open spec fn gvalue_spec(&self, r: GValue) -> bool {
        r matches GValue::String(s) && s@ == (*self)@
    }

    fn to_gvalue(&self) -> (r: GValue) {
        GValue::String((*self).to_owned())
    }
}

impl ToGValue for GID {
    open spec fn gvalue_spec(&self, r: GValue) -> bool {
        match self {
            GID::Int32(n) => r == GValue::Int32(*n),
            GID::Int64(n) => r == GValue::Int64(*n),
            GID::String(s) => r == GValue::String(*s),
        }
    }

    fn to_gvalue(&self) -> (r: GValue) {
        match self {
            GID::Int32(n) => GValue::Int32(*n),
            GID::Int64(n) => GValue::Int64(*n),
            GID::String(s) => GValue::String(s.clone()),
        }
    }
}

impl FromGValue for i32 {
    open spec fn target_kind() -> GKind {
        GKind::Int32
    }

    open spec fn payload_of(v: GValue) -> i32 {
        match v {
            GValue::Int32(n) => n,
            _ => arbitrary(),
        }
    }

    fn from_gvalue(v: GValue) -> (r: Result<i32, GremlinError>) {
        match v {
            GValue::Int32(n) => Ok(n),
            _ => Err(GremlinError::Cast(v.kind(), GKind::Int32)),
        }
    }
}

impl FromGValue for i64 {
    open spec fn target_kind() -> GKind {
        GKind::Int64
    }

    open spec fn payload_of(v: GValue) -> i64 {
        match v {
            GValue::Int64(n) => n,
            _ => arbitrary(),
        }
    }

    fn from_gvalue(v: GValue) -> (r: Result<i64, GremlinError>) {
        match v {
            GValue::Int64(n) => Ok(n),
            _ => Err(GremlinError::Cast(v.kind(), GKind::Int64)),
        }
    }
}

impl FromGValue for String {
    open spec fn target_kind() -> GKind {
        GKind::String
    }

    open spec fn payload_of(v: GValue) -> String {
        match v {
            GValue::String(s) => s,
            _ => arbitrary(),
        }
    }

    fn from_gvalue(v: GValue) -> (r: Result<String, GremlinError>) {
        match v {
            GValue::String(s) => Ok(s),
            _ => Err(GremlinError::Cast(v.kind(), GKind::String)),
        }
    }
}

impl FromGValue for GDate {
    open spec fn target_kind() -> GKind {
        GKind::Date
    }

    open spec fn payload_of(v: GValue) -> GDate {
        match v {
            GValue::Date(d) => d,
            _ => arbitrary(),
        }
    }

    fn from_gvalue(v: GValue) -> (r: Result<GDate, GremlinError>) {
        match v {
            GValue::Date(d) => Ok(d),
            _ => Err(GremlinError::Cast(v.kind(), GKind::Date)),
        }
    }
}

impl FromGValue for GUuid {
    open spec fn target_kind() -> GKind {
        GKind::Uuid
    }

    open spec fn payload_of(v: GValue) -> GUuid {
        match v {
            GValue::Uuid(u) => u,
            _ => arbitrary(),
        }
    }

    fn from_gvalue(v: GValue) -> (r: Result<GUuid, GremlinError>) {
        match v {
            GValue::Uuid(u) => Ok(u),
            _ => Err(GremlinError::Cast(v.kind(), GKind::Uuid)),
        }
    }
}

impl FromGValue for List {
    open spec fn target_kind() -> GKind {
        GKind::List
    }

    open spec fn payload_of(v: GValue) -> List {
        match v {
            GValue::List(l) => l,
            _ => arbitrary(),
        }
    }

    fn from_gvalue(v: GValue) -> (r: Result<List, GremlinError>) {
        match v {
            GValue::List(l) => Ok(l),
            _ => Err(GremlinError::Cast(v.kind(), GKind::List)),
        }
    }
}

impl FromGValue for GMap {
    open spec fn target_kind() -> GKind {
        GKind::Mapping
    }

    open spec fn payload_of(v: GValue) -> GMap {
        match v {
            GValue::Mapping(m) => m,
            _ => arbitrary(),
        }
    }

    fn from_gvalue(v: GValue) -> (r: Result<GMap, GremlinError>) {
        match v {
            GValue::Mapping(m) => Ok(m),
            _ => Err(GremlinError::Cast(v.kind(), GKind::Mapping)),
        }
    }
}

impl FromGValue for Vertex {
    open spec fn target_kind() -> GKind {
        GKind::Vertex
    }

    open spec fn payload_of(v: GValue) -> Vertex {
        match v {
            GValue::Vertex(x) => x,
            _ => arbitrary(),
        }
    }

    fn from_gvalue(v: GValue) -> (r: Result<Vertex, GremlinError>) {
        match v {
            GValue::Vertex(x) => Ok(x),
            _ => Err(GremlinError::Cast(v.kind(), GKind::Vertex)),
        }
    }
}

impl FromGValue for Edge {
    open spec fn target_kind() -> GKind {
        GKind::Edge
    }

    open spec fn payload_of(v: GValue) -> Edge {
        match v {
            GValue::Edge(x) => x,
            _ => arbitrary(),
        }
    }

    fn from_gvalue(v: GValue) -> (r: Result<Edge, GremlinError>) {
        match v {
            GValue::Edge(x) => Ok(x),
            _ => Err(GremlinError::Cast(v.kind(), GKind::Edge)),
        }
    }
}

impl FromGValue for VertexProperty {
    open spec fn target_kind() -> GKind {
        GKind::VertexProperty
    }

    open spec fn payload_of(v: GValue) -> VertexProperty {
        match v {
            GValue::VertexProperty(x) => x,
            _ => arbitrary(),
        }
    }

    fn from_gvalue(v: GValue) -> (r: Result<VertexProperty, GremlinError>) {
        match v {
            GValue::VertexProperty(x) => Ok(x),
            _ => Err(GremlinError::Cast(v.kind(), GKind::VertexProperty)),
        }
    }
}

impl FromGValue for Property {
    open spec fn target_kind() -> GKind {
        GKind::Property
    }

    open spec fn payload_of(v: GValue) -> Property {
        match v {
            GValue::Property(x) => x,
            _ => arbitrary(),
        }
    }

    fn from_gvalue(v: GValue) -> (r: Result<Property, GremlinError>) {
        match v {
            GValue::Property(x) => Ok(x),
            _ => Err(GremlinError::Cast(v.kind(), GKind::Property)),
        }
    }
}

impl FromGValue for Path {
    open spec fn target_kind() -> GKind {
        GKind::Path
    }

    open spec fn payload_of(v: GValue) -> Path {
        match v {
            GValue::Path(x) => x,
            _ => arbitrary(),
        }
    }

    fn from_gvalue(v: GValue) -> (r: Result<Path, GremlinError>) {
        match v {
            GValue::Path(x) => Ok(x),
            _ => Err(GremlinError::Cast(v.kind(), GKind::Path)),
        }
    }
}

impl BorrowFromGValue for i32 {
    open spec fn borrow_kind() -> GKind {
        GKind::Int32
    }

    open spec fn borrow_payload(v: GValue) -> i32 {
        <i32 as FromGValue>::payload_of(v)
    }

    fn from_gvalue<'a>(v: &'a GValue) -> (r: Result<&'a i32, GremlinError>) {
        match v {
            GValue::Int32(n) => Ok(n),
            _ => Err(GremlinError::Cast(v.kind(), GKind::Int32)),
        }
    }
}

impl BorrowFromGValue for i64 {
    open spec fn borrow_kind() -> GKind {
        GKind::Int64
    }

    open spec fn borrow_payload(v: GValue) -> i64 {
        <i64 as FromGValue>::payload_of(v)
    }

    fn from_gvalue<'a>(v: &'a GValue) -> (r: Result<&'a i64, GremlinError>) {
        match v {
            GValue::Int64(n) => Ok(n),
            _ => Err(GremlinError::Cast(v.kind(), GKind::Int64)),
        }
    }
}

impl BorrowFromGValue for String {
    open spec fn borrow_kind() -> GKind {
        GKind::String
    }

    open spec fn borrow_payload(v: GValue) -> String {
        <String as FromGValue>::payload_of(v)
    }

    fn from_gvalue<'a>(v: &'a GValue) -> (r: Result<&'a String, GremlinError>) {
        match v {
            GValue::String(s) => Ok(s),
            _ => Err(GremlinError::Cast(v.kind(), GKind::String)),
        }
    }
}

impl BorrowFromGValue for GDate {
    open spec fn borrow_kind() -> GKind {
        GKind::Date
    }

    open spec fn borrow_payload(v: GValue) -> GDate {
        <GDate as FromGValue>::payload_of(v)
    }

    fn from_gvalue<'a>(v: &'a GValue) -> (r: Result<&'a GDate, GremlinError>) {
        match v {
            GValue::Date(d) => Ok(d),
            _ => Err(GremlinError::Cast(v.kind(), GKind::Date)),
        }
    }
}

impl BorrowFromGValue for GUuid {
    open spec fn borrow_kind() -> GKind {
        GKind::Uuid
    }

    open spec fn borrow_payload(v: GValue) -> GUuid {
        <GUuid as FromGValue>::payload_of(v)
    }

    fn from_gvalue<'a>(v: &'a GValue) -> (r: Result<&'a GUuid, GremlinError>) {
        match v {
            GValue::Uuid(u) => Ok(u),
            _ => Err(GremlinError::Cast(v.kind(), GKind::Uuid)),
        }
    }
}

impl BorrowFromGValue for List {
    open spec fn borrow_kind() -> GKind {
        GKind::List
    }

    open spec fn borrow_payload(v: GValue) -> List {
        <List as FromGValue>::payload_of(v)
    }

    fn from_gvalue<'a>(v: &'a GValue) -> (r: Result<&'a List, GremlinError>) {
        match v {
            GValue::List(l) => Ok(l),
            _ => Err(GremlinError::Cast(v.kind(), GKind::List)),
        }
    }
}

impl BorrowFromGValue for GMap {
    open spec fn borrow_kind() -> GKind {
        GKind::Mapping
    }

    open spec fn borrow_payload(v: GValue) -> GMap {
        <GMap as FromGValue>::payload_of(v)
    }

    fn from_gvalue<'a>(v: &'a GValue) -> (r: Result<&'a GMap, GremlinError>) {
        match v {
            GValue::Mapping(m) => Ok(m),
            _ => Err(GremlinError::Cast(v.kind(), GKind::Mapping)),
        }
    }
}

impl BorrowFromGValue for Vertex {
    open spec fn borrow_kind() -> GKind {
        GKind::Vertex
    }

    open spec fn borrow_payload(v: GValue) -> Vertex {
        <Vertex as FromGValue>::payload_of(v)
    }

    fn from_gvalue<'a>(v: &'a GValue) -> (r: Result<&'a Vertex, GremlinError>) {
        match v {
            GValue::Vertex(x) => Ok(x),
            _ => Err(GremlinError::Cast(v.kind(), GKind::Vertex)),
        }
    }
}

impl BorrowFromGValue for Edge {
    open spec fn borrow_kind() -> GKind {
        GKind::Edge
    }

    open spec fn borrow_payload(v: GValue) -> Edge {
        <Edge as FromGValue>::payload_of(v)
    }

    fn from_gvalue<'a>(v: &'a GValue) -> (r: Result<&'a Edge, GremlinError>) {
        match v {
            GValue::Edge(x) => Ok(x),
            _ => Err(GremlinError::Cast(v.kind(), GKind::Edge)),
        }
    }
}

impl BorrowFromGValue for VertexProperty {
    open spec fn borrow_kind() -> GKind {
        GKind::VertexProperty
    }

    open spec fn borrow_payload(v: GValue) -> VertexProperty {
        <VertexProperty as FromGValue>::payload_of(v)
    }

    fn from_gvalue<'a>(v: &'a GValue) -> (r: Result<&'a VertexProperty, GremlinError>) {
        match v {
            GValue::VertexProperty(x) => Ok(x),
            _ => Err(GremlinError::Cast(v.kind(), GKind::VertexProperty)),
        }
    }
}

impl BorrowFromGValue for Property {
    open spec fn borrow_kind() -> GKind {
        GKind::Property
    }

    open spec fn borrow_payload(v: GValue) -> Property {
        <Property as FromGValue>::payload_of(v)
    }

    fn from_gvalue<'a>(v: &'a GValue) -> (r: Result<&'a Property, GremlinError>) {
        match v {
            GValue::Property(x) => Ok(x),
            _ => Err(GremlinError::Cast(v.kind(), GKind::Property)),
        }
    }
}

impl BorrowFromGValue for Path {
    open spec fn borrow_kind() -> GKind {
        GKind::Path
    }

    open spec fn borrow_payload(v: GValue) -> Path {
        <Path as FromGValue>::payload_of(v)
    }

    fn from_gvalue<'a>(v: &'a GValue) -> (r: Result<&'a Path, GremlinError>) {
        match v {
            GValue::Path(x) => Ok(x),
            _ => Err(GremlinError::Cast(v.kind(), GKind::Path)),
        }
    }
}

/// Round trip: a value built from a 32-bit integer narrows back to that
/// integer, never to anything else.
pub proof fn lemma_round_trip_i32(x: i32, v: GValue)
    requires
        x.gvalue_spec(v),
    ensures
        v.skind() == <i32 as FromGValue>::target_kind(),
        <i32 as FromGValue>::payload_of(v) == x,
{
}

/// Round trip: a value built from a 64-bit integer narrows back to that
/// integer, never to anything else.
pub proof fn lemma_round_trip_i64(x: i64, v: GValue)
    requires
        x.gvalue_spec(v),
    ensures
        v.skind() == <i64 as FromGValue>::target_kind(),
        <i64 as FromGValue>::payload_of(v) == x,
{
}

/// Round trip: a value built from a string narrows back to that string.
pub proof fn lemma_round_trip_string(x: String, v: GValue)
    requires
        x.gvalue_spec(v),
    ensures
        v.skind() == <String as FromGValue>::target_kind(),
        <String as FromGValue>::payload_of(v) == x,
{
}

/// Round trip: a value built from a timestamp narrows back to that
/// timestamp.
pub proof fn lemma_round_trip_date(x: GDate, v: GValue)
    requires
        x.gvalue_spec(v),
    ensures
        v.skind() == <GDate as FromGValue>::target_kind(),
        <GDate as FromGValue>::payload_of(v) == x,
{
}

/// Round trip: a value built from an identifier narrows back to that
/// identifier.
pub proof fn lemma_round_trip_uuid(x: GUuid, v: GValue)
    requires
        x.gvalue_spec(v),
    ensures
        v.skind() == <GUuid as FromGValue>::target_kind(),
        <GUuid as FromGValue>::payload_of(v) == x,
{
}

} // verus!
