use vstd::prelude::*;

verus! {

/// The variant tag of a `GValue`. A cast error names both the tag that a
/// value actually carries and the tag that the caller asked for.
#[derive(Debug, Clone, Copy, PartialEq, Eq, Structural)]
pub enum GKind {
    Int32,
    Int64,
    String,
    Date,
    Uuid,
    List,
    Mapping,
    Vertex,
    Edge,
    VertexProperty,
    Property,
    Path,
}

/// Every failure the client surfaces. Transport-layer failures are kept
/// distinct from server-reported ones, so a caller can treat them
/// differently.
#[derive(Debug, Clone, PartialEq)]
pub enum GremlinError {
    /// The pool could not hand out a connection; nothing crossed the wire.
    Connection(String),
    /// Sending or receiving failed after a connection was obtained.
    Transport(String),
    /// A value or envelope could not be encoded for the wire.
    Serialization(String),
    /// Received bytes did not parse as the expected envelope or value shape.
    Deserialization(String),
    /// A decoded value did not match the requested type: actual tag first,
    /// requested tag second.
    Cast(GKind, GKind),
    /// The server answered with a non-success status: code and message,
    /// verbatim.
    Request(i64, String),
}

} // verus!
