pub mod client;
pub mod codec;
pub mod conversion;
pub mod errors;
pub mod gid;
pub mod json;
pub mod message;
pub mod structure;
pub mod strutil;
pub mod value;

pub use client::{GraphSON, GremlinClient, Response};
pub use conversion::{BorrowFromGValue, FromGValue, Params, ToGValue};
pub use errors::{GKind, GremlinError};
pub use gid::GID;
pub use message::Envelope;
pub use json::Json;
pub use structure::{Edge, Path, Property, Vertex, VertexProperty};
pub use value::{GDate, GMap, GUuid, GValue, List};
