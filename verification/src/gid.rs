use vstd::prelude::*;

verus! {

/// A graph element's unique key: a 32-bit integer, a 64-bit integer, or a
/// string, following whichever the server chose for the element.
#[derive(Debug, Clone, PartialEq)]
pub enum GID {
    Int32(i32),
    Int64(i64),
    String(String),
}

/// The mathematical shape of a `GID`.
pub enum GIDV {
    Int32(i32),
    Int64(i64),
    Str(Seq<char>),
}

/// The shape of a `GID` value.
pub open spec fn gid_view(g: GID) -> GIDV {
    match g {
        GID::Int32(n) => GIDV::Int32(n),
        GID::Int64(n) => GIDV::Int64(n),
        GID::String(s) => GIDV::Str(s@),
    }
}

impl View for GID {
    type V = GIDV;

    open spec fn view(&self) -> GIDV {
        gid_view(*self)
    }
}

} // verus!
