//! The closed set of primitive wire types, the cardinality classes, and the
//! traits derived from them (packability, presence semantics).

use vstd::prelude::*;

verus! {

/// Cardinality determines whether a field is optional, required, or repeated.
#[derive(Clone, Copy, Debug, PartialEq, Eq, Structural)]
pub enum Cardinality {
    /// The field appears zero or one times.
    Optional,
    /// The field appears exactly one time. This cardinality is invalid with proto3.
    Required,
    /// The field appears zero or more times.
    Repeated,
}

/// The schema dialect a file was written in.
#[derive(Clone, Copy, Debug, PartialEq, Eq, Structural)]
pub enum Syntax {
    Proto2,
    Proto3,
}

/// A primitive (non-message, non-enum) field type.
#[derive(Clone, Copy, Debug, PartialEq, Eq, Structural)]
pub enum ScalarKind {
    Double,
    Float,
    Int32,
    Int64,
    Uint32,
    Uint64,
    Sint32,
    Sint64,
    Fixed32,
    Fixed64,
    Sfixed32,
    Sfixed64,
    Bool,
    String,
    Bytes,
}

impl ScalarKind {
    /// Whether a repeated field of this scalar type may use the packed encoding.
    /// Only fixed-width and varint-encoded scalars are packable; length-delimited
    /// types (string, bytes) are not.
    pub open spec fn spec_is_packable(self) -> bool {
        !(self is String || self is Bytes)
    }

    /// Executable packability test.
    pub fn is_packable(&self) -> (r: bool)
        ensures
            r == self.spec_is_packable(),
    {
        !(matches!(self, ScalarKind::String) || matches!(self, ScalarKind::Bytes))
    }
}

} // verus!
