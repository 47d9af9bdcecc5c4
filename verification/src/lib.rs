//! A validated, queryable model of protobuf schema descriptors.
//!
//! The crate ingests batches of file descriptor records, checks them for
//! structural errors (name collisions, number conflicts, malformed defaults,
//! misused options), resolves every type reference to a concrete definition,
//! and exposes the resulting type graph through lightweight descriptor views.

pub mod bytes;
pub mod collect;
pub mod condition;
pub mod defaults;
pub mod graph;
pub mod laws;
pub mod name;
pub mod normalize;
pub mod options;
pub mod pool;
pub mod ranges;
pub mod record;
pub mod record_clone;
pub mod resolve;
pub mod scalar;

pub use condition::{Condition, DeclSite, NumberSpan};
pub use defaults::DefaultValue;
pub use options::{DeclOptions, MergedOption};
pub use pool::{
    Descriptor, DescriptorError, EnumDescriptor, EnumValueDescriptor, FieldDescriptor,
    FieldDescriptorKind, FileDescriptor, MethodDescriptor, ServiceDescriptor,
};
pub use record::{
    EnumRecord, EnumValueRecord, FieldRecord, FieldTypeRecord, FileRecord, MapValueRecord,
    MessageRecord, MethodRecord, NumberRange, OneofRecord, OptionEntry, OptionPathSegment,
    OptionRecord, OptionValue, ServiceRecord,
};
pub use scalar::{Cardinality, ScalarKind, Syntax};
