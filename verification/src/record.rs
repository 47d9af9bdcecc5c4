//! The input data model: file descriptor records as produced by a schema
//! compiler, expressed with plain values owned by this crate.
//!
//! A batch of [`FileRecord`]s is the unit of pool construction. Records are
//! untrusted: every invariant the pool relies on is checked during
//! construction. Each record type has a spec-level mirror (the `*V` types)
//! used by the contracts; `dv()` maps a record to its mirror.

use vstd::prelude::*;

use crate::scalar::{Cardinality, ScalarKind, Syntax};

verus! {

/// An inclusive range of field or enum-value numbers.
#[derive(Clone, Copy, Debug, PartialEq, Eq, Structural)]
pub struct NumberRange {
    pub start: i32,
    pub end: i32,
}

/// The declared type of a field before resolution.
#[derive(Debug)]
pub enum FieldTypeRecord {
    /// A primitive type.
    Scalar(ScalarKind),
    /// A textual reference to a message or enum; which of the two is
    /// discovered during resolution.
    Named(Vec<u8>),
    /// A textual reference to a group's nested message.
    Group(Vec<u8>),
    /// A map field declared with inline key/value types; construction
    /// synthesizes the backing entry message.
    MapSugar { key: ScalarKind, value: MapValueRecord },
}

/// The value type of a map field declared with inline key/value types.
#[derive(Debug)]
pub enum MapValueRecord {
    Scalar(ScalarKind),
    Named(Vec<u8>),
}

/// Spec mirror of [`FieldTypeRecord`].
#[verifier::ext_equal]
pub enum FieldTypeV {
    Scalar(ScalarKind),
    Named(Seq<u8>),
    Group(Seq<u8>),
    MapSugar { key: ScalarKind, value: MapValueV },
}

/// Spec mirror of [`MapValueRecord`].
#[verifier::ext_equal]
pub enum MapValueV {
    Scalar(ScalarKind),
    Named(Seq<u8>),
}

impl MapValueRecord {
    pub open spec fn dv(&self) -> MapValueV {
        match self {
            MapValueRecord::Scalar(k) => MapValueV::Scalar(*k),
            MapValueRecord::Named(n) => MapValueV::Named(n@),
        }
    }
}

impl FieldTypeRecord {
    pub open spec fn dv(&self) -> FieldTypeV {
        match self {
            FieldTypeRecord::Scalar(k) => FieldTypeV::Scalar(*k),
            FieldTypeRecord::Named(n) => FieldTypeV::Named(n@),
            FieldTypeRecord::Group(n) => FieldTypeV::Group(n@),
            FieldTypeRecord::MapSugar { key, value } => FieldTypeV::MapSugar {
                key: *key,
                value: value.dv(),
            },
        }
    }
}

/// One segment of an option statement's path: a plain field name of the
/// options message, or the name of an extension of it (written in
/// parentheses in schema source).
#[derive(Debug)]
pub enum OptionPathSegment {
    Plain(Vec<u8>),
    Extension(Vec<u8>),
}

/// Spec mirror of [`OptionPathSegment`].
#[verifier::ext_equal]
pub enum OptionPathSegmentV {
    Plain(Seq<u8>),
    Extension(Seq<u8>),
}

impl OptionPathSegment {
    pub open spec fn dv(&self) -> OptionPathSegmentV {
        match self {
            OptionPathSegment::Plain(n) => OptionPathSegmentV::Plain(n@),
            OptionPathSegment::Extension(n) => OptionPathSegmentV::Extension(n@),
        }
    }
}

/// An already-parsed option value. Numeric literals for floating-point
/// fields are retained as text; the pool validates their shape but never
/// computes with them.
#[derive(Debug)]
pub enum OptionValue {
    Int(i64),
    Uint(u64),
    Bool(bool),
    /// A bare identifier (an enum value name).
    Ident(Vec<u8>),
    /// Quoted text, already unescaped.
    Text(Vec<u8>),
    /// A floating-point literal, kept as written.
    FloatText(Vec<u8>),
    /// A bracketed list of values for a repeated field.
    List(Vec<OptionValue>),
    /// An aggregate (message-shaped) literal.
    Aggregate(Vec<OptionEntry>),
}

/// One field assignment inside an aggregate option value.
#[derive(Debug)]
pub struct OptionEntry {
    pub name: Vec<u8>,
    pub is_extension: bool,
    pub value: OptionValue,
}

/// Spec mirror of [`OptionValue`].
#[verifier::ext_equal]
pub enum OptionValueV {
    Int(i64),
    Uint(u64),
    Bool(bool),
    Ident(Seq<u8>),
    Text(Seq<u8>),
    FloatText(Seq<u8>),
    List(Seq<OptionValueV>),
    Aggregate(Seq<OptionEntryV>),
}

/// Spec mirror of [`OptionEntry`].
#[verifier::ext_equal]
pub struct OptionEntryV {
    pub name: Seq<u8>,
    pub is_extension: bool,
    pub value: OptionValueV,
}

impl OptionValue {
    pub open spec fn dv(&self) -> OptionValueV
        decreases self,
    {
        match self {
            OptionValue::Int(x) => OptionValueV::Int(*x),
            OptionValue::Uint(x) => OptionValueV::Uint(*x),
            OptionValue::Bool(x) => OptionValueV::Bool(*x),
            OptionValue::Ident(n) => OptionValueV::Ident(n@),
            OptionValue::Text(n) => OptionValueV::Text(n@),
            OptionValue::FloatText(n) => OptionValueV::FloatText(n@),
            OptionValue::List(vs) => OptionValueV::List(dv_option_values(vs@)),
            OptionValue::Aggregate(es) => OptionValueV::Aggregate(dv_option_entries(es@)),
        }
    }
}

impl OptionEntry {
    pub open spec fn dv(&self) -> OptionEntryV
        decreases self,
    {
        OptionEntryV { name: self.name@, is_extension: self.is_extension, value: self.value.dv() }
    }
}

pub open spec fn dv_option_values(s: Seq<OptionValue>) -> Seq<OptionValueV>
    decreases s,
{
    if s.len() == 0 {
        Seq::empty()
    } else {
        dv_option_values(s.drop_last()).push(s.last().dv())
    }
}

pub open spec fn dv_option_entries(s: Seq<OptionEntry>) -> Seq<OptionEntryV>
    decreases s,
{
    if s.len() == 0 {
        Seq::empty()
    } else {
        dv_option_entries(s.drop_last()).push(s.last().dv())
    }
}

pub broadcast proof fn lemma_dv_option_values(s: Seq<OptionValue>)
    ensures
        (#[trigger] dv_option_values(s)).len() == s.len(),
        forall|i: int| 0 <= i < s.len() ==> dv_option_values(s)[i] == s[i].dv(),
    decreases s.len(),
{
    if s.len() > 0 {
        lemma_dv_option_values(s.drop_last());
    }
}

pub broadcast proof fn lemma_dv_option_entries(s: Seq<OptionEntry>)
    ensures
        (#[trigger] dv_option_entries(s)).len() == s.len(),
        forall|i: int| 0 <= i < s.len() ==> dv_option_entries(s)[i] == s[i].dv(),
    decreases s.len(),
{
    if s.len() > 0 {
        lemma_dv_option_entries(s.drop_last());
    }
}

/// One option statement attached to a declaration.
#[derive(Debug)]
pub struct OptionRecord {
    pub path: Vec<OptionPathSegment>,
    pub value: OptionValue,
}

/// Spec mirror of [`OptionRecord`].
#[verifier::ext_equal]
pub struct OptionRecordV {
    pub path: Seq<OptionPathSegmentV>,
    pub value: OptionValueV,
}

impl OptionRecord {
    pub open spec fn dv(&self) -> OptionRecordV {
        OptionRecordV {
            path: Seq::new(self.path@.len(), |i: int| self.path@[i].dv()),
            value: self.value.dv(),
        }
    }
}

pub open spec fn dv_options(s: Seq<OptionRecord>) -> Seq<OptionRecordV> {
    Seq::new(s.len(), |i: int| s[i].dv())
}

/// A field declaration (also used for extension fields, where `extendee`
/// names the extended message).
#[derive(Debug)]
pub struct FieldRecord {
    pub name: Vec<u8>,
    pub number: i32,
    pub cardinality: Cardinality,
    pub field_type: FieldTypeRecord,
    /// Empty means "derive the camel-case JSON name from `name`".
    pub json_name: Vec<u8>,
    pub default_literal: Option<Vec<u8>>,
    /// Index into the owning message's oneof list.
    pub oneof_index: Option<usize>,
    /// Marks a proto3 scalar field with explicit presence.
    pub proto3_optional: bool,
    /// An explicit `packed` option; absent means the dialect default.
    pub packed: Option<bool>,
    /// For extension fields: the reference text of the extended message.
    pub extendee: Vec<u8>,
    pub options: Vec<OptionRecord>,
}

/// Spec mirror of [`FieldRecord`].
#[verifier::ext_equal]
pub struct FieldRecordV {
    pub name: Seq<u8>,
    pub number: i32,
    pub cardinality: Cardinality,
    pub field_type: FieldTypeV,
    pub json_name: Seq<u8>,
    pub default_literal: Option<Seq<u8>>,
    pub oneof_index: Option<usize>,
    pub proto3_optional: bool,
    pub packed: Option<bool>,
    pub extendee: Seq<u8>,
    pub options: Seq<OptionRecordV>,
}

impl FieldRecord {
    pub open spec fn dv(&self) -> FieldRecordV {
        FieldRecordV {
            name: self.name@,
            number: self.number,
            cardinality: self.cardinality,
            field_type: self.field_type.dv(),
            json_name: self.json_name@,
            default_literal: match self.default_literal {
                Some(ref t) => Some(t@),
                None => None,
            },
            oneof_index: self.oneof_index,
            proto3_optional: self.proto3_optional,
            packed: self.packed,
            extendee: self.extendee@,
            options: dv_options(self.options@),
        }
    }
}

pub open spec fn dv_fields(s: Seq<FieldRecord>) -> Seq<FieldRecordV> {
    Seq::new(s.len(), |i: int| s[i].dv())
}

/// A oneof group declaration.
#[derive(Debug)]
pub struct OneofRecord {
    pub name: Vec<u8>,
    pub options: Vec<OptionRecord>,
}

/// Spec mirror of [`OneofRecord`].
#[verifier::ext_equal]
pub struct OneofRecordV {
    pub name: Seq<u8>,
    pub options: Seq<OptionRecordV>,
}

impl OneofRecord {
    pub open spec fn dv(&self) -> OneofRecordV {
        OneofRecordV { name: self.name@, options: dv_options(self.options@) }
    }
}

/// An enum value declaration.
#[derive(Debug)]
pub struct EnumValueRecord {
    pub name: Vec<u8>,
    pub number: i32,
    pub options: Vec<OptionRecord>,
}

/// Spec mirror of [`EnumValueRecord`].
#[verifier::ext_equal]
pub struct EnumValueRecordV {
    pub name: Seq<u8>,
    pub number: i32,
    pub options: Seq<OptionRecordV>,
}

impl EnumValueRecord {
    pub open spec fn dv(&self) -> EnumValueRecordV {
        EnumValueRecordV {
            name: self.name@,
            number: self.number,
            options: dv_options(self.options@),
        }
    }
}

/// An enum declaration.
#[derive(Debug)]
pub struct EnumRecord {
    pub name: Vec<u8>,
    pub values: Vec<EnumValueRecord>,
    pub reserved_ranges: Vec<NumberRange>,
    pub reserved_names: Vec<Vec<u8>>,
    /// The `allow_alias` option: permits two values to share a number.
    pub allow_alias: bool,
    pub options: Vec<OptionRecord>,
}

/// Spec mirror of [`EnumRecord`].
#[verifier::ext_equal]
pub struct EnumRecordV {
    pub name: Seq<u8>,
    pub values: Seq<EnumValueRecordV>,
    pub reserved_ranges: Seq<NumberRange>,
    pub reserved_names: Seq<Seq<u8>>,
    pub allow_alias: bool,
    pub options: Seq<OptionRecordV>,
}

impl EnumRecord {
    pub open spec fn dv(&self) -> EnumRecordV {
        EnumRecordV {
            name: self.name@,
            values: Seq::new(self.values@.len(), |i: int| self.values@[i].dv()),
            reserved_ranges: self.reserved_ranges@,
            reserved_names: Seq::new(
                self.reserved_names@.len(),
                |i: int| self.reserved_names@[i]@,
            ),
            allow_alias: self.allow_alias,
            options: dv_options(self.options@),
        }
    }
}

pub open spec fn dv_enums(s: Seq<EnumRecord>) -> Seq<EnumRecordV> {
    Seq::new(s.len(), |i: int| s[i].dv())
}

/// A message declaration, possibly holding nested declarations.
#[derive(Debug)]
pub struct MessageRecord {
    pub name: Vec<u8>,
    pub fields: Vec<FieldRecord>,
    pub oneofs: Vec<OneofRecord>,
    pub messages: Vec<MessageRecord>,
    pub enums: Vec<EnumRecord>,
    pub extensions: Vec<FieldRecord>,
    pub extension_ranges: Vec<NumberRange>,
    pub reserved_ranges: Vec<NumberRange>,
    pub reserved_names: Vec<Vec<u8>>,
    /// Marks a map entry type. The pool's own synthesized entries carry
    /// the mark; an input record may carry it too, and is taken as
    /// declared.
    pub map_entry: bool,
    pub options: Vec<OptionRecord>,
}

/// Spec mirror of [`MessageRecord`].
#[verifier::ext_equal]
pub struct MessageRecordV {
    pub name: Seq<u8>,
    pub fields: Seq<FieldRecordV>,
    pub oneofs: Seq<OneofRecordV>,
    pub messages: Seq<MessageRecordV>,
    pub enums: Seq<EnumRecordV>,
    pub extensions: Seq<FieldRecordV>,
    pub extension_ranges: Seq<NumberRange>,
    pub reserved_ranges: Seq<NumberRange>,
    pub reserved_names: Seq<Seq<u8>>,
    pub map_entry: bool,
    pub options: Seq<OptionRecordV>,
}

impl MessageRecord {
    pub open spec fn dv(&self) -> MessageRecordV
        decreases self,
    {
        MessageRecordV {
            name: self.name@,
            fields: dv_fields(self.fields@),
            oneofs: Seq::new(self.oneofs@.len(), |i: int| self.oneofs@[i].dv()),
            messages: dv_messages(self.messages@),
            enums: dv_enums(self.enums@),
            extensions: dv_fields(self.extensions@),
            extension_ranges: self.extension_ranges@,
            reserved_ranges: self.reserved_ranges@,
            reserved_names: Seq::new(
                self.reserved_names@.len(),
                |i: int| self.reserved_names@[i]@,
            ),
            map_entry: self.map_entry,
            options: dv_options(self.options@),
        }
    }
}

pub open spec fn dv_messages(s: Seq<MessageRecord>) -> Seq<MessageRecordV>
    decreases s,
{
    if s.len() == 0 {
        Seq::empty()
    } else {
        dv_messages(s.drop_last()).push(s.last().dv())
    }
}

pub broadcast proof fn lemma_dv_messages(s: Seq<MessageRecord>)
    ensures
        (#[trigger] dv_messages(s)).len() == s.len(),
        forall|i: int| 0 <= i < s.len() ==> dv_messages(s)[i] == s[i].dv(),
    decreases s.len(),
{
    if s.len() > 0 {
        lemma_dv_messages(s.drop_last());
    }
}

/// A method declaration within a service.
#[derive(Debug)]
pub struct MethodRecord {
    pub name: Vec<u8>,
    pub input_type: Vec<u8>,
    pub output_type: Vec<u8>,
    pub client_streaming: bool,
    pub server_streaming: bool,
    pub options: Vec<OptionRecord>,
}

/// Spec mirror of [`MethodRecord`].
#[verifier::ext_equal]
pub struct MethodRecordV {
    pub name: Seq<u8>,
    pub input_type: Seq<u8>,
    pub output_type: Seq<u8>,
    pub client_streaming: bool,
    pub server_streaming: bool,
    pub options: Seq<OptionRecordV>,
}

impl MethodRecord {
    pub open spec fn dv(&self) -> MethodRecordV {
        MethodRecordV {
            name: self.name@,
            input_type: self.input_type@,
            output_type: self.output_type@,
            client_streaming: self.client_streaming,
            server_streaming: self.server_streaming,
            options: dv_options(self.options@),
        }
    }
}

/// A service declaration.
#[derive(Debug)]
pub struct ServiceRecord {
    pub name: Vec<u8>,
    pub methods: Vec<MethodRecord>,
    pub options: Vec<OptionRecord>,
}

/// Spec mirror of [`ServiceRecord`].
#[verifier::ext_equal]
pub struct ServiceRecordV {
    pub name: Seq<u8>,
    pub methods: Seq<MethodRecordV>,
    pub options: Seq<OptionRecordV>,
}

impl ServiceRecord {
    pub open spec fn dv(&self) -> ServiceRecordV {
        ServiceRecordV {
            name: self.name@,
            methods: Seq::new(self.methods@.len(), |i: int| self.methods@[i].dv()),
            options: dv_options(self.options@),
        }
    }
}

/// One compiled unit of schema: a named file with its declarations.
#[derive(Debug)]
pub struct FileRecord {
    pub name: Vec<u8>,
    /// The dotted package name; empty for the root package.
    pub package: Vec<u8>,
    /// File names of the imports, which must be present in the same batch
    /// or in the pool being extended.
    pub dependencies: Vec<Vec<u8>>,
    pub syntax: Syntax,
    pub messages: Vec<MessageRecord>,
    pub enums: Vec<EnumRecord>,
    pub services: Vec<ServiceRecord>,
    pub extensions: Vec<FieldRecord>,
    pub options: Vec<OptionRecord>,
}

/// Spec mirror of [`FileRecord`].
#[verifier::ext_equal]
pub struct FileRecordV {
    pub name: Seq<u8>,
    pub package: Seq<u8>,
    pub dependencies: Seq<Seq<u8>>,
    pub syntax: Syntax,
    pub messages: Seq<MessageRecordV>,
    pub enums: Seq<EnumRecordV>,
    pub services: Seq<ServiceRecordV>,
    pub extensions: Seq<FieldRecordV>,
    pub options: Seq<OptionRecordV>,
}

impl FileRecord {
    pub open spec fn dv(&self) -> FileRecordV {
        FileRecordV {
            name: self.name@,
            package: self.package@,
            dependencies: Seq::new(self.dependencies@.len(), |i: int| self.dependencies@[i]@),
            syntax: self.syntax,
            messages: dv_messages(self.messages@),
            enums: dv_enums(self.enums@),
            services: Seq::new(self.services@.len(), |i: int| self.services@[i].dv()),
            extensions: dv_fields(self.extensions@),
            options: dv_options(self.options@),
        }
    }
}

pub open spec fn dv_files(s: Seq<FileRecord>) -> Seq<FileRecordV> {
    Seq::new(s.len(), |i: int| s[i].dv())
}

} // verus!
