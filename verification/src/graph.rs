//! The type graph store: the arena of resolved message and enum data that
//! a successful construction produces. Every cross-reference is a dense
//! integer type id into the arena — never a name or a pointer — so the
//! graph has no cycles of ownership and ids stay stable for the pool's
//! life.

use vstd::prelude::*;

use crate::bytes::clone_bytes;
use crate::collect::{Decl, DeclKind, DeclV, EnumPayloadV, MessagePayload,
    MessagePayloadV};
use crate::condition::{Condition, ConditionV, NumberSpan, NumberSpanV};
use crate::defaults::{
    parse_enum_default, parse_scalar_default, spec_parse_enum_default, spec_parse_scalar_default,
    DefaultValue, DefaultValueV,
};
use crate::name::{camel_name, spec_camel, spec_join};
use crate::ranges::{check_numbers, dv_items, spec_number_conds, ContainerKind, NumberItem,
    NumberItemV};
use crate::record::{FieldRecordV, FieldTypeV, NumberRange};
use crate::resolve::{resolve_reference, spec_resolve, TypeBody, TypeBodyV, TypeDecl, TypeDeclV};
use crate::scalar::{Cardinality, ScalarKind, Syntax};

verus! {

/// The resolved type of a field: a scalar, or a type id of a message or
/// enum in the arena.
#[derive(Clone, Copy, Debug, PartialEq, Eq, Structural)]
pub enum FieldKind {
    Scalar(ScalarKind),
    Message(usize),
    Enum(usize),
}

/// Resolved field metadata.
#[derive(Debug)]
pub struct FieldData {
    pub number: u32,
    pub name: Vec<u8>,
    pub json_name: Vec<u8>,
    pub cardinality: Cardinality,
    pub is_group: bool,
    pub is_packed: bool,
    pub kind: FieldKind,
    pub default_value: Option<DefaultValue>,
    /// Index of the owning oneof, if any.
    pub oneof: Option<usize>,
    pub supports_presence: bool,
}

/// Spec mirror of [`FieldData`].
#[verifier::ext_equal]
pub struct FieldDataV {
    pub number: u32,
    pub name: Seq<u8>,
    pub json_name: Seq<u8>,
    pub cardinality: Cardinality,
    pub is_group: bool,
    pub is_packed: bool,
    pub kind: FieldKind,
    pub default_value: Option<DefaultValueV>,
    pub oneof: Option<usize>,
    pub supports_presence: bool,
}

impl FieldData {
    pub open spec fn dv(&self) -> FieldDataV {
        FieldDataV {
            number: self.number,
            name: self.name@,
            json_name: self.json_name@,
            cardinality: self.cardinality,
            is_group: self.is_group,
            is_packed: self.is_packed,
            kind: self.kind,
            default_value: match &self.default_value {
                Some(d) => Some(d.dv()),
                None => None,
            },
            oneof: self.oneof,
            supports_presence: self.supports_presence,
        }
    }
}

pub open spec fn dv_field_datas(s: Seq<FieldData>) -> Seq<FieldDataV> {
    Seq::new(s.len(), |i: int| s[i].dv())
}

impl Clone for FieldData {
    fn clone(&self) -> (r: Self)
        ensures
            r.dv() == self.dv(),
    {
        let r = FieldData {
            number: self.number,
            name: clone_bytes(&self.name),
            json_name: clone_bytes(&self.json_name),
            cardinality: self.cardinality,
            is_group: self.is_group,
            is_packed: self.is_packed,
            kind: self.kind,
            default_value: match &self.default_value {
                Some(d) => Some(d.clone()),
                None => None,
            },
            oneof: self.oneof,
            supports_presence: self.supports_presence,
        };
        proof {
            assert(r.dv() =~= self.dv());
        }
        r
    }
}

/// A oneof group of a message.
#[derive(Debug)]
pub struct OneofData {
    pub name: Vec<u8>,
}

/// Spec mirror of [`OneofData`].
#[verifier::ext_equal]
pub struct OneofDataV {
    pub name: Seq<u8>,
}

impl OneofData {
    pub open spec fn dv(&self) -> OneofDataV {
        OneofDataV { name: self.name@ }
    }
}

/// Resolved message data.
#[derive(Debug)]
pub struct MessageData {
    pub full_name: Vec<u8>,
    /// Fields ordered by number.
    pub fields: Vec<FieldData>,
    pub oneofs: Vec<OneofData>,
    pub reserved_ranges: Vec<NumberRange>,
    pub extension_ranges: Vec<NumberRange>,
    pub reserved_names: Vec<Vec<u8>>,
    pub map_entry: bool,
}

/// Spec mirror of [`MessageData`].
#[verifier::ext_equal]
pub struct MessageDataV {
    pub full_name: Seq<u8>,
    pub fields: Seq<FieldDataV>,
    pub oneofs: Seq<OneofDataV>,
    pub reserved_ranges: Seq<NumberRange>,
    pub extension_ranges: Seq<NumberRange>,
    pub reserved_names: Seq<Seq<u8>>,
    pub map_entry: bool,
}

impl MessageData {
    pub open spec fn dv(&self) -> MessageDataV {
        MessageDataV {
            full_name: self.full_name@,
            fields: dv_field_datas(self.fields@),
            oneofs: Seq::new(self.oneofs@.len(), |i: int| self.oneofs@[i].dv()),
            reserved_ranges: self.reserved_ranges@,
            extension_ranges: self.extension_ranges@,
            reserved_names: Seq::new(
                self.reserved_names@.len(),
                |i: int| self.reserved_names@[i]@,
            ),
            map_entry: self.map_entry,
        }
    }
}

/// One declared value of an enum.
#[derive(Debug)]
pub struct EnumValueData {
    pub name: Vec<u8>,
    pub number: i32,
}

/// Spec mirror of [`EnumValueData`].
#[verifier::ext_equal]
pub struct EnumValueDataV {
    pub name: Seq<u8>,
    pub number: i32,
}

impl EnumValueData {
    pub open spec fn dv(&self) -> EnumValueDataV {
        EnumValueDataV { name: self.name@, number: self.number }
    }
}

/// Resolved enum data.
#[derive(Debug)]
pub struct EnumData {
    pub full_name: Vec<u8>,
    pub values: Vec<EnumValueData>,
    pub reserved_ranges: Vec<NumberRange>,
    pub reserved_names: Vec<Vec<u8>>,
    pub allow_alias: bool,
}

/// Spec mirror of [`EnumData`].
#[verifier::ext_equal]
pub struct EnumDataV {
    pub full_name: Seq<u8>,
    pub values: Seq<EnumValueDataV>,
    pub reserved_ranges: Seq<NumberRange>,
    pub reserved_names: Seq<Seq<u8>>,
    pub allow_alias: bool,
}

impl EnumData {
    pub open spec fn dv(&self) -> EnumDataV {
        EnumDataV {
            full_name: self.full_name@,
            values: Seq::new(self.values@.len(), |i: int| self.values@[i].dv()),
            reserved_ranges: self.reserved_ranges@,
            reserved_names: Seq::new(
                self.reserved_names@.len(),
                |i: int| self.reserved_names@[i]@,
            ),
            allow_alias: self.allow_alias,
        }
    }
}

/// One arena entry.
#[derive(Debug)]
pub enum TypeData {
    Message(MessageData),
    Enum(EnumData),
}

/// Spec mirror of [`TypeData`].
#[verifier::ext_equal]
pub enum TypeDataV {
    Message(MessageDataV),
    Enum(EnumDataV),
}

impl TypeData {
    pub open spec fn dv(&self) -> TypeDataV {
        match self {
            TypeData::Message(m) => TypeDataV::Message(m.dv()),
            TypeData::Enum(e) => TypeDataV::Enum(e.dv()),
        }
    }
}

pub open spec fn dv_type_datas(s: Seq<TypeData>) -> Seq<TypeDataV> {
    Seq::new(s.len(), |i: int| s[i].dv())
}

/// A resolved service method.
#[derive(Debug)]
pub struct MethodData {
    pub name: Vec<u8>,
    /// Type id of the input message.
    pub input: usize,
    /// Type id of the output message.
    pub output: usize,
    pub client_streaming: bool,
    pub server_streaming: bool,
}

/// Spec mirror of [`MethodData`].
#[verifier::ext_equal]
pub struct MethodDataV {
    pub name: Seq<u8>,
    pub input: usize,
    pub output: usize,
    pub client_streaming: bool,
    pub server_streaming: bool,
}

impl MethodData {
    pub open spec fn dv(&self) -> MethodDataV {
        MethodDataV {
            name: self.name@,
            input: self.input,
            output: self.output,
            client_streaming: self.client_streaming,
            server_streaming: self.server_streaming,
        }
    }
}

/// Resolved service data.
#[derive(Debug)]
pub struct ServiceData {
    pub full_name: Vec<u8>,
    pub methods: Vec<MethodData>,
}

/// Spec mirror of [`ServiceData`].
#[verifier::ext_equal]
pub struct ServiceDataV {
    pub full_name: Seq<u8>,
    pub methods: Seq<MethodDataV>,
}

impl ServiceData {
    pub open spec fn dv(&self) -> ServiceDataV {
        ServiceDataV {
            full_name: self.full_name@,
            methods: Seq::new(self.methods@.len(), |i: int| self.methods@[i].dv()),
        }
    }
}

pub open spec fn dv_service_datas(s: Seq<ServiceData>) -> Seq<ServiceDataV> {
    Seq::new(s.len(), |i: int| s[i].dv())
}

/// An extension field registered against its target message.
#[derive(Debug)]
pub struct ExtensionData {
    /// The extension's own fully-qualified name.
    pub full_name: Vec<u8>,
    /// Type id of the extended message.
    pub target: usize,
    pub field: FieldData,
}

/// Spec mirror of [`ExtensionData`].
#[verifier::ext_equal]
pub struct ExtensionDataV {
    pub full_name: Seq<u8>,
    pub target: usize,
    pub field: FieldDataV,
}

impl ExtensionData {
    pub open spec fn dv(&self) -> ExtensionDataV {
        ExtensionDataV { full_name: self.full_name@, target: self.target, field: self.field.dv() }
    }
}

pub open spec fn dv_extension_datas(s: Seq<ExtensionData>) -> Seq<ExtensionDataV> {
    Seq::new(s.len(), |i: int| s[i].dv())
}

/// The resolution of one field type reference: the resolved kind, the
/// group flag, and the condition a failed lookup raises. An unresolved
/// reference leaves a scalar placeholder behind; it is never observable,
/// because a failed construction returns no graph.
pub open spec fn spec_resolve_field_kind(
    types: Seq<TypeDeclV>,
    scope: Seq<u8>,
    f: FieldRecordV,
) -> (FieldKind, bool, Option<ConditionV>) {
    match f.field_type {
        FieldTypeV::Scalar(k) => (FieldKind::Scalar(k), false, None),
        FieldTypeV::Named(r) => match spec_resolve(types, scope, r) {
            Some(t) => (
                match types[t].body {
                    TypeBodyV::Message(_) => FieldKind::Message(t as usize),
                    TypeBodyV::Enum(_) => FieldKind::Enum(t as usize),
                },
                false,
                None,
            ),
            None => (
                FieldKind::Scalar(ScalarKind::Int32),
                false,
                Some(ConditionV::TypeNameNotFound { name: r }),
            ),
        },
        FieldTypeV::Group(r) => match spec_resolve(types, scope, r) {
            Some(t) => match types[t].body {
                TypeBodyV::Message(_) => (FieldKind::Message(t as usize), true, None),
                TypeBodyV::Enum(_) => (
                    FieldKind::Scalar(ScalarKind::Int32),
                    true,
                    Some(ConditionV::TypeNameNotFound { name: r }),
                ),
            },
            None => (
                FieldKind::Scalar(ScalarKind::Int32),
                true,
                Some(ConditionV::TypeNameNotFound { name: r }),
            ),
        },
        FieldTypeV::MapSugar { key, value } => match spec_resolve(
            types,
            scope,
            crate::name::spec_entry_name(f.name),
        ) {
            Some(t) => (
                match types[t].body {
                    TypeBodyV::Message(_) => FieldKind::Message(t as usize),
                    TypeBodyV::Enum(_) => FieldKind::Enum(t as usize),
                },
                false,
                None,
            ),
            None => (
                FieldKind::Scalar(ScalarKind::Int32),
                false,
                Some(ConditionV::TypeNameNotFound { name: crate::name::spec_entry_name(f.name) }),
            ),
        },
    }
}

/// Resolves one field's type reference.
pub fn resolve_field_kind(types: &Vec<TypeDecl>, scope: &Vec<u8>, f: &crate::record::FieldRecord)
    -> (r: (FieldKind, bool, Option<Condition>))
    ensures
        ({
            let (kind, is_group, cond) = spec_resolve_field_kind(
                crate::resolve::dv_types(types@),
                scope@,
                f.dv(),
            );
            &&& r.0 == kind
            &&& r.1 == is_group
            &&& match (r.2, cond) {
                (Some(c), Some(cv)) => c.dv() == cv,
                (None, None) => true,
                _ => false,
            }
            &&& (r.0 matches FieldKind::Message(t) ==> (t as int) < types@.len())
            &&& (r.0 matches FieldKind::Enum(t) ==> (t as int) < types@.len())
        }),
{
    match &f.field_type {
        crate::record::FieldTypeRecord::Scalar(k) => (FieldKind::Scalar(*k), false, None),
        crate::record::FieldTypeRecord::Named(rf) => match resolve_reference(types, scope, rf) {
            Some(t) => {
                let kind = match &types[t].body {
                    TypeBody::Message(_) => FieldKind::Message(t),
                    TypeBody::Enum(_) => FieldKind::Enum(t),
                };
                proof {
                    assert(crate::resolve::dv_types(types@)[t as int].body
                        == types@[t as int].dv().body);
                }
                (kind, false, None)
            },
            None => (
                FieldKind::Scalar(ScalarKind::Int32),
                false,
                Some(Condition::TypeNameNotFound { name: clone_bytes(rf) }),
            ),
        },
        crate::record::FieldTypeRecord::Group(rf) => match resolve_reference(types, scope, rf) {
            Some(t) => {
                proof {
                    assert(crate::resolve::dv_types(types@)[t as int].body
                        == types@[t as int].dv().body);
                }
                match &types[t].body {
                    TypeBody::Message(_) => (FieldKind::Message(t), true, None),
                    TypeBody::Enum(_) => (
                        FieldKind::Scalar(ScalarKind::Int32),
                        true,
                        Some(Condition::TypeNameNotFound { name: clone_bytes(rf) }),
                    ),
                }
            },
            None => (
                FieldKind::Scalar(ScalarKind::Int32),
                true,
                Some(Condition::TypeNameNotFound { name: clone_bytes(rf) }),
            ),
        },
        crate::record::FieldTypeRecord::MapSugar { key, value } => {
            let entry = crate::name::entry_name(&f.name);
            match resolve_reference(types, scope, &entry) {
                Some(t) => {
                    let kind = match &types[t].body {
                        TypeBody::Message(_) => FieldKind::Message(t),
                        TypeBody::Enum(_) => FieldKind::Enum(t),
                    };
                    proof {
                        assert(crate::resolve::dv_types(types@)[t as int].body
                            == types@[t as int].dv().body);
                    }
                    (kind, false, None)
                },
                None => (
                    FieldKind::Scalar(ScalarKind::Int32),
                    false,
                    Some(Condition::TypeNameNotFound { name: entry }),
                ),
            }
        },
    }
}

/// The scoped-resolution law carried to field resolution: a field whose
/// type reference is rooted (leading dot) resolves to the same kind from
/// every referencing scope, since construction routes every reference
/// through scoped resolution and a rooted reference never searches
/// outward.
pub proof fn lemma_absolute_field_kind_scope_independent(
    types: Seq<TypeDeclV>,
    scope_a: Seq<u8>,
    scope_b: Seq<u8>,
    f: FieldRecordV,
)
    requires
        ({
            ||| (f.field_type matches FieldTypeV::Named(r) && crate::name::spec_is_absolute(r))
            ||| (f.field_type matches FieldTypeV::Group(r) && crate::name::spec_is_absolute(r))
        }),
    ensures
        spec_resolve_field_kind(types, scope_a, f) == spec_resolve_field_kind(types, scope_b, f),
{
    match f.field_type {
        FieldTypeV::Named(r) => {
            crate::resolve::lemma_absolute_resolution_scope_independent(types, scope_a, scope_b, r);
        },
        FieldTypeV::Group(r) => {
            crate::resolve::lemma_absolute_resolution_scope_independent(types, scope_a, scope_b, r);
        },
        _ => {
        },
    }
}

/// Whether a repeated field of this resolved kind may use the packed
/// encoding: every numeric, bool or enum kind; never strings, bytes,
/// messages or groups.
pub open spec fn spec_kind_packable(kind: FieldKind) -> bool {
    match kind {
        FieldKind::Scalar(k) => k.spec_is_packable(),
        FieldKind::Enum(_) => true,
        FieldKind::Message(_) => false,
    }
}

fn kind_packable(kind: &FieldKind) -> (r: bool)
    ensures
        r == spec_kind_packable(*kind),
{
    match kind {
        FieldKind::Scalar(k) => k.is_packable(),
        FieldKind::Enum(_) => true,
        FieldKind::Message(_) => false,
    }
}

/// The site used for conflict reports arising inside one file.
pub open spec fn spec_file_site(
    file: int,
    files: Seq<crate::record::FileRecordV>,
    base: int,
) -> crate::condition::DeclSiteV {
    crate::condition::DeclSiteV {
        file: if 0 <= file < files.len() {
            files[file].name
        } else {
            Seq::empty()
        },
        imported: file < base,
    }
}

/// Builds the report site of a declaration from its file index.
pub fn file_site(file: usize, files: &Vec<crate::record::FileRecord>, base: usize) -> (r:
    crate::condition::DeclSite)
    ensures
        r.dv() == spec_file_site(file as int, crate::record::dv_files(files@), base as int),
{
    let name = if file < files.len() {
        clone_bytes(&files[file].name)
    } else {
        Vec::new()
    };
    let r = crate::condition::DeclSite { file: name, imported: file < base };
    proof {
        assert(r.dv() =~= spec_file_site(file as int, crate::record::dv_files(files@), base as int));
    }
    r
}

/// The resolved metadata of one field, and the conditions its resolution
/// and default raise. Derived metadata is computed here: the JSON name
/// (camel-cased when not given), packed-encoding eligibility, and
/// presence semantics.
pub open spec fn spec_build_field(
    types: Seq<TypeDeclV>,
    scope: Seq<u8>,
    syntax: Syntax,
    oneof_count: int,
    f: FieldRecordV,
) -> (FieldDataV, Seq<ConditionV>) {
    let (kind, is_group, kc) = spec_resolve_field_kind(types, scope, f);
    let fq = spec_join(scope, f.name);
    let json_name = if f.json_name.len() > 0 {
        f.json_name
    } else {
        spec_camel(f.name, false)
    };
    let packable = f.cardinality is Repeated && spec_kind_packable(kind) && !is_group;
    let packed_flag = match f.packed {
        Some(b) => b,
        None => syntax is Proto3,
    };
    let oneof = match f.oneof_index {
        Some(ix) => if (ix as int) < oneof_count {
            Some(ix)
        } else {
            None
        },
        None => None,
    };
    let supports_presence = !(f.cardinality is Repeated) && ((kind is Message) || is_group
        || oneof is Some || syntax is Proto2 || f.proto3_optional);
    let dc: (Option<DefaultValueV>, Seq<ConditionV>) = match f.default_literal {
        None => (None, Seq::empty()),
        Some(lit) => {
            if kc is Some {
                (None, Seq::empty())
            } else if is_group || kind is Message {
                (None, seq![ConditionV::InvalidDefault { field: fq }])
            } else {
                match kind {
                    FieldKind::Enum(t) => {
                        if 0 <= t < types.len() && types[t as int].body is Enum {
                            match spec_parse_enum_default(
                                fq,
                                lit,
                                types[t as int].body->Enum_0.values,
                            ) {
                                Ok(v) => (Some(v), Seq::empty()),
                                Err(c) => (None, seq![c]),
                            }
                        } else {
                            (None, Seq::empty())
                        }
                    },
                    FieldKind::Scalar(k) => match spec_parse_scalar_default(fq, lit, k) {
                        Ok(v) => (Some(v), Seq::empty()),
                        Err(c) => (None, seq![c]),
                    },
                    FieldKind::Message(_) => (None, Seq::empty()),
                }
            }
        },
    };
    let data = FieldDataV {
        number: if 0 <= f.number {
            f.number as u32
        } else {
            0
        },
        name: f.name,
        json_name,
        cardinality: f.cardinality,
        is_group,
        is_packed: packable && packed_flag,
        kind,
        default_value: dc.0,
        oneof,
        supports_presence,
    };
    let kcs: Seq<ConditionV> = match kc {
        Some(c) => seq![c],
        None => Seq::empty(),
    };
    (data, kcs + dc.1)
}

/// Builds one field's resolved metadata.
pub fn build_field(
    types: &Vec<TypeDecl>,
    scope: &Vec<u8>,
    syntax: Syntax,
    oneof_count: usize,
    f: &crate::record::FieldRecord,
) -> (r: (FieldData, Vec<Condition>))
    ensures
        ({
            let (data, conds) = spec_build_field(
                crate::resolve::dv_types(types@),
                scope@,
                syntax,
                oneof_count as int,
                f.dv(),
            );
            &&& r.0.dv() == data
            &&& crate::condition::dv_conditions(r.1@) == conds
        }),
{
    let ghost stypes = crate::resolve::dv_types(types@);
    let (kind, is_group, kc) = resolve_field_kind(types, scope, f);
    let fq = crate::name::join_name(scope, &f.name);
    let json_name = if f.json_name.len() > 0 {
        clone_bytes(&f.json_name)
    } else {
        camel_name(&f.name, false)
    };
    let packable = matches!(f.cardinality, Cardinality::Repeated) && kind_packable(&kind)
        && !is_group;
    let packed_flag = match f.packed {
        Some(b) => b,
        None => matches!(syntax, Syntax::Proto3),
    };
    let oneof = match f.oneof_index {
        Some(ix) => if ix < oneof_count {
            Some(ix)
        } else {
            None
        },
        None => None,
    };
    let supports_presence = !matches!(f.cardinality, Cardinality::Repeated) && (matches!(
        kind,
        FieldKind::Message(_),
    ) || is_group || oneof.is_some() || matches!(syntax, Syntax::Proto2) || f.proto3_optional);
    let mut default_value: Option<DefaultValue> = None;
    let mut conds: Vec<Condition> = Vec::new();
    match &kc {
        Some(c) => {
            conds.push(c.clone());
        },
        None => {
        },
    }
    let ghost kcs: Seq<ConditionV> = match spec_resolve_field_kind(stypes, scope@, f.dv()).2 {
        Some(c) => seq![c],
        None => Seq::empty(),
    };
    proof {
        assert(crate::condition::dv_conditions(conds@) =~= kcs);
    }
    match &f.default_literal {
        None => {
        },
        Some(lit) => {
            if kc.is_some() {
            } else if is_group || matches!(kind, FieldKind::Message(_)) {
                conds.push(Condition::InvalidDefault { field: clone_bytes(&fq) });
                proof {
                    assert(crate::condition::dv_conditions(conds@) =~= kcs + seq![
                        ConditionV::InvalidDefault { field: fq@ },
                    ]);
                }
            } else {
                match kind {
                    FieldKind::Enum(t) => {
                        if t < types.len() {
                            match &types[t].body {
                                TypeBody::Enum(p) => {
                                    proof {
                                        assert(stypes[t as int].body == types@[t as int].dv().body);
                                    }
                                    match parse_enum_default(&fq, lit, &p.values) {
                                        Ok(v) => {
                                            default_value = Some(v);
                                        },
                                        Err(c) => {
                                            let ghost cv = c.dv();
                                            conds.push(c);
                                            proof {
                                                assert(crate::condition::dv_conditions(conds@)
                                                    =~= kcs + seq![cv]);
                                            }
                                        },
                                    }
                                },
                                TypeBody::Message(_) => {
                                    proof {
                                        assert(stypes[t as int].body == types@[t as int].dv().body);
                                    }
                                },
                            }
                        }
                    },
                    FieldKind::Scalar(k) => {
                        match parse_scalar_default(&fq, lit, k) {
                            Ok(v) => {
                                default_value = Some(v);
                            },
                            Err(c) => {
                                let ghost cv = c.dv();
                                conds.push(c);
                                proof {
                                    assert(crate::condition::dv_conditions(conds@) =~= kcs
                                        + seq![cv]);
                                }
                            },
                        }
                    },
                    FieldKind::Message(_) => {
                    },
                }
            }
        },
    }
    let number: u32 = if f.number >= 0 {
        f.number as u32
    } else {
        0
    };
    let data = FieldData {
        number,
        name: clone_bytes(&f.name),
        json_name,
        cardinality: f.cardinality,
        is_group,
        is_packed: packable && packed_flag,
        kind,
        default_value,
        oneof,
        supports_presence,
    };
    proof {
        let (sdata, sconds) = spec_build_field(stypes, scope@, syntax, oneof_count as int, f.dv());
        assert(data.dv() =~= sdata);
        assert(crate::condition::dv_conditions(conds@) =~= sconds);
    }
    (data, conds)
}

/// The fields' resolved metadata, in declaration order.
pub open spec fn spec_field_datas(
    types: Seq<TypeDeclV>,
    scope: Seq<u8>,
    syntax: Syntax,
    oneof_count: int,
    fields: Seq<FieldRecordV>,
) -> Seq<FieldDataV> {
    Seq::new(
        fields.len(),
        |i: int| spec_build_field(types, scope, syntax, oneof_count, fields[i]).0,
    )
}

/// The conditions the fields raise, in declaration order.
pub open spec fn spec_field_conds(
    types: Seq<TypeDeclV>,
    scope: Seq<u8>,
    syntax: Syntax,
    oneof_count: int,
    fields: Seq<FieldRecordV>,
    n: int,
) -> Seq<ConditionV>
    decreases n,
{
    if n <= 0 {
        Seq::empty()
    } else {
        spec_field_conds(types, scope, syntax, oneof_count, fields, n - 1) + spec_build_field(
            types,
            scope,
            syntax,
            oneof_count,
            fields[n - 1],
        ).1
    }
}

/// Stable insertion of a field into a number-ordered list.
pub open spec fn spec_insert_field(x: FieldDataV, s: Seq<FieldDataV>) -> Seq<FieldDataV>
    decreases s.len(),
{
    if s.len() == 0 {
        seq![x]
    } else if s[0].number <= x.number {
        seq![s[0]] + spec_insert_field(x, s.skip(1))
    } else {
        seq![x] + s
    }
}

/// The number-ordered arrangement of a field list, equal numbers keeping
/// declaration order.
pub open spec fn spec_sort_fields(s: Seq<FieldDataV>) -> Seq<FieldDataV>
    decreases s.len(),
{
    if s.len() == 0 {
        Seq::empty()
    } else {
        spec_insert_field(s[0], spec_sort_fields(s.skip(1)))
    }
}

fn insert_field(x: FieldData, s: Vec<FieldData>) -> (r: Vec<FieldData>)
    ensures
        dv_field_datas(r@) == spec_insert_field(x.dv(), dv_field_datas(s@)),
    decreases s@.len(),
{
    let mut s = s;
    if s.len() == 0 {
        let mut r: Vec<FieldData> = Vec::new();
        r.push(x);
        proof {
            assert(dv_field_datas(r@) =~= seq![x.dv()]);
        }
        return r;
    }
    proof {
        assert(dv_field_datas(s@)[0] == s@[0].dv());
    }
    if s[0].number <= x.number {
        let ghost s0 = dv_field_datas(s@);
        let head = s.remove(0);
        proof {
            assert(dv_field_datas(s@) =~= s0.skip(1));
        }
        let rest = insert_field(x, s);
        let mut r: Vec<FieldData> = Vec::new();
        let ghost headv = head.dv();
        r.push(head);
        let mut i: usize = 0;
        while i < rest.len()
            invariant
                i <= rest.len(),
                r@.len() == i + 1,
                r@[0].dv() == headv,
                forall|j: int| 0 <= j < i ==> r@[j + 1].dv() == rest@[j].dv(),
            decreases rest.len() - i,
        {
            let e = rest[i].clone();
            r.push(e);
            i += 1;
        }
        proof {
            assert(dv_field_datas(r@) =~= seq![headv] + dv_field_datas(rest@));
        }
        r
    } else {
        let mut r: Vec<FieldData> = Vec::new();
        let ghost xv = x.dv();
        r.push(x);
        let mut i: usize = 0;
        while i < s.len()
            invariant
                i <= s.len(),
                r@.len() == i + 1,
                r@[0].dv() == xv,
                forall|j: int| 0 <= j < i ==> r@[j + 1].dv() == s@[j].dv(),
            decreases s.len() - i,
        {
            let e = s[i].clone();
            r.push(e);
            i += 1;
        }
        proof {
            assert(dv_field_datas(r@) =~= seq![xv] + dv_field_datas(s@));
        }
        r
    }
}

/// Sorts a field list by number, preserving declaration order among equal
/// numbers.
pub fn sort_fields(s: Vec<FieldData>) -> (r: Vec<FieldData>)
    ensures
        dv_field_datas(r@) == spec_sort_fields(dv_field_datas(s@)),
    decreases s@.len(),
{
    let mut s = s;
    if s.len() == 0 {
        proof {
            assert(dv_field_datas(s@) =~= Seq::<FieldDataV>::empty());
        }
        return Vec::new();
    }
    proof {
        assert(dv_field_datas(s@)[0] == s@[0].dv());
    }
    let ghost s0 = dv_field_datas(s@);
    let head = s.remove(0);
    proof {
        assert(dv_field_datas(s@) =~= s0.skip(1));
    }
    let sorted = sort_fields(s);
    insert_field(head, sorted)
}

/// The earliest field before `j` whose camel-case name collides with
/// field `j`'s.
pub open spec fn spec_find_camel_conflict(fields: Seq<FieldRecordV>, j: int, i: int) -> Option<
    int,
>
    decreases j - i,
{
    if i < 0 || i >= j {
        None
    } else if spec_camel(fields[i].name, false) == spec_camel(fields[j].name, false) {
        Some(i)
    } else {
        spec_find_camel_conflict(fields, j, i + 1)
    }
}

/// The camel-case name conflicts of a proto3 message's fields: two
/// distinct field names that share one JSON form collide.
pub open spec fn spec_camel_conds(
    fields: Seq<FieldRecordV>,
    full: Seq<u8>,
    site: crate::condition::DeclSiteV,
    n: int,
) -> Seq<ConditionV>
    decreases n,
{
    if n <= 0 {
        Seq::empty()
    } else {
        let pre = spec_camel_conds(fields, full, site, n - 1);
        match spec_find_camel_conflict(fields, n - 1, 0) {
            Some(i) => pre.push(
                ConditionV::DuplicateName {
                    name: spec_join(full, spec_camel(fields[n - 1].name, false)),
                    first: site,
                    second: site,
                },
            ),
            None => pre,
        }
    }
}

/// Reports the camel-case field-name conflicts of a proto3 message.
#[verifier::loop_isolation(false)]
pub fn check_camel_conflicts(
    fields: &Vec<crate::record::FieldRecord>,
    full: &Vec<u8>,
    site: &crate::condition::DeclSite,
) -> (r: Vec<Condition>)
    ensures
        crate::condition::dv_conditions(r@) == spec_camel_conds(
            crate::record::dv_fields(fields@),
            full@,
            site.dv(),
            fields@.len() as int,
        ),
{
    let ghost sfields = crate::record::dv_fields(fields@);
    let mut out: Vec<Condition> = Vec::new();
    let mut j: usize = 0;
    while j < fields.len()
        invariant
            j <= fields.len(),
            crate::condition::dv_conditions(out@) == spec_camel_conds(
                sfields,
                full@,
                site.dv(),
                j as int,
            ),
        decreases fields.len() - j,
    {
        let cj = camel_name(&fields[j].name, false);
        let mut found = false;
        let mut i: usize = 0;
        while i < j
            invariant
                i <= j,
                j < fields.len(),
                cj@ == spec_camel(sfields[j as int].name, false),
                if found {
                    spec_find_camel_conflict(sfields, j as int, 0) is Some
                } else {
                    spec_find_camel_conflict(sfields, j as int, i as int)
                        == spec_find_camel_conflict(sfields, j as int, 0)
                },
            decreases j - i,
        {
            if !found {
                let ci = camel_name(&fields[i].name, false);
                if crate::bytes::bytes_eq(&ci, &cj) {
                    found = true;
                    proof {
                        assert(spec_find_camel_conflict(sfields, j as int, i as int) == Some(
                            i as int,
                        ));
                    }
                } else {
                    proof {
                        assert(spec_find_camel_conflict(sfields, j as int, i as int)
                            == spec_find_camel_conflict(sfields, j as int, i + 1));
                    }
                }
            }
            i += 1;
        }
        let ghost pre = crate::condition::dv_conditions(out@);
        if found {
            let c = Condition::DuplicateName {
                name: crate::name::join_name(full, &cj),
                first: site.clone(),
                second: site.clone(),
            };
            out.push(c);
            proof {
                assert(crate::condition::dv_conditions(out@) =~= pre.push(
                    ConditionV::DuplicateName {
                        name: spec_join(full@, spec_camel(sfields[j as int].name, false)),
                        first: site.dv(),
                        second: site.dv(),
                    },
                ));
            }
        } else {
            proof {
                assert(spec_find_camel_conflict(sfields, j as int, j as int) is None);
            }
        }
        j += 1;
    }
    out
}

/// The numbered declarations of a message, in canonical order: reserved
/// ranges, then extension ranges, then fields as one-point intervals.
pub open spec fn spec_message_items(p: MessagePayloadV) -> Seq<NumberItemV> {
    Seq::new(
        p.reserved_ranges.len(),
        |i: int| NumberItemV {
            start: p.reserved_ranges[i].start,
            end: p.reserved_ranges[i].end,
            span: NumberSpanV::ReservedRange {
                start: p.reserved_ranges[i].start,
                end: p.reserved_ranges[i].end,
            },
        },
    ) + Seq::new(
        p.extension_ranges.len(),
        |i: int| NumberItemV {
            start: p.extension_ranges[i].start,
            end: p.extension_ranges[i].end,
            span: NumberSpanV::ExtensionRange {
                start: p.extension_ranges[i].start,
                end: p.extension_ranges[i].end,
            },
        },
    ) + Seq::new(
        p.fields.len(),
        |i: int| NumberItemV {
            start: p.fields[i].number,
            end: p.fields[i].number,
            span: NumberSpanV::Field { name: p.fields[i].name, number: p.fields[i].number },
        },
    )
}

/// The numbered declarations of an enum: reserved ranges, then values.
pub open spec fn spec_enum_items(p: EnumPayloadV) -> Seq<NumberItemV> {
    Seq::new(
        p.reserved_ranges.len(),
        |i: int| NumberItemV {
            start: p.reserved_ranges[i].start,
            end: p.reserved_ranges[i].end,
            span: NumberSpanV::ReservedRange {
                start: p.reserved_ranges[i].start,
                end: p.reserved_ranges[i].end,
            },
        },
    ) + Seq::new(
        p.values.len(),
        |i: int| NumberItemV {
            start: p.values[i].number,
            end: p.values[i].number,
            span: NumberSpanV::EnumValue { name: p.values[i].name, number: p.values[i].number },
        },
    )
}

#[verifier::loop_isolation(false)]
#[verifier::rlimit(30)]
fn message_items(p: &MessagePayload) -> (r: Vec<NumberItem>)
    ensures
        dv_items(r@) == spec_message_items(p.dv()),
{
    let mut items: Vec<NumberItem> = Vec::new();
    let mut i: usize = 0;
    while i < p.reserved_ranges.len()
        invariant
            i <= p.reserved_ranges.len(),
            items@.len() == i,
            forall|k: int|
                0 <= k < i ==> #[trigger] items@[k].dv() == (NumberItemV {
                    start: p.reserved_ranges@[k].start,
                    end: p.reserved_ranges@[k].end,
                    span: NumberSpanV::ReservedRange {
                        start: p.reserved_ranges@[k].start,
                        end: p.reserved_ranges@[k].end,
                },
            }),
        decreases p.reserved_ranges.len() - i,
    {
        let rr = p.reserved_ranges[i];
        items.push(
            NumberItem {
                start: rr.start,
                end: rr.end,
                span: NumberSpan::ReservedRange { start: rr.start, end: rr.end },
            },
        );
        i += 1;
    }
    let mut i: usize = 0;
    let ghost n1 = items@.len();
    while i < p.extension_ranges.len()
        invariant
            i <= p.extension_ranges.len(),
            items@.len() == n1 + i,
            forall|k: int|
                0 <= k < n1 ==> #[trigger] items@[k].dv() == (NumberItemV {
                    start: p.reserved_ranges@[k].start,
                    end: p.reserved_ranges@[k].end,
                    span: NumberSpanV::ReservedRange {
                        start: p.reserved_ranges@[k].start,
                        end: p.reserved_ranges@[k].end,
                },
            }),
            forall|k: int|
                0 <= k < i ==> #[trigger] items@[n1 + k].dv() == (NumberItemV {
                    start: p.extension_ranges@[k].start,
                    end: p.extension_ranges@[k].end,
                    span: NumberSpanV::ExtensionRange {
                        start: p.extension_ranges@[k].start,
                        end: p.extension_ranges@[k].end,
                },
            }),
        decreases p.extension_ranges.len() - i,
    {
        let rr = p.extension_ranges[i];
        items.push(
            NumberItem {
                start: rr.start,
                end: rr.end,
                span: NumberSpan::ExtensionRange { start: rr.start, end: rr.end },
            },
        );
        i += 1;
    }
    let mut i: usize = 0;
    let ghost n2 = items@.len();
    while i < p.fields.len()
        invariant
            i <= p.fields.len(),
            items@.len() == n2 + i,
            forall|k: int|
                0 <= k < n1 ==> #[trigger] items@[k].dv() == (NumberItemV {
                    start: p.reserved_ranges@[k].start,
                    end: p.reserved_ranges@[k].end,
                    span: NumberSpanV::ReservedRange {
                        start: p.reserved_ranges@[k].start,
                        end: p.reserved_ranges@[k].end,
                },
            }),
            forall|k: int|
                0 <= k < n2 - n1 ==> #[trigger] items@[n1 + k].dv() == (NumberItemV {
                    start: p.extension_ranges@[k].start,
                    end: p.extension_ranges@[k].end,
                    span: NumberSpanV::ExtensionRange {
                        start: p.extension_ranges@[k].start,
                        end: p.extension_ranges@[k].end,
                },
            }),
            forall|k: int|
                0 <= k < i ==> #[trigger] items@[n2 + k].dv() == (NumberItemV {
                    start: p.fields@[k].dv().number,
                    end: p.fields@[k].dv().number,
                    span: NumberSpanV::Field {
                        name: p.fields@[k].dv().name,
                        number: p.fields@[k].dv().number,
                },
            }),
        decreases p.fields.len() - i,
    {
        let num = p.fields[i].number;
        items.push(
            NumberItem {
                start: num,
                end: num,
                span: NumberSpan::Field { name: clone_bytes(&p.fields[i].name), number: num },
            },
        );
        i += 1;
    }
    proof {
        let s = spec_message_items(p.dv());
        let nr = p.reserved_ranges@.len() as int;
        let ne = p.extension_ranges@.len() as int;
        let nf = p.fields@.len() as int;
        assert(items@.len() == s.len());
        assert forall|k: int| 0 <= k < s.len() implies dv_items(items@)[k] == s[k] by {
            assert(dv_items(items@)[k] == items@[k].dv());
            if k < nr {
                assert(s[k] == (NumberItemV {
                    start: p.dv().reserved_ranges[k].start,
                    end: p.dv().reserved_ranges[k].end,
                    span: NumberSpanV::ReservedRange {
                        start: p.dv().reserved_ranges[k].start,
                        end: p.dv().reserved_ranges[k].end,
                    },
                }));
            } else if k < nr + ne {
                assert(items@[n1 + (k - n1)].dv() == items@[k].dv());
                assert(s[k] == (NumberItemV {
                    start: p.dv().extension_ranges[k - nr].start,
                    end: p.dv().extension_ranges[k - nr].end,
                    span: NumberSpanV::ExtensionRange {
                        start: p.dv().extension_ranges[k - nr].start,
                        end: p.dv().extension_ranges[k - nr].end,
                    },
                }));
            } else {
                assert(items@[n2 + (k - n2)].dv() == items@[k].dv());
                assert(s[k] == (NumberItemV {
                    start: p.dv().fields[k - nr - ne].number,
                    end: p.dv().fields[k - nr - ne].number,
                    span: NumberSpanV::Field {
                        name: p.dv().fields[k - nr - ne].name,
                        number: p.dv().fields[k - nr - ne].number,
                    },
                }));
            }
        }
        assert(dv_items(items@) =~= s);
    }
    items
}

#[verifier::loop_isolation(false)]
#[verifier::rlimit(30)]
fn enum_items(p: &crate::collect::EnumPayload) -> (r: Vec<NumberItem>)
    ensures
        dv_items(r@) == spec_enum_items(p.dv()),
{
    let mut items: Vec<NumberItem> = Vec::new();
    let mut i: usize = 0;
    while i < p.reserved_ranges.len()
        invariant
            i <= p.reserved_ranges.len(),
            items@.len() == i,
            forall|k: int|
                0 <= k < i ==> #[trigger] items@[k].dv() == (NumberItemV {
                    start: p.reserved_ranges@[k].start,
                    end: p.reserved_ranges@[k].end,
                    span: NumberSpanV::ReservedRange {
                        start: p.reserved_ranges@[k].start,
                        end: p.reserved_ranges@[k].end,
                },
            }),
        decreases p.reserved_ranges.len() - i,
    {
        let rr = p.reserved_ranges[i];
        items.push(
            NumberItem {
                start: rr.start,
                end: rr.end,
                span: NumberSpan::ReservedRange { start: rr.start, end: rr.end },
            },
        );
        i += 1;
    }
    let mut i: usize = 0;
    let ghost n1 = items@.len();
    while i < p.values.len()
        invariant
            i <= p.values.len(),
            items@.len() == n1 + i,
            forall|k: int|
                0 <= k < n1 ==> #[trigger] items@[k].dv() == (NumberItemV {
                    start: p.reserved_ranges@[k].start,
                    end: p.reserved_ranges@[k].end,
                    span: NumberSpanV::ReservedRange {
                        start: p.reserved_ranges@[k].start,
                        end: p.reserved_ranges@[k].end,
                },
            }),
            forall|k: int|
                0 <= k < i ==> #[trigger] items@[n1 + k].dv() == (NumberItemV {
                    start: p.values@[k].dv().number,
                    end: p.values@[k].dv().number,
                    span: NumberSpanV::EnumValue {
                        name: p.values@[k].dv().name,
                        number: p.values@[k].dv().number,
                },
            }),
        decreases p.values.len() - i,
    {
        let num = p.values[i].number;
        items.push(
            NumberItem {
                start: num,
                end: num,
                span: NumberSpan::EnumValue { name: clone_bytes(&p.values[i].name), number: num },
            },
        );
        i += 1;
    }
    proof {
        let s = spec_enum_items(p.dv());
        let nr = p.reserved_ranges@.len() as int;
        assert(items@.len() == s.len());
        assert forall|k: int| 0 <= k < s.len() implies dv_items(items@)[k] == s[k] by {
            assert(dv_items(items@)[k] == items@[k].dv());
            if k < nr {
                assert(s[k] == (NumberItemV {
                    start: p.dv().reserved_ranges[k].start,
                    end: p.dv().reserved_ranges[k].end,
                    span: NumberSpanV::ReservedRange {
                        start: p.dv().reserved_ranges[k].start,
                        end: p.dv().reserved_ranges[k].end,
                    },
                }));
            } else {
                assert(items@[n1 + (k - n1)].dv() == items@[k].dv());
                assert(s[k] == (NumberItemV {
                    start: p.dv().values[k - nr].number,
                    end: p.dv().values[k - nr].number,
                    span: NumberSpanV::EnumValue {
                        name: p.dv().values[k - nr].name,
                        number: p.dv().values[k - nr].number,
                    },
                }));
            }
        }
        assert(dv_items(items@) =~= s);
    }
    items
}

/// The resolved data of the message with type id `t`, and its conditions:
/// its fields' resolution and default problems in declaration order, the
/// camel-case conflicts of a proto3 message, then the number validation.
pub open spec fn spec_build_message(
    types: Seq<TypeDeclV>,
    files: Seq<crate::record::FileRecordV>,
    base: int,
    t: int,
) -> (MessageDataV, Seq<ConditionV>) {
    let d = types[t];
    let p = d.body->Message_0;
    let full = d.full_name;
    let datas = spec_field_datas(types, full, d.syntax, p.oneofs.len() as int, p.fields);
    let fconds = spec_field_conds(
        types,
        full,
        d.syntax,
        p.oneofs.len() as int,
        p.fields,
        p.fields.len() as int,
    );
    let cconds = if d.syntax is Proto3 {
        spec_camel_conds(p.fields, full, spec_file_site(d.file, files, base), p.fields.len() as int)
    } else {
        Seq::empty()
    };
    let nconds = spec_number_conds(spec_message_items(p), ContainerKind::Message, full);
    let data = MessageDataV {
        full_name: full,
        fields: spec_sort_fields(datas),
        oneofs: Seq::new(p.oneofs.len(), |i: int| OneofDataV { name: p.oneofs[i].name }),
        reserved_ranges: p.reserved_ranges,
        extension_ranges: p.extension_ranges,
        reserved_names: p.reserved_names,
        map_entry: p.map_entry,
    };
    (data, fconds + cconds + nconds)
}

/// Builds one message's data from the type list.
#[verifier::loop_isolation(false)]
#[verifier::rlimit(50)]
pub fn build_message(
    types: &Vec<TypeDecl>,
    files: &Vec<crate::record::FileRecord>,
    base: usize,
    t: usize,
) -> (r: (MessageData, Vec<Condition>))
    requires
        t < types@.len(),
        types@[t as int].body is Message,
    ensures
        ({
            let (data, conds) = spec_build_message(
                crate::resolve::dv_types(types@),
                crate::record::dv_files(files@),
                base as int,
                t as int,
            );
            &&& r.0.dv() == data
            &&& crate::condition::dv_conditions(r.1@) == conds
        }),
{
    let ghost stypes = crate::resolve::dv_types(types@);
    proof {
        assert(stypes[t as int] == types@[t as int].dv());
    }
    let d = &types[t];
    let full = clone_bytes(&d.full_name);
    let p = match &d.body {
        TypeBody::Message(p) => p,
        TypeBody::Enum(_) => {
            proof {
                assert(false);
            }
            vstd::pervasive::unreached()
        },
    };
    let ghost sp = stypes[t as int].body->Message_0;
    proof {
        assert(p.dv() == sp);
    }
    let oneof_count = p.oneofs.len();
    let mut datas: Vec<FieldData> = Vec::new();
    let mut conds: Vec<Condition> = Vec::new();
    let mut i: usize = 0;
    while i < p.fields.len()
        invariant
            i <= p.fields.len(),
            forall|k: int| 0 <= k < i ==> #[trigger] datas@[k].dv() == spec_build_field(
                stypes,
                full@,
                d.syntax,
                oneof_count as int,
                sp.fields[k],
            ).0,
            datas@.len() == i,
            crate::condition::dv_conditions(conds@) == spec_field_conds(
                stypes,
                full@,
                d.syntax,
                oneof_count as int,
                sp.fields,
                i as int,
            ),
        decreases p.fields.len() - i,
    {
        let (fd, fc) = build_field(types, &full, d.syntax, oneof_count, &p.fields[i]);
        let ghost pre = crate::condition::dv_conditions(conds@);
        datas.push(fd);
        let mut k: usize = 0;
        let ghost fcs = crate::condition::dv_conditions(fc@);
        while k < fc.len()
            invariant
                k <= fc.len(),
                crate::condition::dv_conditions(conds@) == pre + fcs.take(k as int),
            decreases fc.len() - k,
        {
            let c = fc[k].clone();
            let ghost mid = crate::condition::dv_conditions(conds@);
            conds.push(c);
            proof {
                assert(crate::condition::dv_conditions(conds@) =~= mid.push(fcs[k as int]));
                assert(mid.push(fcs[k as int]) =~= pre + fcs.take(k + 1));
            }
            k += 1;
        }
        proof {
            assert(fcs.take(fc@.len() as int) =~= fcs);
            assert(sp.fields[i as int] == p.fields@[i as int].dv());
        }
        i += 1;
    }
    let site = file_site(d.file, files, base);
    if matches!(d.syntax, Syntax::Proto3) {
        let cc = check_camel_conflicts(&p.fields, &full, &site);
        let ghost pre = crate::condition::dv_conditions(conds@);
        let ghost ccs = crate::condition::dv_conditions(cc@);
        let mut k: usize = 0;
        while k < cc.len()
            invariant
                k <= cc.len(),
                crate::condition::dv_conditions(conds@) == pre + ccs.take(k as int),
            decreases cc.len() - k,
        {
            let c = cc[k].clone();
            let ghost mid = crate::condition::dv_conditions(conds@);
            conds.push(c);
            proof {
                assert(crate::condition::dv_conditions(conds@) =~= mid.push(ccs[k as int]));
                assert(mid.push(ccs[k as int]) =~= pre + ccs.take(k + 1));
            }
            k += 1;
        }
        proof {
            assert(ccs.take(cc@.len() as int) =~= ccs);
            assert(crate::record::dv_fields(p.fields@) =~= sp.fields);
        }
    }
    let items = message_items(p);
    let nc = check_numbers(&items, ContainerKind::Message, &full);
    let ghost pre = crate::condition::dv_conditions(conds@);
    let ghost ncs = crate::condition::dv_conditions(nc@);
    let mut k: usize = 0;
    while k < nc.len()
        invariant
            k <= nc.len(),
            crate::condition::dv_conditions(conds@) == pre + ncs.take(k as int),
        decreases nc.len() - k,
    {
        let c = nc[k].clone();
        let ghost mid = crate::condition::dv_conditions(conds@);
        conds.push(c);
        proof {
            assert(crate::condition::dv_conditions(conds@) =~= mid.push(ncs[k as int]));
            assert(mid.push(ncs[k as int]) =~= pre + ncs.take(k + 1));
        }
        k += 1;
    }
    proof {
        assert(ncs.take(nc@.len() as int) =~= ncs);
    }
    let mut oneofs: Vec<OneofData> = Vec::new();
    let mut k: usize = 0;
    while k < p.oneofs.len()
        invariant
            k <= p.oneofs.len(),
            oneofs@.len() == k,
            forall|j: int| 0 <= j < k ==> #[trigger] oneofs@[j].dv() == (OneofDataV {
                name: sp.oneofs[j].name,
            }),
        decreases p.oneofs.len() - k,
    {
        oneofs.push(OneofData { name: clone_bytes(&p.oneofs[k].name) });
        proof {
            assert(sp.oneofs[k as int] == p.oneofs@[k as int].dv());
        }
        k += 1;
    }
    proof {
        assert(dv_field_datas(datas@) =~= spec_field_datas(
            stypes,
            full@,
            d.syntax,
            oneof_count as int,
            sp.fields,
        ));
    }
    let fields = sort_fields(datas);
    let data = MessageData {
        full_name: full,
        fields,
        oneofs,
        reserved_ranges: crate::record_clone::clone_ranges(&p.reserved_ranges),
        extension_ranges: crate::record_clone::clone_ranges(&p.extension_ranges),
        reserved_names: crate::record_clone::clone_name_list(&p.reserved_names),
        map_entry: p.map_entry,
    };
    proof {
        let (sdata, sconds) = spec_build_message(
            stypes,
            crate::record::dv_files(files@),
            base as int,
            t as int,
        );
        assert(data.dv().oneofs =~= sdata.oneofs);
        assert(data.dv().reserved_names =~= sdata.reserved_names);
        assert(data.dv() =~= sdata);
        assert(crate::condition::dv_conditions(conds@) =~= sconds);
    }
    (data, conds)
}

/// The resolved data of the enum with type id `t`, and its number
/// validation: duplicate values are permitted only under the alias
/// option, and never against reserved ranges.
pub open spec fn spec_build_enum(types: Seq<TypeDeclV>, t: int) -> (EnumDataV, Seq<ConditionV>) {
    let d = types[t];
    let p = d.body->Enum_0;
    let data = EnumDataV {
        full_name: d.full_name,
        values: Seq::new(
            p.values.len(),
            |i: int| EnumValueDataV { name: p.values[i].name, number: p.values[i].number },
        ),
        reserved_ranges: p.reserved_ranges,
        reserved_names: p.reserved_names,
        allow_alias: p.allow_alias,
    };
    let nconds = spec_number_conds(
        spec_enum_items(p),
        ContainerKind::Enum { allow_alias: p.allow_alias },
        d.full_name,
    );
    (data, nconds)
}

/// Builds one enum's data from the type list.
#[verifier::loop_isolation(false)]
pub fn build_enum(types: &Vec<TypeDecl>, t: usize) -> (r: (EnumData, Vec<Condition>))
    requires
        t < types@.len(),
        types@[t as int].body is Enum,
    ensures
        ({
            let (data, conds) = spec_build_enum(crate::resolve::dv_types(types@), t as int);
            &&& r.0.dv() == data
            &&& crate::condition::dv_conditions(r.1@) == conds
        }),
{
    let ghost stypes = crate::resolve::dv_types(types@);
    proof {
        assert(stypes[t as int] == types@[t as int].dv());
    }
    let d = &types[t];
    let full = clone_bytes(&d.full_name);
    let p = match &d.body {
        TypeBody::Enum(p) => p,
        TypeBody::Message(_) => {
            proof {
                assert(false);
            }
            vstd::pervasive::unreached()
        },
    };
    let ghost sp = stypes[t as int].body->Enum_0;
    proof {
        assert(p.dv() == sp);
    }
    let items = enum_items(p);
    let conds = check_numbers(&items, ContainerKind::Enum { allow_alias: p.allow_alias }, &full);
    let mut values: Vec<EnumValueData> = Vec::new();
    let mut k: usize = 0;
    while k < p.values.len()
        invariant
            k <= p.values.len(),
            values@.len() == k,
            forall|j: int| 0 <= j < k ==> #[trigger] values@[j].dv() == (EnumValueDataV {
                name: sp.values[j].name,
                number: sp.values[j].number,
            }),
        decreases p.values.len() - k,
    {
        values.push(
            EnumValueData { name: clone_bytes(&p.values[k].name), number: p.values[k].number },
        );
        proof {
            assert(sp.values[k as int] == p.values@[k as int].dv());
        }
        k += 1;
    }
    let data = EnumData {
        full_name: full,
        values,
        reserved_ranges: crate::record_clone::clone_ranges(&p.reserved_ranges),
        reserved_names: crate::record_clone::clone_name_list(&p.reserved_names),
        allow_alias: p.allow_alias,
    };
    proof {
        let (sdata, sconds) = spec_build_enum(stypes, t as int);
        assert(data.dv().values =~= sdata.values);
        assert(data.dv().reserved_names =~= sdata.reserved_names);
        assert(data.dv() =~= sdata);
    }
    (data, conds)
}

/// The arena and the conditions of the first `n` types, in registration
/// order.
pub open spec fn spec_build_types(
    types: Seq<TypeDeclV>,
    files: Seq<crate::record::FileRecordV>,
    base: int,
    n: int,
) -> (Seq<TypeDataV>, Seq<ConditionV>)
    decreases n,
{
    if n <= 0 {
        (Seq::empty(), Seq::empty())
    } else {
        let (datas, conds) = spec_build_types(types, files, base, n - 1);
        if types[n - 1].body is Message {
            let (d, c) = spec_build_message(types, files, base, n - 1);
            (datas.push(TypeDataV::Message(d)), conds + c)
        } else {
            let (d, c) = spec_build_enum(types, n - 1);
            (datas.push(TypeDataV::Enum(d)), conds + c)
        }
    }
}

/// Builds the whole arena.
#[verifier::loop_isolation(false)]
pub fn build_types(
    types: &Vec<TypeDecl>,
    files: &Vec<crate::record::FileRecord>,
    base: usize,
) -> (r: (Vec<TypeData>, Vec<Condition>))
    ensures
        ({
            let (datas, conds) = spec_build_types(
                crate::resolve::dv_types(types@),
                crate::record::dv_files(files@),
                base as int,
                types@.len() as int,
            );
            &&& dv_type_datas(r.0@) == datas
            &&& crate::condition::dv_conditions(r.1@) == conds
        }),
{
    let ghost stypes = crate::resolve::dv_types(types@);
    let ghost sfiles = crate::record::dv_files(files@);
    let mut datas: Vec<TypeData> = Vec::new();
    let mut conds: Vec<Condition> = Vec::new();
    let mut t: usize = 0;
    while t < types.len()
        invariant
            t <= types.len(),
            ({
                let (sd, sc) = spec_build_types(stypes, sfiles, base as int, t as int);
                dv_type_datas(datas@) == sd && crate::condition::dv_conditions(conds@) == sc
            }),
        decreases types.len() - t,
    {
        proof {
            assert(stypes[t as int] == types@[t as int].dv());
        }
        let is_message = matches!(&types[t].body, TypeBody::Message(_));
        let ghost pre_d = dv_type_datas(datas@);
        let ghost pre_c = crate::condition::dv_conditions(conds@);
        if is_message {
            let (d, c) = build_message(types, files, base, t);
            let ghost dv = d.dv();
            datas.push(TypeData::Message(d));
            proof {
                assert(dv_type_datas(datas@) =~= pre_d.push(TypeDataV::Message(dv)));
            }
            let ghost cs = crate::condition::dv_conditions(c@);
            let mut k: usize = 0;
            while k < c.len()
                invariant
                    k <= c.len(),
                    crate::condition::dv_conditions(conds@) == pre_c + cs.take(k as int),
                decreases c.len() - k,
            {
                let cc = c[k].clone();
                let ghost mid = crate::condition::dv_conditions(conds@);
                conds.push(cc);
                proof {
                    assert(crate::condition::dv_conditions(conds@) =~= mid.push(cs[k as int]));
                    assert(mid.push(cs[k as int]) =~= pre_c + cs.take(k + 1));
                }
                k += 1;
            }
            proof {
                assert(cs.take(c@.len() as int) =~= cs);
            }
        } else {
            let (d, c) = build_enum(types, t);
            let ghost dv = d.dv();
            datas.push(TypeData::Enum(d));
            proof {
                assert(dv_type_datas(datas@) =~= pre_d.push(TypeDataV::Enum(dv)));
            }
            let ghost cs = crate::condition::dv_conditions(c@);
            let mut k: usize = 0;
            while k < c.len()
                invariant
                    k <= c.len(),
                    crate::condition::dv_conditions(conds@) == pre_c + cs.take(k as int),
                decreases c.len() - k,
            {
                let cc = c[k].clone();
                let ghost mid = crate::condition::dv_conditions(conds@);
                conds.push(cc);
                proof {
                    assert(crate::condition::dv_conditions(conds@) =~= mid.push(cs[k as int]));
                    assert(mid.push(cs[k as int]) =~= pre_c + cs.take(k + 1));
                }
                k += 1;
            }
            proof {
                assert(cs.take(c@.len() as int) =~= cs);
            }
        }
        t += 1;
    }
    (datas, conds)
}

/// The service declarations of the batch, in registration order.
pub open spec fn spec_service_decls(decls: Seq<DeclV>) -> Seq<DeclV>
    decreases decls.len(),
{
    if decls.len() == 0 {
        Seq::empty()
    } else if decls.last().kind is Service {
        spec_service_decls(decls.drop_last()).push(decls.last())
    } else {
        spec_service_decls(decls.drop_last())
    }
}

/// The extension-field declarations of the batch, in registration order.
pub open spec fn spec_extension_decls_of(decls: Seq<DeclV>) -> Seq<DeclV>
    decreases decls.len(),
{
    if decls.len() == 0 {
        Seq::empty()
    } else if decls.last().kind is Extension {
        spec_extension_decls_of(decls.drop_last()).push(decls.last())
    } else {
        spec_extension_decls_of(decls.drop_last())
    }
}

/// The resolution of one method: the input or output reference must name
/// a message of the pool.
pub open spec fn spec_resolve_method_type(
    types: Seq<TypeDeclV>,
    scope: Seq<u8>,
    reference: Seq<u8>,
) -> (usize, Seq<ConditionV>) {
    match spec_resolve(types, scope, reference) {
        Some(t) => {
            if types[t].body is Message {
                (t as usize, Seq::empty())
            } else {
                (0, seq![ConditionV::TypeNameNotFound { name: reference }])
            }
        },
        None => (0, seq![ConditionV::TypeNameNotFound { name: reference }]),
    }
}

fn resolve_method_type(types: &Vec<TypeDecl>, scope: &Vec<u8>, reference: &Vec<u8>) -> (r: (
    usize,
    Vec<Condition>,
))
    ensures
        ({
            let (t, conds) = spec_resolve_method_type(
                crate::resolve::dv_types(types@),
                scope@,
                reference@,
            );
            &&& r.0 == t
            &&& crate::condition::dv_conditions(r.1@) == conds
        }),
{
    let ghost stypes = crate::resolve::dv_types(types@);
    match resolve_reference(types, scope, reference) {
        Some(t) => {
            proof {
                assert(stypes[t as int].body == types@[t as int].dv().body);
            }
            match &types[t].body {
                TypeBody::Message(_) => {
                    let conds: Vec<Condition> = Vec::new();
                    proof {
                        assert(crate::condition::dv_conditions(conds@)
                            =~= Seq::<ConditionV>::empty());
                    }
                    (t, conds)
                },
                TypeBody::Enum(_) => {
                    let mut conds: Vec<Condition> = Vec::new();
                    conds.push(Condition::TypeNameNotFound { name: clone_bytes(reference) });
                    proof {
                        assert(crate::condition::dv_conditions(conds@) =~= seq![
                            ConditionV::TypeNameNotFound { name: reference@ },
                        ]);
                    }
                    (0, conds)
                },
            }
        },
        None => {
            let mut conds: Vec<Condition> = Vec::new();
            conds.push(Condition::TypeNameNotFound { name: clone_bytes(reference) });
            proof {
                assert(crate::condition::dv_conditions(conds@) =~= seq![
                    ConditionV::TypeNameNotFound { name: reference@ },
                ]);
            }
            (0, conds)
        },
    }
}

/// The resolved data of one service declaration and the conditions of its
/// methods' input and output references, in declaration order.
pub open spec fn spec_build_service(types: Seq<TypeDeclV>, d: DeclV) -> (
    ServiceDataV,
    Seq<ConditionV>,
) {
    let p = d.kind->Service_0;
    let methods = Seq::new(
        p.methods.len(),
        |i: int| MethodDataV {
            name: p.methods[i].name,
            input: spec_resolve_method_type(types, d.scope, p.methods[i].input_type).0,
            output: spec_resolve_method_type(types, d.scope, p.methods[i].output_type).0,
            client_streaming: p.methods[i].client_streaming,
            server_streaming: p.methods[i].server_streaming,
        },
    );
    (
        ServiceDataV { full_name: d.full_name, methods },
        spec_service_conds(types, d, p.methods.len() as int),
    )
}

/// The conditions of a service's first `n` methods.
pub open spec fn spec_service_conds(types: Seq<TypeDeclV>, d: DeclV, n: int) -> Seq<ConditionV>
    decreases n,
{
    if n <= 0 {
        Seq::empty()
    } else {
        let p = d.kind->Service_0;
        spec_service_conds(types, d, n - 1) + spec_resolve_method_type(
            types,
            d.scope,
            p.methods[n - 1].input_type,
        ).1 + spec_resolve_method_type(types, d.scope, p.methods[n - 1].output_type).1
    }
}

/// Builds one service's data.
#[verifier::loop_isolation(false)]
pub fn build_service(types: &Vec<TypeDecl>, d: &Decl) -> (r: (ServiceData, Vec<Condition>))
    requires
        d.dv().kind is Service,
    ensures
        ({
            let (data, conds) = spec_build_service(crate::resolve::dv_types(types@), d.dv());
            &&& r.0.dv() == data
            &&& crate::condition::dv_conditions(r.1@) == conds
        }),
{
    let ghost stypes = crate::resolve::dv_types(types@);
    let p = match &d.kind {
        DeclKind::Service(p) => p,
        _ => {
            proof {
                assert(false);
            }
            vstd::pervasive::unreached()
        },
    };
    let ghost sp = d.dv().kind->Service_0;
    proof {
        assert(p.dv() == sp);
    }
    let mut methods: Vec<MethodData> = Vec::new();
    let mut conds: Vec<Condition> = Vec::new();
    let mut i: usize = 0;
    while i < p.methods.len()
        invariant
            i <= p.methods.len(),
            methods@.len() == i,
            forall|k: int| 0 <= k < i ==> #[trigger] methods@[k].dv() == (MethodDataV {
                name: sp.methods[k].name,
                input: spec_resolve_method_type(stypes, d.dv().scope, sp.methods[k].input_type).0,
                output: spec_resolve_method_type(stypes, d.dv().scope, sp.methods[k].output_type).0,
                client_streaming: sp.methods[k].client_streaming,
                server_streaming: sp.methods[k].server_streaming,
            }),
            crate::condition::dv_conditions(conds@) == spec_service_conds(stypes, d.dv(), i as int),
        decreases p.methods.len() - i,
    {
        let m = &p.methods[i];
        proof {
            assert(sp.methods[i as int] == p.methods@[i as int].dv());
        }
        let (input, ic) = resolve_method_type(types, &d.scope, &m.input_type);
        let (output, oc) = resolve_method_type(types, &d.scope, &m.output_type);
        methods.push(
            MethodData {
                name: clone_bytes(&m.name),
                input,
                output,
                client_streaming: m.client_streaming,
                server_streaming: m.server_streaming,
            },
        );
        let ghost pre = crate::condition::dv_conditions(conds@);
        let ghost ics = crate::condition::dv_conditions(ic@);
        let mut k: usize = 0;
        while k < ic.len()
            invariant
                k <= ic.len(),
                crate::condition::dv_conditions(conds@) == pre + ics.take(k as int),
            decreases ic.len() - k,
        {
            let c = ic[k].clone();
            let ghost mid = crate::condition::dv_conditions(conds@);
            conds.push(c);
            proof {
                assert(crate::condition::dv_conditions(conds@) =~= mid.push(ics[k as int]));
                assert(mid.push(ics[k as int]) =~= pre + ics.take(k + 1));
            }
            k += 1;
        }
        proof {
            assert(ics.take(ic@.len() as int) =~= ics);
        }
        let ghost pre2 = crate::condition::dv_conditions(conds@);
        let ghost ocs = crate::condition::dv_conditions(oc@);
        let mut k: usize = 0;
        while k < oc.len()
            invariant
                k <= oc.len(),
                crate::condition::dv_conditions(conds@) == pre2 + ocs.take(k as int),
            decreases oc.len() - k,
        {
            let c = oc[k].clone();
            let ghost mid = crate::condition::dv_conditions(conds@);
            conds.push(c);
            proof {
                assert(crate::condition::dv_conditions(conds@) =~= mid.push(ocs[k as int]));
                assert(mid.push(ocs[k as int]) =~= pre2 + ocs.take(k + 1));
            }
            k += 1;
        }
        proof {
            assert(ocs.take(oc@.len() as int) =~= ocs);
        }
        i += 1;
    }
    let data = ServiceData { full_name: clone_bytes(&d.full_name), methods };
    proof {
        let (sdata, sconds) = spec_build_service(stypes, d.dv());
        assert(data.dv().methods =~= sdata.methods);
        assert(data.dv() =~= sdata);
        assert(crate::condition::dv_conditions(conds@) =~= sconds);
    }
    (data, conds)
}

/// Whether a number lies inside one of the declared ranges, searched from
/// position `i`.
pub open spec fn spec_in_ranges(ranges: Seq<NumberRange>, n: i32, i: int) -> bool
    decreases ranges.len() - i,
{
    if i < 0 || i >= ranges.len() {
        false
    } else if ranges[i].start <= n <= ranges[i].end {
        true
    } else {
        spec_in_ranges(ranges, n, i + 1)
    }
}

#[verifier::loop_isolation(false)]
fn in_ranges(ranges: &Vec<NumberRange>, n: i32) -> (r: bool)
    ensures
        r == spec_in_ranges(ranges@, n, 0),
{
    let mut i: usize = 0;
    while i < ranges.len()
        invariant
            i <= ranges.len(),
            spec_in_ranges(ranges@, n, i as int) == spec_in_ranges(ranges@, n, 0),
        decreases ranges.len() - i,
    {
        if ranges[i].start <= n && n <= ranges[i].end {
            proof {
                assert(spec_in_ranges(ranges@, n, i as int));
            }
            return true;
        }
        i += 1;
    }
    false
}

/// The registration of one extension declaration: the extended message is
/// resolved from the declaring scope, the extension's number must fall
/// inside one of the target's declared extension ranges, and the
/// extension's own field is resolved like any other. A failed extendee
/// lookup registers nothing.
pub open spec fn spec_build_extension(
    types: Seq<TypeDeclV>,
    d: DeclV,
) -> (Option<ExtensionDataV>, Seq<ConditionV>) {
    let f = d.kind->Extension_0;
    match spec_resolve(types, d.scope, f.extendee) {
        Some(t) => {
            if types[t].body is Message {
                let ranges = types[t].body->Message_0.extension_ranges;
                let nc: Seq<ConditionV> = if spec_in_ranges(ranges, f.number, 0) {
                    Seq::empty()
                } else {
                    seq![
                        ConditionV::InvalidExtensionNumber {
                            number: f.number,
                            message_name: types[t].full_name,
                            help: crate::name::spec_extension_ranges_help(ranges),
                        },
                    ]
                };
                let (data, fc) = spec_build_field(types, d.scope, d.syntax, 0, f);
                (
                    Some(ExtensionDataV { full_name: d.full_name, target: t as usize, field: data }),
                    nc + fc,
                )
            } else {
                (None, seq![ConditionV::TypeNameNotFound { name: f.extendee }])
            }
        },
        None => (None, seq![ConditionV::TypeNameNotFound { name: f.extendee }]),
    }
}

/// Builds one extension registration.
#[verifier::loop_isolation(false)]
pub fn build_extension(types: &Vec<TypeDecl>, d: &Decl) -> (r: (
    Option<ExtensionData>,
    Vec<Condition>,
))
    requires
        d.dv().kind is Extension,
    ensures
        ({
            let (data, conds) = spec_build_extension(crate::resolve::dv_types(types@), d.dv());
            &&& match (r.0, data) {
                (Some(e), Some(ev)) => e.dv() == ev,
                (None, None) => true,
                _ => false,
            }
            &&& crate::condition::dv_conditions(r.1@) == conds
        }),
{
    let ghost stypes = crate::resolve::dv_types(types@);
    let f = match &d.kind {
        DeclKind::Extension(f) => f,
        _ => {
            proof {
                assert(false);
            }
            vstd::pervasive::unreached()
        },
    };
    proof {
        assert(f.dv() == d.dv().kind->Extension_0);
    }
    match resolve_reference(types, &d.scope, &f.extendee) {
        Some(t) => {
            proof {
                assert(stypes[t as int] == types@[t as int].dv());
            }
            match &types[t].body {
                TypeBody::Message(p) => {
                    let ghost sranges = stypes[t as int].body->Message_0.extension_ranges;
                    proof {
                        assert(p.dv().extension_ranges == sranges);
                    }
                    let mut conds: Vec<Condition> = Vec::new();
                    if !in_ranges(&p.extension_ranges, f.number) {
                        let help = crate::name::extension_ranges_help(&p.extension_ranges);
                        conds.push(
                            Condition::InvalidExtensionNumber {
                                number: f.number,
                                message_name: clone_bytes(&types[t].full_name),
                                help,
                            },
                        );
                    }
                    let ghost nc = crate::condition::dv_conditions(conds@);
                    proof {
                        let (sdata, sconds) = spec_build_extension(stypes, d.dv());
                        if spec_in_ranges(sranges, f.number, 0) {
                            assert(nc =~= Seq::<ConditionV>::empty());
                        } else {
                            assert(nc =~= seq![
                                ConditionV::InvalidExtensionNumber {
                                    number: f.dv().number,
                                    message_name: stypes[t as int].full_name,
                                    help: crate::name::spec_extension_ranges_help(sranges),
                                },
                            ]);
                        }
                    }
                    let (data, fc) = build_field(types, &d.scope, d.syntax, 0, f);
                    let ghost fcs = crate::condition::dv_conditions(fc@);
                    let mut k: usize = 0;
                    while k < fc.len()
                        invariant
                            k <= fc.len(),
                            crate::condition::dv_conditions(conds@) == nc + fcs.take(k as int),
                        decreases fc.len() - k,
                    {
                        let c = fc[k].clone();
                        let ghost mid = crate::condition::dv_conditions(conds@);
                        conds.push(c);
                        proof {
                            assert(crate::condition::dv_conditions(conds@) =~= mid.push(
                                fcs[k as int],
                            ));
                            assert(mid.push(fcs[k as int]) =~= nc + fcs.take(k + 1));
                        }
                        k += 1;
                    }
                    proof {
                        assert(fcs.take(fc@.len() as int) =~= fcs);
                        let (sdata, sconds) = spec_build_extension(stypes, d.dv());
                        assert(crate::condition::dv_conditions(conds@) =~= sconds);
                    }
                    (
                        Some(
                            ExtensionData {
                                full_name: clone_bytes(&d.full_name),
                                target: t,
                                field: data,
                            },
                        ),
                        conds,
                    )
                },
                TypeBody::Enum(_) => {
                    let mut conds: Vec<Condition> = Vec::new();
                    conds.push(Condition::TypeNameNotFound { name: clone_bytes(&f.extendee) });
                    proof {
                        assert(crate::condition::dv_conditions(conds@) =~= seq![
                            ConditionV::TypeNameNotFound { name: f.dv().extendee },
                        ]);
                    }
                    (None, conds)
                },
            }
        },
        None => {
            let mut conds: Vec<Condition> = Vec::new();
            conds.push(Condition::TypeNameNotFound { name: clone_bytes(&f.extendee) });
            proof {
                assert(crate::condition::dv_conditions(conds@) =~= seq![
                    ConditionV::TypeNameNotFound { name: f.dv().extendee },
                ]);
            }
            (None, conds)
        },
    }
}

} // verus!
