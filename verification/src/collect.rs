//! The first construction phase: one walk over the normalized batch that
//! registers every declared name — packages, messages, fields, oneofs,
//! enums, enum values (which scope to the enum's parent), services and
//! extension fields — as a flat declaration list. Nothing is resolved here;
//! the later phases work against this complete registry, so forward
//! references and file order never matter.

use vstd::prelude::*;

use crate::bytes::clone_bytes;
use crate::name::{join_name, parent_scope, spec_join, spec_parent_scope};
use crate::record::{
    dv_fields, dv_files, dv_options, lemma_dv_messages, EnumRecord, EnumRecordV,
    EnumValueRecord, EnumValueRecordV, FieldRecord, FieldRecordV, FileRecord, FileRecordV,
    MessageRecord, MessageRecordV, MethodRecord, MethodRecordV, NumberRange, OneofRecord,
    OneofRecordV, OptionRecord, OptionRecordV, ServiceRecord, ServiceRecordV,
};
use crate::record_clone::{
    clone_fields, clone_name_list, clone_oneofs, clone_options, clone_ranges,
};
use crate::scalar::Syntax;

verus! {

broadcast use {lemma_dv_messages};

/// The body of a message declaration: everything validated per message,
/// with nested types left out (they are declarations of their own).
pub struct MessagePayload {
    pub fields: Vec<FieldRecord>,
    pub oneofs: Vec<OneofRecord>,
    pub extension_ranges: Vec<NumberRange>,
    pub reserved_ranges: Vec<NumberRange>,
    pub reserved_names: Vec<Vec<u8>>,
    pub map_entry: bool,
    pub options: Vec<OptionRecord>,
}

/// Spec mirror of [`MessagePayload`].
#[verifier::ext_equal]
pub struct MessagePayloadV {
    pub fields: Seq<FieldRecordV>,
    pub oneofs: Seq<OneofRecordV>,
    pub extension_ranges: Seq<NumberRange>,
    pub reserved_ranges: Seq<NumberRange>,
    pub reserved_names: Seq<Seq<u8>>,
    pub map_entry: bool,
    pub options: Seq<OptionRecordV>,
}

impl MessagePayload {
    pub open spec fn dv(&self) -> MessagePayloadV {
        MessagePayloadV {
            fields: dv_fields(self.fields@),
            oneofs: Seq::new(self.oneofs@.len(), |i: int| self.oneofs@[i].dv()),
            extension_ranges: self.extension_ranges@,
            reserved_ranges: self.reserved_ranges@,
            reserved_names: Seq::new(
                self.reserved_names@.len(),
                |i: int| self.reserved_names@[i]@,
            ),
            map_entry: self.map_entry,
            options: dv_options(self.options@),
        }
    }
}

/// The payload a message record contributes to its declaration.
pub open spec fn spec_message_payload(m: MessageRecordV) -> MessagePayloadV {
    MessagePayloadV {
        fields: m.fields,
        oneofs: m.oneofs,
        extension_ranges: m.extension_ranges,
        reserved_ranges: m.reserved_ranges,
        reserved_names: m.reserved_names,
        map_entry: m.map_entry,
        options: m.options,
    }
}

/// The body of an enum declaration.
pub struct EnumPayload {
    pub values: Vec<EnumValueRecord>,
    pub reserved_ranges: Vec<NumberRange>,
    pub reserved_names: Vec<Vec<u8>>,
    pub allow_alias: bool,
    pub options: Vec<OptionRecord>,
}

/// Spec mirror of [`EnumPayload`].
#[verifier::ext_equal]
pub struct EnumPayloadV {
    pub values: Seq<EnumValueRecordV>,
    pub reserved_ranges: Seq<NumberRange>,
    pub reserved_names: Seq<Seq<u8>>,
    pub allow_alias: bool,
    pub options: Seq<OptionRecordV>,
}

impl EnumPayload {
    pub open spec fn dv(&self) -> EnumPayloadV {
        EnumPayloadV {
            values: Seq::new(self.values@.len(), |i: int| self.values@[i].dv()),
            reserved_ranges: self.reserved_ranges@,
            reserved_names: Seq::new(
                self.reserved_names@.len(),
                |i: int| self.reserved_names@[i]@,
            ),
            allow_alias: self.allow_alias,
            options: dv_options(self.options@),
        }
    }
}

/// The payload an enum record contributes to its declaration.
pub open spec fn spec_enum_payload(e: EnumRecordV) -> EnumPayloadV {
    EnumPayloadV {
        values: e.values,
        reserved_ranges: e.reserved_ranges,
        reserved_names: e.reserved_names,
        allow_alias: e.allow_alias,
        options: e.options,
    }
}

/// The body of a service declaration.
pub struct ServicePayload {
    pub methods: Vec<MethodRecord>,
    pub options: Vec<OptionRecord>,
}

/// Spec mirror of [`ServicePayload`].
#[verifier::ext_equal]
pub struct ServicePayloadV {
    pub methods: Seq<MethodRecordV>,
    pub options: Seq<OptionRecordV>,
}

impl ServicePayload {
    pub open spec fn dv(&self) -> ServicePayloadV {
        ServicePayloadV {
            methods: Seq::new(self.methods@.len(), |i: int| self.methods@[i].dv()),
            options: dv_options(self.options@),
        }
    }
}

/// The payload a service record contributes to its declaration.
pub open spec fn spec_service_payload(s: ServiceRecordV) -> ServicePayloadV {
    ServicePayloadV { methods: s.methods, options: s.options }
}

/// What a declared name stands for.
pub enum DeclKind {
    /// A package path segment; packages may be declared by many files.
    Package,
    Message(MessagePayload),
    Enum(EnumPayload),
    Service(ServicePayload),
    /// An enum value's name, registered in the enum's parent scope.
    EnumValue,
    /// A field's name, registered for conflict detection only.
    FieldName,
    /// A oneof's name, registered for conflict detection only.
    Oneof,
    /// An extension field, carrying the field record for later
    /// registration against its target message.
    Extension(FieldRecord),
}

/// Spec mirror of [`DeclKind`].
#[verifier::ext_equal]
pub enum DeclKindV {
    Package,
    Message(MessagePayloadV),
    Enum(EnumPayloadV),
    Service(ServicePayloadV),
    EnumValue,
    FieldName,
    Oneof,
    Extension(FieldRecordV),
}

impl DeclKind {
    pub open spec fn dv(&self) -> DeclKindV {
        match self {
            DeclKind::Package => DeclKindV::Package,
            DeclKind::Message(p) => DeclKindV::Message(p.dv()),
            DeclKind::Enum(p) => DeclKindV::Enum(p.dv()),
            DeclKind::Service(p) => DeclKindV::Service(p.dv()),
            DeclKind::EnumValue => DeclKindV::EnumValue,
            DeclKind::FieldName => DeclKindV::FieldName,
            DeclKind::Oneof => DeclKindV::Oneof,
            DeclKind::Extension(f) => DeclKindV::Extension(f.dv()),
        }
    }
}

/// One registered declaration.
pub struct Decl {
    /// The fully-qualified name, without a leading separator.
    pub full_name: Vec<u8>,
    /// The scope references inside this declaration resolve from.
    pub scope: Vec<u8>,
    /// Index of the declaring file in the batch.
    pub file: usize,
    /// The declaring file's dialect.
    pub syntax: Syntax,
    pub kind: DeclKind,
}

/// Spec mirror of [`Decl`].
#[verifier::ext_equal]
pub struct DeclV {
    pub full_name: Seq<u8>,
    pub scope: Seq<u8>,
    pub file: int,
    pub syntax: Syntax,
    pub kind: DeclKindV,
}

impl Decl {
    pub open spec fn dv(&self) -> DeclV {
        DeclV {
            full_name: self.full_name@,
            scope: self.scope@,
            file: self.file as int,
            syntax: self.syntax,
            kind: self.kind.dv(),
        }
    }
}

pub open spec fn dv_decls(s: Seq<Decl>) -> Seq<DeclV> {
    Seq::new(s.len(), |i: int| s[i].dv())
}

/// Every dotted prefix of a package path, outermost first, the package
/// itself last. Empty packages contribute nothing.
pub open spec fn spec_package_prefixes(pkg: Seq<u8>) -> Seq<Seq<u8>>
    decreases pkg.len(),
    via spec_package_prefixes_decreases
{
    if pkg.len() == 0 {
        Seq::empty()
    } else {
        spec_package_prefixes(spec_parent_scope(pkg)).push(pkg)
    }
}

#[via_fn]
proof fn spec_package_prefixes_decreases(pkg: Seq<u8>) {
    if pkg.len() > 0 {
        lemma_parent_scope_len(pkg);
    }
}

pub proof fn lemma_parent_scope_len(s: Seq<u8>)
    requires
        s.len() > 0,
    ensures
        spec_parent_scope(s).len() < s.len(),
{
    crate::name::lemma_after_last_dot_bounds(s);
}

/// The package declarations a file contributes.
pub open spec fn spec_package_decls(
    pkg: Seq<u8>,
    file: int,
    syntax: Syntax,
) -> Seq<DeclV> {
    Seq::new(
        spec_package_prefixes(pkg).len(),
        |i: int| DeclV {
            full_name: spec_package_prefixes(pkg)[i],
            scope: Seq::empty(),
            file,
            syntax,
            kind: DeclKindV::Package,
        },
    )
}

/// The name-only declarations of a message's fields.
pub open spec fn spec_field_name_decls(
    scope: Seq<u8>,
    fields: Seq<FieldRecordV>,
    file: int,
    syntax: Syntax,
) -> Seq<DeclV> {
    Seq::new(
        fields.len(),
        |i: int| DeclV {
            full_name: spec_join(scope, fields[i].name),
            scope,
            file,
            syntax,
            kind: DeclKindV::FieldName,
        },
    )
}

/// The name-only declarations of a message's oneofs.
pub open spec fn spec_oneof_decls(
    scope: Seq<u8>,
    oneofs: Seq<OneofRecordV>,
    file: int,
    syntax: Syntax,
) -> Seq<DeclV> {
    Seq::new(
        oneofs.len(),
        |i: int| DeclV {
            full_name: spec_join(scope, oneofs[i].name),
            scope,
            file,
            syntax,
            kind: DeclKindV::Oneof,
        },
    )
}

/// The name declarations of an enum's values, in the enum's parent scope.
pub open spec fn spec_value_decls(
    scope: Seq<u8>,
    values: Seq<EnumValueRecordV>,
    file: int,
    syntax: Syntax,
) -> Seq<DeclV> {
    Seq::new(
        values.len(),
        |i: int| DeclV {
            full_name: spec_join(scope, values[i].name),
            scope,
            file,
            syntax,
            kind: DeclKindV::EnumValue,
        },
    )
}

/// The declarations of a run of extension fields.
pub open spec fn spec_extension_decls(
    scope: Seq<u8>,
    exts: Seq<FieldRecordV>,
    file: int,
    syntax: Syntax,
) -> Seq<DeclV> {
    Seq::new(
        exts.len(),
        |i: int| DeclV {
            full_name: spec_join(scope, exts[i].name),
            scope,
            file,
            syntax,
            kind: DeclKindV::Extension(exts[i]),
        },
    )
}

/// The declarations of one enum: the enum itself, then its values.
pub open spec fn spec_collect_enum(
    scope: Seq<u8>,
    e: EnumRecordV,
    file: int,
    syntax: Syntax,
) -> Seq<DeclV> {
    seq![
        DeclV {
            full_name: spec_join(scope, e.name),
            scope,
            file,
            syntax,
            kind: DeclKindV::Enum(spec_enum_payload(e)),
        },
    ] + spec_value_decls(scope, e.values, file, syntax)
}

/// The declarations of a run of enums.
pub open spec fn spec_collect_enums(
    scope: Seq<u8>,
    es: Seq<EnumRecordV>,
    file: int,
    syntax: Syntax,
) -> Seq<DeclV>
    decreases es.len(),
{
    if es.len() == 0 {
        Seq::empty()
    } else {
        spec_collect_enums(scope, es.drop_last(), file, syntax) + spec_collect_enum(
            scope,
            es.last(),
            file,
            syntax,
        )
    }
}

/// The declarations of one message: the message, its field and oneof
/// names, its nested types, and its extension fields.
pub open spec fn spec_collect_message(
    scope: Seq<u8>,
    m: MessageRecordV,
    file: int,
    syntax: Syntax,
) -> Seq<DeclV>
    decreases m,
{
    let full = spec_join(scope, m.name);
    seq![
        DeclV {
            full_name: full,
            scope,
            file,
            syntax,
            kind: DeclKindV::Message(spec_message_payload(m)),
        },
    ] + spec_field_name_decls(full, m.fields, file, syntax) + spec_oneof_decls(
        full,
        m.oneofs,
        file,
        syntax,
    ) + spec_collect_messages(full, m.messages, file, syntax) + spec_collect_enums(
        full,
        m.enums,
        file,
        syntax,
    ) + spec_extension_decls(full, m.extensions, file, syntax)
}

/// The declarations of a run of messages.
pub open spec fn spec_collect_messages(
    scope: Seq<u8>,
    ms: Seq<MessageRecordV>,
    file: int,
    syntax: Syntax,
) -> Seq<DeclV>
    decreases ms,
{
    if ms.len() == 0 {
        Seq::empty()
    } else {
        spec_collect_messages(scope, ms.drop_last(), file, syntax) + spec_collect_message(
            scope,
            ms.last(),
            file,
            syntax,
        )
    }
}

/// The declarations of a run of services.
pub open spec fn spec_collect_services(
    scope: Seq<u8>,
    ss: Seq<ServiceRecordV>,
    file: int,
    syntax: Syntax,
) -> Seq<DeclV> {
    Seq::new(
        ss.len(),
        |i: int| DeclV {
            full_name: spec_join(scope, ss[i].name),
            scope,
            file,
            syntax,
            kind: DeclKindV::Service(spec_service_payload(ss[i])),
        },
    )
}

/// The declarations of one file.
pub open spec fn spec_collect_file(f: FileRecordV, file: int) -> Seq<DeclV> {
    spec_package_decls(f.package, file, f.syntax) + spec_collect_messages(
        f.package,
        f.messages,
        file,
        f.syntax,
    ) + spec_collect_enums(f.package, f.enums, file, f.syntax) + spec_collect_services(
        f.package,
        f.services,
        file,
        f.syntax,
    ) + spec_extension_decls(f.package, f.extensions, file, f.syntax)
}

/// The declaration list of a whole batch.
pub open spec fn spec_collect_files(fs: Seq<FileRecordV>) -> Seq<DeclV>
    decreases fs.len(),
{
    if fs.len() == 0 {
        Seq::empty()
    } else {
        spec_collect_files(fs.drop_last()) + spec_collect_file(fs.last(), fs.len() - 1)
    }
}

fn message_payload(m: &MessageRecord) -> (r: MessagePayload)
    ensures
        r.dv() == spec_message_payload(m.dv()),
{
    let r = MessagePayload {
        fields: clone_fields(&m.fields),
        oneofs: clone_oneofs(&m.oneofs),
        extension_ranges: clone_ranges(&m.extension_ranges),
        reserved_ranges: clone_ranges(&m.reserved_ranges),
        reserved_names: clone_name_list(&m.reserved_names),
        map_entry: m.map_entry,
        options: clone_options(&m.options),
    };
    proof {
        assert(r.dv().oneofs =~= m.dv().oneofs);
        assert(r.dv().reserved_names =~= m.dv().reserved_names);
        assert(r.dv() =~= spec_message_payload(m.dv()));
    }
    r
}

fn enum_payload(e: &EnumRecord) -> (r: EnumPayload)
    ensures
        r.dv() == spec_enum_payload(e.dv()),
{
    let mut values: Vec<EnumValueRecord> = Vec::new();
    let mut i: usize = 0;
    while i < e.values.len()
        invariant
            i <= e.values.len(),
            values@.len() == i,
            forall|j: int| 0 <= j < i ==> values@[j].dv() == e.values@[j].dv(),
        decreases e.values.len() - i,
    {
        values.push(e.values[i].clone());
        i += 1;
    }
    let r = EnumPayload {
        values,
        reserved_ranges: clone_ranges(&e.reserved_ranges),
        reserved_names: clone_name_list(&e.reserved_names),
        allow_alias: e.allow_alias,
        options: clone_options(&e.options),
    };
    proof {
        assert(r.dv().values =~= e.dv().values);
        assert(r.dv().reserved_names =~= e.dv().reserved_names);
        assert(r.dv() =~= spec_enum_payload(e.dv()));
    }
    r
}

fn service_payload(s: &ServiceRecord) -> (r: ServicePayload)
    ensures
        r.dv() == spec_service_payload(s.dv()),
{
    let mut methods: Vec<MethodRecord> = Vec::new();
    let mut i: usize = 0;
    while i < s.methods.len()
        invariant
            i <= s.methods.len(),
            methods@.len() == i,
            forall|j: int| 0 <= j < i ==> methods@[j].dv() == s.methods@[j].dv(),
        decreases s.methods.len() - i,
    {
        methods.push(s.methods[i].clone());
        i += 1;
    }
    let r = ServicePayload { methods, options: clone_options(&s.options) };
    proof {
        assert(r.dv().methods =~= s.dv().methods);
        assert(r.dv() =~= spec_service_payload(s.dv()));
    }
    r
}

fn collect_package(pkg: &Vec<u8>, file: usize, syntax: Syntax, decls: &mut Vec<Decl>)
    ensures
        dv_decls(final(decls)@) == dv_decls(old(decls)@) + spec_package_decls(
            pkg@,
            file as int,
            syntax,
        ),
    decreases pkg@.len(),
{
    if pkg.len() == 0 {
        proof {
            assert(dv_decls(decls@) =~= dv_decls(decls@) + spec_package_decls(
                pkg@,
                file as int,
                syntax,
            ));
        }
        return;
    }
    let parent = parent_scope(pkg);
    proof {
        lemma_parent_scope_len(pkg@);
    }
    collect_package(&parent, file, syntax, decls);
    let d = Decl {
        full_name: clone_bytes(pkg),
        scope: Vec::new(),
        file,
        syntax,
        kind: DeclKind::Package,
    };
    let ghost pre = dv_decls(decls@);
    decls.push(d);
    proof {
        assert(dv_decls(decls@) =~= pre.push(
            DeclV {
                full_name: pkg@,
                scope: Seq::empty(),
                file: file as int,
                syntax,
                kind: DeclKindV::Package,
            },
        ));
        assert(dv_decls(decls@) =~= dv_decls(old(decls)@) + spec_package_decls(
            pkg@,
            file as int,
            syntax,
        ));
    }
}

fn collect_enum(scope: &Vec<u8>, e: &EnumRecord, file: usize, syntax: Syntax, decls: &mut Vec<
    Decl,
>)
    ensures
        dv_decls(final(decls)@) == dv_decls(old(decls)@) + spec_collect_enum(
            scope@,
            e.dv(),
            file as int,
            syntax,
        ),
{
    let d = Decl {
        full_name: join_name(scope, &e.name),
        scope: clone_bytes(scope),
        file,
        syntax,
        kind: DeclKind::Enum(enum_payload(e)),
    };
    let ghost pre = dv_decls(decls@);
    decls.push(d);
    proof {
        assert(dv_decls(decls@) =~= pre + seq![
            DeclV {
                full_name: spec_join(scope@, e.dv().name),
                scope: scope@,
                file: file as int,
                syntax,
                kind: DeclKindV::Enum(spec_enum_payload(e.dv())),
            },
        ]);
    }
    let ghost mid = dv_decls(decls@);
    let mut i: usize = 0;
    while i < e.values.len()
        invariant
            i <= e.values.len(),
            dv_decls(decls@) == mid + spec_value_decls(
                scope@,
                e.dv().values,
                file as int,
                syntax,
            ).take(i as int),
        decreases e.values.len() - i,
    {
        let d = Decl {
            full_name: join_name(scope, &e.values[i].name),
            scope: clone_bytes(scope),
            file,
            syntax,
            kind: DeclKind::EnumValue,
        };
        let ghost pre2 = dv_decls(decls@);
        decls.push(d);
        proof {
            assert(e.dv().values[i as int].name == e.values@[i as int].dv().name);
            assert(dv_decls(decls@) =~= pre2.push(
                spec_value_decls(scope@, e.dv().values, file as int, syntax)[i as int],
            ));
            assert(dv_decls(decls@) =~= mid + spec_value_decls(
                scope@,
                e.dv().values,
                file as int,
                syntax,
            ).take(i + 1));
        }
        i += 1;
    }
    proof {
        let vd = spec_value_decls(scope@, e.dv().values, file as int, syntax);
        assert(vd.take(e.values@.len() as int) =~= vd);
        assert(dv_decls(decls@) =~= dv_decls(old(decls)@) + spec_collect_enum(
            scope@,
            e.dv(),
            file as int,
            syntax,
        ));
    }
}

fn collect_extensions(
    scope: &Vec<u8>,
    exts: &Vec<FieldRecord>,
    file: usize,
    syntax: Syntax,
    decls: &mut Vec<Decl>,
)
    ensures
        dv_decls(final(decls)@) == dv_decls(old(decls)@) + spec_extension_decls(
            scope@,
            dv_fields(exts@),
            file as int,
            syntax,
        ),
{
    let ghost base = dv_decls(decls@);
    let mut i: usize = 0;
    while i < exts.len()
        invariant
            i <= exts.len(),
            dv_decls(decls@) == base + spec_extension_decls(
                scope@,
                dv_fields(exts@),
                file as int,
                syntax,
            ).take(i as int),
        decreases exts.len() - i,
    {
        let d = Decl {
            full_name: join_name(scope, &exts[i].name),
            scope: clone_bytes(scope),
            file,
            syntax,
            kind: DeclKind::Extension(exts[i].clone()),
        };
        let ghost pre = dv_decls(decls@);
        decls.push(d);
        proof {
            let ed = spec_extension_decls(scope@, dv_fields(exts@), file as int, syntax);
            assert(dv_fields(exts@)[i as int] == exts@[i as int].dv());
            assert(dv_decls(decls@) =~= pre.push(ed[i as int]));
            assert(dv_decls(decls@) =~= base + ed.take(i + 1));
        }
        i += 1;
    }
    proof {
        let ed = spec_extension_decls(scope@, dv_fields(exts@), file as int, syntax);
        assert(ed.take(exts@.len() as int) =~= ed);
    }
}

fn collect_message(
    scope: &Vec<u8>,
    m: &MessageRecord,
    file: usize,
    syntax: Syntax,
    decls: &mut Vec<Decl>,
)
    ensures
        dv_decls(final(decls)@) == dv_decls(old(decls)@) + spec_collect_message(
            scope@,
            m.dv(),
            file as int,
            syntax,
        ),
    decreases *m,
{
    let full = join_name(scope, &m.name);
    let d = Decl {
        full_name: clone_bytes(&full),
        scope: clone_bytes(scope),
        file,
        syntax,
        kind: DeclKind::Message(message_payload(m)),
    };
    let ghost pre = dv_decls(decls@);
    decls.push(d);
    proof {
        assert(dv_decls(decls@) =~= pre + seq![
            DeclV {
                full_name: spec_join(scope@, m.dv().name),
                scope: scope@,
                file: file as int,
                syntax,
                kind: DeclKindV::Message(spec_message_payload(m.dv())),
            },
        ]);
    }
    let ghost mark1 = dv_decls(decls@);
    let mut i: usize = 0;
    while i < m.fields.len()
        invariant
            i <= m.fields.len(),
            full@ == spec_join(scope@, m.dv().name),
            dv_decls(decls@) == mark1 + spec_field_name_decls(
                full@,
                m.dv().fields,
                file as int,
                syntax,
            ).take(i as int),
        decreases m.fields.len() - i,
    {
        let d = Decl {
            full_name: join_name(&full, &m.fields[i].name),
            scope: clone_bytes(&full),
            file,
            syntax,
            kind: DeclKind::FieldName,
        };
        let ghost pre2 = dv_decls(decls@);
        decls.push(d);
        proof {
            let fd = spec_field_name_decls(full@, m.dv().fields, file as int, syntax);
            assert(m.dv().fields[i as int] == m.fields@[i as int].dv());
            assert(dv_decls(decls@) =~= pre2.push(fd[i as int]));
            assert(dv_decls(decls@) =~= mark1 + fd.take(i + 1));
        }
        i += 1;
    }
    proof {
        let fd = spec_field_name_decls(full@, m.dv().fields, file as int, syntax);
        assert(fd.take(m.fields@.len() as int) =~= fd);
    }
    let ghost mark2 = dv_decls(decls@);
    let mut i: usize = 0;
    while i < m.oneofs.len()
        invariant
            i <= m.oneofs.len(),
            full@ == spec_join(scope@, m.dv().name),
            dv_decls(decls@) == mark2 + spec_oneof_decls(
                full@,
                m.dv().oneofs,
                file as int,
                syntax,
            ).take(i as int),
        decreases m.oneofs.len() - i,
    {
        let d = Decl {
            full_name: join_name(&full, &m.oneofs[i].name),
            scope: clone_bytes(&full),
            file,
            syntax,
            kind: DeclKind::Oneof,
        };
        let ghost pre2 = dv_decls(decls@);
        decls.push(d);
        proof {
            let od = spec_oneof_decls(full@, m.dv().oneofs, file as int, syntax);
            assert(m.dv().oneofs[i as int] == m.oneofs@[i as int].dv());
            assert(dv_decls(decls@) =~= pre2.push(od[i as int]));
            assert(dv_decls(decls@) =~= mark2 + od.take(i + 1));
        }
        i += 1;
    }
    proof {
        let od = spec_oneof_decls(full@, m.dv().oneofs, file as int, syntax);
        assert(od.take(m.oneofs@.len() as int) =~= od);
    }
    let ghost mark3 = dv_decls(decls@);
    let mut i: usize = 0;
    while i < m.messages.len()
        invariant
            i <= m.messages.len(),
            full@ == spec_join(scope@, m.dv().name),
            dv_decls(decls@) == mark3 + spec_collect_messages(
                full@,
                m.dv().messages.take(i as int),
                file as int,
                syntax,
            ),
        decreases m.messages.len() - i,
    {
        proof {
            assert(decreases_to!(*m => m.messages@[i as int]));
        }
        collect_message(&full, &m.messages[i], file, syntax, decls);
        proof {
            lemma_dv_messages(m.messages@);
            let all = m.dv().messages;
            let cur = all.take(i + 1);
            assert(cur.drop_last() =~= all.take(i as int));
            assert(cur.last() == all[i as int]);
            assert(all[i as int] == m.messages@[i as int].dv());
        }
        i += 1;
    }
    proof {
        lemma_dv_messages(m.messages@);
        assert(m.dv().messages.take(m.messages@.len() as int) =~= m.dv().messages);
    }
    let ghost mark4 = dv_decls(decls@);
    let mut i: usize = 0;
    while i < m.enums.len()
        invariant
            i <= m.enums.len(),
            full@ == spec_join(scope@, m.dv().name),
            dv_decls(decls@) == mark4 + spec_collect_enums(
                full@,
                m.dv().enums.take(i as int),
                file as int,
                syntax,
            ),
        decreases m.enums.len() - i,
    {
        collect_enum(&full, &m.enums[i], file, syntax, decls);
        proof {
            let all = m.dv().enums;
            let cur = all.take(i + 1);
            assert(cur.drop_last() =~= all.take(i as int));
            assert(cur.last() == all[i as int]);
            assert(all[i as int] == m.enums@[i as int].dv());
        }
        i += 1;
    }
    proof {
        assert(m.dv().enums.take(m.enums@.len() as int) =~= m.dv().enums);
    }
    collect_extensions(&full, &m.extensions, file, syntax, decls);
    proof {
        assert(dv_decls(decls@) =~= dv_decls(old(decls)@) + spec_collect_message(
            scope@,
            m.dv(),
            file as int,
            syntax,
        ));
    }
}

fn collect_file(f: &FileRecord, file: usize, decls: &mut Vec<Decl>)
    ensures
        dv_decls(final(decls)@) == dv_decls(old(decls)@) + spec_collect_file(
            f.dv(),
            file as int,
        ),
{
    collect_package(&f.package, file, f.syntax, decls);
    let ghost mark1 = dv_decls(decls@);
    let mut i: usize = 0;
    while i < f.messages.len()
        invariant
            i <= f.messages.len(),
            dv_decls(decls@) == mark1 + spec_collect_messages(
                f.dv().package,
                f.dv().messages.take(i as int),
                file as int,
                f.syntax,
            ),
        decreases f.messages.len() - i,
    {
        collect_message(&f.package, &f.messages[i], file, f.syntax, decls);
        proof {
            lemma_dv_messages(f.messages@);
            let all = f.dv().messages;
            let cur = all.take(i + 1);
            assert(cur.drop_last() =~= all.take(i as int));
            assert(cur.last() == all[i as int]);
            assert(all[i as int] == f.messages@[i as int].dv());
        }
        i += 1;
    }
    proof {
        lemma_dv_messages(f.messages@);
        assert(f.dv().messages.take(f.messages@.len() as int) =~= f.dv().messages);
    }
    let ghost mark2 = dv_decls(decls@);
    let mut i: usize = 0;
    while i < f.enums.len()
        invariant
            i <= f.enums.len(),
            dv_decls(decls@) == mark2 + spec_collect_enums(
                f.dv().package,
                f.dv().enums.take(i as int),
                file as int,
                f.syntax,
            ),
        decreases f.enums.len() - i,
    {
        collect_enum(&f.package, &f.enums[i], file, f.syntax, decls);
        proof {
            let all = f.dv().enums;
            let cur = all.take(i + 1);
            assert(cur.drop_last() =~= all.take(i as int));
            assert(cur.last() == all[i as int]);
            assert(all[i as int] == f.enums@[i as int].dv());
        }
        i += 1;
    }
    proof {
        assert(f.dv().enums.take(f.enums@.len() as int) =~= f.dv().enums);
    }
    let ghost mark3 = dv_decls(decls@);
    let mut i: usize = 0;
    while i < f.services.len()
        invariant
            i <= f.services.len(),
            dv_decls(decls@) == mark3 + spec_collect_services(
                f.dv().package,
                f.dv().services,
                file as int,
                f.syntax,
            ).take(i as int),
        decreases f.services.len() - i,
    {
        let d = Decl {
            full_name: join_name(&f.package, &f.services[i].name),
            scope: clone_bytes(&f.package),
            file,
            syntax: f.syntax,
            kind: DeclKind::Service(service_payload(&f.services[i])),
        };
        let ghost pre = dv_decls(decls@);
        decls.push(d);
        proof {
            let sd = spec_collect_services(f.dv().package, f.dv().services, file as int, f.syntax);
            assert(f.dv().services[i as int] == f.services@[i as int].dv());
            assert(dv_decls(decls@) =~= pre.push(sd[i as int]));
            assert(dv_decls(decls@) =~= mark3 + sd.take(i + 1));
        }
        i += 1;
    }
    proof {
        let sd = spec_collect_services(f.dv().package, f.dv().services, file as int, f.syntax);
        assert(sd.take(f.services@.len() as int) =~= sd);
    }
    collect_extensions(&f.package, &f.extensions, file, f.syntax, decls);
    proof {
        assert(dv_decls(decls@) =~= dv_decls(old(decls)@) + spec_collect_file(
            f.dv(),
            file as int,
        ));
    }
}

/// Walks a normalized batch and returns its complete declaration list.
pub fn collect_files(fs: &Vec<FileRecord>) -> (r: Vec<Decl>)
    ensures
        dv_decls(r@) == spec_collect_files(dv_files(fs@)),
{
    let mut decls: Vec<Decl> = Vec::new();
    proof {
        assert(dv_decls(decls@) =~= Seq::<DeclV>::empty());
    }
    let mut i: usize = 0;
    while i < fs.len()
        invariant
            i <= fs.len(),
            dv_decls(decls@) == spec_collect_files(dv_files(fs@).take(i as int)),
        decreases fs.len() - i,
    {
        collect_file(&fs[i], i, &mut decls);
        proof {
            let all = dv_files(fs@);
            let cur = all.take(i + 1);
            assert(cur.drop_last() =~= all.take(i as int));
            assert(cur.last() == all[i as int]);
            assert(all[i as int] == fs@[i as int].dv());
        }
        i += 1;
    }
    proof {
        assert(dv_files(fs@).take(fs@.len() as int) =~= dv_files(fs@));
    }
    decls
}

} // verus!
