//! Desugaring of the input records before registration. Two source-level
//! conveniences become explicit declarations here, so that the retained
//! record set is complete and re-encoding hides nothing:
//!
//! - a map field declared with inline key/value types gets its backing
//!   entry message synthesized (named by title-casing the field name with
//!   an `Entry` suffix) and becomes an ordinary repeated message field;
//! - a proto3 scalar field marked for explicit presence that no oneof
//!   claims yet gets a synthetic oneof (the field name behind the
//!   underscore marker).
//!
//! Normalizing an already-normalized batch changes nothing, which keeps
//! reconstruction from re-encoded records faithful.

use vstd::prelude::*;

use crate::name::{entry_name, spec_entry_name, spec_synthetic_oneof_name, synthetic_oneof_name};
use crate::record::{
    dv_fields, dv_files, dv_messages, lemma_dv_messages, FieldRecord, FieldTypeRecord, FieldTypeV,
    FieldRecordV, FileRecord, FileRecordV, MapValueRecord, MapValueV, MessageRecord,
    MessageRecordV, OneofRecord, OneofRecordV,
};
use crate::record_clone::{
    clone_fields, clone_name_list, clone_oneofs, clone_options, clone_ranges,
    clone_enums,
};
use crate::scalar::{Cardinality, ScalarKind};

verus! {

broadcast use {lemma_dv_messages};

/// The synthesized key field of a map entry message.
pub open spec fn spec_entry_key_field(key: ScalarKind) -> FieldRecordV {
    FieldRecordV {
        name: seq![107u8, 101u8, 121u8],
        number: 1,
        cardinality: Cardinality::Optional,
        field_type: FieldTypeV::Scalar(key),
        json_name: Seq::empty(),
        default_literal: None,
        oneof_index: None,
        proto3_optional: false,
        packed: None,
        extendee: Seq::empty(),
        options: Seq::empty(),
    }
}

/// The synthesized value field of a map entry message.
pub open spec fn spec_entry_value_field(value: MapValueV) -> FieldRecordV {
    FieldRecordV {
        name: seq![118u8, 97u8, 108u8, 117u8, 101u8],
        number: 2,
        cardinality: Cardinality::Optional,
        field_type: match value {
            MapValueV::Scalar(k) => FieldTypeV::Scalar(k),
            MapValueV::Named(n) => FieldTypeV::Named(n),
        },
        json_name: Seq::empty(),
        default_literal: None,
        oneof_index: None,
        proto3_optional: false,
        packed: None,
        extendee: Seq::empty(),
        options: Seq::empty(),
    }
}

/// The entry message synthesized for a map field.
pub open spec fn spec_entry_message(
    field_name: Seq<u8>,
    key: ScalarKind,
    value: MapValueV,
) -> MessageRecordV {
    MessageRecordV {
        name: spec_entry_name(field_name),
        fields: seq![spec_entry_key_field(key), spec_entry_value_field(value)],
        oneofs: Seq::empty(),
        messages: Seq::empty(),
        enums: Seq::empty(),
        extensions: Seq::empty(),
        extension_ranges: Seq::empty(),
        reserved_ranges: Seq::empty(),
        reserved_names: Seq::empty(),
        map_entry: true,
        options: Seq::empty(),
    }
}

/// One field's normalization step: the rewritten field, plus the oneof and
/// entry-message lists it may extend.
pub open spec fn spec_normalize_step(
    f: FieldRecordV,
    oneofs: Seq<OneofRecordV>,
    entries: Seq<MessageRecordV>,
) -> (FieldRecordV, Seq<OneofRecordV>, Seq<MessageRecordV>) {
    let (ft2, entries2) = match f.field_type {
        FieldTypeV::MapSugar { key, value } => (
            FieldTypeV::Named(spec_entry_name(f.name)),
            entries.push(spec_entry_message(f.name, key, value)),
        ),
        other => (other, entries),
    };
    if f.proto3_optional && f.oneof_index is None {
        let f2 = FieldRecordV {
            field_type: ft2,
            oneof_index: Some(oneofs.len() as usize),
            ..f
        };
        let oneof = OneofRecordV { name: spec_synthetic_oneof_name(f.name), options: Seq::empty() };
        (f2, oneofs.push(oneof), entries2)
    } else {
        (FieldRecordV { field_type: ft2, ..f }, oneofs, entries2)
    }
}

/// Normalizes a field list front to back, threading the oneof and entry
/// lists through each step.
pub open spec fn spec_normalize_fields(
    fields: Seq<FieldRecordV>,
    oneofs: Seq<OneofRecordV>,
    entries: Seq<MessageRecordV>,
) -> (Seq<FieldRecordV>, Seq<OneofRecordV>, Seq<MessageRecordV>)
    decreases fields.len(),
{
    if fields.len() == 0 {
        (Seq::empty(), oneofs, entries)
    } else {
        let (f2, o2, e2) = spec_normalize_step(fields[0], oneofs, entries);
        let (rest, o3, e3) = spec_normalize_fields(fields.skip(1), o2, e2);
        (seq![f2] + rest, o3, e3)
    }
}

/// Normalizes one message and, recursively, its nested messages.
/// Synthesized entry messages are appended after the declared nested
/// messages, in field order.
pub open spec fn spec_normalize_message(m: MessageRecordV) -> MessageRecordV
    decreases m,
{
    let (fields, oneofs, entries) = spec_normalize_fields(m.fields, m.oneofs, Seq::empty());
    MessageRecordV {
        fields,
        oneofs,
        messages: spec_normalize_messages(m.messages) + entries,
        ..m
    }
}

/// Normalizes a message list.
pub open spec fn spec_normalize_messages(ms: Seq<MessageRecordV>) -> Seq<MessageRecordV>
    decreases ms,
{
    if ms.len() == 0 {
        Seq::empty()
    } else {
        spec_normalize_messages(ms.drop_last()).push(spec_normalize_message(ms.last()))
    }
}

pub broadcast proof fn lemma_spec_normalize_messages(ms: Seq<MessageRecordV>)
    ensures
        (#[trigger] spec_normalize_messages(ms)).len() == ms.len(),
        forall|i: int|
            0 <= i < ms.len() ==> spec_normalize_messages(ms)[i] == spec_normalize_message(ms[i]),
    decreases ms.len(),
{
    if ms.len() > 0 {
        lemma_spec_normalize_messages(ms.drop_last());
    }
}

/// Normalizes one file record.
pub open spec fn spec_normalize_file(f: FileRecordV) -> FileRecordV {
    FileRecordV { messages: spec_normalize_messages(f.messages), ..f }
}

/// Normalizes a whole batch.
pub open spec fn spec_normalize_files(fs: Seq<FileRecordV>) -> Seq<FileRecordV> {
    Seq::new(fs.len(), |i: int| spec_normalize_file(fs[i]))
}

fn make_entry_key_field(key: ScalarKind) -> (r: FieldRecord)
    ensures
        r.dv() == spec_entry_key_field(key),
{
    let mut name: Vec<u8> = Vec::new();
    name.push(107);
    name.push(101);
    name.push(121);
    let r = FieldRecord {
        name,
        number: 1,
        cardinality: Cardinality::Optional,
        field_type: FieldTypeRecord::Scalar(key),
        json_name: Vec::new(),
        default_literal: None,
        oneof_index: None,
        proto3_optional: false,
        packed: None,
        extendee: Vec::new(),
        options: Vec::new(),
    };
    proof {
        assert(r.dv().name =~= seq![107u8, 101u8, 121u8]);
        assert(r.dv().options =~= Seq::<crate::record::OptionRecordV>::empty());
        assert(r.dv() =~= spec_entry_key_field(key));
    }
    r
}

fn make_entry_value_field(value: &MapValueRecord) -> (r: FieldRecord)
    ensures
        r.dv() == spec_entry_value_field(value.dv()),
{
    let mut name: Vec<u8> = Vec::new();
    name.push(118);
    name.push(97);
    name.push(108);
    name.push(117);
    name.push(101);
    let ft = match value {
        MapValueRecord::Scalar(k) => FieldTypeRecord::Scalar(*k),
        MapValueRecord::Named(n) => FieldTypeRecord::Named(crate::bytes::clone_bytes(n)),
    };
    let r = FieldRecord {
        name,
        number: 2,
        cardinality: Cardinality::Optional,
        field_type: ft,
        json_name: Vec::new(),
        default_literal: None,
        oneof_index: None,
        proto3_optional: false,
        packed: None,
        extendee: Vec::new(),
        options: Vec::new(),
    };
    proof {
        assert(r.dv().name =~= seq![118u8, 97u8, 108u8, 117u8, 101u8]);
        assert(r.dv().options =~= Seq::<crate::record::OptionRecordV>::empty());
        assert(r.dv() =~= spec_entry_value_field(value.dv()));
    }
    r
}

fn make_entry_message(field_name: &Vec<u8>, key: ScalarKind, value: &MapValueRecord) -> (r:
    MessageRecord)
    ensures
        r.dv() == spec_entry_message(field_name@, key, value.dv()),
{
    let r = MessageRecord {
        name: entry_name(field_name),
        fields: {
            let mut fs: Vec<FieldRecord> = Vec::new();
            fs.push(make_entry_key_field(key));
            fs.push(make_entry_value_field(value));
            fs
        },
        oneofs: Vec::new(),
        messages: Vec::new(),
        enums: Vec::new(),
        extensions: Vec::new(),
        extension_ranges: Vec::new(),
        reserved_ranges: Vec::new(),
        reserved_names: Vec::new(),
        map_entry: true,
        options: Vec::new(),
    };
    proof {
        assert(r.dv().fields =~= seq![
            spec_entry_key_field(key),
            spec_entry_value_field(value.dv()),
        ]);
        assert(r.dv().oneofs =~= Seq::<OneofRecordV>::empty());
        assert(r.dv().messages =~= Seq::<MessageRecordV>::empty());
        assert(r.dv().enums =~= Seq::<crate::record::EnumRecordV>::empty());
        assert(r.dv().extensions =~= Seq::<FieldRecordV>::empty());
        assert(r.dv().reserved_names =~= Seq::<Seq<u8>>::empty());
        assert(r.dv().options =~= Seq::<crate::record::OptionRecordV>::empty());
        assert(r.dv() =~= spec_entry_message(field_name@, key, value.dv()));
    }
    r
}

/// Normalizes one message record.
pub fn normalize_message(m: &MessageRecord) -> (r: MessageRecord)
    ensures
        r.dv() == spec_normalize_message(m.dv()),
    decreases *m,
{
    let mut fields: Vec<FieldRecord> = Vec::new();
    let mut oneofs: Vec<OneofRecord> = clone_oneofs(&m.oneofs);
    let mut entries: Vec<MessageRecord> = Vec::new();
    let ghost o_start = m.dv().oneofs;
    proof {
        assert(Seq::new(oneofs@.len(), |k: int| oneofs@[k].dv()) =~= o_start);
        assert(dv_messages(entries@) =~= Seq::<MessageRecordV>::empty());
        assert(m.dv().fields.skip(0) =~= m.dv().fields);
        let (rest, o3, e3) = spec_normalize_fields(m.dv().fields, o_start, Seq::empty());
        assert(dv_fields(fields@) + rest =~= rest);
    }
    let mut i: usize = 0;
    while i < m.fields.len()
        invariant
            i <= m.fields.len(),
            dv_fields(fields@).len() == i,
            spec_normalize_fields(m.dv().fields, o_start, Seq::empty()) == {
                let (rest, o3, e3) = spec_normalize_fields(
                    m.dv().fields.skip(i as int),
                    Seq::new(oneofs@.len(), |k: int| oneofs@[k].dv()),
                    dv_messages(entries@),
                );
                (dv_fields(fields@) + rest, o3, e3)
            },
        decreases m.fields.len() - i,
    {
        let ghost fs_all = m.dv().fields;
        let ghost cur_o = Seq::new(oneofs@.len(), |k: int| oneofs@[k].dv());
        let ghost cur_e = dv_messages(entries@);
        proof {
            assert(fs_all.skip(i as int)[0] == fs_all[i as int]);
            assert(fs_all.skip(i as int).skip(1) =~= fs_all.skip(i + 1));
            assert(fs_all[i as int] == m.fields@[i as int].dv());
        }
        let f = &m.fields[i];
        let needs_oneof = f.proto3_optional && f.oneof_index.is_none();
        let (ft2, pushed_entry) = match &f.field_type {
            FieldTypeRecord::MapSugar { key, value } => {
                let entry = make_entry_message(&f.name, *key, value);
                (FieldTypeRecord::Named(entry_name(&f.name)), Some(entry))
            },
            other => (other.clone(), None),
        };
        let oneof_count = oneofs.len();
        let f2 = FieldRecord {
            name: crate::bytes::clone_bytes(&f.name),
            number: f.number,
            cardinality: f.cardinality,
            field_type: ft2,
            json_name: crate::bytes::clone_bytes(&f.json_name),
            default_literal: match &f.default_literal {
                Some(t) => Some(crate::bytes::clone_bytes(t)),
                None => None,
            },
            oneof_index: if needs_oneof {
                Some(oneof_count)
            } else {
                f.oneof_index
            },
            proto3_optional: f.proto3_optional,
            packed: f.packed,
            extendee: crate::bytes::clone_bytes(&f.extendee),
            options: clone_options(&f.options),
        };
        proof {
            let (sf, so, se) = spec_normalize_step(fs_all[i as int], cur_o, cur_e);
            assert(f2.dv() =~= sf);
        }
        fields.push(f2);
        match pushed_entry {
            Some(entry) => {
                entries.push(entry);
            },
            None => {
            },
        }
        if needs_oneof {
            let oneof = OneofRecord { name: synthetic_oneof_name(&f.name), options: Vec::new() };
            proof {
                assert(oneof.dv().options =~= Seq::<crate::record::OptionRecordV>::empty());
            }
            oneofs.push(oneof);
        }
        proof {
            let (sf, so, se) = spec_normalize_step(fs_all[i as int], cur_o, cur_e);
            assert(Seq::new(oneofs@.len(), |k: int| oneofs@[k].dv()) =~= so);
            assert(dv_messages(entries@) =~= se);
        }
        proof {
            let (sf, so, se) = spec_normalize_step(fs_all[i as int], cur_o, cur_e);
            let (rest_old, o_old, e_old) = spec_normalize_fields(
                fs_all.skip(i as int),
                cur_o,
                cur_e,
            );
            let (rest_new, o_new, e_new) = spec_normalize_fields(fs_all.skip(i + 1), so, se);
            assert(rest_old =~= seq![sf] + rest_new);
            assert(dv_fields(fields@) + rest_new =~= (dv_fields(fields@).take(i as int)) + (
            seq![sf] + rest_new));
        }
        i += 1;
    }
    let mut messages: Vec<MessageRecord> = Vec::new();
    let mut j: usize = 0;
    while j < m.messages.len()
        invariant
            j <= m.messages.len(),
            dv_messages(messages@) == spec_normalize_messages(m.dv().messages.take(j as int)),
        decreases m.messages.len() - j,
    {
        proof {
            assert(decreases_to!(*m => m.messages@[j as int]));
        }
        let nm = normalize_message(&m.messages[j]);
        let ghost pre = dv_messages(messages@);
        messages.push(nm);
        proof {
            lemma_dv_messages(m.messages@);
            let ghost cur = m.dv().messages.take(j + 1);
            assert(cur.drop_last() =~= m.dv().messages.take(j as int));
            assert(cur.last() == m.dv().messages[j as int]);
            assert(m.dv().messages[j as int] == m.messages@[j as int].dv());
            assert(dv_messages(messages@) =~= pre.push(nm.dv()));
        }
        j += 1;
    }
    let mut k: usize = 0;
    let ghost declared = dv_messages(messages@);
    while k < entries.len()
        invariant
            k <= entries.len(),
            dv_messages(messages@) == declared + dv_messages(entries@).take(k as int),
        decreases entries.len() - k,
    {
        let e = entries[k].clone();
        let ghost pre = dv_messages(messages@);
        proof {
            assert(e.dv() == dv_messages(entries@)[k as int]);
        }
        messages.push(e);
        proof {
            assert(dv_messages(messages@) =~= pre.push(dv_messages(entries@)[k as int]));
            assert(pre.push(dv_messages(entries@)[k as int]) =~= declared + dv_messages(
                entries@,
            ).take(k + 1));
        }
        k += 1;
    }
    let r = MessageRecord {
        name: crate::bytes::clone_bytes(&m.name),
        fields,
        oneofs,
        messages,
        enums: clone_enums(&m.enums),
        extensions: clone_fields(&m.extensions),
        extension_ranges: clone_ranges(&m.extension_ranges),
        reserved_ranges: clone_ranges(&m.reserved_ranges),
        reserved_names: clone_name_list(&m.reserved_names),
        map_entry: m.map_entry,
        options: clone_options(&m.options),
    };
    proof {
        let (sfields, soneofs, sentries) = spec_normalize_fields(
            m.dv().fields,
            o_start,
            Seq::empty(),
        );
        assert(m.dv().fields.skip(m.fields@.len() as int) =~= Seq::<FieldRecordV>::empty());
        assert(dv_fields(r.fields@) =~= sfields);
        assert(Seq::new(r.oneofs@.len(), |k2: int| r.oneofs@[k2].dv()) =~= soneofs);
        lemma_dv_messages(m.messages@);
        lemma_spec_normalize_messages(m.dv().messages);
        assert(m.dv().messages.take(m.messages@.len() as int) =~= m.dv().messages);
        assert(declared == spec_normalize_messages(m.dv().messages));
        lemma_dv_messages(entries@);
        assert(dv_messages(entries@).take(entries@.len() as int) =~= dv_messages(entries@));
        assert(dv_messages(entries@) =~= sentries);
        assert(dv_messages(r.messages@) =~= spec_normalize_messages(m.dv().messages) + sentries);
        assert(r.dv().reserved_names =~= m.dv().reserved_names);
        assert(r.dv() =~= spec_normalize_message(m.dv()));
    }
    r
}

/// Normalizes one file record.
pub fn normalize_file(f: &FileRecord) -> (r: FileRecord)
    ensures
        r.dv() == spec_normalize_file(f.dv()),
{
    let mut messages: Vec<MessageRecord> = Vec::new();
    let mut j: usize = 0;
    while j < f.messages.len()
        invariant
            j <= f.messages.len(),
            dv_messages(messages@) == spec_normalize_messages(f.dv().messages.take(j as int)),
        decreases f.messages.len() - j,
    {
        let nm = normalize_message(&f.messages[j]);
        let ghost pre = dv_messages(messages@);
        messages.push(nm);
        proof {
            lemma_dv_messages(f.messages@);
            let ghost cur = f.dv().messages.take(j + 1);
            assert(cur.drop_last() =~= f.dv().messages.take(j as int));
            assert(cur.last() == f.dv().messages[j as int]);
            assert(f.dv().messages[j as int] == f.messages@[j as int].dv());
            assert(dv_messages(messages@) =~= pre.push(nm.dv()));
        }
        j += 1;
    }
    let r = FileRecord {
        name: crate::bytes::clone_bytes(&f.name),
        package: crate::bytes::clone_bytes(&f.package),
        dependencies: clone_name_list(&f.dependencies),
        syntax: f.syntax,
        messages,
        enums: clone_enums(&f.enums),
        services: {
            let mut services: Vec<crate::record::ServiceRecord> = Vec::new();
            let mut i: usize = 0;
            while i < f.services.len()
                invariant
                    i <= f.services.len(),
                    services@.len() == i,
                    forall|k: int| 0 <= k < i ==> services@[k].dv() == f.services@[k].dv(),
                decreases f.services.len() - i,
            {
                services.push(f.services[i].clone());
                i += 1;
            }
            services
        },
        extensions: clone_fields(&f.extensions),
        options: clone_options(&f.options),
    };
    proof {
        lemma_dv_messages(f.messages@);
        assert(f.dv().messages.take(f.messages@.len() as int) =~= f.dv().messages);
        assert(r.dv().dependencies =~= f.dv().dependencies);
        assert(r.dv().services =~= f.dv().services);
        assert(r.dv() =~= spec_normalize_file(f.dv()));
    }
    r
}

/// Normalizes a whole batch of file records.
pub fn normalize_files(fs: &Vec<FileRecord>) -> (r: Vec<FileRecord>)
    ensures
        dv_files(r@) == spec_normalize_files(dv_files(fs@)),
{
    let mut r: Vec<FileRecord> = Vec::new();
    let mut i: usize = 0;
    while i < fs.len()
        invariant
            i <= fs.len(),
            r@.len() == i,
            forall|j: int| 0 <= j < i ==> r@[j].dv() == spec_normalize_file(fs@[j].dv()),
        decreases fs.len() - i,
    {
        r.push(normalize_file(&fs[i]));
        i += 1;
    }
    proof {
        assert(dv_files(r@) =~= spec_normalize_files(dv_files(fs@)));
    }
    r
}

} // verus!
