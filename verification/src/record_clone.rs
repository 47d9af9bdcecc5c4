//! Clone implementations for the record types. Every clone preserves the
//! spec mirror exactly, which the contracts of pool extension rely on.

use vstd::prelude::*;

use crate::bytes::clone_bytes;
use crate::record::{
    dv_enums, dv_fields, dv_files, dv_messages, dv_option_entries, dv_option_values, dv_options,
    lemma_dv_messages,
    lemma_dv_option_entries, lemma_dv_option_values, EnumRecord, EnumValueRecord, FieldRecord,
    FieldTypeRecord, FileRecord, MapValueRecord, MessageRecord, MethodRecord, NumberRange,
    OneofRecord, OptionEntry, OptionPathSegment, OptionRecord, OptionValue, ServiceRecord,
};

verus! {

broadcast use {lemma_dv_option_values, lemma_dv_option_entries, lemma_dv_messages};

/// A copy of a list of byte strings with the same views.
pub fn clone_name_list(v: &Vec<Vec<u8>>) -> (r: Vec<Vec<u8>>)
    ensures
        r@.len() == v@.len(),
        forall|i: int| 0 <= i < v@.len() ==> r@[i]@ == v@[i]@,
{
    let mut r: Vec<Vec<u8>> = Vec::new();
    let mut i: usize = 0;
    while i < v.len()
        invariant
            i <= v.len(),
            r@.len() == i,
            forall|j: int| 0 <= j < i ==> r@[j]@ == v@[j]@,
        decreases v.len() - i,
    {
        r.push(clone_bytes(&v[i]));
        i += 1;
    }
    r
}

pub fn clone_ranges(v: &Vec<NumberRange>) -> (r: Vec<NumberRange>)
    ensures
        r@ == v@,
{
    let mut r: Vec<NumberRange> = Vec::new();
    let mut i: usize = 0;
    while i < v.len()
        invariant
            i <= v.len(),
            r@ == v@.take(i as int),
        decreases v.len() - i,
    {
        r.push(v[i]);
        proof {
            assert(v@.take(i as int).push(v@[i as int]) =~= v@.take(i + 1));
        }
        i += 1;
    }
    proof {
        assert(v@.take(v@.len() as int) =~= v@);
    }
    r
}

impl Clone for OptionValue {
    #[verifier::loop_isolation(false)]
    fn clone(&self) -> (r: Self)
        ensures
            r.dv() == self.dv(),
        decreases *self,
    {
        match self {
            OptionValue::Int(x) => OptionValue::Int(*x),
            OptionValue::Uint(x) => OptionValue::Uint(*x),
            OptionValue::Bool(x) => OptionValue::Bool(*x),
            OptionValue::Ident(n) => OptionValue::Ident(clone_bytes(n)),
            OptionValue::Text(n) => OptionValue::Text(clone_bytes(n)),
            OptionValue::FloatText(n) => OptionValue::FloatText(clone_bytes(n)),
            OptionValue::List(vs) => {
                let mut out: Vec<OptionValue> = Vec::new();
                let mut i: usize = 0;
                while i < vs.len()
                    invariant
                        i <= vs.len(),
                        out@.len() == i,
                        forall|j: int| 0 <= j < i ==> out@[j].dv() == vs@[j].dv(),
                    decreases vs.len() - i,
                {
                    out.push(vs[i].clone());
                    i += 1;
                }
                proof {
                    assert(dv_option_values(out@) =~= dv_option_values(vs@));
                }
                OptionValue::List(out)
            },
            OptionValue::Aggregate(es) => {
                let mut out: Vec<OptionEntry> = Vec::new();
                let mut i: usize = 0;
                while i < es.len()
                    invariant
                        i <= es.len(),
                        out@.len() == i,
                        forall|j: int| 0 <= j < i ==> out@[j].dv() == es@[j].dv(),
                    decreases es.len() - i,
                {
                    out.push(es[i].clone());
                    i += 1;
                }
                proof {
                    assert(dv_option_entries(out@) =~= dv_option_entries(es@));
                }
                OptionValue::Aggregate(out)
            },
        }
    }
}

impl Clone for OptionEntry {
    fn clone(&self) -> (r: Self)
        ensures
            r.dv() == self.dv(),
        decreases *self,
    {
        OptionEntry {
            name: clone_bytes(&self.name),
            is_extension: self.is_extension,
            value: self.value.clone(),
        }
    }
}

impl Clone for OptionPathSegment {
    fn clone(&self) -> (r: Self)
        ensures
            r.dv() == self.dv(),
    {
        match self {
            OptionPathSegment::Plain(n) => OptionPathSegment::Plain(clone_bytes(n)),
            OptionPathSegment::Extension(n) => OptionPathSegment::Extension(clone_bytes(n)),
        }
    }
}

impl Clone for OptionRecord {
    fn clone(&self) -> (r: Self)
        ensures
            r.dv() == self.dv(),
    {
        let mut path: Vec<OptionPathSegment> = Vec::new();
        let mut i: usize = 0;
        while i < self.path.len()
            invariant
                i <= self.path.len(),
                path@.len() == i,
                forall|j: int| 0 <= j < i ==> path@[j].dv() == self.path@[j].dv(),
            decreases self.path.len() - i,
        {
            path.push(self.path[i].clone());
            i += 1;
        }
        let r = OptionRecord { path, value: self.value.clone() };
        proof {
            assert(r.dv().path =~= self.dv().path);
            assert(r.dv() =~= self.dv());
        }
        r
    }
}

/// A copy of an option statement list with the same views.
pub fn clone_options(v: &Vec<OptionRecord>) -> (r: Vec<OptionRecord>)
    ensures
        dv_options(r@) == dv_options(v@),
{
    let mut r: Vec<OptionRecord> = Vec::new();
    let mut i: usize = 0;
    while i < v.len()
        invariant
            i <= v.len(),
            r@.len() == i,
            forall|j: int| 0 <= j < i ==> r@[j].dv() == v@[j].dv(),
        decreases v.len() - i,
    {
        r.push(v[i].clone());
        i += 1;
    }
    proof {
        assert(dv_options(r@) =~= dv_options(v@));
    }
    r
}

impl Clone for MapValueRecord {
    fn clone(&self) -> (r: Self)
        ensures
            r.dv() == self.dv(),
    {
        match self {
            MapValueRecord::Scalar(k) => MapValueRecord::Scalar(*k),
            MapValueRecord::Named(n) => MapValueRecord::Named(clone_bytes(n)),
        }
    }
}

impl Clone for FieldTypeRecord {
    fn clone(&self) -> (r: Self)
        ensures
            r.dv() == self.dv(),
    {
        match self {
            FieldTypeRecord::Scalar(k) => FieldTypeRecord::Scalar(*k),
            FieldTypeRecord::Named(n) => FieldTypeRecord::Named(clone_bytes(n)),
            FieldTypeRecord::Group(n) => FieldTypeRecord::Group(clone_bytes(n)),
            FieldTypeRecord::MapSugar { key, value } => FieldTypeRecord::MapSugar {
                key: *key,
                value: value.clone(),
            },
        }
    }
}

impl Clone for FieldRecord {
    fn clone(&self) -> (r: Self)
        ensures
            r.dv() == self.dv(),
    {
        let r = FieldRecord {
            name: clone_bytes(&self.name),
            number: self.number,
            cardinality: self.cardinality,
            field_type: self.field_type.clone(),
            json_name: clone_bytes(&self.json_name),
            default_literal: match &self.default_literal {
                Some(t) => Some(clone_bytes(t)),
                None => None,
            },
            oneof_index: self.oneof_index,
            proto3_optional: self.proto3_optional,
            packed: self.packed,
            extendee: clone_bytes(&self.extendee),
            options: clone_options(&self.options),
        };
        proof {
            assert(r.dv() =~= self.dv());
        }
        r
    }
}

/// A copy of a field list with the same views.
pub fn clone_fields(v: &Vec<FieldRecord>) -> (r: Vec<FieldRecord>)
    ensures
        dv_fields(r@) == dv_fields(v@),
{
    let mut r: Vec<FieldRecord> = Vec::new();
    let mut i: usize = 0;
    while i < v.len()
        invariant
            i <= v.len(),
            r@.len() == i,
            forall|j: int| 0 <= j < i ==> r@[j].dv() == v@[j].dv(),
        decreases v.len() - i,
    {
        r.push(v[i].clone());
        i += 1;
    }
    proof {
        assert(dv_fields(r@) =~= dv_fields(v@));
    }
    r
}

impl Clone for OneofRecord {
    fn clone(&self) -> (r: Self)
        ensures
            r.dv() == self.dv(),
    {
        let r = OneofRecord {
            name: clone_bytes(&self.name),
            options: clone_options(&self.options),
        };
        proof {
            assert(r.dv() =~= self.dv());
        }
        r
    }
}

/// A copy of a oneof list with the same views.
pub fn clone_oneofs(v: &Vec<OneofRecord>) -> (r: Vec<OneofRecord>)
    ensures
        r@.len() == v@.len(),
        forall|i: int| 0 <= i < v@.len() ==> r@[i].dv() == v@[i].dv(),
{
    let mut r: Vec<OneofRecord> = Vec::new();
    let mut i: usize = 0;
    while i < v.len()
        invariant
            i <= v.len(),
            r@.len() == i,
            forall|j: int| 0 <= j < i ==> r@[j].dv() == v@[j].dv(),
        decreases v.len() - i,
    {
        r.push(v[i].clone());
        i += 1;
    }
    r
}

impl Clone for EnumValueRecord {
    fn clone(&self) -> (r: Self)
        ensures
            r.dv() == self.dv(),
    {
        let r = EnumValueRecord {
            name: clone_bytes(&self.name),
            number: self.number,
            options: clone_options(&self.options),
        };
        proof {
            assert(r.dv() =~= self.dv());
        }
        r
    }
}

impl Clone for EnumRecord {
    fn clone(&self) -> (r: Self)
        ensures
            r.dv() == self.dv(),
    {
        let mut values: Vec<EnumValueRecord> = Vec::new();
        let mut i: usize = 0;
        while i < self.values.len()
            invariant
                i <= self.values.len(),
                values@.len() == i,
                forall|j: int| 0 <= j < i ==> values@[j].dv() == self.values@[j].dv(),
            decreases self.values.len() - i,
        {
            values.push(self.values[i].clone());
            i += 1;
        }
        let r = EnumRecord {
            name: clone_bytes(&self.name),
            values,
            reserved_ranges: clone_ranges(&self.reserved_ranges),
            reserved_names: clone_name_list(&self.reserved_names),
            allow_alias: self.allow_alias,
            options: clone_options(&self.options),
        };
        proof {
            assert(r.dv().values =~= self.dv().values);
            assert(r.dv().reserved_names =~= self.dv().reserved_names);
            assert(r.dv() =~= self.dv());
        }
        r
    }
}

/// A copy of an enum list with the same views.
pub fn clone_enums(v: &Vec<EnumRecord>) -> (r: Vec<EnumRecord>)
    ensures
        dv_enums(r@) == dv_enums(v@),
{
    let mut r: Vec<EnumRecord> = Vec::new();
    let mut i: usize = 0;
    while i < v.len()
        invariant
            i <= v.len(),
            r@.len() == i,
            forall|j: int| 0 <= j < i ==> r@[j].dv() == v@[j].dv(),
        decreases v.len() - i,
    {
        r.push(v[i].clone());
        i += 1;
    }
    proof {
        assert(dv_enums(r@) =~= dv_enums(v@));
    }
    r
}

impl Clone for MessageRecord {
    fn clone(&self) -> (r: Self)
        ensures
            r.dv() == self.dv(),
        decreases *self,
    {
        let mut messages: Vec<MessageRecord> = Vec::new();
        let mut i: usize = 0;
        while i < self.messages.len()
            invariant
                i <= self.messages.len(),
                messages@.len() == i,
                forall|j: int| 0 <= j < i ==> messages@[j].dv() == self.messages@[j].dv(),
            decreases self.messages.len() - i,
        {
            messages.push(self.messages[i].clone());
            i += 1;
        }
        let r = MessageRecord {
            name: clone_bytes(&self.name),
            fields: clone_fields(&self.fields),
            oneofs: clone_oneofs(&self.oneofs),
            messages,
            enums: clone_enums(&self.enums),
            extensions: clone_fields(&self.extensions),
            extension_ranges: clone_ranges(&self.extension_ranges),
            reserved_ranges: clone_ranges(&self.reserved_ranges),
            reserved_names: clone_name_list(&self.reserved_names),
            map_entry: self.map_entry,
            options: clone_options(&self.options),
        };
        proof {
            assert(dv_messages(r.messages@) =~= dv_messages(self.messages@));
            assert(r.dv().oneofs =~= self.dv().oneofs);
            assert(r.dv().reserved_names =~= self.dv().reserved_names);
            assert(r.dv() =~= self.dv());
        }
        r
    }
}

/// A copy of a message list with the same views.
pub fn clone_messages(v: &Vec<MessageRecord>) -> (r: Vec<MessageRecord>)
    ensures
        dv_messages(r@) == dv_messages(v@),
{
    let mut r: Vec<MessageRecord> = Vec::new();
    let mut i: usize = 0;
    while i < v.len()
        invariant
            i <= v.len(),
            r@.len() == i,
            forall|j: int| 0 <= j < i ==> r@[j].dv() == v@[j].dv(),
        decreases v.len() - i,
    {
        r.push(v[i].clone());
        i += 1;
    }
    proof {
        assert(dv_messages(r@) =~= dv_messages(v@));
    }
    r
}

impl Clone for MethodRecord {
    fn clone(&self) -> (r: Self)
        ensures
            r.dv() == self.dv(),
    {
        let r = MethodRecord {
            name: clone_bytes(&self.name),
            input_type: clone_bytes(&self.input_type),
            output_type: clone_bytes(&self.output_type),
            client_streaming: self.client_streaming,
            server_streaming: self.server_streaming,
            options: clone_options(&self.options),
        };
        proof {
            assert(r.dv() =~= self.dv());
        }
        r
    }
}

impl Clone for ServiceRecord {
    fn clone(&self) -> (r: Self)
        ensures
            r.dv() == self.dv(),
    {
        let mut methods: Vec<MethodRecord> = Vec::new();
        let mut i: usize = 0;
        while i < self.methods.len()
            invariant
                i <= self.methods.len(),
                methods@.len() == i,
                forall|j: int| 0 <= j < i ==> methods@[j].dv() == self.methods@[j].dv(),
            decreases self.methods.len() - i,
        {
            methods.push(self.methods[i].clone());
            i += 1;
        }
        let r = ServiceRecord {
            name: clone_bytes(&self.name),
            methods,
            options: clone_options(&self.options),
        };
        proof {
            assert(r.dv().methods =~= self.dv().methods);
            assert(r.dv() =~= self.dv());
        }
        r
    }
}

impl Clone for FileRecord {
    fn clone(&self) -> (r: Self)
        ensures
            r.dv() == self.dv(),
    {
        let mut services: Vec<ServiceRecord> = Vec::new();
        let mut i: usize = 0;
        while i < self.services.len()
            invariant
                i <= self.services.len(),
                services@.len() == i,
                forall|j: int| 0 <= j < i ==> services@[j].dv() == self.services@[j].dv(),
            decreases self.services.len() - i,
        {
            services.push(self.services[i].clone());
            i += 1;
        }
        let r = FileRecord {
            name: clone_bytes(&self.name),
            package: clone_bytes(&self.package),
            dependencies: clone_name_list(&self.dependencies),
            syntax: self.syntax,
            messages: clone_messages(&self.messages),
            enums: clone_enums(&self.enums),
            services,
            extensions: clone_fields(&self.extensions),
            options: clone_options(&self.options),
        };
        proof {
            assert(r.dv().dependencies =~= self.dv().dependencies);
            assert(r.dv().services =~= self.dv().services);
            assert(r.dv() =~= self.dv());
        }
        r
    }
}

/// A copy of a file batch with the same views.
pub fn clone_files(v: &Vec<FileRecord>) -> (r: Vec<FileRecord>)
    ensures
        dv_files(r@) == dv_files(v@),
{
    let mut r: Vec<FileRecord> = Vec::new();
    let mut i: usize = 0;
    while i < v.len()
        invariant
            i <= v.len(),
            r@.len() == i,
            forall|j: int| 0 <= j < i ==> r@[j].dv() == v@[j].dv(),
        decreases v.len() - i,
    {
        r.push(v[i].clone());
        i += 1;
    }
    proof {
        assert(dv_files(r@) =~= dv_files(v@));
    }
    r
}

} // verus!
