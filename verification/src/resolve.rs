//! The second construction phase: duplicate-name detection over the
//! complete declaration list, and scoped resolution of textual type
//! references against it.
//!
//! Resolution follows the schema language's rule: an absolute reference
//! (leading dot) is looked up from the root; a relative reference is tried
//! against the referencing scope, then each enclosing scope outward, the
//! package root last, and the first scope that yields a match wins.

use vstd::prelude::*;

use crate::bytes::{bytes_eq, clone_bytes};
use crate::collect::{
    dv_decls, Decl, DeclKind, DeclKindV, DeclV, EnumPayload, EnumPayloadV, MessagePayload,
    MessagePayloadV,
};
use crate::condition::{Condition, ConditionV, DeclSite, DeclSiteV};
use crate::name::{is_absolute, parent_scope, spec_is_absolute, spec_join, spec_parent_scope};
use crate::record::{FileRecordV};
use crate::record_clone::{clone_fields, clone_name_list, clone_options, clone_ranges};
use crate::scalar::Syntax;

verus! {

/// The body of a registered type: a message or an enum.
pub enum TypeBody {
    Message(MessagePayload),
    Enum(EnumPayload),
}

/// Spec mirror of [`TypeBody`].
#[verifier::ext_equal]
pub enum TypeBodyV {
    Message(MessagePayloadV),
    Enum(EnumPayloadV),
}

impl TypeBody {
    pub open spec fn dv(&self) -> TypeBodyV {
        match self {
            TypeBody::Message(p) => TypeBodyV::Message(p.dv()),
            TypeBody::Enum(p) => TypeBodyV::Enum(p.dv()),
        }
    }
}

/// One entry of the type list; its position is the type id.
pub struct TypeDecl {
    pub full_name: Vec<u8>,
    pub scope: Vec<u8>,
    pub file: usize,
    pub syntax: Syntax,
    pub body: TypeBody,
}

/// Spec mirror of [`TypeDecl`].
#[verifier::ext_equal]
pub struct TypeDeclV {
    pub full_name: Seq<u8>,
    pub scope: Seq<u8>,
    pub file: int,
    pub syntax: Syntax,
    pub body: TypeBodyV,
}

impl TypeDecl {
    pub open spec fn dv(&self) -> TypeDeclV {
        TypeDeclV {
            full_name: self.full_name@,
            scope: self.scope@,
            file: self.file as int,
            syntax: self.syntax,
            body: self.body.dv(),
        }
    }
}

pub open spec fn dv_types(s: Seq<TypeDecl>) -> Seq<TypeDeclV> {
    Seq::new(s.len(), |i: int| s[i].dv())
}

/// Whether a declaration registers a type (and therefore owns a type id).
pub open spec fn spec_is_type_decl(d: DeclV) -> bool {
    d.kind is Message || d.kind is Enum
}

/// The type entry of a type declaration.
pub open spec fn spec_type_of_decl(d: DeclV) -> TypeDeclV {
    TypeDeclV {
        full_name: d.full_name,
        scope: d.scope,
        file: d.file,
        syntax: d.syntax,
        body: match d.kind {
            DeclKindV::Message(p) => TypeBodyV::Message(p),
            _ => TypeBodyV::Enum(d.kind->Enum_0),
        },
    }
}

/// The type list: declarations filtered to messages and enums, in
/// registration order. A type's position here is its stable id.
pub open spec fn spec_type_list(decls: Seq<DeclV>) -> Seq<TypeDeclV>
    decreases decls.len(),
{
    if decls.len() == 0 {
        Seq::empty()
    } else if spec_is_type_decl(decls.last()) {
        spec_type_list(decls.drop_last()).push(spec_type_of_decl(decls.last()))
    } else {
        spec_type_list(decls.drop_last())
    }
}

/// Extracts the type list from the declaration list.
pub fn extract_types(decls: &Vec<Decl>) -> (r: Vec<TypeDecl>)
    ensures
        dv_types(r@) == spec_type_list(dv_decls(decls@)),
{
    let mut r: Vec<TypeDecl> = Vec::new();
    let mut i: usize = 0;
    while i < decls.len()
        invariant
            i <= decls.len(),
            dv_types(r@) == spec_type_list(dv_decls(decls@).take(i as int)),
        decreases decls.len() - i,
    {
        let d = &decls[i];
        let ghost pre = dv_types(r@);
        let ghost cur = dv_decls(decls@).take(i + 1);
        proof {
            assert(cur.drop_last() =~= dv_decls(decls@).take(i as int));
            assert(cur.last() == decls@[i as int].dv());
        }
        match &d.kind {
            DeclKind::Message(p) => {
                let t = TypeDecl {
                    full_name: clone_bytes(&d.full_name),
                    scope: clone_bytes(&d.scope),
                    file: d.file,
                    syntax: d.syntax,
                    body: TypeBody::Message(clone_message_payload(p)),
                };
                r.push(t);
                proof {
                    assert(dv_types(r@) =~= pre.push(spec_type_of_decl(decls@[i as int].dv())));
                }
            },
            DeclKind::Enum(p) => {
                let t = TypeDecl {
                    full_name: clone_bytes(&d.full_name),
                    scope: clone_bytes(&d.scope),
                    file: d.file,
                    syntax: d.syntax,
                    body: TypeBody::Enum(clone_enum_payload(p)),
                };
                r.push(t);
                proof {
                    assert(dv_types(r@) =~= pre.push(spec_type_of_decl(decls@[i as int].dv())));
                }
            },
            _ => {
                proof {
                    assert(dv_types(r@) =~= pre);
                }
            },
        }
        i += 1;
    }
    proof {
        assert(dv_decls(decls@).take(decls@.len() as int) =~= dv_decls(decls@));
    }
    r
}

fn clone_message_payload(p: &MessagePayload) -> (r: MessagePayload)
    ensures
        r.dv() == p.dv(),
{
    let r = MessagePayload {
        fields: clone_fields(&p.fields),
        oneofs: crate::record_clone::clone_oneofs(&p.oneofs),
        extension_ranges: clone_ranges(&p.extension_ranges),
        reserved_ranges: clone_ranges(&p.reserved_ranges),
        reserved_names: clone_name_list(&p.reserved_names),
        map_entry: p.map_entry,
        options: clone_options(&p.options),
    };
    proof {
        assert(r.dv().oneofs =~= p.dv().oneofs);
        assert(r.dv().reserved_names =~= p.dv().reserved_names);
        assert(r.dv() =~= p.dv());
    }
    r
}

fn clone_enum_payload(p: &EnumPayload) -> (r: EnumPayload)
    ensures
        r.dv() == p.dv(),
{
    let mut values: Vec<crate::record::EnumValueRecord> = Vec::new();
    let mut i: usize = 0;
    while i < p.values.len()
        invariant
            i <= p.values.len(),
            values@.len() == i,
            forall|j: int| 0 <= j < i ==> values@[j].dv() == p.values@[j].dv(),
        decreases p.values.len() - i,
    {
        values.push(p.values[i].clone());
        i += 1;
    }
    let r = EnumPayload {
        values,
        reserved_ranges: clone_ranges(&p.reserved_ranges),
        reserved_names: clone_name_list(&p.reserved_names),
        allow_alias: p.allow_alias,
        options: clone_options(&p.options),
    };
    proof {
        assert(r.dv().values =~= p.dv().values);
        assert(r.dv().reserved_names =~= p.dv().reserved_names);
        assert(r.dv() =~= p.dv());
    }
    r
}

/// Whether two declarations of one name conflict. Packages may be
/// declared by any number of files; every other pairing is a collision.
pub open spec fn spec_conflicts(a: DeclV, b: DeclV) -> bool {
    a.full_name == b.full_name && !(a.kind is Package && b.kind is Package)
}

/// The earliest declaration before `j` that conflicts with declaration
/// `j`, searched from `i` on.
pub open spec fn spec_find_conflict(decls: Seq<DeclV>, j: int, i: int) -> Option<int>
    decreases j - i,
{
    if i < 0 || i >= j {
        None
    } else if spec_conflicts(decls[i], decls[j]) {
        Some(i)
    } else {
        spec_find_conflict(decls, j, i + 1)
    }
}

/// The report site of a declaration: its file's name, and whether that
/// file was already part of the pool being extended.
pub open spec fn spec_site(d: DeclV, files: Seq<FileRecordV>, base: int) -> DeclSiteV {
    DeclSiteV {
        file: if 0 <= d.file < files.len() {
            files[d.file].name
        } else {
            Seq::empty()
        },
        imported: d.file < base,
    }
}

/// The duplicate-name conditions of a prefix of the declaration list, in
/// declaration order: each later declaration is reported against the
/// earliest one it collides with.
pub open spec fn spec_dup_conditions(
    decls: Seq<DeclV>,
    files: Seq<FileRecordV>,
    base: int,
    n: int,
) -> Seq<ConditionV>
    decreases n,
{
    if n <= 0 {
        Seq::empty()
    } else {
        let pre = spec_dup_conditions(decls, files, base, n - 1);
        match spec_find_conflict(decls, n - 1, 0) {
            Some(i) => pre.push(
                ConditionV::DuplicateName {
                    name: decls[n - 1].full_name,
                    first: spec_site(decls[i], files, base),
                    second: spec_site(decls[n - 1], files, base),
                },
            ),
            None => pre,
        }
    }
}

/// Reports every duplicate fully-qualified name in the declaration list.
#[verifier::loop_isolation(false)]
pub fn check_duplicate_names(
    decls: &Vec<Decl>,
    files: &Vec<crate::record::FileRecord>,
    base: usize,
) -> (r: Vec<Condition>)
    ensures
        crate::condition::dv_conditions(r@) == spec_dup_conditions(
            dv_decls(decls@),
            crate::record::dv_files(files@),
            base as int,
            decls@.len() as int,
        ),
{
    let ghost sdecls = dv_decls(decls@);
    let ghost sfiles = crate::record::dv_files(files@);
    let mut out: Vec<Condition> = Vec::new();
    let mut j: usize = 0;
    while j < decls.len()
        invariant
            j <= decls.len(),
            crate::condition::dv_conditions(out@) == spec_dup_conditions(
                sdecls,
                sfiles,
                base as int,
                j as int,
            ),
        decreases decls.len() - j,
    {
        let mut found: Option<usize> = None;
        let mut i: usize = 0;
        while i < j
            invariant
                i <= j,
                j < decls.len(),
                match found {
                    Some(k) => spec_find_conflict(sdecls, j as int, 0) == Some(k as int) && (k as int)
                        < i as int,
                    None => spec_find_conflict(sdecls, j as int, i as int) == spec_find_conflict(
                        sdecls,
                        j as int,
                        0,
                    ),
            },
            decreases j - i,
        {
            if found.is_none() {
                let both_packages = matches!(decls[i].kind, DeclKind::Package) && matches!(
                    decls[j].kind,
                    DeclKind::Package,
                );
                if !both_packages && bytes_eq(&decls[i].full_name, &decls[j].full_name) {
                    found = Some(i);
                    proof {
                        assert(spec_conflicts(sdecls[i as int], sdecls[j as int]));
                        assert(spec_find_conflict(sdecls, j as int, i as int) == Some(i as int));
                    }
                } else {
                    proof {
                        assert(!spec_conflicts(sdecls[i as int], sdecls[j as int]));
                        assert(spec_find_conflict(sdecls, j as int, i as int)
                            == spec_find_conflict(sdecls, j as int, i + 1));
                    }
                }
            }
            i += 1;
        }
        let ghost pre = crate::condition::dv_conditions(out@);
        match found {
            Some(k) => {
                let c = Condition::DuplicateName {
                    name: clone_bytes(&decls[j].full_name),
                    first: make_site(&decls[k], files, base),
                    second: make_site(&decls[j], files, base),
                };
                out.push(c);
                proof {
                    assert(crate::condition::dv_conditions(out@) =~= pre.push(
                        ConditionV::DuplicateName {
                            name: sdecls[j as int].full_name,
                            first: spec_site(sdecls[k as int], sfiles, base as int),
                            second: spec_site(sdecls[j as int], sfiles, base as int),
                        },
                    ));
                }
            },
            None => {
                proof {
                    assert(spec_find_conflict(sdecls, j as int, j as int) == None::<int>);
                }
            },
        }
        j += 1;
    }
    out
}

fn make_site(d: &Decl, files: &Vec<crate::record::FileRecord>, base: usize) -> (r: DeclSite)
    ensures
        r.dv() == spec_site(d.dv(), crate::record::dv_files(files@), base as int),
{
    let file = if d.file < files.len() {
        clone_bytes(&files[d.file].name)
    } else {
        Vec::new()
    };
    let r = DeclSite { file, imported: d.file < base };
    proof {
        assert(r.dv() =~= spec_site(d.dv(), crate::record::dv_files(files@), base as int));
    }
    r
}

/// The first type with the given fully-qualified name, searched from
/// position `i` of the type list.
pub open spec fn spec_find_type(types: Seq<TypeDeclV>, name: Seq<u8>, i: int) -> Option<int>
    decreases types.len() - i,
{
    if i < 0 || i >= types.len() {
        None
    } else if types[i].full_name == name {
        Some(i)
    } else {
        spec_find_type(types, name, i + 1)
    }
}

/// Looks a fully-qualified name up in the type list.
#[verifier::loop_isolation(false)]
pub fn find_type(types: &Vec<TypeDecl>, name: &Vec<u8>) -> (r: Option<usize>)
    ensures
        match r {
            Some(k) => spec_find_type(dv_types(types@), name@, 0) == Some(k as int),
            None => spec_find_type(dv_types(types@), name@, 0) is None,
    },
{
    let ghost stypes = dv_types(types@);
    let mut i: usize = 0;
    while i < types.len()
        invariant
            i <= types.len(),
            spec_find_type(stypes, name@, i as int) == spec_find_type(stypes, name@, 0),
        decreases types.len() - i,
    {
        if bytes_eq(&types[i].full_name, name) {
            proof {
                assert(spec_find_type(stypes, name@, i as int) == Some(i as int));
            }
            return Some(i);
        }
        proof {
            assert(stypes[i as int].full_name == types@[i as int].dv().full_name);
            assert(spec_find_type(stypes, name@, i as int) == spec_find_type(
                stypes,
                name@,
                i + 1,
            ));
        }
        i += 1;
    }
    None
}

/// Outward scoped resolution of a relative reference: the candidate
/// `scope.reference` is tried at each scope from the referencing one to
/// the root, and the first scope with a match decides.
pub open spec fn spec_resolve_outward(
    types: Seq<TypeDeclV>,
    scope: Seq<u8>,
    reference: Seq<u8>,
) -> Option<int>
    decreases scope.len(),
    via spec_resolve_outward_decreases
{
    match spec_find_type(types, spec_join(scope, reference), 0) {
        Some(i) => Some(i),
        None => {
            if scope.len() == 0 {
                None
            } else {
                spec_resolve_outward(types, spec_parent_scope(scope), reference)
            }
        },
    }
}

#[via_fn]
proof fn spec_resolve_outward_decreases(types: Seq<TypeDeclV>, scope: Seq<u8>, reference: Seq<u8>) {
    if scope.len() > 0 {
        crate::collect::lemma_parent_scope_len(scope);
    }
}

/// Resolution of a textual type reference from a scope: absolute
/// references are looked up from the root, relative ones search outward.
pub open spec fn spec_resolve(
    types: Seq<TypeDeclV>,
    scope: Seq<u8>,
    reference: Seq<u8>,
) -> Option<int> {
    if spec_is_absolute(reference) {
        spec_find_type(types, reference.skip(1), 0)
    } else {
        spec_resolve_outward(types, scope, reference)
    }
}

/// Resolves a type reference; `None` is a *TypeNameNotFound* condition at
/// the caller.
#[verifier::loop_isolation(false)]
pub fn resolve_reference(types: &Vec<TypeDecl>, scope: &Vec<u8>, reference: &Vec<u8>) -> (r:
    Option<usize>)
    ensures
        match r {
            Some(k) => spec_resolve(dv_types(types@), scope@, reference@) == Some(k as int) && (
            k as int) < types@.len(),
            None => spec_resolve(dv_types(types@), scope@, reference@) is None,
    },
{
    proof {
        lemma_find_type_in_range(dv_types(types@), reference@.skip(1), 0);
    }
    if is_absolute(reference) {
        let mut stripped: Vec<u8> = Vec::new();
        let mut i: usize = 1;
        while i < reference.len()
            invariant
                1 <= i <= reference.len(),
                stripped@ == reference@.skip(1).take(i - 1),
            decreases reference.len() - i,
        {
            stripped.push(reference[i]);
            proof {
                assert(reference@.skip(1).take(i - 1).push(reference@[i as int]) =~= reference@.skip(
                    1,
                ).take(i as int));
            }
            i += 1;
        }
        proof {
            assert(reference@.skip(1).take(reference@.len() - 1) =~= reference@.skip(1));
        }
        find_type(types, &stripped)
    } else {
        let mut scope_now = clone_bytes(scope);
        loop
            invariant
                spec_resolve_outward(dv_types(types@), scope_now@, reference@) == spec_resolve_outward(
                    dv_types(types@),
                    scope@,
                    reference@,
                ),
            decreases scope_now@.len(),
        {
            let candidate = crate::name::join_name(&scope_now, reference);
            match find_type(types, &candidate) {
                Some(k) => {
                    proof {
                        lemma_find_type_in_range(dv_types(types@), candidate@, 0);
                    }
                    return Some(k);
                },
                None => {
                    if scope_now.len() == 0 {
                        return None;
                    }
                    proof {
                        crate::collect::lemma_parent_scope_len(scope_now@);
                    }
                    scope_now = parent_scope(&scope_now);
                },
            }
        }
    }
}

pub proof fn lemma_find_type_in_range(types: Seq<TypeDeclV>, name: Seq<u8>, i: int)
    ensures
        match spec_find_type(types, name, i) {
            Some(k) => i <= k < types.len(),
            None => true,
    },
    decreases types.len() - i,
{
    if 0 <= i < types.len() && types[i].full_name != name {
        lemma_find_type_in_range(types, name, i + 1);
    }
}

/// Scoped resolution never lets the scope influence an absolute
/// reference: a rooted name resolves identically from every scope.
pub proof fn lemma_absolute_resolution_scope_independent(
    types: Seq<TypeDeclV>,
    scope_a: Seq<u8>,
    scope_b: Seq<u8>,
    reference: Seq<u8>,
)
    requires
        spec_is_absolute(reference),
    ensures
        spec_resolve(types, scope_a, reference) == spec_resolve(types, scope_b, reference),
{
}

} // verus!
