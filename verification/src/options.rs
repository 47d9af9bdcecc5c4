//! The option resolver: every option statement attached to a declaration
//! is resolved against the pool and merged. A statement names a path of
//! extension or plain option-message fields; the leading extension must be
//! registered against the declaration's standard options message, later
//! segments walk fields of the resolved message types, and the leaf values
//! merge by path — a second assignment to one non-repeated leaf is an
//! *OptionAlreadySet* naming both statements, while repeated leaves append
//! in statement order. A plain leading name is checked against the fields
//! of the declaration's standard options message whenever the pool holds
//! that message; only when the pool does not hold it is the name carried
//! through without structural checks.

use vstd::prelude::*;

use crate::bytes::{bytes_eq, clone_bytes};
use crate::collect::{Decl, DeclKind, DeclKindV, DeclV};
use crate::condition::{Condition, ConditionV};
use crate::graph::{
    dv_extension_datas, dv_type_datas, ExtensionData, ExtensionDataV, FieldKind, TypeData,
    TypeDataV,
};
use crate::name::{spec_is_absolute, spec_join, spec_parent_scope};
use crate::record::{
    dv_options, OptionPathSegment, OptionPathSegmentV, OptionRecord, OptionRecordV, OptionValue,
    OptionValueV,
};
use crate::scalar::Cardinality;

verus! {

/// One merged option leaf: the canonical path text, the values assigned
/// to it (several only for a repeated leaf, in statement order), and the
/// statement that first set it.
#[derive(Debug)]
pub struct MergedOption {
    pub path: Vec<u8>,
    pub values: Vec<OptionValue>,
    pub first: usize,
}

/// Spec mirror of [`MergedOption`].
#[verifier::ext_equal]
pub struct MergedOptionV {
    pub path: Seq<u8>,
    pub values: Seq<OptionValueV>,
    pub first: usize,
}

impl MergedOption {
    pub open spec fn dv(&self) -> MergedOptionV {
        MergedOptionV {
            path: self.path@,
            values: Seq::new(self.values@.len(), |i: int| self.values@[i].dv()),
            first: self.first,
        }
    }
}

pub open spec fn dv_merged(s: Seq<MergedOption>) -> Seq<MergedOptionV> {
    Seq::new(s.len(), |i: int| s[i].dv())
}

/// The merged options of one declaration.
#[derive(Debug)]
pub struct DeclOptions {
    /// The declaration's fully-qualified name, or the file name for
    /// file-level options.
    pub owner: Vec<u8>,
    pub entries: Vec<MergedOption>,
}

/// Spec mirror of [`DeclOptions`].
#[verifier::ext_equal]
pub struct DeclOptionsV {
    pub owner: Seq<u8>,
    pub entries: Seq<MergedOptionV>,
}

impl DeclOptions {
    pub open spec fn dv(&self) -> DeclOptionsV {
        DeclOptionsV { owner: self.owner@, entries: dv_merged(self.entries@) }
    }
}

pub open spec fn dv_decl_options(s: Seq<DeclOptions>) -> Seq<DeclOptionsV> {
    Seq::new(s.len(), |i: int| s[i].dv())
}

/// The canonical text of one path segment: extension names are
/// parenthesized.
pub open spec fn spec_segment_text(s: OptionPathSegmentV) -> Seq<u8> {
    match s {
        OptionPathSegmentV::Plain(n) => n,
        OptionPathSegmentV::Extension(n) => seq![40u8] + n + seq![41u8],
    }
}

/// The canonical dotted text of an option path.
pub open spec fn spec_path_text(path: Seq<OptionPathSegmentV>) -> Seq<u8>
    decreases path.len(),
{
    if path.len() == 0 {
        Seq::empty()
    } else if path.len() == 1 {
        spec_segment_text(path[0])
    } else {
        spec_segment_text(path[0]) + seq![46u8] + spec_path_text(path.skip(1))
    }
}

fn push_segment_text(out: &mut Vec<u8>, s: &OptionPathSegment)
    ensures
        final(out)@ == old(out)@ + spec_segment_text(s.dv()),
{
    match s {
        OptionPathSegment::Plain(n) => {
            crate::bytes::push_all(out, n);
        },
        OptionPathSegment::Extension(n) => {
            out.push(40);
            crate::bytes::push_all(out, n);
            out.push(41);
            proof {
                assert(final(out)@ =~= old(out)@ + spec_segment_text(s.dv()));
            }
        },
    }
}

/// Renders an option path as its canonical text.
#[verifier::loop_isolation(false)]
pub fn path_text(path: &Vec<OptionPathSegment>) -> (r: Vec<u8>)
    ensures
        r@ == spec_path_text(Seq::new(path@.len(), |i: int| path@[i].dv())),
{
    let ghost spath = Seq::new(path@.len(), |i: int| path@[i].dv());
    let mut out: Vec<u8> = Vec::new();
    path_text_from(path, 0, &mut out);
    proof {
        assert(spath.skip(0) =~= spath);
    }
    out
}

fn path_text_from(path: &Vec<OptionPathSegment>, from: usize, out: &mut Vec<u8>)
    requires
        from <= path@.len(),
    ensures
        final(out)@ == old(out)@ + spec_path_text(
            Seq::new(path@.len(), |i: int| path@[i].dv()).skip(from as int),
        ),
    decreases path@.len() - from,
{
    let ghost spath = Seq::new(path@.len(), |i: int| path@[i].dv());
    let ghost tail = spath.skip(from as int);
    if from == path.len() {
        proof {
            assert(old(out)@ + spec_path_text(tail) =~= old(out)@);
        }
        return;
    }
    proof {
        assert(tail[0] == spath[from as int]);
        assert(tail.skip(1) =~= spath.skip(from + 1));
    }
    push_segment_text(out, &path[from]);
    if from + 1 == path.len() {
        proof {
            assert(final(out)@ =~= old(out)@ + spec_path_text(tail));
        }
        return;
    }
    out.push(46);
    path_text_from(path, from + 1, out);
    proof {
        assert(final(out)@ =~= old(out)@ + spec_path_text(tail));
    }
}

/// The first extension registration with the given fully-qualified name.
pub open spec fn spec_find_ext(exts: Seq<ExtensionDataV>, name: Seq<u8>, i: int) -> Option<int>
    decreases exts.len() - i,
{
    if i < 0 || i >= exts.len() {
        None
    } else if exts[i].full_name == name {
        Some(i)
    } else {
        spec_find_ext(exts, name, i + 1)
    }
}

#[verifier::loop_isolation(false)]
fn find_ext(exts: &Vec<ExtensionData>, name: &Vec<u8>) -> (r: Option<usize>)
    ensures
        match r {
            Some(k) => spec_find_ext(dv_extension_datas(exts@), name@, 0) == Some(k as int) && (
            k as int) < exts@.len(),
            None => spec_find_ext(dv_extension_datas(exts@), name@, 0) is None,
        },
{
    let ghost sexts = dv_extension_datas(exts@);
    let mut i: usize = 0;
    while i < exts.len()
        invariant
            i <= exts.len(),
            spec_find_ext(sexts, name@, i as int) == spec_find_ext(sexts, name@, 0),
        decreases exts.len() - i,
    {
        if bytes_eq(&exts[i].full_name, name) {
            proof {
                assert(spec_find_ext(sexts, name@, i as int) == Some(i as int));
            }
            return Some(i);
        }
        proof {
            assert(sexts[i as int].full_name == exts@[i as int].dv().full_name);
            assert(spec_find_ext(sexts, name@, i as int) == spec_find_ext(sexts, name@, i + 1));
        }
        i += 1;
    }
    None
}

/// Outward scoped resolution of an extension reference, like type
/// resolution but over the extension registry.
pub open spec fn spec_resolve_ext_outward(
    exts: Seq<ExtensionDataV>,
    scope: Seq<u8>,
    reference: Seq<u8>,
) -> Option<int>
    decreases scope.len(),
    via spec_resolve_ext_outward_decreases
{
    match spec_find_ext(exts, spec_join(scope, reference), 0) {
        Some(i) => Some(i),
        None => {
            if scope.len() == 0 {
                None
            } else {
                spec_resolve_ext_outward(exts, spec_parent_scope(scope), reference)
            }
        },
    }
}

#[via_fn]
proof fn spec_resolve_ext_outward_decreases(
    exts: Seq<ExtensionDataV>,
    scope: Seq<u8>,
    reference: Seq<u8>,
) {
    if scope.len() > 0 {
        crate::collect::lemma_parent_scope_len(scope);
    }
}

/// Resolution of an extension reference from a scope.
pub open spec fn spec_resolve_ext(
    exts: Seq<ExtensionDataV>,
    scope: Seq<u8>,
    reference: Seq<u8>,
) -> Option<int> {
    if spec_is_absolute(reference) {
        spec_find_ext(exts, reference.skip(1), 0)
    } else {
        spec_resolve_ext_outward(exts, scope, reference)
    }
}

/// Resolves an extension reference of an option path.
#[verifier::loop_isolation(false)]
pub fn resolve_ext(exts: &Vec<ExtensionData>, scope: &Vec<u8>, reference: &Vec<u8>) -> (r:
    Option<usize>)
    ensures
        match r {
            Some(k) => spec_resolve_ext(dv_extension_datas(exts@), scope@, reference@) == Some(
                k as int,
            ) && (k as int) < exts@.len(),
            None => spec_resolve_ext(dv_extension_datas(exts@), scope@, reference@) is None,
        },
{
    if crate::name::is_absolute(reference) {
        let mut stripped: Vec<u8> = Vec::new();
        let mut i: usize = 1;
        while i < reference.len()
            invariant
                1 <= i <= reference.len(),
                stripped@ == reference@.skip(1).take(i - 1),
            decreases reference.len() - i,
        {
            stripped.push(reference[i]);
            proof {
                assert(reference@.skip(1).take(i - 1).push(reference@[i as int])
                    =~= reference@.skip(1).take(i as int));
            }
            i += 1;
        }
        proof {
            assert(reference@.skip(1).take(reference@.len() - 1) =~= reference@.skip(1));
        }
        find_ext(exts, &stripped)
    } else {
        let mut scope_now = clone_bytes(scope);
        loop
            invariant
                spec_resolve_ext_outward(dv_extension_datas(exts@), scope_now@, reference@)
                    == spec_resolve_ext_outward(dv_extension_datas(exts@), scope@, reference@),
            decreases scope_now@.len(),
        {
            let candidate = crate::name::join_name(&scope_now, reference);
            match find_ext(exts, &candidate) {
                Some(k) => {
                    return Some(k);
                },
                None => {
                    if scope_now.len() == 0 {
                        return None;
                    }
                    proof {
                        crate::collect::lemma_parent_scope_len(scope_now@);
                    }
                    scope_now = parent_scope_local(&scope_now);
                },
            }
        }
    }
}

fn parent_scope_local(s: &Vec<u8>) -> (r: Vec<u8>)
    ensures
        r@ == spec_parent_scope(s@),
{
    crate::name::parent_scope(s)
}

/// The first field of a message with the given name.
pub open spec fn spec_find_data_field(
    fields: Seq<crate::graph::FieldDataV>,
    name: Seq<u8>,
    i: int,
) -> Option<int>
    decreases fields.len() - i,
{
    if i < 0 || i >= fields.len() {
        None
    } else if fields[i].name == name {
        Some(i)
    } else {
        spec_find_data_field(fields, name, i + 1)
    }
}

/// The analysis of an option path's tail from a resolved position: walks
/// remaining segments as fields of the current message type and reports
/// the leaf's repeatedness; an unknown name is an *UnknownOptionField*.
pub open spec fn spec_walk_path(
    types: Seq<TypeDataV>,
    exts: Seq<ExtensionDataV>,
    owner: Seq<u8>,
    scope: Seq<u8>,
    current: FieldKind,
    last_repeated: bool,
    path: Seq<OptionPathSegmentV>,
    i: int,
) -> (bool, Seq<ConditionV>)
    decreases path.len() - i,
{
    if i < 0 || i >= path.len() {
        (last_repeated, Seq::empty())
    } else {
        match current {
            FieldKind::Message(t) => {
                if t < types.len() && types[t as int] is Message {
                    let m = types[t as int]->Message_0;
                    match path[i] {
                        OptionPathSegmentV::Plain(n) => match spec_find_data_field(
                            m.fields,
                            n,
                            0,
                        ) {
                            Some(k) => spec_walk_path(
                                types,
                                exts,
                                owner,
                                scope,
                                m.fields[k].kind,
                                m.fields[k].cardinality is Repeated,
                                path,
                                i + 1,
                            ),
                            None => (
                                false,
                                seq![ConditionV::UnknownOptionField { owner, name: n }],
                            ),
                        },
                        OptionPathSegmentV::Extension(n) => match spec_resolve_ext(
                            exts,
                            scope,
                            n,
                        ) {
                            Some(k) => {
                                if exts[k].target == t {
                                    spec_walk_path(
                                        types,
                                        exts,
                                        owner,
                                        scope,
                                        exts[k].field.kind,
                                        exts[k].field.cardinality is Repeated,
                                        path,
                                        i + 1,
                                    )
                                } else {
                                    (
                                        false,
                                        seq![ConditionV::UnknownOptionField { owner, name: n }],
                                    )
                                }
                            },
                            None => (
                                false,
                                seq![ConditionV::UnknownOptionField { owner, name: n }],
                            ),
                        },
                    }
                } else {
                    (false, Seq::empty())
                }
            },
            _ => (
                false,
                seq![
                    ConditionV::UnknownOptionField {
                        owner,
                        name: spec_segment_text(path[i]),
                    },
                ],
            ),
        }
    }
}

/// Walks an option path's remaining segments.
#[verifier::loop_isolation(false)]
#[verifier::rlimit(60)]
pub fn walk_path(
    types: &Vec<TypeData>,
    exts: &Vec<ExtensionData>,
    owner: &Vec<u8>,
    scope: &Vec<u8>,
    current: FieldKind,
    last_repeated: bool,
    path: &Vec<OptionPathSegment>,
    i: usize,
) -> (r: (bool, Vec<Condition>))
    requires
        i <= path@.len(),
    ensures
        ({
            let (rep, conds) = spec_walk_path(
                dv_type_datas(types@),
                dv_extension_datas(exts@),
                owner@,
                scope@,
                current,
                last_repeated,
                Seq::new(path@.len(), |k: int| path@[k].dv()),
                i as int,
            );
            &&& r.0 == rep
            &&& crate::condition::dv_conditions(r.1@) == conds
        }),
    decreases path@.len() - i,
{
    let ghost stypes = dv_type_datas(types@);
    let ghost sexts = dv_extension_datas(exts@);
    let ghost spath = Seq::new(path@.len(), |k: int| path@[k].dv());
    if i == path.len() {
        let conds: Vec<Condition> = Vec::new();
        proof {
            assert(crate::condition::dv_conditions(conds@) =~= Seq::<ConditionV>::empty());
        }
        return (last_repeated, conds);
    }
    proof {
        assert(spath[i as int] == path@[i as int].dv());
    }
    match current {
        FieldKind::Message(t) => {
            if t >= types.len() {
                let conds: Vec<Condition> = Vec::new();
                proof {
                    assert(crate::condition::dv_conditions(conds@) =~= Seq::<ConditionV>::empty());
                }
                return (false, conds);
            }
            proof {
                assert(stypes[t as int] == types@[t as int].dv());
            }
            match &types[t] {
                TypeData::Message(m) => {
                    let ghost sm = stypes[t as int]->Message_0;
                    proof {
                        assert(m.dv() == sm);
                    }
                    match &path[i] {
                        OptionPathSegment::Plain(n) => {
                            let mut k: usize = 0;
                            let mut found: Option<usize> = None;
                            while k < m.fields.len()
                                invariant
                                    k <= m.fields.len(),
                                    found is None,
                                    spec_find_data_field(sm.fields, n@, k as int)
                                        == spec_find_data_field(sm.fields, n@, 0),
                                decreases m.fields.len() - k,
                            {
                                if bytes_eq(&m.fields[k].name, n) {
                                    proof {
                                        assert(sm.fields[k as int] == m.fields@[k as int].dv());
                                        assert(spec_find_data_field(sm.fields, n@, k as int)
                                            == Some(k as int));
                                    }
                                    found = Some(k);
                                    break;
                                }
                                proof {
                                    assert(sm.fields[k as int] == m.fields@[k as int].dv());
                                    assert(spec_find_data_field(sm.fields, n@, k as int)
                                        == spec_find_data_field(sm.fields, n@, k + 1));
                                }
                                k += 1;
                            }
                            match found {
                                Some(k) => {
                                    let fk = m.fields[k].kind;
                                    let rep = matches!(
                                        m.fields[k].cardinality,
                                        Cardinality::Repeated,
                                    );
                                    proof {
                                        assert(sm.fields[k as int] == m.fields@[k as int].dv());
                                    }
                                    walk_path(types, exts, owner, scope, fk, rep, path, i + 1)
                                },
                                None => {
                                    let mut conds: Vec<Condition> = Vec::new();
                                    conds.push(
                                        Condition::UnknownOptionField {
                                            owner: clone_bytes(owner),
                                            name: clone_bytes(n),
                                        },
                                    );
                                    proof {
                                        assert(crate::condition::dv_conditions(conds@) =~= seq![
                                            ConditionV::UnknownOptionField {
                                                owner: owner@,
                                                name: n@,
                                            },
                                        ]);
                                    }
                                    (false, conds)
                                },
                            }
                        },
                        OptionPathSegment::Extension(n) => {
                            match resolve_ext(exts, scope, n) {
                                Some(k) => {
                                    proof {
                                        assert(sexts[k as int] == exts@[k as int].dv());
                                    }
                                    if exts[k].target == t {
                                        let fk = exts[k].field.kind;
                                        let rep = matches!(
                                            exts[k].field.cardinality,
                                            Cardinality::Repeated,
                                        );
                                        walk_path(
                                            types,
                                            exts,
                                            owner,
                                            scope,
                                            fk,
                                            rep,
                                            path,
                                            i + 1,
                                        )
                                    } else {
                                        let mut conds: Vec<Condition> = Vec::new();
                                        conds.push(
                                            Condition::UnknownOptionField {
                                                owner: clone_bytes(owner),
                                                name: clone_bytes(n),
                                            },
                                        );
                                        proof {
                                            assert(crate::condition::dv_conditions(conds@)
                                                =~= seq![
                                                ConditionV::UnknownOptionField {
                                                    owner: owner@,
                                                    name: n@,
                                                },
                                            ]);
                                        }
                                        (false, conds)
                                    }
                                },
                                None => {
                                    let mut conds: Vec<Condition> = Vec::new();
                                    conds.push(
                                        Condition::UnknownOptionField {
                                            owner: clone_bytes(owner),
                                            name: clone_bytes(n),
                                        },
                                    );
                                    proof {
                                        assert(crate::condition::dv_conditions(conds@) =~= seq![
                                            ConditionV::UnknownOptionField {
                                                owner: owner@,
                                                name: n@,
                                            },
                                        ]);
                                    }
                                    (false, conds)
                                },
                            }
                        },
                    }
                },
                TypeData::Enum(_) => {
                    let conds: Vec<Condition> = Vec::new();
                    proof {
                        assert(crate::condition::dv_conditions(conds@)
                            =~= Seq::<ConditionV>::empty());
                    }
                    (false, conds)
                },
            }
        },
        _ => {
            let mut conds: Vec<Condition> = Vec::new();
            let mut name: Vec<u8> = Vec::new();
            push_segment_text(&mut name, &path[i]);
            proof {
                assert(name@ =~= spec_segment_text(spath[i as int]));
            }
            conds.push(
                Condition::UnknownOptionField { owner: clone_bytes(owner), name },
            );
            proof {
                assert(crate::condition::dv_conditions(conds@) =~= seq![
                    ConditionV::UnknownOptionField {
                        owner: owner@,
                        name: spec_segment_text(spath[i as int]),
                    },
                ]);
            }
            (false, conds)
        },
    }
}


/// The standard options message for this kind of declaration.
pub open spec fn spec_file_options_name() -> Seq<u8> {
    seq![
        103u8, 111u8, 111u8, 103u8, 108u8, 101u8, 46u8, 112u8, 114u8, 111u8, 116u8, 111u8,
        98u8, 117u8, 102u8, 46u8, 70u8, 105u8, 108u8, 101u8, 79u8, 112u8, 116u8, 105u8, 111u8,
        110u8, 115u8
    ]
}

fn file_options_name() -> (r: Vec<u8>)
    ensures
        r@ == spec_file_options_name(),
{
    let mut t: Vec<u8> = Vec::new();
    t.push(103);
    t.push(111);
    t.push(111);
    t.push(103);
    t.push(108);
    t.push(101);
    t.push(46);
    t.push(112);
    t.push(114);
    t.push(111);
    t.push(116);
    t.push(111);
    t.push(98);
    t.push(117);
    t.push(102);
    t.push(46);
    t.push(70);
    t.push(105);
    t.push(108);
    t.push(101);
    t.push(79);
    t.push(112);
    t.push(116);
    t.push(105);
    t.push(111);
    t.push(110);
    t.push(115);
    proof {
        assert(t@ =~= spec_file_options_name());
    }
    t
}


/// The standard options message for this kind of declaration.
pub open spec fn spec_message_options_name() -> Seq<u8> {
    seq![
        103u8, 111u8, 111u8, 103u8, 108u8, 101u8, 46u8, 112u8, 114u8, 111u8, 116u8, 111u8,
        98u8, 117u8, 102u8, 46u8, 77u8, 101u8, 115u8, 115u8, 97u8, 103u8, 101u8, 79u8, 112u8,
        116u8, 105u8, 111u8, 110u8, 115u8
    ]
}

fn message_options_name() -> (r: Vec<u8>)
    ensures
        r@ == spec_message_options_name(),
{
    let mut t: Vec<u8> = Vec::new();
    t.push(103);
    t.push(111);
    t.push(111);
    t.push(103);
    t.push(108);
    t.push(101);
    t.push(46);
    t.push(112);
    t.push(114);
    t.push(111);
    t.push(116);
    t.push(111);
    t.push(98);
    t.push(117);
    t.push(102);
    t.push(46);
    t.push(77);
    t.push(101);
    t.push(115);
    t.push(115);
    t.push(97);
    t.push(103);
    t.push(101);
    t.push(79);
    t.push(112);
    t.push(116);
    t.push(105);
    t.push(111);
    t.push(110);
    t.push(115);
    proof {
        assert(t@ =~= spec_message_options_name());
    }
    t
}


/// The standard options message for this kind of declaration.
pub open spec fn spec_field_options_name() -> Seq<u8> {
    seq![
        103u8, 111u8, 111u8, 103u8, 108u8, 101u8, 46u8, 112u8, 114u8, 111u8, 116u8, 111u8,
        98u8, 117u8, 102u8, 46u8, 70u8, 105u8, 101u8, 108u8, 100u8, 79u8, 112u8, 116u8, 105u8,
        111u8, 110u8, 115u8
    ]
}

fn field_options_name() -> (r: Vec<u8>)
    ensures
        r@ == spec_field_options_name(),
{
    let mut t: Vec<u8> = Vec::new();
    t.push(103);
    t.push(111);
    t.push(111);
    t.push(103);
    t.push(108);
    t.push(101);
    t.push(46);
    t.push(112);
    t.push(114);
    t.push(111);
    t.push(116);
    t.push(111);
    t.push(98);
    t.push(117);
    t.push(102);
    t.push(46);
    t.push(70);
    t.push(105);
    t.push(101);
    t.push(108);
    t.push(100);
    t.push(79);
    t.push(112);
    t.push(116);
    t.push(105);
    t.push(111);
    t.push(110);
    t.push(115);
    proof {
        assert(t@ =~= spec_field_options_name());
    }
    t
}


/// The standard options message for this kind of declaration.
pub open spec fn spec_oneof_options_name() -> Seq<u8> {
    seq![
        103u8, 111u8, 111u8, 103u8, 108u8, 101u8, 46u8, 112u8, 114u8, 111u8, 116u8, 111u8,
        98u8, 117u8, 102u8, 46u8, 79u8, 110u8, 101u8, 111u8, 102u8, 79u8, 112u8, 116u8, 105u8,
        111u8, 110u8, 115u8
    ]
}

fn oneof_options_name() -> (r: Vec<u8>)
    ensures
        r@ == spec_oneof_options_name(),
{
    let mut t: Vec<u8> = Vec::new();
    t.push(103);
    t.push(111);
    t.push(111);
    t.push(103);
    t.push(108);
    t.push(101);
    t.push(46);
    t.push(112);
    t.push(114);
    t.push(111);
    t.push(116);
    t.push(111);
    t.push(98);
    t.push(117);
    t.push(102);
    t.push(46);
    t.push(79);
    t.push(110);
    t.push(101);
    t.push(111);
    t.push(102);
    t.push(79);
    t.push(112);
    t.push(116);
    t.push(105);
    t.push(111);
    t.push(110);
    t.push(115);
    proof {
        assert(t@ =~= spec_oneof_options_name());
    }
    t
}


/// The standard options message for this kind of declaration.
pub open spec fn spec_enum_options_name() -> Seq<u8> {
    seq![
        103u8, 111u8, 111u8, 103u8, 108u8, 101u8, 46u8, 112u8, 114u8, 111u8, 116u8, 111u8,
        98u8, 117u8, 102u8, 46u8, 69u8, 110u8, 117u8, 109u8, 79u8, 112u8, 116u8, 105u8, 111u8,
        110u8, 115u8
    ]
}

fn enum_options_name() -> (r: Vec<u8>)
    ensures
        r@ == spec_enum_options_name(),
{
    let mut t: Vec<u8> = Vec::new();
    t.push(103);
    t.push(111);
    t.push(111);
    t.push(103);
    t.push(108);
    t.push(101);
    t.push(46);
    t.push(112);
    t.push(114);
    t.push(111);
    t.push(116);
    t.push(111);
    t.push(98);
    t.push(117);
    t.push(102);
    t.push(46);
    t.push(69);
    t.push(110);
    t.push(117);
    t.push(109);
    t.push(79);
    t.push(112);
    t.push(116);
    t.push(105);
    t.push(111);
    t.push(110);
    t.push(115);
    proof {
        assert(t@ =~= spec_enum_options_name());
    }
    t
}


/// The standard options message for this kind of declaration.
pub open spec fn spec_enum_value_options_name() -> Seq<u8> {
    seq![
        103u8, 111u8, 111u8, 103u8, 108u8, 101u8, 46u8, 112u8, 114u8, 111u8, 116u8, 111u8,
        98u8, 117u8, 102u8, 46u8, 69u8, 110u8, 117u8, 109u8, 86u8, 97u8, 108u8, 117u8, 101u8,
        79u8, 112u8, 116u8, 105u8, 111u8, 110u8, 115u8
    ]
}

fn enum_value_options_name() -> (r: Vec<u8>)
    ensures
        r@ == spec_enum_value_options_name(),
{
    let mut t: Vec<u8> = Vec::new();
    t.push(103);
    t.push(111);
    t.push(111);
    t.push(103);
    t.push(108);
    t.push(101);
    t.push(46);
    t.push(112);
    t.push(114);
    t.push(111);
    t.push(116);
    t.push(111);
    t.push(98);
    t.push(117);
    t.push(102);
    t.push(46);
    t.push(69);
    t.push(110);
    t.push(117);
    t.push(109);
    t.push(86);
    t.push(97);
    t.push(108);
    t.push(117);
    t.push(101);
    t.push(79);
    t.push(112);
    t.push(116);
    t.push(105);
    t.push(111);
    t.push(110);
    t.push(115);
    proof {
        assert(t@ =~= spec_enum_value_options_name());
    }
    t
}


/// The standard options message for this kind of declaration.
pub open spec fn spec_service_options_name() -> Seq<u8> {
    seq![
        103u8, 111u8, 111u8, 103u8, 108u8, 101u8, 46u8, 112u8, 114u8, 111u8, 116u8, 111u8,
        98u8, 117u8, 102u8, 46u8, 83u8, 101u8, 114u8, 118u8, 105u8, 99u8, 101u8, 79u8, 112u8,
        116u8, 105u8, 111u8, 110u8, 115u8
    ]
}

fn service_options_name() -> (r: Vec<u8>)
    ensures
        r@ == spec_service_options_name(),
{
    let mut t: Vec<u8> = Vec::new();
    t.push(103);
    t.push(111);
    t.push(111);
    t.push(103);
    t.push(108);
    t.push(101);
    t.push(46);
    t.push(112);
    t.push(114);
    t.push(111);
    t.push(116);
    t.push(111);
    t.push(98);
    t.push(117);
    t.push(102);
    t.push(46);
    t.push(83);
    t.push(101);
    t.push(114);
    t.push(118);
    t.push(105);
    t.push(99);
    t.push(101);
    t.push(79);
    t.push(112);
    t.push(116);
    t.push(105);
    t.push(111);
    t.push(110);
    t.push(115);
    proof {
        assert(t@ =~= spec_service_options_name());
    }
    t
}


/// The standard options message for this kind of declaration.
pub open spec fn spec_method_options_name() -> Seq<u8> {
    seq![
        103u8, 111u8, 111u8, 103u8, 108u8, 101u8, 46u8, 112u8, 114u8, 111u8, 116u8, 111u8,
        98u8, 117u8, 102u8, 46u8, 77u8, 101u8, 116u8, 104u8, 111u8, 100u8, 79u8, 112u8, 116u8,
        105u8, 111u8, 110u8, 115u8
    ]
}

fn method_options_name() -> (r: Vec<u8>)
    ensures
        r@ == spec_method_options_name(),
{
    let mut t: Vec<u8> = Vec::new();
    t.push(103);
    t.push(111);
    t.push(111);
    t.push(103);
    t.push(108);
    t.push(101);
    t.push(46);
    t.push(112);
    t.push(114);
    t.push(111);
    t.push(116);
    t.push(111);
    t.push(98);
    t.push(117);
    t.push(102);
    t.push(46);
    t.push(77);
    t.push(101);
    t.push(116);
    t.push(104);
    t.push(111);
    t.push(100);
    t.push(79);
    t.push(112);
    t.push(116);
    t.push(105);
    t.push(111);
    t.push(110);
    t.push(115);
    proof {
        assert(t@ =~= spec_method_options_name());
    }
    t
}


/// The first message of the arena with this full name.
pub open spec fn spec_find_message_type(
    types: Seq<TypeDataV>,
    name: Seq<u8>,
    i: int,
) -> Option<int>
    decreases types.len() - i,
{
    if i < 0 || i >= types.len() {
        None
    } else if types[i] is Message && types[i]->Message_0.full_name == name {
        Some(i)
    } else {
        spec_find_message_type(types, name, i + 1)
    }
}

#[verifier::loop_isolation(false)]
fn find_message_type(types: &Vec<TypeData>, name: &Vec<u8>) -> (r: Option<usize>)
    ensures
        match r {
            Some(k) => spec_find_message_type(dv_type_datas(types@), name@, 0) == Some(k as int)
                && (k as int) < types@.len(),
            None => spec_find_message_type(dv_type_datas(types@), name@, 0) is None,
        },
{
    let ghost stypes = dv_type_datas(types@);
    let mut i: usize = 0;
    while i < types.len()
        invariant
            i <= types.len(),
            spec_find_message_type(stypes, name@, i as int) == spec_find_message_type(
                stypes,
                name@,
                0,
            ),
        decreases types.len() - i,
    {
        proof {
            assert(stypes[i as int] == types@[i as int].dv());
        }
        match &types[i] {
            TypeData::Message(m) => {
                if bytes_eq(&m.full_name, name) {
                    proof {
                        assert(spec_find_message_type(stypes, name@, i as int) == Some(i as int));
                    }
                    return Some(i);
                }
            },
            TypeData::Enum(_) => {
            },
        }
        i += 1;
    }
    None
}

proof fn lemma_find_message_type_found(types: Seq<TypeDataV>, name: Seq<u8>, i: int)
    ensures
        match spec_find_message_type(types, name, i) {
            Some(k) => i <= k < types.len() && types[k] is Message && types[k]->Message_0.full_name
                == name,
            None => true,
        },
    decreases types.len() - i,
{
    if 0 <= i < types.len() && !(types[i] is Message && types[i]->Message_0.full_name == name) {
        lemma_find_message_type_found(types, name, i + 1);
    }
}

/// The analysis of one option statement: whether its leaf is repeated,
/// and the conditions its path resolution raises. A plain leading name is
/// a field of the declaration's standard options message: where the pool
/// holds that message the name must be one of its fields, and only where
/// it does not is the name carried through unchecked. An extension
/// leading name must be registered against that very options message.
pub open spec fn spec_analyze_statement(
    types: Seq<TypeDataV>,
    exts: Seq<ExtensionDataV>,
    owner: Seq<u8>,
    scope: Seq<u8>,
    expected: Seq<u8>,
    opt: OptionRecordV,
) -> (bool, Seq<ConditionV>) {
    if opt.path.len() == 0 {
        (false, Seq::empty())
    } else {
        match opt.path[0] {
            OptionPathSegmentV::Plain(n) => match spec_find_message_type(types, expected, 0) {
                Some(t) => {
                    let m = types[t]->Message_0;
                    match spec_find_data_field(m.fields, n, 0) {
                        Some(k) => spec_walk_path(
                            types,
                            exts,
                            owner,
                            scope,
                            m.fields[k].kind,
                            m.fields[k].cardinality is Repeated,
                            opt.path,
                            1,
                        ),
                        None => (false, seq![ConditionV::UnknownOptionField { owner, name: n }]),
                    }
                },
                None => (false, Seq::empty()),
            },
            OptionPathSegmentV::Extension(n) => match spec_resolve_ext(exts, scope, n) {
                Some(k) => {
                    let target = exts[k].target;
                    if (target as int) < types.len() && types[target as int] is Message
                        && types[target as int]->Message_0.full_name == expected {
                        spec_walk_path(
                            types,
                            exts,
                            owner,
                            scope,
                            exts[k].field.kind,
                            exts[k].field.cardinality is Repeated,
                            opt.path,
                            1,
                        )
                    } else {
                        (false, seq![ConditionV::UnknownOptionField { owner, name: n }])
                    }
                },
                None => (false, seq![ConditionV::UnknownOptionField { owner, name: n }]),
            },
        }
    }
}

/// Analyzes one option statement's path.
#[verifier::loop_isolation(false)]
pub fn analyze_statement(
    types: &Vec<TypeData>,
    exts: &Vec<ExtensionData>,
    owner: &Vec<u8>,
    scope: &Vec<u8>,
    expected: &Vec<u8>,
    opt: &OptionRecord,
) -> (r: (bool, Vec<Condition>))
    ensures
        ({
            let (rep, conds) = spec_analyze_statement(
                dv_type_datas(types@),
                dv_extension_datas(exts@),
                owner@,
                scope@,
                expected@,
                opt.dv(),
            );
            &&& r.0 == rep
            &&& crate::condition::dv_conditions(r.1@) == conds
        }),
{
    let ghost stypes = dv_type_datas(types@);
    let ghost sexts = dv_extension_datas(exts@);
    let ghost sopt = opt.dv();
    if opt.path.len() == 0 {
        let conds: Vec<Condition> = Vec::new();
        proof {
            assert(crate::condition::dv_conditions(conds@) =~= Seq::<ConditionV>::empty());
        }
        return (false, conds);
    }
    proof {
        assert(sopt.path[0] == opt.path@[0].dv());
    }
    match &opt.path[0] {
        OptionPathSegment::Plain(n) => {
            match find_message_type(types, expected) {
                Some(t) => {
                    proof {
                        lemma_find_message_type_found(stypes, expected@, 0);
                        assert(stypes[t as int] == types@[t as int].dv());
                    }
                    let m = match &types[t] {
                        TypeData::Message(m) => m,
                        TypeData::Enum(_) => {
                            proof {
                                assert(false);
                            }
                            vstd::pervasive::unreached()
                        },
                    };
                    let ghost sm = stypes[t as int]->Message_0;
                    proof {
                        assert(m.dv() == sm);
                    }
                    let mut k: usize = 0;
                    let mut found: Option<usize> = None;
                    while k < m.fields.len()
                        invariant
                            k <= m.fields.len(),
                            found is None,
                            spec_find_data_field(sm.fields, n@, k as int) == spec_find_data_field(
                                sm.fields,
                                n@,
                                0,
                            ),
                        decreases m.fields.len() - k,
                    {
                        if bytes_eq(&m.fields[k].name, n) {
                            proof {
                                assert(sm.fields[k as int] == m.fields@[k as int].dv());
                                assert(spec_find_data_field(sm.fields, n@, k as int) == Some(
                                    k as int,
                                ));
                            }
                            found = Some(k);
                            break;
                        }
                        proof {
                            assert(sm.fields[k as int] == m.fields@[k as int].dv());
                            assert(spec_find_data_field(sm.fields, n@, k as int)
                                == spec_find_data_field(sm.fields, n@, k + 1));
                        }
                        k += 1;
                    }
                    match found {
                        Some(k) => {
                            let fk = m.fields[k].kind;
                            let rep = matches!(m.fields[k].cardinality, Cardinality::Repeated);
                            proof {
                                assert(sm.fields[k as int] == m.fields@[k as int].dv());
                            }
                            let r = walk_path(types, exts, owner, scope, fk, rep, &opt.path, 1);
                            proof {
                                assert(Seq::new(opt.path@.len(), |j: int| opt.path@[j].dv())
                                    =~= sopt.path);
                            }
                            r
                        },
                        None => {
                            let mut conds: Vec<Condition> = Vec::new();
                            conds.push(
                                Condition::UnknownOptionField {
                                    owner: clone_bytes(owner),
                                    name: clone_bytes(n),
                                },
                            );
                            proof {
                                assert(crate::condition::dv_conditions(conds@) =~= seq![
                                    ConditionV::UnknownOptionField { owner: owner@, name: n@ },
                                ]);
                            }
                            (false, conds)
                        },
                    }
                },
                None => {
                    let conds: Vec<Condition> = Vec::new();
                    proof {
                        assert(crate::condition::dv_conditions(conds@)
                            =~= Seq::<ConditionV>::empty());
                    }
                    (false, conds)
                },
            }
        },
        OptionPathSegment::Extension(n) => {
            match resolve_ext(exts, scope, n) {
                Some(k) => {
                    proof {
                        assert(sexts[k as int] == exts@[k as int].dv());
                    }
                    let target = exts[k].target;
                    let mut matches_expected = false;
                    if target < types.len() {
                        proof {
                            assert(stypes[target as int] == types@[target as int].dv());
                        }
                        match &types[target] {
                            TypeData::Message(m) => {
                                if bytes_eq(&m.full_name, expected) {
                                    matches_expected = true;
                                }
                            },
                            TypeData::Enum(_) => {
                            },
                        }
                    }
                    if matches_expected {
                        let fk = exts[k].field.kind;
                        let rep = matches!(exts[k].field.cardinality, Cardinality::Repeated);
                        let r = walk_path(types, exts, owner, scope, fk, rep, &opt.path, 1);
                        proof {
                            assert(Seq::new(opt.path@.len(), |j: int| opt.path@[j].dv())
                                =~= sopt.path);
                        }
                        r
                    } else {
                        let mut conds: Vec<Condition> = Vec::new();
                        conds.push(
                            Condition::UnknownOptionField {
                                owner: clone_bytes(owner),
                                name: clone_bytes(n),
                            },
                        );
                        proof {
                            assert(crate::condition::dv_conditions(conds@) =~= seq![
                                ConditionV::UnknownOptionField { owner: owner@, name: n@ },
                            ]);
                        }
                        (false, conds)
                    }
                },
                None => {
                    let mut conds: Vec<Condition> = Vec::new();
                    conds.push(
                        Condition::UnknownOptionField {
                            owner: clone_bytes(owner),
                            name: clone_bytes(n),
                        },
                    );
                    proof {
                        assert(crate::condition::dv_conditions(conds@) =~= seq![
                            ConditionV::UnknownOptionField { owner: owner@, name: n@ },
                        ]);
                    }
                    (false, conds)
                },
            }
        },
    }
}

/// The first merged entry with the given path text.
pub open spec fn spec_find_merged(merged: Seq<MergedOptionV>, text: Seq<u8>, i: int) -> Option<
    int,
>
    decreases merged.len() - i,
{
    if i < 0 || i >= merged.len() {
        None
    } else if merged[i].path == text {
        Some(i)
    } else {
        spec_find_merged(merged, text, i + 1)
    }
}

/// The merge of the first `n` option statements of one declaration:
/// each statement's leaf path either appears for the first time, appends
/// to a repeated leaf, or collides with its first assignment.
pub open spec fn spec_merge_options(
    types: Seq<TypeDataV>,
    exts: Seq<ExtensionDataV>,
    owner: Seq<u8>,
    scope: Seq<u8>,
    expected: Seq<u8>,
    opts: Seq<OptionRecordV>,
    n: int,
) -> (Seq<MergedOptionV>, Seq<ConditionV>)
    decreases n,
{
    if n <= 0 {
        (Seq::empty(), Seq::empty())
    } else {
        let (merged, conds) = spec_merge_options(types, exts, owner, scope, expected, opts, n - 1);
        let opt = opts[n - 1];
        let (rep, aconds) = spec_analyze_statement(types, exts, owner, scope, expected, opt);
        let text = spec_path_text(opt.path);
        match spec_find_merged(merged, text, 0) {
            Some(k) => {
                if rep {
                    (
                        merged.update(
                            k,
                            MergedOptionV {
                                path: merged[k].path,
                                values: merged[k].values.push(opt.value),
                                first: merged[k].first,
                            },
                        ),
                        conds + aconds,
                    )
                } else {
                    (
                        merged,
                        conds + aconds + seq![
                            ConditionV::OptionAlreadySet {
                                owner,
                                name: text,
                                first: merged[k].first,
                                second: (n - 1) as usize,
                            },
                        ],
                    )
                }
            },
            None => (
                merged.push(MergedOptionV { path: text, values: seq![opt.value], first: (n - 1) as usize }),
                conds + aconds,
            ),
        }
    }
}

/// Merges one declaration's option statements.
#[verifier::loop_isolation(false)]
pub fn merge_options(
    types: &Vec<TypeData>,
    exts: &Vec<ExtensionData>,
    owner: &Vec<u8>,
    scope: &Vec<u8>,
    expected: &Vec<u8>,
    opts: &Vec<OptionRecord>,
) -> (r: (Vec<MergedOption>, Vec<Condition>))
    ensures
        ({
            let (merged, conds) = spec_merge_options(
                dv_type_datas(types@),
                dv_extension_datas(exts@),
                owner@,
                scope@,
                expected@,
                dv_options(opts@),
                opts@.len() as int,
            );
            &&& dv_merged(r.0@) == merged
            &&& crate::condition::dv_conditions(r.1@) == conds
        }),
{
    let ghost stypes = dv_type_datas(types@);
    let ghost sexts = dv_extension_datas(exts@);
    let ghost sopts = dv_options(opts@);
    let mut merged: Vec<MergedOption> = Vec::new();
    let mut conds: Vec<Condition> = Vec::new();
    let mut j: usize = 0;
    while j < opts.len()
        invariant
            j <= opts.len(),
            ({
                let (sm, sc) = spec_merge_options(
                    stypes,
                    sexts,
                    owner@,
                    scope@,
                    expected@,
                    sopts,
                    j as int,
                );
                dv_merged(merged@) == sm && crate::condition::dv_conditions(conds@) == sc
            }),
        decreases opts.len() - j,
    {
        let opt = &opts[j];
        proof {
            assert(sopts[j as int] == opt.dv());
        }
        let (rep, aconds) = analyze_statement(types, exts, owner, scope, expected, opt);
        let text = path_text(&opt.path);
        proof {
            assert(Seq::new(opt.path@.len(), |i: int| opt.path@[i].dv()) =~= opt.dv().path);
        }
        let ghost pre_m = dv_merged(merged@);
        let ghost pre_c = crate::condition::dv_conditions(conds@);
        let ghost acs = crate::condition::dv_conditions(aconds@);
        let mut k: usize = 0;
        while k < aconds.len()
            invariant
                k <= aconds.len(),
                crate::condition::dv_conditions(conds@) == pre_c + acs.take(k as int),
                dv_merged(merged@) == pre_m,
            decreases aconds.len() - k,
        {
            let c = aconds[k].clone();
            let ghost mid = crate::condition::dv_conditions(conds@);
            conds.push(c);
            proof {
                assert(crate::condition::dv_conditions(conds@) =~= mid.push(acs[k as int]));
                assert(mid.push(acs[k as int]) =~= pre_c + acs.take(k + 1));
            }
            k += 1;
        }
        proof {
            assert(acs.take(aconds@.len() as int) =~= acs);
        }
        let mut found: Option<usize> = None;
        let mut k: usize = 0;
        while k < merged.len()
            invariant
                k <= merged.len(),
                found is None,
                dv_merged(merged@) == pre_m,
                spec_find_merged(pre_m, text@, k as int) == spec_find_merged(pre_m, text@, 0),
            decreases merged.len() - k,
        {
            if bytes_eq(&merged[k].path, &text) {
                proof {
                    assert(pre_m[k as int] == merged@[k as int].dv());
                    assert(spec_find_merged(pre_m, text@, k as int) == Some(k as int));
                }
                found = Some(k);
                break;
            }
            proof {
                assert(pre_m[k as int] == merged@[k as int].dv());
                assert(spec_find_merged(pre_m, text@, k as int) == spec_find_merged(
                    pre_m,
                    text@,
                    k + 1,
                ));
            }
            k += 1;
        }
        match found {
            Some(k) => {
                if rep {
                    let v = opt.value.clone();
                    let mut values = clone_value_list(&merged[k].values);
                    values.push(v);
                    let path2 = clone_bytes(&merged[k].path);
                    let first = merged[k].first;
                    proof {
                        assert(pre_m[k as int] == merged@[k as int].dv());
                    }
                    let entry = MergedOption { path: path2, values, first };
                    proof {
                        assert(entry.dv().values =~= pre_m[k as int].values.push(
                            opt.dv().value,
                        ));
                    }
                    merged[k] = entry;
                    proof {
                        assert(dv_merged(merged@) =~= pre_m.update(
                            k as int,
                            MergedOptionV {
                                path: pre_m[k as int].path,
                                values: pre_m[k as int].values.push(opt.dv().value),
                                first: pre_m[k as int].first,
                            },
                        ));
                    }
                } else {
                    let first = merged[k].first;
                    let ghost mid = crate::condition::dv_conditions(conds@);
                    conds.push(
                        Condition::OptionAlreadySet {
                            owner: clone_bytes(owner),
                            name: clone_bytes(&text),
                            first,
                            second: j,
                        },
                    );
                    proof {
                        assert(pre_m[k as int] == merged@[k as int].dv());
                        assert(crate::condition::dv_conditions(conds@) =~= mid.push(
                            ConditionV::OptionAlreadySet {
                                owner: owner@,
                                name: text@,
                                first: pre_m[k as int].first,
                                second: j as usize,
                            },
                        ));
                    }
                }
            },
            None => {
                let v = opt.value.clone();
                let mut values: Vec<OptionValue> = Vec::new();
                values.push(v);
                let entry = MergedOption { path: text, values, first: j };
                let ghost ev = entry.dv();
                merged.push(entry);
                proof {
                    assert(ev.values =~= seq![opt.dv().value]);
                    assert(dv_merged(merged@) =~= pre_m.push(ev));
                }
            },
        }
        j += 1;
    }
    (merged, conds)
}


fn clone_value_list(v: &Vec<OptionValue>) -> (r: Vec<OptionValue>)
    ensures
        r@.len() == v@.len(),
        forall|i: int| 0 <= i < v@.len() ==> r@[i].dv() == v@[i].dv(),
        Seq::new(r@.len(), |i: int| r@[i].dv()) == Seq::new(v@.len(), |i: int| v@[i].dv()),
{
    let mut r: Vec<OptionValue> = Vec::new();
    let mut i: usize = 0;
    while i < v.len()
        invariant
            i <= v.len(),
            r@.len() == i,
            forall|j: int| 0 <= j < i ==> r@[j].dv() == v@[j].dv(),
        decreases v.len() - i,
    {
        r.push(v[i].clone());
        i += 1;
    }
    proof {
        assert(Seq::new(r@.len(), |i: int| r@[i].dv()) =~= Seq::new(
            v@.len(),
            |i: int| v@[i].dv(),
        ));
    }
    r
}

/// One option-bearing declaration: who owns the statements, the scope
/// extension names resolve from, and which standard options message they
/// target.
#[derive(Debug)]
pub struct OwnerOpts {
    pub owner: Vec<u8>,
    pub scope: Vec<u8>,
    pub expected: Vec<u8>,
    pub options: Vec<OptionRecord>,
}

/// Spec mirror of [`OwnerOpts`].
#[verifier::ext_equal]
pub struct OwnerOptsV {
    pub owner: Seq<u8>,
    pub scope: Seq<u8>,
    pub expected: Seq<u8>,
    pub options: Seq<OptionRecordV>,
}

impl OwnerOpts {
    pub open spec fn dv(&self) -> OwnerOptsV {
        OwnerOptsV {
            owner: self.owner@,
            scope: self.scope@,
            expected: self.expected@,
            options: dv_options(self.options@),
        }
    }
}

pub open spec fn dv_owners(s: Seq<OwnerOpts>) -> Seq<OwnerOptsV> {
    Seq::new(s.len(), |i: int| s[i].dv())
}

/// The option-bearing owners one declaration contributes: the declaration
/// itself, then its parts (fields, oneofs, values, methods) in order.
pub open spec fn spec_owners_of_decl(d: DeclV) -> Seq<OwnerOptsV> {
    match d.kind {
        DeclKindV::Message(p) => seq![
            OwnerOptsV {
                owner: d.full_name,
                scope: d.full_name,
                expected: spec_message_options_name(),
                options: p.options,
            },
        ] + Seq::new(
            p.fields.len(),
            |i: int| OwnerOptsV {
                owner: crate::name::spec_join(d.full_name, p.fields[i].name),
                scope: d.full_name,
                expected: spec_field_options_name(),
                options: p.fields[i].options,
            },
        ) + Seq::new(
            p.oneofs.len(),
            |i: int| OwnerOptsV {
                owner: crate::name::spec_join(d.full_name, p.oneofs[i].name),
                scope: d.full_name,
                expected: spec_oneof_options_name(),
                options: p.oneofs[i].options,
            },
        ),
        DeclKindV::Enum(p) => seq![
            OwnerOptsV {
                owner: d.full_name,
                scope: d.scope,
                expected: spec_enum_options_name(),
                options: p.options,
            },
        ] + Seq::new(
            p.values.len(),
            |i: int| OwnerOptsV {
                owner: crate::name::spec_join(d.scope, p.values[i].name),
                scope: d.scope,
                expected: spec_enum_value_options_name(),
                options: p.values[i].options,
            },
        ),
        DeclKindV::Service(p) => seq![
            OwnerOptsV {
                owner: d.full_name,
                scope: d.scope,
                expected: spec_service_options_name(),
                options: p.options,
            },
        ] + Seq::new(
            p.methods.len(),
            |i: int| OwnerOptsV {
                owner: crate::name::spec_join(d.full_name, p.methods[i].name),
                scope: d.scope,
                expected: spec_method_options_name(),
                options: p.methods[i].options,
            },
        ),
        DeclKindV::Extension(f) => seq![
            OwnerOptsV {
                owner: d.full_name,
                scope: d.scope,
                expected: spec_field_options_name(),
                options: f.options,
            },
        ],
        _ => Seq::empty(),
    }
}

/// Every option-bearing owner of the batch: each file, then each
/// declaration's owners in registration order.
pub open spec fn spec_owner_list(
    files: Seq<crate::record::FileRecordV>,
    decls: Seq<DeclV>,
) -> Seq<OwnerOptsV>
    decreases decls.len(),
{
    if decls.len() == 0 {
        Seq::new(
            files.len(),
            |i: int| OwnerOptsV {
                owner: files[i].name,
                scope: files[i].package,
                expected: spec_file_options_name(),
                options: files[i].options,
            },
        )
    } else {
        spec_owner_list(files, decls.drop_last()) + spec_owners_of_decl(decls.last())
    }
}

#[verifier::loop_isolation(false)]
#[verifier::rlimit(60)]
fn owners_of_decl(d: &Decl) -> (r: Vec<OwnerOpts>)
    ensures
        dv_owners(r@) == spec_owners_of_decl(d.dv()),
{
    let mut out: Vec<OwnerOpts> = Vec::new();
    match &d.kind {
        DeclKind::Message(p) => {
            let ghost sp = d.dv().kind->Message_0;
            proof {
                assert(p.dv() == sp);
            }
            out.push(
                OwnerOpts {
                    owner: clone_bytes(&d.full_name),
                    scope: clone_bytes(&d.full_name),
                    expected: message_options_name(),
                    options: crate::record_clone::clone_options(&p.options),
                },
            );
            let ghost part1 = seq![
                OwnerOptsV {
                    owner: d.dv().full_name,
                    scope: d.dv().full_name,
                    expected: spec_message_options_name(),
                    options: sp.options,
                },
            ];
            proof {
                assert(dv_owners(out@) =~= part1);
            }
            let ghost fpart = Seq::new(
                sp.fields.len(),
                |i: int| OwnerOptsV {
                    owner: crate::name::spec_join(d.dv().full_name, sp.fields[i].name),
                    scope: d.dv().full_name,
                    expected: spec_field_options_name(),
                    options: sp.fields[i].options,
                },
            );
            let mut i: usize = 0;
            while i < p.fields.len()
                invariant
                    i <= p.fields.len(),
                    dv_owners(out@) == part1 + fpart.take(i as int),
                decreases p.fields.len() - i,
            {
                let f = &p.fields[i];
                proof {
                    assert(sp.fields[i as int] == f.dv());
                }
                let ghost pre = dv_owners(out@);
                out.push(
                    OwnerOpts {
                        owner: crate::name::join_name(&d.full_name, &f.name),
                        scope: clone_bytes(&d.full_name),
                        expected: field_options_name(),
                        options: crate::record_clone::clone_options(&f.options),
                    },
                );
                proof {
                    assert(dv_owners(out@) =~= pre.push(fpart[i as int]));
                    assert(pre.push(fpart[i as int]) =~= part1 + fpart.take(i + 1));
                }
                i += 1;
            }
            proof {
                assert(fpart.take(p.fields@.len() as int) =~= fpart);
            }
            let ghost opart = Seq::new(
                sp.oneofs.len(),
                |i: int| OwnerOptsV {
                    owner: crate::name::spec_join(d.dv().full_name, sp.oneofs[i].name),
                    scope: d.dv().full_name,
                    expected: spec_oneof_options_name(),
                    options: sp.oneofs[i].options,
                },
            );
            let mut i: usize = 0;
            while i < p.oneofs.len()
                invariant
                    i <= p.oneofs.len(),
                    dv_owners(out@) == part1 + fpart + opart.take(i as int),
                decreases p.oneofs.len() - i,
            {
                let o = &p.oneofs[i];
                proof {
                    assert(sp.oneofs[i as int] == o.dv());
                }
                let ghost pre = dv_owners(out@);
                out.push(
                    OwnerOpts {
                        owner: crate::name::join_name(&d.full_name, &o.name),
                        scope: clone_bytes(&d.full_name),
                        expected: oneof_options_name(),
                        options: crate::record_clone::clone_options(&o.options),
                    },
                );
                proof {
                    assert(dv_owners(out@) =~= pre.push(opart[i as int]));
                    assert(pre.push(opart[i as int]) =~= part1 + fpart + opart.take(i + 1));
                }
                i += 1;
            }
            proof {
                assert(opart.take(p.oneofs@.len() as int) =~= opart);
                assert(dv_owners(out@) =~= spec_owners_of_decl(d.dv()));
            }
        },
        DeclKind::Enum(p) => {
            let ghost sp = d.dv().kind->Enum_0;
            proof {
                assert(p.dv() == sp);
            }
            out.push(
                OwnerOpts {
                    owner: clone_bytes(&d.full_name),
                    scope: clone_bytes(&d.scope),
                    expected: enum_options_name(),
                    options: crate::record_clone::clone_options(&p.options),
                },
            );
            let ghost part1 = seq![
                OwnerOptsV {
                    owner: d.dv().full_name,
                    scope: d.dv().scope,
                    expected: spec_enum_options_name(),
                    options: sp.options,
                },
            ];
            proof {
                assert(dv_owners(out@) =~= part1);
            }
            let ghost vpart = Seq::new(
                sp.values.len(),
                |i: int| OwnerOptsV {
                    owner: crate::name::spec_join(d.dv().scope, sp.values[i].name),
                    scope: d.dv().scope,
                    expected: spec_enum_value_options_name(),
                    options: sp.values[i].options,
                },
            );
            let mut i: usize = 0;
            while i < p.values.len()
                invariant
                    i <= p.values.len(),
                    dv_owners(out@) == part1 + vpart.take(i as int),
                decreases p.values.len() - i,
            {
                let v = &p.values[i];
                proof {
                    assert(sp.values[i as int] == v.dv());
                }
                let ghost pre = dv_owners(out@);
                out.push(
                    OwnerOpts {
                        owner: crate::name::join_name(&d.scope, &v.name),
                        scope: clone_bytes(&d.scope),
                        expected: enum_value_options_name(),
                        options: crate::record_clone::clone_options(&v.options),
                    },
                );
                proof {
                    assert(dv_owners(out@) =~= pre.push(vpart[i as int]));
                    assert(pre.push(vpart[i as int]) =~= part1 + vpart.take(i + 1));
                }
                i += 1;
            }
            proof {
                assert(vpart.take(p.values@.len() as int) =~= vpart);
                assert(dv_owners(out@) =~= spec_owners_of_decl(d.dv()));
            }
        },
        DeclKind::Service(p) => {
            let ghost sp = d.dv().kind->Service_0;
            proof {
                assert(p.dv() == sp);
            }
            out.push(
                OwnerOpts {
                    owner: clone_bytes(&d.full_name),
                    scope: clone_bytes(&d.scope),
                    expected: service_options_name(),
                    options: crate::record_clone::clone_options(&p.options),
                },
            );
            let ghost part1 = seq![
                OwnerOptsV {
                    owner: d.dv().full_name,
                    scope: d.dv().scope,
                    expected: spec_service_options_name(),
                    options: sp.options,
                },
            ];
            proof {
                assert(dv_owners(out@) =~= part1);
            }
            let ghost mpart = Seq::new(
                sp.methods.len(),
                |i: int| OwnerOptsV {
                    owner: crate::name::spec_join(d.dv().full_name, sp.methods[i].name),
                    scope: d.dv().scope,
                    expected: spec_method_options_name(),
                    options: sp.methods[i].options,
                },
            );
            let mut i: usize = 0;
            while i < p.methods.len()
                invariant
                    i <= p.methods.len(),
                    dv_owners(out@) == part1 + mpart.take(i as int),
                decreases p.methods.len() - i,
            {
                let m = &p.methods[i];
                proof {
                    assert(sp.methods[i as int] == m.dv());
                }
                let ghost pre = dv_owners(out@);
                out.push(
                    OwnerOpts {
                        owner: crate::name::join_name(&d.full_name, &m.name),
                        scope: clone_bytes(&d.scope),
                        expected: method_options_name(),
                        options: crate::record_clone::clone_options(&m.options),
                    },
                );
                proof {
                    assert(dv_owners(out@) =~= pre.push(mpart[i as int]));
                    assert(pre.push(mpart[i as int]) =~= part1 + mpart.take(i + 1));
                }
                i += 1;
            }
            proof {
                assert(mpart.take(p.methods@.len() as int) =~= mpart);
                assert(dv_owners(out@) =~= spec_owners_of_decl(d.dv()));
            }
        },
        DeclKind::Extension(f) => {
            let ghost sf = d.dv().kind->Extension_0;
            proof {
                assert(f.dv() == sf);
            }
            out.push(
                OwnerOpts {
                    owner: clone_bytes(&d.full_name),
                    scope: clone_bytes(&d.scope),
                    expected: field_options_name(),
                    options: crate::record_clone::clone_options(&f.options),
                },
            );
            proof {
                assert(dv_owners(out@) =~= spec_owners_of_decl(d.dv()));
            }
        },
        _ => {
            proof {
                assert(dv_owners(out@) =~= spec_owners_of_decl(d.dv()));
            }
        },
    }
    out
}

/// Enumerates every option-bearing owner of the batch.
#[verifier::loop_isolation(false)]
pub fn owner_list(files: &Vec<crate::record::FileRecord>, decls: &Vec<Decl>) -> (r: Vec<
    OwnerOpts,
>)
    ensures
        dv_owners(r@) == spec_owner_list(
            crate::record::dv_files(files@),
            crate::collect::dv_decls(decls@),
        ),
{
    let ghost sfiles = crate::record::dv_files(files@);
    let ghost sdecls = crate::collect::dv_decls(decls@);
    let mut out: Vec<OwnerOpts> = Vec::new();
    let ghost fpart = Seq::new(
        sfiles.len(),
        |i: int| OwnerOptsV {
            owner: sfiles[i].name,
            scope: sfiles[i].package,
            expected: spec_file_options_name(),
            options: sfiles[i].options,
        },
    );
    let mut i: usize = 0;
    while i < files.len()
        invariant
            i <= files.len(),
            dv_owners(out@) == fpart.take(i as int),
        decreases files.len() - i,
    {
        let f = &files[i];
        proof {
            assert(sfiles[i as int] == f.dv());
        }
        let ghost pre = dv_owners(out@);
        out.push(
            OwnerOpts {
                owner: clone_bytes(&f.name),
                scope: clone_bytes(&f.package),
                expected: file_options_name(),
                options: crate::record_clone::clone_options(&f.options),
            },
        );
        proof {
            assert(dv_owners(out@) =~= pre.push(fpart[i as int]));
            assert(pre.push(fpart[i as int]) =~= fpart.take(i + 1));
        }
        i += 1;
    }
    proof {
        assert(fpart.take(files@.len() as int) =~= fpart);
        assert(dv_owners(out@) =~= spec_owner_list(sfiles, sdecls.take(0)));
    }
    let mut j: usize = 0;
    while j < decls.len()
        invariant
            j <= decls.len(),
            dv_owners(out@) == spec_owner_list(sfiles, sdecls.take(j as int)),
        decreases decls.len() - j,
    {
        let more = owners_of_decl(&decls[j]);
        let ghost pre = dv_owners(out@);
        let ghost ms = dv_owners(more@);
        let mut k: usize = 0;
        while k < more.len()
            invariant
                k <= more.len(),
                dv_owners(out@) == pre + ms.take(k as int),
            decreases more.len() - k,
        {
            let o = owner_opts_clone(&more[k]);
            let ghost mid = dv_owners(out@);
            out.push(o);
            proof {
                assert(dv_owners(out@) =~= mid.push(ms[k as int]));
                assert(mid.push(ms[k as int]) =~= pre + ms.take(k + 1));
            }
            k += 1;
        }
        proof {
            assert(ms.take(more@.len() as int) =~= ms);
            let cur = sdecls.take(j + 1);
            assert(cur.drop_last() =~= sdecls.take(j as int));
            assert(cur.last() == sdecls[j as int]);
            assert(sdecls[j as int] == decls@[j as int].dv());
        }
        j += 1;
    }
    proof {
        assert(sdecls.take(decls@.len() as int) =~= sdecls);
    }
    out
}

fn owner_opts_clone(o: &OwnerOpts) -> (r: OwnerOpts)
    ensures
        r.dv() == o.dv(),
{
    let r = OwnerOpts {
        owner: clone_bytes(&o.owner),
        scope: clone_bytes(&o.scope),
        expected: clone_bytes(&o.expected),
        options: crate::record_clone::clone_options(&o.options),
    };
    proof {
        assert(r.dv() =~= o.dv());
    }
    r
}

/// The merged options and the conditions of the first `n` owners. Owners
/// without statements contribute no entry.
pub open spec fn spec_all_options(
    types: Seq<TypeDataV>,
    exts: Seq<ExtensionDataV>,
    owners: Seq<OwnerOptsV>,
    n: int,
) -> (Seq<DeclOptionsV>, Seq<ConditionV>)
    decreases n,
{
    if n <= 0 {
        (Seq::empty(), Seq::empty())
    } else {
        let (entries, conds) = spec_all_options(types, exts, owners, n - 1);
        let o = owners[n - 1];
        let (merged, oconds) = spec_merge_options(
            types,
            exts,
            o.owner,
            o.scope,
            o.expected,
            o.options,
            o.options.len() as int,
        );
        if o.options.len() > 0 {
            (entries.push(DeclOptionsV { owner: o.owner, entries: merged }), conds + oconds)
        } else {
            (entries, conds + oconds)
        }
    }
}

/// Resolves and merges every option statement of the batch.
#[verifier::loop_isolation(false)]
pub fn resolve_all_options(
    types: &Vec<TypeData>,
    exts: &Vec<ExtensionData>,
    owners: &Vec<OwnerOpts>,
) -> (r: (Vec<DeclOptions>, Vec<Condition>))
    ensures
        ({
            let (entries, conds) = spec_all_options(
                dv_type_datas(types@),
                dv_extension_datas(exts@),
                dv_owners(owners@),
                owners@.len() as int,
            );
            &&& dv_decl_options(r.0@) == entries
            &&& crate::condition::dv_conditions(r.1@) == conds
        }),
{
    let ghost stypes = dv_type_datas(types@);
    let ghost sexts = dv_extension_datas(exts@);
    let ghost sowners = dv_owners(owners@);
    let mut entries: Vec<DeclOptions> = Vec::new();
    let mut conds: Vec<Condition> = Vec::new();
    let mut i: usize = 0;
    while i < owners.len()
        invariant
            i <= owners.len(),
            ({
                let (se, sc) = spec_all_options(stypes, sexts, sowners, i as int);
                dv_decl_options(entries@) == se && crate::condition::dv_conditions(conds@) == sc
            }),
        decreases owners.len() - i,
    {
        let o = &owners[i];
        proof {
            assert(sowners[i as int] == o.dv());
        }
        let (merged, oconds) = merge_options(types, exts, &o.owner, &o.scope, &o.expected, &o.options);
        let ghost pre_e = dv_decl_options(entries@);
        let ghost pre_c = crate::condition::dv_conditions(conds@);
        if o.options.len() > 0 {
            let e = DeclOptions { owner: clone_bytes(&o.owner), entries: merged };
            let ghost ev = e.dv();
            entries.push(e);
            proof {
                assert(dv_decl_options(entries@) =~= pre_e.push(ev));
            }
        }
        let ghost ocs = crate::condition::dv_conditions(oconds@);
        let mut k: usize = 0;
        while k < oconds.len()
            invariant
                k <= oconds.len(),
                crate::condition::dv_conditions(conds@) == pre_c + ocs.take(k as int),
            decreases oconds.len() - k,
        {
            let c = oconds[k].clone();
            let ghost mid = crate::condition::dv_conditions(conds@);
            conds.push(c);
            proof {
                assert(crate::condition::dv_conditions(conds@) =~= mid.push(ocs[k as int]));
                assert(mid.push(ocs[k as int]) =~= pre_c + ocs.take(k + 1));
            }
            k += 1;
        }
        proof {
            assert(ocs.take(oconds@.len() as int) =~= ocs);
        }
        i += 1;
    }
    (entries, conds)
}

} // verus!
