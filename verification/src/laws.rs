//! The pool's global laws, stated over the construction function itself:
//! determinism of construction, and the idempotence of extending a pool
//! with an empty batch. Both rest on the pipeline being a pure function
//! of the batch, with the extension base affecting nothing observable but
//! how conflict sites are described.

use vstd::prelude::*;

use crate::collect::DeclV;
use crate::condition::{spec_dedup, ConditionV, DeclSiteV};
use crate::graph::{
    spec_build_message, spec_build_types, spec_camel_conds,
    spec_file_site,
};
use crate::pool::{spec_build_core, spec_build_pool, PoolV};
use crate::record::{FieldRecordV, FileRecordV};
use crate::resolve::{spec_dup_conditions, TypeDeclV};

verus! {

/// Determinism: constructing one batch twice yields the very same
/// outcome — the same graph on success, and diagnostics of the same
/// content in the same order on failure. Construction is a function of
/// the input records alone.
pub proof fn lemma_construction_deterministic(
    batch_a: Seq<FileRecordV>,
    batch_b: Seq<FileRecordV>,
)
    requires
        batch_a == batch_b,
    ensures
        spec_build_pool(batch_a, 0) == spec_build_pool(batch_b, 0),
{
}

/// Deduplication drops only repeats: the deduplicated list is empty
/// exactly when nothing was reported.
pub proof fn lemma_dedup_empty(s: Seq<ConditionV>)
    ensures
        (spec_dedup(s).len() == 0) <==> (s.len() == 0),
    decreases s.len(),
{
    if s.len() > 0 {
        lemma_dedup_empty(s.drop_last());
        if s.drop_last().contains(s.last()) {
            assert(s.drop_last().len() > 0);
        }
    }
}

proof fn lemma_dup_conds_len_base(
    decls: Seq<DeclV>,
    files: Seq<FileRecordV>,
    b1: int,
    b2: int,
    n: int,
)
    ensures
        spec_dup_conditions(decls, files, b1, n).len() == spec_dup_conditions(
            decls,
            files,
            b2,
            n,
        ).len(),
    decreases n,
{
    if n > 0 {
        lemma_dup_conds_len_base(decls, files, b1, b2, n - 1);
    }
}

proof fn lemma_camel_conds_len_base(
    fields: Seq<FieldRecordV>,
    full: Seq<u8>,
    s1: DeclSiteV,
    s2: DeclSiteV,
    n: int,
)
    ensures
        spec_camel_conds(fields, full, s1, n).len() == spec_camel_conds(fields, full, s2, n).len(),
    decreases n,
{
    if n > 0 {
        lemma_camel_conds_len_base(fields, full, s1, s2, n - 1);
    }
}

proof fn lemma_build_message_base(
    types: Seq<TypeDeclV>,
    files: Seq<FileRecordV>,
    b1: int,
    b2: int,
    t: int,
)
    ensures
        spec_build_message(types, files, b1, t).0 == spec_build_message(types, files, b2, t).0,
        spec_build_message(types, files, b1, t).1.len() == spec_build_message(
            types,
            files,
            b2,
            t,
        ).1.len(),
{
    let d = types[t];
    let p = d.body->Message_0;
    lemma_camel_conds_len_base(
        p.fields,
        d.full_name,
        spec_file_site(d.file, files, b1),
        spec_file_site(d.file, files, b2),
        p.fields.len() as int,
    );
}

proof fn lemma_build_types_base(
    types: Seq<TypeDeclV>,
    files: Seq<FileRecordV>,
    b1: int,
    b2: int,
    n: int,
)
    ensures
        spec_build_types(types, files, b1, n).0 == spec_build_types(types, files, b2, n).0,
        spec_build_types(types, files, b1, n).1.len() == spec_build_types(
            types,
            files,
            b2,
            n,
        ).1.len(),
    decreases n,
{
    if n > 0 {
        lemma_build_types_base(types, files, b1, b2, n - 1);
        if types[n - 1].body is Message {
            lemma_build_message_base(types, files, b1, b2, n - 1);
        }
    }
}

/// How many files were taken over from an extended pool never changes
/// what a construction builds: it colors conflict reports (imported
/// against newly compiled), but a batch that constructs under one base
/// constructs identically under any other.
pub proof fn lemma_core_base_independent(files: Seq<FileRecordV>, b1: int, b2: int)
    ensures
        spec_build_core(files, b1) is Ok <==> spec_build_core(files, b2) is Ok,
        spec_build_core(files, b1) is Ok ==> spec_build_core(files, b1) == spec_build_core(
            files,
            b2,
        ),
{
    let decls = crate::collect::spec_collect_files(files);
    let tlist = crate::resolve::spec_type_list(decls);
    lemma_build_types_base(tlist, files, b1, b2, tlist.len() as int);
    lemma_dup_conds_len_base(decls, files, b1, b2, decls.len() as int);
    let dep = crate::pool::spec_dep_conds(files, files.len() as int);
    let dup1 = spec_dup_conditions(decls, files, b1, decls.len() as int);
    let dup2 = spec_dup_conditions(decls, files, b2, decls.len() as int);
    let (arena1, tc1) = spec_build_types(tlist, files, b1, tlist.len() as int);
    let (arena2, tc2) = spec_build_types(tlist, files, b2, tlist.len() as int);
    let (svcs, sc) = crate::pool::spec_build_services_from(tlist, decls, decls.len() as int);
    let (exts, ec) = crate::pool::spec_build_exts_from(tlist, decls, decls.len() as int);
    let owners = crate::options::spec_owner_list(files, decls);
    let (opts1, oc1) = crate::options::spec_all_options(arena1, exts, owners, owners.len() as int);
    let (opts2, oc2) = crate::options::spec_all_options(arena2, exts, owners, owners.len() as int);
    assert(arena1 == arena2);
    let all1 = dep + dup1 + tc1 + sc + ec + oc1;
    let all2 = dep + dup2 + tc2 + sc + ec + oc2;
    assert(all1.len() == all2.len());
    lemma_dedup_empty(all1);
    lemma_dedup_empty(all2);
    if spec_dedup(all1).len() == 0 {
        assert(spec_build_core(files, b1)->Ok_0 =~= spec_build_core(files, b2)->Ok_0);
    }
}

/// Idempotent extension: extending a successfully constructed pool with
/// an empty batch reconstructs a pool of identical observable content —
/// the same retained records, type graph, services, extensions and
/// merged options.
pub proof fn lemma_extend_with_empty_batch(raw: Seq<FileRecordV>, base: int)
    requires
        spec_build_core(raw, base) is Ok,
    ensures
        spec_build_core(
            raw + crate::normalize::spec_normalize_files(Seq::<FileRecordV>::empty()),
            raw.len() as int,
        ) == spec_build_core(raw, base),
{
    assert(crate::normalize::spec_normalize_files(Seq::<FileRecordV>::empty())
        =~= Seq::<FileRecordV>::empty());
    assert(raw + Seq::<FileRecordV>::empty() =~= raw);
    lemma_core_base_independent(raw, base, raw.len() as int);
}

/// A field that normalization has nothing left to do to: no map sugar,
/// and explicit presence already claimed by a oneof.
pub open spec fn spec_field_normal(f: FieldRecordV) -> bool {
    &&& !(f.field_type is MapSugar)
    &&& (f.proto3_optional ==> f.oneof_index is Some)
}

proof fn lemma_normalize_fields_fixed(
    fs: Seq<FieldRecordV>,
    o: Seq<crate::record::OneofRecordV>,
    e: Seq<crate::record::MessageRecordV>,
)
    requires
        forall|i: int| 0 <= i < fs.len() ==> spec_field_normal(#[trigger] fs[i]),
    ensures
        crate::normalize::spec_normalize_fields(fs, o, e) == (fs, o, e),
    decreases fs.len(),
{
    if fs.len() > 0 {
        lemma_normalize_fields_fixed(fs.skip(1), o, e);
        let (f2, o2, e2) = crate::normalize::spec_normalize_step(fs[0], o, e);
        assert(f2 =~= fs[0]);
        assert(seq![fs[0]] + fs.skip(1) =~= fs);
    }
}

proof fn lemma_entry_message_fixed(
    name: Seq<u8>,
    key: crate::scalar::ScalarKind,
    value: crate::record::MapValueV,
)
    ensures
        crate::normalize::spec_normalize_message(
            crate::normalize::spec_entry_message(name, key, value),
        ) == crate::normalize::spec_entry_message(name, key, value),
{
    let m = crate::normalize::spec_entry_message(name, key, value);
    lemma_normalize_fields_fixed(m.fields, m.oneofs, Seq::empty());
    assert(crate::normalize::spec_normalize_messages(m.messages)
        =~= Seq::<crate::record::MessageRecordV>::empty());
    assert(crate::normalize::spec_normalize_message(m) =~= m);
}

proof fn lemma_normalize_fields_outputs(
    fs: Seq<FieldRecordV>,
    o: Seq<crate::record::OneofRecordV>,
    e: Seq<crate::record::MessageRecordV>,
)
    ensures
        ({
            let (fs2, o2, e2) = crate::normalize::spec_normalize_fields(fs, o, e);
            &&& forall|i: int| 0 <= i < fs2.len() ==> spec_field_normal(#[trigger] fs2[i])
            &&& e2.len() >= e.len()
            &&& forall|j: int| 0 <= j < e.len() ==> #[trigger] e2[j] == e[j]
            &&& forall|j: int|
                e.len() <= j < e2.len() ==> crate::normalize::spec_normalize_message(
                    #[trigger] e2[j],
                ) == e2[j]
        }),
    decreases fs.len(),
{
    if fs.len() > 0 {
        let (f2, o2, e2) = crate::normalize::spec_normalize_step(fs[0], o, e);
        lemma_normalize_fields_outputs(fs.skip(1), o2, e2);
        assert(spec_field_normal(f2));
        match fs[0].field_type {
            crate::record::FieldTypeV::MapSugar { key, value } => {
                lemma_entry_message_fixed(fs[0].name, key, value);
                assert(e2[e.len() as int] == crate::normalize::spec_entry_message(
                    fs[0].name,
                    key,
                    value,
                ));
            },
            _ => {
            },
        }
        let (rest, o3, e3) = crate::normalize::spec_normalize_fields(fs.skip(1), o2, e2);
        assert forall|i: int|
            0 <= i < (seq![f2] + rest).len() implies spec_field_normal(
            #[trigger] (seq![f2] + rest)[i],
        ) by {
            if i > 0 {
                assert((seq![f2] + rest)[i] == rest[i - 1]);
            }
        }
    }
}

proof fn lemma_normalize_messages_fixed(ms: Seq<crate::record::MessageRecordV>)
    requires
        forall|i: int|
            0 <= i < ms.len() ==> crate::normalize::spec_normalize_message(#[trigger] ms[i])
                == ms[i],
    ensures
        crate::normalize::spec_normalize_messages(ms) == ms,
    decreases ms.len(),
{
    if ms.len() > 0 {
        lemma_normalize_messages_fixed(ms.drop_last());
        assert(crate::normalize::spec_normalize_messages(ms.drop_last()).push(
            crate::normalize::spec_normalize_message(ms.last()),
        ) =~= ms);
    }
}

/// Normalization is idempotent on messages: desugaring an already
/// desugared message changes nothing.
pub proof fn lemma_normalize_message_idempotent(m: crate::record::MessageRecordV)
    ensures
        crate::normalize::spec_normalize_message(crate::normalize::spec_normalize_message(m))
            == crate::normalize::spec_normalize_message(m),
    decreases m,
{
    let m2 = crate::normalize::spec_normalize_message(m);
    let (fs2, o2, e2) = crate::normalize::spec_normalize_fields(m.fields, m.oneofs, Seq::empty());
    lemma_normalize_fields_outputs(m.fields, m.oneofs, Seq::empty());
    lemma_normalize_fields_fixed(fs2, o2, Seq::empty());
    crate::normalize::lemma_spec_normalize_messages(m.messages);
    assert forall|i: int|
        0 <= i < m2.messages.len() implies crate::normalize::spec_normalize_message(
        #[trigger] m2.messages[i],
    ) == m2.messages[i] by {
        let base = crate::normalize::spec_normalize_messages(m.messages);
        if i < base.len() {
            assert(m2.messages[i] == base[i]);
            assert(base[i] == crate::normalize::spec_normalize_message(m.messages[i]));
            lemma_normalize_message_idempotent(m.messages[i]);
        } else {
            assert(m2.messages[i] == e2[i - base.len()]);
        }
    }
    lemma_normalize_messages_fixed(m2.messages);
    assert(crate::normalize::spec_normalize_message(m2) =~= m2);
}

/// Normalization is idempotent on whole batches.
pub proof fn lemma_normalize_files_idempotent(fs: Seq<FileRecordV>)
    ensures
        crate::normalize::spec_normalize_files(crate::normalize::spec_normalize_files(fs))
            == crate::normalize::spec_normalize_files(fs),
{
    let n1 = crate::normalize::spec_normalize_files(fs);
    let n2 = crate::normalize::spec_normalize_files(n1);
    assert forall|i: int| 0 <= i < n2.len() implies n2[i] == n1[i] by {
        let f1 = crate::normalize::spec_normalize_file(fs[i]);
        crate::normalize::lemma_spec_normalize_messages(fs[i].messages);
        assert forall|j: int|
            0 <= j < f1.messages.len() implies crate::normalize::spec_normalize_message(
            #[trigger] f1.messages[j],
        ) == f1.messages[j] by {
            assert(f1.messages[j] == crate::normalize::spec_normalize_message(
                fs[i].messages[j],
            ));
            lemma_normalize_message_idempotent(fs[i].messages[j]);
        }
        lemma_normalize_messages_fixed(f1.messages);
        assert(crate::normalize::spec_normalize_file(f1) =~= f1);
    }
    assert(n2 =~= n1);
}

/// Round trip at the record level: a pool retains its validated records
/// verbatim, and constructing a fresh pool from those retained records
/// yields the identical outcome — same names, numbers and resolved
/// kinds. Together with an encoding of the records whose decoding
/// restores them, this carries the round trip through any faithful
/// serialization of the retained record set.
pub proof fn lemma_round_trip_reconstruction(input: Seq<FileRecordV>)
    requires
        spec_build_pool(input, 0) is Ok,
    ensures
        spec_build_pool(spec_build_pool(input, 0)->Ok_0.raw, 0) == spec_build_pool(input, 0),
{
    let normalized = crate::normalize::spec_normalize_files(input);
    assert(spec_build_pool(input, 0)->Ok_0.raw == normalized);
    lemma_normalize_files_idempotent(input);
}

} // verus!
