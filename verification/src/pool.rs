//! The pool façade's construction engine. A batch of file records is
//! normalized, registered, and validated in stages — missing imports,
//! duplicate names, per-type resolution and numbering, service methods,
//! extension registration, option resolution — and every stage keeps
//! going after a problem, so one call surfaces all independent
//! violations. Construction succeeds only when the deduplicated,
//! ordered diagnostic list is empty; there is no partial pool.

use vstd::prelude::*;

use crate::collect::{collect_files, dv_decls, spec_collect_files, DeclKind, DeclV};
use crate::condition::{
    dedup_conditions, dv_conditions, spec_dedup, Condition, ConditionV,
};
use crate::graph::{
    build_extension, build_service, build_types, dv_extension_datas, dv_field_datas,
    dv_service_datas, MessageData, MessageDataV,
    dv_type_datas, spec_build_extension, spec_build_service, spec_build_types, ExtensionData,
    ExtensionDataV, ServiceData, ServiceDataV, TypeData, TypeDataV,
};
use crate::normalize::{normalize_files, spec_normalize_files};
use crate::options::{
    dv_decl_options, owner_list, resolve_all_options, spec_all_options, spec_owner_list,
    DeclOptions, DeclOptionsV,
};
use crate::record::{dv_files, FileRecord, FileRecordV};
use crate::record_clone::clone_files;
use crate::resolve::{
    check_duplicate_names, extract_types, spec_dup_conditions, spec_type_list,
};

verus! {

/// A batch-wide construction failure: the full, ordered, deduplicated
/// list of everything found wrong.
#[derive(Debug)]
pub struct DescriptorError {
    pub conditions: Vec<Condition>,
}

impl DescriptorError {
    pub open spec fn dv(&self) -> Seq<ConditionV> {
        dv_conditions(self.conditions@)
    }
}

/// Whether some file of the batch has this name, searched from `k`.
pub open spec fn spec_has_file(files: Seq<FileRecordV>, name: Seq<u8>, k: int) -> bool
    decreases files.len() - k,
{
    if k < 0 || k >= files.len() {
        false
    } else if files[k].name == name {
        true
    } else {
        spec_has_file(files, name, k + 1)
    }
}

/// The missing-import conditions of file `i`'s first `m` dependencies.
pub open spec fn spec_file_dep_conds(files: Seq<FileRecordV>, i: int, m: int) -> Seq<ConditionV>
    decreases m,
{
    if m <= 0 || !(0 <= i < files.len()) {
        Seq::empty()
    } else {
        let pre = spec_file_dep_conds(files, i, m - 1);
        let dep = files[i].dependencies[m - 1];
        if spec_has_file(files, dep, 0) {
            pre
        } else {
            pre.push(ConditionV::MissingDependency { file: files[i].name, dependency: dep })
        }
    }
}

/// The missing-import conditions of the first `n` files: every declared
/// dependency must name a file of the batch (which, when extending,
/// includes the files of the pool being extended).
pub open spec fn spec_dep_conds(files: Seq<FileRecordV>, n: int) -> Seq<ConditionV>
    decreases n,
{
    if n <= 0 {
        Seq::empty()
    } else {
        spec_dep_conds(files, n - 1) + spec_file_dep_conds(
            files,
            n - 1,
            files[n - 1].dependencies.len() as int,
        )
    }
}

#[verifier::loop_isolation(false)]
fn has_file(files: &Vec<FileRecord>, name: &Vec<u8>) -> (r: bool)
    ensures
        r == spec_has_file(dv_files(files@), name@, 0),
{
    let ghost sfiles = dv_files(files@);
    let mut k: usize = 0;
    while k < files.len()
        invariant
            k <= files.len(),
            spec_has_file(sfiles, name@, k as int) == spec_has_file(sfiles, name@, 0),
        decreases files.len() - k,
    {
        if crate::bytes::bytes_eq(&files[k].name, name) {
            proof {
                assert(sfiles[k as int] == files@[k as int].dv());
                assert(spec_has_file(sfiles, name@, k as int));
            }
            return true;
        }
        proof {
            assert(sfiles[k as int] == files@[k as int].dv());
        }
        k += 1;
    }
    false
}

/// Reports every import that names no file of the batch.
#[verifier::loop_isolation(false)]
pub fn check_dependencies(files: &Vec<FileRecord>) -> (r: Vec<Condition>)
    ensures
        dv_conditions(r@) == spec_dep_conds(dv_files(files@), files@.len() as int),
{
    let ghost sfiles = dv_files(files@);
    let mut out: Vec<Condition> = Vec::new();
    let mut i: usize = 0;
    while i < files.len()
        invariant
            i <= files.len(),
            dv_conditions(out@) == spec_dep_conds(sfiles, i as int),
        decreases files.len() - i,
    {
        proof {
            assert(sfiles[i as int] == files@[i as int].dv());
        }
        let deps = &files[i].dependencies;
        let mut m: usize = 0;
        while m < deps.len()
            invariant
                m <= deps.len(),
                i < files.len(),
                dv_conditions(out@) == spec_dep_conds(sfiles, i as int) + spec_file_dep_conds(
                    sfiles,
                    i as int,
                    m as int,
                ),
            decreases deps.len() - m,
        {
            proof {
                assert(sfiles[i as int].dependencies[m as int] == deps@[m as int]@);
            }
            if !has_file(files, &deps[m]) {
                let ghost pre = dv_conditions(out@);
                out.push(
                    Condition::MissingDependency {
                        file: crate::bytes::clone_bytes(&files[i].name),
                        dependency: crate::bytes::clone_bytes(&deps[m]),
                    },
                );
                proof {
                    assert(dv_conditions(out@) =~= pre.push(
                        ConditionV::MissingDependency {
                            file: sfiles[i as int].name,
                            dependency: sfiles[i as int].dependencies[m as int],
                        },
                    ));
                }
            }
            m += 1;
        }
        i += 1;
    }
    out
}

/// The services and their conditions from the first `n` declarations.
pub open spec fn spec_build_services_from(
    types: Seq<crate::resolve::TypeDeclV>,
    decls: Seq<DeclV>,
    n: int,
) -> (Seq<ServiceDataV>, Seq<ConditionV>)
    decreases n,
{
    if n <= 0 {
        (Seq::empty(), Seq::empty())
    } else {
        let (svcs, conds) = spec_build_services_from(types, decls, n - 1);
        if decls[n - 1].kind is Service {
            let (s, c) = spec_build_service(types, decls[n - 1]);
            (svcs.push(s), conds + c)
        } else {
            (svcs, conds)
        }
    }
}

/// The extension registrations and their conditions from the first `n`
/// declarations.
pub open spec fn spec_build_exts_from(
    types: Seq<crate::resolve::TypeDeclV>,
    decls: Seq<DeclV>,
    n: int,
) -> (Seq<ExtensionDataV>, Seq<ConditionV>)
    decreases n,
{
    if n <= 0 {
        (Seq::empty(), Seq::empty())
    } else {
        let (exts, conds) = spec_build_exts_from(types, decls, n - 1);
        if decls[n - 1].kind is Extension {
            let (e, c) = spec_build_extension(types, decls[n - 1]);
            match e {
                Some(e) => (exts.push(e), conds + c),
                None => (exts, conds + c),
            }
        } else {
            (exts, conds)
        }
    }
}

/// The observable content of a constructed pool.
#[verifier::ext_equal]
pub struct PoolV {
    /// The retained records, normalized: synthesized declarations are part
    /// of the record set, not hidden.
    pub raw: Seq<FileRecordV>,
    pub types: Seq<TypeDataV>,
    pub services: Seq<ServiceDataV>,
    pub extensions: Seq<ExtensionDataV>,
    pub options: Seq<DeclOptionsV>,
}

/// The construction pipeline over an already-normalized batch: the
/// outcome is the pool content, or the non-empty diagnostic list. `base`
/// counts how many leading files belong to the pool being extended, which
/// only affects how conflict sites are described.
pub open spec fn spec_build_core(files: Seq<FileRecordV>, base: int) -> Result<
    PoolV,
    Seq<ConditionV>,
> {
    let decls = spec_collect_files(files);
    let tlist = spec_type_list(decls);
    let (arena, tconds) = spec_build_types(tlist, files, base, tlist.len() as int);
    let (svcs, sconds) = spec_build_services_from(tlist, decls, decls.len() as int);
    let (exts, econds) = spec_build_exts_from(tlist, decls, decls.len() as int);
    let owners = spec_owner_list(files, decls);
    let (opts, oconds) = spec_all_options(arena, exts, owners, owners.len() as int);
    let conds = spec_dedup(
        spec_dep_conds(files, files.len() as int) + spec_dup_conditions(
            decls,
            files,
            base,
            decls.len() as int,
        ) + tconds + sconds + econds + oconds,
    );
    if conds.len() == 0 {
        Ok(
            PoolV {
                raw: files,
                types: arena,
                services: svcs,
                extensions: exts,
                options: opts,
            },
        )
    } else {
        Err(conds)
    }
}

/// The full construction function: normalization, then the pipeline.
pub open spec fn spec_build_pool(files: Seq<FileRecordV>, base: int) -> Result<
    PoolV,
    Seq<ConditionV>,
> {
    spec_build_core(spec_normalize_files(files), base)
}

/// A validated, cross-referenced, queryable type graph built from file
/// descriptor records.
///
/// The pool is immutable once constructed: extending it builds a new pool
/// that re-validates the retained records together with the new batch,
/// and never changes the original handle's observable state.
#[derive(Debug)]
pub struct FileDescriptor {
    raw: Vec<FileRecord>,
    base_len: usize,
    types: Vec<TypeData>,
    services: Vec<ServiceData>,
    extensions: Vec<ExtensionData>,
    options: Vec<DeclOptions>,
}

impl FileDescriptor {
    /// The pool's observable content.
    pub closed spec fn pv(&self) -> PoolV {
        PoolV {
            raw: dv_files(self.raw@),
            types: dv_type_datas(self.types@),
            services: dv_service_datas(self.services@),
            extensions: dv_extension_datas(self.extensions@),
            options: dv_decl_options(self.options@),
        }
    }

    /// A constructed pool is exactly what the pipeline yields for its
    /// retained records.
    pub closed spec fn wf(&self) -> bool {
        spec_build_core(dv_files(self.raw@), self.base_len as int) == Ok::<
            PoolV,
            Seq<ConditionV>,
        >(self.pv())
    }

    /// Builds a pool from a batch of file descriptor records.
    ///
    /// Construction validates the whole batch and returns either a usable
    /// pool or the full ordered list of everything wrong with the input;
    /// it never returns a partial pool.
    pub fn new(files: Vec<FileRecord>) -> (r: Result<FileDescriptor, DescriptorError>)
        ensures
            match r {
                Ok(pool) => spec_build_pool(dv_files(files@), 0) == Ok::<PoolV, Seq<ConditionV>>(
                    pool.pv(),
                ) && pool.wf(),
                Err(e) => spec_build_pool(dv_files(files@), 0) == Err::<PoolV, Seq<ConditionV>>(
                    e.dv(),
                ) && e.dv().len() > 0,
        },
    {
        let normalized = normalize_files(&files);
        Self::build(normalized, 0)
    }

    /// Builds a new pool from this pool's retained records plus a further
    /// batch. The original pool is untouched; names of the new batch may
    /// refer to everything already present.
    #[verifier::loop_isolation(false)]
    pub fn extend(&self, more: &Vec<FileRecord>) -> (r: Result<FileDescriptor, DescriptorError>)
        ensures
            match r {
                Ok(pool) => spec_build_core(
                    self.pv().raw + spec_normalize_files(dv_files(more@)),
                    self.pv().raw.len() as int,
                ) == Ok::<PoolV, Seq<ConditionV>>(pool.pv()) && pool.wf(),
                Err(e) => spec_build_core(
                    self.pv().raw + spec_normalize_files(dv_files(more@)),
                    self.pv().raw.len() as int,
                ) == Err::<PoolV, Seq<ConditionV>>(e.dv()) && e.dv().len() > 0,
        },
    {
        let mut combined = clone_files(&self.raw);
        let more_normalized = normalize_files(more);
        let base = combined.len();
        let ghost pre = dv_files(combined@);
        let ghost ms = dv_files(more_normalized@);
        let mut i: usize = 0;
        while i < more_normalized.len()
            invariant
                i <= more_normalized.len(),
                dv_files(combined@) == pre + ms.take(i as int),
            decreases more_normalized.len() - i,
        {
            let f = more_normalized[i].clone();
            let ghost mid = dv_files(combined@);
            combined.push(f);
            proof {
                assert(dv_files(combined@) =~= mid.push(ms[i as int]));
                assert(mid.push(ms[i as int]) =~= pre + ms.take(i + 1));
            }
            i += 1;
        }
        proof {
            assert(ms.take(more_normalized@.len() as int) =~= ms);
            assert(dv_files(combined@) =~= self.pv().raw + spec_normalize_files(dv_files(more@)));
        }
        Self::build(combined, base)
    }

    #[verifier::loop_isolation(false)]
    #[verifier::rlimit(100)]
    fn build(files: Vec<FileRecord>, base: usize) -> (r: Result<FileDescriptor, DescriptorError>)
        ensures
            match r {
                Ok(pool) => spec_build_core(dv_files(files@), base as int) == Ok::<
                    PoolV,
                    Seq<ConditionV>,
                >(pool.pv()) && pool.wf(),
                Err(e) => spec_build_core(dv_files(files@), base as int) == Err::<
                    PoolV,
                    Seq<ConditionV>,
                >(e.dv()) && e.dv().len() > 0,
        },
    {
        let ghost sfiles = dv_files(files@);
        let decls = collect_files(&files);
        let ghost sdecls = dv_decls(decls@);
        let tlist = extract_types(&decls);
        let ghost stlist = crate::resolve::dv_types(tlist@);
        let mut conds = check_dependencies(&files);
        let dup = check_duplicate_names(&decls, &files, base);
        append_conditions(&mut conds, dup);
        let (arena, tconds) = build_types(&tlist, &files, base);
        append_conditions(&mut conds, tconds);
        let mut services: Vec<ServiceData> = Vec::new();
        let mut sconds: Vec<Condition> = Vec::new();
        let mut exts: Vec<ExtensionData> = Vec::new();
        let mut econds: Vec<Condition> = Vec::new();
        let mut i: usize = 0;
        while i < decls.len()
            invariant
                i <= decls.len(),
                ({
                    let (sv, sc) = spec_build_services_from(stlist, sdecls, i as int);
                    dv_service_datas(services@) == sv && dv_conditions(sconds@) == sc
                }),
                ({
                    let (ev, ec) = spec_build_exts_from(stlist, sdecls, i as int);
                    dv_extension_datas(exts@) == ev && dv_conditions(econds@) == ec
                }),
            decreases decls.len() - i,
        {
            proof {
                assert(sdecls[i as int] == decls@[i as int].dv());
            }
            match &decls[i].kind {
                DeclKind::Service(_) => {
                    let (s, c) = build_service(&tlist, &decls[i]);
                    let ghost pre_s = dv_service_datas(services@);
                    let ghost sv = s.dv();
                    services.push(s);
                    proof {
                        assert(dv_service_datas(services@) =~= pre_s.push(sv));
                    }
                    append_conditions(&mut sconds, c);
                },
                DeclKind::Extension(_) => {
                    let (e, c) = build_extension(&tlist, &decls[i]);
                    match e {
                        Some(e) => {
                            let ghost pre_e = dv_extension_datas(exts@);
                            let ghost ev = e.dv();
                            exts.push(e);
                            proof {
                                assert(dv_extension_datas(exts@) =~= pre_e.push(ev));
                            }
                        },
                        None => {
                        },
                    }
                    append_conditions(&mut econds, c);
                },
                _ => {
                },
            }
            i += 1;
        }
        append_conditions(&mut conds, sconds);
        append_conditions(&mut conds, econds);
        let owners = owner_list(&files, &decls);
        let (opts, oconds) = resolve_all_options(&arena, &exts, &owners);
        append_conditions(&mut conds, oconds);
        let deduped = dedup_conditions(conds);
        proof {
            let (sarena, stc) = spec_build_types(stlist, sfiles, base as int, stlist.len() as int);
            let (ssvc, ssc) = spec_build_services_from(stlist, sdecls, sdecls.len() as int);
            let (sext, sec) = spec_build_exts_from(stlist, sdecls, sdecls.len() as int);
            let sowners = spec_owner_list(sfiles, sdecls);
            let (sopts, soc) = spec_all_options(sarena, sext, sowners, sowners.len() as int);
            assert(dv_conditions(deduped@) == spec_dedup(
                spec_dep_conds(sfiles, sfiles.len() as int) + spec_dup_conditions(
                    sdecls,
                    sfiles,
                    base as int,
                    sdecls.len() as int,
                ) + stc + ssc + sec + soc,
            ));
        }
        if deduped.len() == 0 {
            let pool = FileDescriptor {
                raw: files,
                base_len: base,
                types: arena,
                services,
                extensions: exts,
                options: opts,
            };
            proof {
                assert(spec_build_core(sfiles, base as int) == Ok::<PoolV, Seq<ConditionV>>(
                    pool.pv(),
                )) by {
                    assert(pool.pv() =~= spec_build_core(sfiles, base as int)->Ok_0);
                }
            }
            Ok(pool)
        } else {
            Err(DescriptorError { conditions: deduped })
        }
    }
}

/// Appends a stage's conditions to the running list.
#[verifier::loop_isolation(false)]
fn append_conditions(dst: &mut Vec<Condition>, src: Vec<Condition>)
    ensures
        dv_conditions(final(dst)@) == dv_conditions(old(dst)@) + dv_conditions(src@),
{
    let ghost pre = dv_conditions(dst@);
    let ghost ss = dv_conditions(src@);
    let mut k: usize = 0;
    while k < src.len()
        invariant
            k <= src.len(),
            dv_conditions(dst@) == pre + ss.take(k as int),
        decreases src.len() - k,
    {
        let c = src[k].clone();
        let ghost mid = dv_conditions(dst@);
        dst.push(c);
        proof {
            assert(dv_conditions(dst@) =~= mid.push(ss[k as int]));
            assert(mid.push(ss[k as int]) =~= pre + ss.take(k + 1));
        }
        k += 1;
    }
    proof {
        assert(ss.take(src@.len() as int) =~= ss);
    }
}

/// The first message type with the given full name.
pub open spec fn spec_find_message(types: Seq<TypeDataV>, name: Seq<u8>, i: int) -> Option<int>
    decreases types.len() - i,
{
    if i < 0 || i >= types.len() {
        None
    } else if types[i] is Message && types[i]->Message_0.full_name == name {
        Some(i)
    } else {
        spec_find_message(types, name, i + 1)
    }
}

/// The first enum type with the given full name.
pub open spec fn spec_find_enum(types: Seq<TypeDataV>, name: Seq<u8>, i: int) -> Option<int>
    decreases types.len() - i,
{
    if i < 0 || i >= types.len() {
        None
    } else if types[i] is Enum && types[i]->Enum_0.full_name == name {
        Some(i)
    } else {
        spec_find_enum(types, name, i + 1)
    }
}

/// The extension registrations targeting one type id, in registration
/// order.
pub open spec fn spec_extensions_for(exts: Seq<ExtensionDataV>, t: int) -> Seq<ExtensionDataV>
    decreases exts.len(),
{
    if exts.len() == 0 {
        Seq::empty()
    } else if exts.last().target == t {
        spec_extensions_for(exts.drop_last(), t).push(exts.last())
    } else {
        spec_extensions_for(exts.drop_last(), t)
    }
}

/// The first merged-options entry of a declaration with this name.
pub open spec fn spec_find_decl_options(
    opts: Seq<DeclOptionsV>,
    owner: Seq<u8>,
    i: int,
) -> Option<int>
    decreases opts.len() - i,
{
    if i < 0 || i >= opts.len() {
        None
    } else if opts[i].owner == owner {
        Some(i)
    } else {
        spec_find_decl_options(opts, owner, i + 1)
    }
}

/// A lookup key: fully-qualified reference text with or without the
/// leading separator.
pub open spec fn spec_lookup_key(name: Seq<u8>) -> Seq<u8> {
    if crate::name::spec_is_absolute(name) {
        name.skip(1)
    } else {
        name
    }
}

/// A protobuf message definition: a view into the pool, identified by the
/// message's type id.
#[derive(Debug, Clone, Copy)]
pub struct Descriptor<'a> {
    pub pool: &'a FileDescriptor,
    pub ty: usize,
}

/// A field of a message: a view into the pool.
#[derive(Debug, Clone, Copy)]
pub struct FieldDescriptor<'a> {
    pub message: Descriptor<'a>,
    pub field: usize,
}

/// A protobuf enum definition: a view into the pool.
#[derive(Debug, Clone, Copy)]
pub struct EnumDescriptor<'a> {
    pub pool: &'a FileDescriptor,
    pub ty: usize,
}

/// One declared value of an enum.
#[derive(Debug, Clone, Copy)]
pub struct EnumValueDescriptor<'a> {
    pub parent: EnumDescriptor<'a>,
    pub index: usize,
}

/// A service definition: a view into the pool.
#[derive(Debug, Clone, Copy)]
pub struct ServiceDescriptor<'a> {
    pub pool: &'a FileDescriptor,
    pub index: usize,
}

/// One method of a service.
#[derive(Debug, Clone, Copy)]
pub struct MethodDescriptor<'a> {
    pub service: ServiceDescriptor<'a>,
    pub index: usize,
}

/// The resolved type of a field: a scalar tag, or a view of the message
/// or enum definition the field refers to.
#[derive(Debug, Clone, Copy)]
pub enum FieldDescriptorKind<'a> {
    Double,
    Float,
    Int32,
    Int64,
    Uint32,
    Uint64,
    Sint32,
    Sint64,
    Fixed32,
    Fixed64,
    Sfixed32,
    Sfixed64,
    Bool,
    String,
    Bytes,
    Message(Descriptor<'a>),
    Enum(EnumDescriptor<'a>),
}

impl FileDescriptor {
    /// The retained file records, exactly as validated (with the pool's
    /// synthesized declarations materialized). Re-encoding them is the
    /// pool's persistent form.
    pub fn file_descriptor_set(&self) -> (r: &Vec<FileRecord>)
        ensures
            dv_files(r@) == self.pv().raw,
    {
        &self.raw
    }

    /// Looks a message up by its fully-qualified name; a leading dot is
    /// accepted and ignored.
    #[verifier::loop_isolation(false)]
    pub fn get_message_by_name<'a>(&'a self, name: &Vec<u8>) -> (r: Option<Descriptor<'a>>)
        ensures
            match r {
                Some(d) => spec_find_message(self.pv().types, spec_lookup_key(name@), 0) == Some(
                    d.ty as int,
                ) && d.valid() && d.pool == self,
                None => spec_find_message(self.pv().types, spec_lookup_key(name@), 0) is None,
        },
    {
        let key = strip_leading_dot(name);
        let ghost stypes = dv_type_datas(self.types@);
        let mut i: usize = 0;
        while i < self.types.len()
            invariant
                i <= self.types@.len(),
                spec_find_message(stypes, key@, i as int) == spec_find_message(stypes, key@, 0),
            decreases self.types@.len() - i,
        {
            proof {
                assert(stypes[i as int] == self.types@[i as int].dv());
            }
            match &self.types[i] {
                TypeData::Message(m) => {
                    if crate::bytes::bytes_eq(&m.full_name, &key) {
                        proof {
                            assert(spec_find_message(stypes, key@, i as int) == Some(i as int));
                        }
                        return Some(Descriptor { pool: self, ty: i });
                    }
                },
                TypeData::Enum(_) => {
                },
            }
            i += 1;
        }
        None
    }

    /// Looks an enum up by its fully-qualified name; a leading dot is
    /// accepted and ignored.
    #[verifier::loop_isolation(false)]
    pub fn get_enum_by_name<'a>(&'a self, name: &Vec<u8>) -> (r: Option<EnumDescriptor<'a>>)
        ensures
            match r {
                Some(d) => spec_find_enum(self.pv().types, spec_lookup_key(name@), 0) == Some(
                    d.ty as int,
                ) && d.valid() && d.pool == self,
                None => spec_find_enum(self.pv().types, spec_lookup_key(name@), 0) is None,
        },
    {
        let key = strip_leading_dot(name);
        let ghost stypes = dv_type_datas(self.types@);
        let mut i: usize = 0;
        while i < self.types.len()
            invariant
                i <= self.types@.len(),
                spec_find_enum(stypes, key@, i as int) == spec_find_enum(stypes, key@, 0),
            decreases self.types@.len() - i,
        {
            proof {
                assert(stypes[i as int] == self.types@[i as int].dv());
            }
            match &self.types[i] {
                TypeData::Enum(e) => {
                    if crate::bytes::bytes_eq(&e.full_name, &key) {
                        proof {
                            assert(spec_find_enum(stypes, key@, i as int) == Some(i as int));
                        }
                        return Some(EnumDescriptor { pool: self, ty: i });
                    }
                },
                TypeData::Message(_) => {
                },
            }
            i += 1;
        }
        None
    }

    /// The services defined across the pool's files, in registration
    /// order.
    pub fn services<'a>(&'a self) -> (r: Vec<ServiceDescriptor<'a>>)
        ensures
            r@.len() == self.pv().services.len(),
            forall|i: int| #![trigger r@[i]]
                0 <= i < r@.len() ==> r@[i].index == i && r@[i].pool == self && r@[i].valid(),
    {
        let mut out: Vec<ServiceDescriptor<'a>> = Vec::new();
        let mut i: usize = 0;
        while i < self.services.len()
            invariant
                i <= self.services@.len(),
                out@.len() == i,
                forall|j: int| #![trigger out@[j]]
                    0 <= j < i ==> out@[j].index == j && out@[j].pool == self && out@[j].valid(),
            decreases self.services@.len() - i,
        {
            out.push(ServiceDescriptor { pool: self, index: i });
            i += 1;
        }
        out
    }

    /// Looks a service up by its fully-qualified name; a leading dot is
    /// accepted and ignored.
    #[verifier::loop_isolation(false)]
    pub fn get_service_by_name<'a>(&'a self, name: &Vec<u8>) -> (r: Option<ServiceDescriptor<'a>>)
        ensures
            match r {
                Some(d) => (d.index as int) < self.pv().services.len() && self.pv().services[
                    d.index as int].full_name == spec_lookup_key(name@) && d.pool == self
                    && d.valid(),
                None => forall|i: int|
                    0 <= i < self.pv().services.len() ==> (
                    #[trigger] self.pv().services[i]).full_name != spec_lookup_key(name@),
            },
    {
        let key = strip_leading_dot(name);
        let ghost ssvcs = dv_service_datas(self.services@);
        let mut i: usize = 0;
        while i < self.services.len()
            invariant
                i <= self.services@.len(),
                forall|j: int| 0 <= j < i ==> (#[trigger] ssvcs[j]).full_name != key@,
            decreases self.services@.len() - i,
        {
            proof {
                assert(ssvcs[i as int] == self.services@[i as int].dv());
            }
            if crate::bytes::bytes_eq(&self.services[i].full_name, &key) {
                return Some(ServiceDescriptor { pool: self, index: i });
            }
            i += 1;
        }
        None
    }

    /// Every extension registration of the pool, in registration order.
    pub fn extensions(&self) -> (r: &Vec<ExtensionData>)
        ensures
            dv_extension_datas(r@) == self.pv().extensions,
    {
        &self.extensions
    }

    /// The extension registrations whose target is the given message, in
    /// registration order.
    #[verifier::loop_isolation(false)]
    pub fn extensions_of<'a>(&'a self, message: &Descriptor<'a>) -> (r: Vec<&'a ExtensionData>)
        ensures
            Seq::new(r@.len(), |i: int| r@[i].dv()) == spec_extensions_for(
                self.pv().extensions,
                message.ty as int,
            ),
    {
        let ghost sexts = dv_extension_datas(self.extensions@);
        let mut out: Vec<&'a ExtensionData> = Vec::new();
        let mut i: usize = 0;
        while i < self.extensions.len()
            invariant
                i <= self.extensions@.len(),
                Seq::new(out@.len(), |k: int| out@[k].dv()) == spec_extensions_for(
                    sexts.take(i as int),
                    message.ty as int,
                ),
            decreases self.extensions@.len() - i,
        {
            proof {
                assert(sexts[i as int] == self.extensions@[i as int].dv());
                let cur = sexts.take(i + 1);
                assert(cur.drop_last() =~= sexts.take(i as int));
                assert(cur.last() == sexts[i as int]);
            }
            let ghost pre = Seq::new(out@.len(), |k: int| out@[k].dv());
            if self.extensions[i].target == message.ty {
                out.push(&self.extensions[i]);
                proof {
                    assert(Seq::new(out@.len(), |k: int| out@[k].dv()) =~= pre.push(
                        sexts[i as int],
                    ));
                }
            }
            i += 1;
        }
        proof {
            assert(sexts.take(self.extensions@.len() as int) =~= sexts);
        }
        out
    }

    /// The merged options of a declaration, by its fully-qualified name
    /// (or file name for file-level options): the first entry with that
    /// owner, or `None` exactly when no declaration of that name set any
    /// option.
    #[verifier::loop_isolation(false)]
    pub fn merged_options<'a>(&'a self, owner: &Vec<u8>) -> (r: Option<&'a DeclOptions>)
        ensures
            match r {
                Some(d) => spec_find_decl_options(self.pv().options, owner@, 0) matches Some(k)
                    && self.pv().options[k] == d.dv() && d.dv().owner == owner@,
                None => forall|i: int|
                    0 <= i < self.pv().options.len() ==> (#[trigger] self.pv().options[i]).owner
                        != owner@,
            },
    {
        let ghost sopts = dv_decl_options(self.options@);
        let mut i: usize = 0;
        while i < self.options.len()
            invariant
                i <= self.options@.len(),
                spec_find_decl_options(sopts, owner@, i as int) == spec_find_decl_options(
                    sopts,
                    owner@,
                    0,
                ),
                forall|j: int| 0 <= j < i ==> (#[trigger] sopts[j]).owner != owner@,
            decreases self.options@.len() - i,
        {
            proof {
                assert(sopts[i as int] == self.options@[i as int].dv());
            }
            if crate::bytes::bytes_eq(&self.options[i].owner, owner) {
                proof {
                    assert(spec_find_decl_options(sopts, owner@, i as int) == Some(i as int));
                }
                return Some(&self.options[i]);
            }
            i += 1;
        }
        None
    }
}

fn strip_leading_dot(name: &Vec<u8>) -> (r: Vec<u8>)
    ensures
        r@ == spec_lookup_key(name@),
{
    if crate::name::is_absolute(name) {
        let mut out: Vec<u8> = Vec::new();
        let mut i: usize = 1;
        while i < name.len()
            invariant
                1 <= i <= name@.len(),
                out@ == name@.skip(1).take(i - 1),
            decreases name@.len() - i,
        {
            out.push(name[i]);
            proof {
                assert(name@.skip(1).take(i - 1).push(name@[i as int]) =~= name@.skip(1).take(
                    i as int,
                ));
            }
            i += 1;
        }
        proof {
            assert(name@.skip(1).take(name@.len() - 1) =~= name@.skip(1));
        }
        out
    } else {
        crate::bytes::clone_bytes(name)
    }
}

impl<'a> Descriptor<'a> {
    /// Whether this view points at a message of its pool.
    pub closed spec fn valid(&self) -> bool {
        (self.ty as int) < self.pool.pv().types.len() && self.pool.pv().types[self.ty as int]
            is Message
    }

    /// The message data this view denotes.
    pub closed spec fn data(&self) -> MessageDataV {
        self.pool.pv().types[self.ty as int]->Message_0
    }

    /// The pool this message is defined in.
    pub fn file_descriptor(&self) -> (r: &'a FileDescriptor)
        ensures
            r == self.pool,
    {
        self.pool
    }

    /// The message's fully-qualified name.
    pub fn full_name(&self) -> (r: &'a Vec<u8>)
        requires
            self.valid(),
        ensures
            r@ == self.data().full_name,
    {
        match &self.pool.types[self.ty] {
            TypeData::Message(m) => {
                proof {
                    assert(dv_type_datas(self.pool.types@)[self.ty as int] == self.pool.types@[
                        self.ty as int].dv());
                }
                &m.full_name
            },
            TypeData::Enum(_) => {
                proof {
                    assert(dv_type_datas(self.pool.types@)[self.ty as int] == self.pool.types@[
                        self.ty as int].dv());
                    assert(false);
                }
                vstd::pervasive::unreached()
            },
        }
    }

    /// The message's fields, ordered by field number.
    pub fn fields(&self) -> (r: Vec<FieldDescriptor<'a>>)
        requires
            self.valid(),
        ensures
            r@.len() == self.data().fields.len(),
            forall|i: int| #![trigger r@[i]]
                0 <= i < r@.len() ==> r@[i].field == i && r@[i].message == *self && r@[i].valid(),
    {
        let m = self.message_data();
        let n = m.fields.len();
        proof {
            assert(crate::graph::dv_field_datas(m.fields@).len() == m.fields@.len());
        }
        let mut out: Vec<FieldDescriptor<'a>> = Vec::new();
        let mut i: usize = 0;
        while i < n
            invariant
                i <= n,
                out@.len() == i,
                forall|j: int| #![trigger out@[j]]
                    0 <= j < i ==> out@[j].field == j && out@[j].message == *self,
            decreases n - i,
        {
            out.push(FieldDescriptor { message: *self, field: i });
            i += 1;
        }
        out
    }

    /// Looks a field up by number.
    #[verifier::loop_isolation(false)]
    pub fn get_field(&self, number: u32) -> (r: Option<FieldDescriptor<'a>>)
        requires
            self.valid(),
        ensures
            match r {
                Some(f) => f.message == *self && f.valid() && (f.field as int)
                    < self.data().fields.len() && self.data().fields[f.field as int].number
                    == number && (forall|j: int|
                    0 <= j < f.field as int ==> (#[trigger] self.data().fields[j]).number
                        != number),
                None => forall|j: int|
                    0 <= j < self.data().fields.len() ==> (#[trigger] self.data().fields[j]).number
                        != number,
        },
    {
        let m = self.message_data();
        let ghost sfields = self.data().fields;
        let mut i: usize = 0;
        while i < m.fields.len()
            invariant
                i <= m.fields@.len(),
                sfields == crate::graph::dv_field_datas(m.fields@),
                forall|j: int| 0 <= j < i ==> (#[trigger] sfields[j]).number != number,
            decreases m.fields@.len() - i,
        {
            proof {
                assert(sfields[i as int] == m.fields@[i as int].dv());
            }
            if m.fields[i].number == number {
                return Some(FieldDescriptor { message: *self, field: i });
            }
            i += 1;
        }
        None
    }

    /// Looks a field up by name.
    #[verifier::loop_isolation(false)]
    pub fn get_field_by_name(&self, name: &Vec<u8>) -> (r: Option<FieldDescriptor<'a>>)
        requires
            self.valid(),
        ensures
            match r {
                Some(f) => f.message == *self && f.valid() && (f.field as int)
                    < self.data().fields.len() && self.data().fields[f.field as int].name == name@
                    && (forall|j: int|
                    0 <= j < f.field as int ==> (#[trigger] self.data().fields[j]).name != name@),
                None => forall|j: int|
                    0 <= j < self.data().fields.len() ==> (#[trigger] self.data().fields[j]).name
                        != name@,
        },
    {
        let m = self.message_data();
        let ghost sfields = self.data().fields;
        let mut i: usize = 0;
        while i < m.fields.len()
            invariant
                i <= m.fields@.len(),
                sfields == crate::graph::dv_field_datas(m.fields@),
                forall|j: int| 0 <= j < i ==> (#[trigger] sfields[j]).name != name@,
            decreases m.fields@.len() - i,
        {
            proof {
                assert(sfields[i as int] == m.fields@[i as int].dv());
            }
            if crate::bytes::bytes_eq(&m.fields[i].name, name) {
                return Some(FieldDescriptor { message: *self, field: i });
            }
            i += 1;
        }
        None
    }

    /// Whether this message carries the map-entry mark. Entry messages
    /// the pool synthesizes for map fields always carry it and have
    /// exactly the key and value fields; a record marked in the input is
    /// taken as declared, with no check of its shape.
    pub fn is_map_entry(&self) -> (r: bool)
        requires
            self.valid(),
        ensures
            r == self.data().map_entry,
    {
        self.message_data().map_entry
    }

    /// The message's oneof groups, synthetic ones included.
    pub fn oneofs(&self) -> (r: &'a Vec<crate::graph::OneofData>)
        requires
            self.valid(),
        ensures
            r@.len() == self.data().oneofs.len(),
            forall|i: int|
                0 <= i < r@.len() ==> (#[trigger] r@[i].dv()) == self.data().oneofs[i],
    {
        let m = self.message_data();
        proof {
            assert(forall|i: int|
                0 <= i < m.oneofs@.len() ==> (#[trigger] m.oneofs@[i].dv())
                    == self.data().oneofs[i]);
        }
        &m.oneofs
    }

    fn message_data(&self) -> (r: &'a MessageData)
        requires
            self.valid(),
        ensures
            r.dv() == self.data(),
    {
        match &self.pool.types[self.ty] {
            TypeData::Message(m) => {
                proof {
                    assert(dv_type_datas(self.pool.types@)[self.ty as int] == self.pool.types@[
                        self.ty as int].dv());
                }
                m
            },
            TypeData::Enum(_) => {
                proof {
                    assert(dv_type_datas(self.pool.types@)[self.ty as int] == self.pool.types@[
                        self.ty as int].dv());
                    assert(false);
                }
                vstd::pervasive::unreached()
            },
        }
    }
}

impl<'a> FieldDescriptor<'a> {
    /// Whether this view points at a field of a valid message.
    pub closed spec fn valid(&self) -> bool {
        self.message.valid() && (self.field as int) < self.message.data().fields.len()
    }

    /// The field data this view denotes.
    pub closed spec fn fdata(&self) -> crate::graph::FieldDataV {
        self.message.data().fields[self.field as int]
    }

    fn field_data(&self) -> (r: &'a crate::graph::FieldData)
        requires
            self.valid(),
        ensures
            r.dv() == self.fdata(),
    {
        let m = self.message.message_data();
        proof {
            assert(crate::graph::dv_field_datas(m.fields@)[self.field as int] == m.fields@[
                self.field as int].dv());
        }
        &m.fields[self.field]
    }

    /// The field's number.
    pub fn tag(&self) -> (r: u32)
        requires
            self.valid(),
        ensures
            r == self.fdata().number,
    {
        self.field_data().number
    }

    /// The field's declared name.
    pub fn name(&self) -> (r: &'a Vec<u8>)
        requires
            self.valid(),
        ensures
            r@ == self.fdata().name,
    {
        &self.field_data().name
    }

    /// The field's JSON name: the declared one, or the camel-case form of
    /// the declared name.
    pub fn json_name(&self) -> (r: &'a Vec<u8>)
        requires
            self.valid(),
        ensures
            r@ == self.fdata().json_name,
    {
        &self.field_data().json_name
    }

    /// Whether the field uses the group encoding.
    pub fn is_group(&self) -> (r: bool)
        requires
            self.valid(),
        ensures
            r == self.fdata().is_group,
    {
        self.field_data().is_group
    }

    /// Whether the field uses the packed encoding.
    pub fn is_packed(&self) -> (r: bool)
        requires
            self.valid(),
        ensures
            r == self.fdata().is_packed,
    {
        self.field_data().is_packed
    }

    /// The field's cardinality.
    pub fn cardinality(&self) -> (r: crate::scalar::Cardinality)
        requires
            self.valid(),
        ensures
            r == self.fdata().cardinality,
    {
        self.field_data().cardinality
    }

    /// Whether the field distinguishes an unset value from the default.
    pub fn supports_presence(&self) -> (r: bool)
        requires
            self.valid(),
        ensures
            r == self.fdata().supports_presence,
    {
        self.field_data().supports_presence
    }

    /// Whether this field is a map field: repeated, message-typed, and
    /// backed by a synthesized entry message.
    pub fn is_map(&self) -> (r: bool)
        requires
            self.valid(),
        ensures
            r == spec_field_is_map(self.message.pool.pv(), self.fdata()),
    {
        let fd = self.field_data();
        if !matches!(fd.cardinality, crate::scalar::Cardinality::Repeated) {
            return false;
        }
        match fd.kind {
            crate::graph::FieldKind::Message(t) => {
                if t < self.message.pool.types.len() {
                    proof {
                        assert(dv_type_datas(self.message.pool.types@)[t as int]
                            == self.message.pool.types@[t as int].dv());
                    }
                    match &self.message.pool.types[t] {
                        TypeData::Message(m) => m.map_entry,
                        TypeData::Enum(_) => false,
                    }
                } else {
                    false
                }
            },
            _ => false,
        }
    }

    /// Whether this field is a list: repeated but not a map.
    pub fn is_list(&self) -> (r: bool)
        requires
            self.valid(),
        ensures
            r == (self.fdata().cardinality is Repeated && !spec_field_is_map(
                self.message.pool.pv(),
                self.fdata(),
            )),
    {
        let rep = matches!(
            self.field_data().cardinality,
            crate::scalar::Cardinality::Repeated,
        );
        rep && !self.is_map()
    }

    /// The field's resolved type: a scalar tag, or a view of the target
    /// message or enum. A pool that construction returned always has its
    /// type ids in range, so the scalar fallback for a dangling id is
    /// unreachable on such a pool.
    pub fn kind(&self) -> (r: FieldDescriptorKind<'a>)
        requires
            self.valid(),
        ensures
            r == spec_kind_view(self.message.pool, self.fdata().kind),
            r matches FieldDescriptorKind::Message(d) ==> d.valid() && d.pool
                == self.message.pool,
            r matches FieldDescriptorKind::Enum(e) ==> e.valid() && e.pool == self.message.pool,
    {
        let pool = self.message.pool;
        let k = self.field_data().kind;
        match k {
            crate::graph::FieldKind::Scalar(s) => scalar_kind_view(s),
            crate::graph::FieldKind::Message(t) => {
                if t < pool.types.len() {
                    proof {
                        assert(dv_type_datas(pool.types@)[t as int] == pool.types@[t as int].dv());
                    }
                    match &pool.types[t] {
                        TypeData::Message(_) => FieldDescriptorKind::Message(
                            Descriptor { pool, ty: t },
                        ),
                        TypeData::Enum(_) => FieldDescriptorKind::Int32,
                    }
                } else {
                    FieldDescriptorKind::Int32
                }
            },
            crate::graph::FieldKind::Enum(t) => {
                if t < pool.types.len() {
                    proof {
                        assert(dv_type_datas(pool.types@)[t as int] == pool.types@[t as int].dv());
                    }
                    match &pool.types[t] {
                        TypeData::Enum(_) => FieldDescriptorKind::Enum(
                            EnumDescriptor { pool, ty: t },
                        ),
                        TypeData::Message(_) => FieldDescriptorKind::Int32,
                    }
                } else {
                    FieldDescriptorKind::Int32
                }
            },
        }
    }

    /// The field's parsed default value, if it declares one; an absent
    /// default means the type-appropriate zero value.
    pub fn default_value(&self) -> (r: Option<&'a crate::defaults::DefaultValue>)
        requires
            self.valid(),
        ensures
            match r {
                Some(d) => self.fdata().default_value == Some(d.dv()),
                None => self.fdata().default_value is None,
        },
    {
        match &self.field_data().default_value {
            Some(d) => Some(d),
            None => None,
        }
    }
}

/// Whether a field is a map field of this pool.
pub open spec fn spec_field_is_map(pv: PoolV, fd: crate::graph::FieldDataV) -> bool {
    &&& fd.cardinality is Repeated
    &&& match fd.kind {
        crate::graph::FieldKind::Message(t) => (t as int) < pv.types.len() && pv.types[t as int]
            is Message && pv.types[t as int]->Message_0.map_entry,
        _ => false,
    }
}

/// The descriptor-kind view of a resolved field kind. A dangling type id
/// (impossible in a constructed pool) falls back to a scalar tag.
pub closed spec fn spec_kind_view<'a>(
    pool: &'a FileDescriptor,
    k: crate::graph::FieldKind,
) -> FieldDescriptorKind<'a> {
    match k {
        crate::graph::FieldKind::Scalar(s) => spec_scalar_kind_view(s),
        crate::graph::FieldKind::Message(t) => {
            if (t as int) < pool.pv().types.len() && pool.pv().types[t as int] is Message {
                FieldDescriptorKind::Message(Descriptor { pool, ty: t })
            } else {
                FieldDescriptorKind::Int32
            }
        },
        crate::graph::FieldKind::Enum(t) => {
            if (t as int) < pool.pv().types.len() && pool.pv().types[t as int] is Enum {
                FieldDescriptorKind::Enum(EnumDescriptor { pool, ty: t })
            } else {
                FieldDescriptorKind::Int32
            }
        },
    }
}

/// The descriptor-kind tag of a scalar.
pub open spec fn spec_scalar_kind_view<'a>(s: crate::scalar::ScalarKind) -> FieldDescriptorKind<
    'a,
> {
    match s {
        crate::scalar::ScalarKind::Double => FieldDescriptorKind::Double,
        crate::scalar::ScalarKind::Float => FieldDescriptorKind::Float,
        crate::scalar::ScalarKind::Int32 => FieldDescriptorKind::Int32,
        crate::scalar::ScalarKind::Int64 => FieldDescriptorKind::Int64,
        crate::scalar::ScalarKind::Uint32 => FieldDescriptorKind::Uint32,
        crate::scalar::ScalarKind::Uint64 => FieldDescriptorKind::Uint64,
        crate::scalar::ScalarKind::Sint32 => FieldDescriptorKind::Sint32,
        crate::scalar::ScalarKind::Sint64 => FieldDescriptorKind::Sint64,
        crate::scalar::ScalarKind::Fixed32 => FieldDescriptorKind::Fixed32,
        crate::scalar::ScalarKind::Fixed64 => FieldDescriptorKind::Fixed64,
        crate::scalar::ScalarKind::Sfixed32 => FieldDescriptorKind::Sfixed32,
        crate::scalar::ScalarKind::Sfixed64 => FieldDescriptorKind::Sfixed64,
        crate::scalar::ScalarKind::Bool => FieldDescriptorKind::Bool,
        crate::scalar::ScalarKind::String => FieldDescriptorKind::String,
        crate::scalar::ScalarKind::Bytes => FieldDescriptorKind::Bytes,
    }
}

fn scalar_kind_view<'a>(s: crate::scalar::ScalarKind) -> (r: FieldDescriptorKind<'a>)
    ensures
        r == spec_scalar_kind_view::<'a>(s),
{
    match s {
        crate::scalar::ScalarKind::Double => FieldDescriptorKind::Double,
        crate::scalar::ScalarKind::Float => FieldDescriptorKind::Float,
        crate::scalar::ScalarKind::Int32 => FieldDescriptorKind::Int32,
        crate::scalar::ScalarKind::Int64 => FieldDescriptorKind::Int64,
        crate::scalar::ScalarKind::Uint32 => FieldDescriptorKind::Uint32,
        crate::scalar::ScalarKind::Uint64 => FieldDescriptorKind::Uint64,
        crate::scalar::ScalarKind::Sint32 => FieldDescriptorKind::Sint32,
        crate::scalar::ScalarKind::Sint64 => FieldDescriptorKind::Sint64,
        crate::scalar::ScalarKind::Fixed32 => FieldDescriptorKind::Fixed32,
        crate::scalar::ScalarKind::Fixed64 => FieldDescriptorKind::Fixed64,
        crate::scalar::ScalarKind::Sfixed32 => FieldDescriptorKind::Sfixed32,
        crate::scalar::ScalarKind::Sfixed64 => FieldDescriptorKind::Sfixed64,
        crate::scalar::ScalarKind::Bool => FieldDescriptorKind::Bool,
        crate::scalar::ScalarKind::String => FieldDescriptorKind::String,
        crate::scalar::ScalarKind::Bytes => FieldDescriptorKind::Bytes,
    }
}

impl<'a> FieldDescriptorKind<'a> {
    /// The message view, for a message-typed field.
    pub fn as_message(&self) -> (r: Option<&Descriptor<'a>>)
        ensures
            match r {
                Some(d) => *self matches FieldDescriptorKind::Message(m) && *d == m,
                None => !(*self matches FieldDescriptorKind::Message(_)),
        },
    {
        match self {
            FieldDescriptorKind::Message(d) => Some(d),
            _ => None,
        }
    }

    /// The enum view, for an enum-typed field.
    pub fn as_enum(&self) -> (r: Option<&EnumDescriptor<'a>>)
        ensures
            match r {
                Some(d) => *self matches FieldDescriptorKind::Enum(e) && *d == e,
                None => !(*self matches FieldDescriptorKind::Enum(_)),
        },
    {
        match self {
            FieldDescriptorKind::Enum(d) => Some(d),
            _ => None,
        }
    }
}

impl<'a> EnumDescriptor<'a> {
    /// Whether this view points at an enum of its pool.
    pub closed spec fn valid(&self) -> bool {
        (self.ty as int) < self.pool.pv().types.len() && self.pool.pv().types[self.ty as int]
            is Enum
    }

    /// The enum data this view denotes.
    pub closed spec fn data(&self) -> crate::graph::EnumDataV {
        self.pool.pv().types[self.ty as int]->Enum_0
    }

    fn enum_data(&self) -> (r: &'a crate::graph::EnumData)
        requires
            self.valid(),
        ensures
            r.dv() == self.data(),
    {
        match &self.pool.types[self.ty] {
            TypeData::Enum(e) => {
                proof {
                    assert(dv_type_datas(self.pool.types@)[self.ty as int] == self.pool.types@[
                        self.ty as int].dv());
                }
                e
            },
            TypeData::Message(_) => {
                proof {
                    assert(dv_type_datas(self.pool.types@)[self.ty as int] == self.pool.types@[
                        self.ty as int].dv());
                    assert(false);
                }
                vstd::pervasive::unreached()
            },
        }
    }

    /// The enum's fully-qualified name.
    pub fn full_name(&self) -> (r: &'a Vec<u8>)
        requires
            self.valid(),
        ensures
            r@ == self.data().full_name,
    {
        &self.enum_data().full_name
    }

    /// The enum's declared values, in declaration order.
    #[verifier::loop_isolation(false)]
    pub fn values(&self) -> (r: Vec<EnumValueDescriptor<'a>>)
        requires
            self.valid(),
        ensures
            r@.len() == self.data().values.len(),
            forall|i: int| #![trigger r@[i]]
                0 <= i < r@.len() ==> r@[i].index == i && r@[i].parent == *self && r@[i].valid(),
    {
        let e = self.enum_data();
        proof {
            assert(e.dv().values.len() == e.values@.len());
            assert(self.data().values.len() == e.values@.len());
        }
        let n = e.values.len();
        let mut out: Vec<EnumValueDescriptor<'a>> = Vec::new();
        let mut i: usize = 0;
        while i < n
            invariant
                i <= n,
                out@.len() == i,
                forall|j: int| #![trigger out@[j]]
                    0 <= j < i ==> out@[j].index == j && out@[j].parent == *self
                        && out@[j].valid(),
            decreases n - i,
        {
            out.push(EnumValueDescriptor { parent: *self, index: i });
            i += 1;
        }
        out
    }

    /// The enum's default value: its first declared value. The caller
    /// checks that the enum declares any values at all.
    pub fn default_value(&self) -> (r: EnumValueDescriptor<'a>)
        requires
            self.valid(),
            self.data().values.len() > 0,
        ensures
            r.parent == *self,
            r.index == 0,
            r.valid(),
    {
        EnumValueDescriptor { parent: *self, index: 0 }
    }
}

impl<'a> EnumValueDescriptor<'a> {
    /// Whether this view points at a declared value.
    pub closed spec fn valid(&self) -> bool {
        self.parent.valid() && (self.index as int) < self.parent.data().values.len()
    }

    /// The value's number.
    pub fn number(&self) -> (r: i32)
        requires
            self.valid(),
        ensures
            r == self.parent.data().values[self.index as int].number,
    {
        let e = self.parent.enum_data();
        proof {
            assert(Seq::new(e.values@.len(), |i: int| e.values@[i].dv())[self.index as int]
                == e.values@[self.index as int].dv());
        }
        e.values[self.index].number
    }

    /// The value's name.
    pub fn name(&self) -> (r: &'a Vec<u8>)
        requires
            self.valid(),
        ensures
            r@ == self.parent.data().values[self.index as int].name,
    {
        let e = self.parent.enum_data();
        proof {
            assert(Seq::new(e.values@.len(), |i: int| e.values@[i].dv())[self.index as int]
                == e.values@[self.index as int].dv());
        }
        &e.values[self.index].name
    }
}

impl<'a> ServiceDescriptor<'a> {
    /// Whether this view points at a service of its pool.
    pub closed spec fn valid(&self) -> bool {
        (self.index as int) < self.pool.pv().services.len()
    }

    /// The service data this view denotes.
    pub closed spec fn data(&self) -> crate::graph::ServiceDataV {
        self.pool.pv().services[self.index as int]
    }

    fn service_data(&self) -> (r: &'a ServiceData)
        requires
            self.valid(),
        ensures
            r.dv() == self.data(),
    {
        proof {
            assert(dv_service_datas(self.pool.services@)[self.index as int] == self.pool.services@[
                self.index as int].dv());
        }
        &self.pool.services[self.index]
    }

    /// The service's fully-qualified name.
    pub fn full_name(&self) -> (r: &'a Vec<u8>)
        requires
            self.valid(),
        ensures
            r@ == self.data().full_name,
    {
        &self.service_data().full_name
    }

    /// The service's methods, in declaration order.
    #[verifier::loop_isolation(false)]
    pub fn methods(&self) -> (r: Vec<MethodDescriptor<'a>>)
        requires
            self.valid(),
        ensures
            r@.len() == self.data().methods.len(),
            forall|i: int| #![trigger r@[i]]
                0 <= i < r@.len() ==> r@[i].index == i && r@[i].service == *self && r@[i].valid(),
    {
        let s = self.service_data();
        proof {
            assert(s.dv().methods.len() == s.methods@.len());
            assert(self.data().methods.len() == s.methods@.len());
        }
        let n = s.methods.len();
        let mut out: Vec<MethodDescriptor<'a>> = Vec::new();
        let mut i: usize = 0;
        while i < n
            invariant
                i <= n,
                out@.len() == i,
                forall|j: int| #![trigger out@[j]]
                    0 <= j < i ==> out@[j].index == j && out@[j].service == *self
                        && out@[j].valid(),
            decreases n - i,
        {
            out.push(MethodDescriptor { service: *self, index: i });
            i += 1;
        }
        out
    }
}

impl<'a> MethodDescriptor<'a> {
    /// Whether this view points at a declared method.
    pub closed spec fn valid(&self) -> bool {
        self.service.valid() && (self.index as int) < self.service.data().methods.len()
    }

    /// The method data this view denotes.
    pub closed spec fn mdata(&self) -> crate::graph::MethodDataV {
        self.service.data().methods[self.index as int]
    }

    fn method_data(&self) -> (r: &'a crate::graph::MethodData)
        requires
            self.valid(),
        ensures
            r.dv() == self.mdata(),
    {
        let s = self.service.service_data();
        proof {
            assert(Seq::new(s.methods@.len(), |i: int| s.methods@[i].dv())[self.index as int]
                == s.methods@[self.index as int].dv());
        }
        &s.methods[self.index]
    }

    /// The method's name.
    pub fn name(&self) -> (r: &'a Vec<u8>)
        requires
            self.valid(),
        ensures
            r@ == self.mdata().name,
    {
        &self.method_data().name
    }

    /// The method's input message, when its resolved id points at a
    /// message (always, on a constructed pool).
    pub fn input(&self) -> (r: Option<Descriptor<'a>>)
        requires
            self.valid(),
        ensures
            match r {
                Some(d) => d.pool == self.service.pool && d.ty == self.mdata().input && d.valid(),
                None => !((self.mdata().input as int) < self.service.pool.pv().types.len()
                    && self.service.pool.pv().types[self.mdata().input as int] is Message),
        },
    {
        let t = self.method_data().input;
        let pool = self.service.pool;
        if t < pool.types.len() {
            proof {
                assert(dv_type_datas(pool.types@)[t as int] == pool.types@[t as int].dv());
            }
            match &pool.types[t] {
                TypeData::Message(_) => Some(Descriptor { pool, ty: t }),
                TypeData::Enum(_) => None,
            }
        } else {
            None
        }
    }

    /// The method's output message, when its resolved id points at a
    /// message (always, on a constructed pool).
    pub fn output(&self) -> (r: Option<Descriptor<'a>>)
        requires
            self.valid(),
        ensures
            match r {
                Some(d) => d.pool == self.service.pool && d.ty == self.mdata().output && d.valid(),
                None => !((self.mdata().output as int) < self.service.pool.pv().types.len()
                    && self.service.pool.pv().types[self.mdata().output as int] is Message),
        },
    {
        let t = self.method_data().output;
        let pool = self.service.pool;
        if t < pool.types.len() {
            proof {
                assert(dv_type_datas(pool.types@)[t as int] == pool.types@[t as int].dv());
            }
            match &pool.types[t] {
                TypeData::Message(_) => Some(Descriptor { pool, ty: t }),
                TypeData::Enum(_) => None,
            }
        } else {
            None
        }
    }

    /// Whether the client streams its requests.
    pub fn client_streaming(&self) -> (r: bool)
        requires
            self.valid(),
        ensures
            r == self.mdata().client_streaming,
    {
        self.method_data().client_streaming
    }

    /// Whether the server streams its responses.
    pub fn server_streaming(&self) -> (r: bool)
        requires
            self.valid(),
        ensures
            r == self.mdata().server_streaming,
    {
        self.method_data().server_streaming
    }
}

} // verus!
