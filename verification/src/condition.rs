//! Structured diagnostics. Construction never aborts on the first problem:
//! every stage collects all the violations it can see, and the pool returns
//! the full, deduplicated, ordered list. Conditions are data; any
//! human-readable rendering is layered on top by the caller.

use vstd::prelude::*;

use crate::bytes::bytes_eq;

verus! {

/// Where a declaration came from, for two-sided conflict reports.
/// `imported` distinguishes a declaration taken over from a previously
/// constructed pool from one in the batch being compiled.
#[derive(Debug)]
pub struct DeclSite {
    pub file: Vec<u8>,
    pub imported: bool,
}

/// Spec mirror of [`DeclSite`].
#[verifier::ext_equal]
pub struct DeclSiteV {
    pub file: Seq<u8>,
    pub imported: bool,
}

impl DeclSite {
    pub open spec fn dv(&self) -> DeclSiteV {
        DeclSiteV { file: self.file@, imported: self.imported }
    }
}

/// One numbered declaration, as one side of a number conflict.
#[derive(Debug)]
pub enum NumberSpan {
    Field { name: Vec<u8>, number: i32 },
    EnumValue { name: Vec<u8>, number: i32 },
    ReservedRange { start: i32, end: i32 },
    ExtensionRange { start: i32, end: i32 },
}

/// Spec mirror of [`NumberSpan`].
#[verifier::ext_equal]
pub enum NumberSpanV {
    Field { name: Seq<u8>, number: i32 },
    EnumValue { name: Seq<u8>, number: i32 },
    ReservedRange { start: i32, end: i32 },
    ExtensionRange { start: i32, end: i32 },
}

impl NumberSpan {
    pub open spec fn dv(&self) -> NumberSpanV {
        match self {
            NumberSpan::Field { name, number } => NumberSpanV::Field {
                name: name@,
                number: *number,
            },
            NumberSpan::EnumValue { name, number } => NumberSpanV::EnumValue {
                name: name@,
                number: *number,
            },
            NumberSpan::ReservedRange { start, end } => NumberSpanV::ReservedRange {
                start: *start,
                end: *end,
            },
            NumberSpan::ExtensionRange { start, end } => NumberSpanV::ExtensionRange {
                start: *start,
                end: *end,
            },
        }
    }
}

/// One structural problem found during pool construction.
#[derive(Debug)]
pub enum Condition {
    /// A fully-qualified name was declared twice in the same scope.
    DuplicateName { name: Vec<u8>, first: DeclSite, second: DeclSite },
    /// A type reference resolved to nothing; `name` is the literal
    /// reference text.
    TypeNameNotFound { name: Vec<u8> },
    /// A numeric range (or single number) is outside the permitted bounds,
    /// or has its end before its start.
    InvalidRange { container: Vec<u8>, start: i32, end: i32 },
    /// Two numbered declarations of one container claim overlapping numbers.
    DuplicateNumber { container: Vec<u8>, first: NumberSpan, second: NumberSpan },
    /// An extension field's number lies outside every extension range of the
    /// message it extends; `help` names the valid ranges.
    InvalidExtensionNumber { number: i32, message_name: Vec<u8>, help: Vec<u8> },
    /// A default value was given where none is ever accepted
    /// (a message-typed field).
    InvalidDefault { field: Vec<u8> },
    /// An enum field's default names no value of the target enum; `help`
    /// lists the values that exist.
    InvalidEnumValue { field: Vec<u8>, value: Vec<u8>, help: Vec<u8> },
    /// A default literal does not have the shape the field's type expects.
    ValueInvalidType { field: Vec<u8>, expected: Vec<u8>, actual: Vec<u8> },
    /// A non-repeated option leaf was assigned twice; `first` and `second`
    /// are the positions of the two statements in their declaration's
    /// option list.
    OptionAlreadySet { owner: Vec<u8>, name: Vec<u8>, first: usize, second: usize },
    /// An option path names a field or extension that does not exist.
    UnknownOptionField { owner: Vec<u8>, name: Vec<u8> },
    /// A file imports a file that is neither in the batch nor in the pool
    /// being extended.
    MissingDependency { file: Vec<u8>, dependency: Vec<u8> },
}

/// Spec mirror of [`Condition`].
#[verifier::ext_equal]
pub enum ConditionV {
    DuplicateName { name: Seq<u8>, first: DeclSiteV, second: DeclSiteV },
    TypeNameNotFound { name: Seq<u8> },
    InvalidRange { container: Seq<u8>, start: i32, end: i32 },
    DuplicateNumber { container: Seq<u8>, first: NumberSpanV, second: NumberSpanV },
    InvalidExtensionNumber { number: i32, message_name: Seq<u8>, help: Seq<u8> },
    InvalidDefault { field: Seq<u8> },
    InvalidEnumValue { field: Seq<u8>, value: Seq<u8>, help: Seq<u8> },
    ValueInvalidType { field: Seq<u8>, expected: Seq<u8>, actual: Seq<u8> },
    OptionAlreadySet { owner: Seq<u8>, name: Seq<u8>, first: usize, second: usize },
    UnknownOptionField { owner: Seq<u8>, name: Seq<u8> },
    MissingDependency { file: Seq<u8>, dependency: Seq<u8> },
}

impl Condition {
    pub open spec fn dv(&self) -> ConditionV {
        match self {
            Condition::DuplicateName { name, first, second } => ConditionV::DuplicateName {
                name: name@,
                first: first.dv(),
                second: second.dv(),
            },
            Condition::TypeNameNotFound { name } => ConditionV::TypeNameNotFound { name: name@ },
            Condition::InvalidRange { container, start, end } => ConditionV::InvalidRange {
                container: container@,
                start: *start,
                end: *end,
            },
            Condition::DuplicateNumber { container, first, second } => ConditionV::DuplicateNumber {
                container: container@,
                first: first.dv(),
                second: second.dv(),
            },
            Condition::InvalidExtensionNumber {
                number,
                message_name,
                help,
            } => ConditionV::InvalidExtensionNumber {
                number: *number,
                message_name: message_name@,
                help: help@,
            },
            Condition::InvalidDefault { field } => ConditionV::InvalidDefault { field: field@ },
            Condition::InvalidEnumValue { field, value, help } => ConditionV::InvalidEnumValue {
                field: field@,
                value: value@,
                help: help@,
            },
            Condition::ValueInvalidType {
                field,
                expected,
                actual,
            } => ConditionV::ValueInvalidType {
                field: field@,
                expected: expected@,
                actual: actual@,
            },
            Condition::OptionAlreadySet { owner, name, first, second } => ConditionV::OptionAlreadySet {
                owner: owner@,
                name: name@,
                first: *first,
                second: *second,
            },
            Condition::UnknownOptionField { owner, name } => ConditionV::UnknownOptionField {
                owner: owner@,
                name: name@,
            },
            Condition::MissingDependency { file, dependency } => ConditionV::MissingDependency {
                file: file@,
                dependency: dependency@,
            },
        }
    }
}

pub open spec fn dv_conditions(s: Seq<Condition>) -> Seq<ConditionV> {
    Seq::new(s.len(), |i: int| s[i].dv())
}

impl Clone for DeclSite {
    fn clone(&self) -> (r: Self)
        ensures
            r.dv() == self.dv(),
    {
        DeclSite { file: crate::bytes::clone_bytes(&self.file), imported: self.imported }
    }
}

impl Clone for NumberSpan {
    fn clone(&self) -> (r: Self)
        ensures
            r.dv() == self.dv(),
    {
        match self {
            NumberSpan::Field { name, number } => NumberSpan::Field {
                name: crate::bytes::clone_bytes(name),
                number: *number,
            },
            NumberSpan::EnumValue { name, number } => NumberSpan::EnumValue {
                name: crate::bytes::clone_bytes(name),
                number: *number,
            },
            NumberSpan::ReservedRange { start, end } => NumberSpan::ReservedRange {
                start: *start,
                end: *end,
            },
            NumberSpan::ExtensionRange { start, end } => NumberSpan::ExtensionRange {
                start: *start,
                end: *end,
            },
        }
    }
}

impl Clone for Condition {
    fn clone(&self) -> (r: Self)
        ensures
            r.dv() == self.dv(),
    {
        match self {
            Condition::DuplicateName { name, first, second } => Condition::DuplicateName {
                name: crate::bytes::clone_bytes(name),
                first: first.clone(),
                second: second.clone(),
            },
            Condition::TypeNameNotFound { name } => Condition::TypeNameNotFound {
                name: crate::bytes::clone_bytes(name),
            },
            Condition::InvalidRange { container, start, end } => Condition::InvalidRange {
                container: crate::bytes::clone_bytes(container),
                start: *start,
                end: *end,
            },
            Condition::DuplicateNumber { container, first, second } => Condition::DuplicateNumber {
                container: crate::bytes::clone_bytes(container),
                first: first.clone(),
                second: second.clone(),
            },
            Condition::InvalidExtensionNumber {
                number,
                message_name,
                help,
            } => Condition::InvalidExtensionNumber {
                number: *number,
                message_name: crate::bytes::clone_bytes(message_name),
                help: crate::bytes::clone_bytes(help),
            },
            Condition::InvalidDefault { field } => Condition::InvalidDefault {
                field: crate::bytes::clone_bytes(field),
            },
            Condition::InvalidEnumValue { field, value, help } => Condition::InvalidEnumValue {
                field: crate::bytes::clone_bytes(field),
                value: crate::bytes::clone_bytes(value),
                help: crate::bytes::clone_bytes(help),
            },
            Condition::ValueInvalidType {
                field,
                expected,
                actual,
            } => Condition::ValueInvalidType {
                field: crate::bytes::clone_bytes(field),
                expected: crate::bytes::clone_bytes(expected),
                actual: crate::bytes::clone_bytes(actual),
            },
            Condition::OptionAlreadySet { owner, name, first, second } => Condition::OptionAlreadySet {
                owner: crate::bytes::clone_bytes(owner),
                name: crate::bytes::clone_bytes(name),
                first: *first,
                second: *second,
            },
            Condition::UnknownOptionField { owner, name } => Condition::UnknownOptionField {
                owner: crate::bytes::clone_bytes(owner),
                name: crate::bytes::clone_bytes(name),
            },
            Condition::MissingDependency { file, dependency } => Condition::MissingDependency {
                file: crate::bytes::clone_bytes(file),
                dependency: crate::bytes::clone_bytes(dependency),
            },
        }
    }
}

fn site_eq(a: &DeclSite, b: &DeclSite) -> (r: bool)
    ensures
        r == (a.dv() == b.dv()),
{
    let r = bytes_eq(&a.file, &b.file) && a.imported == b.imported;
    proof {
        if r {
            assert(a.dv() =~= b.dv());
        }
    }
    r
}

fn span_eq(a: &NumberSpan, b: &NumberSpan) -> (r: bool)
    ensures
        r == (a.dv() == b.dv()),
{
    let r = match (a, b) {
        (
            NumberSpan::Field { name: n1, number: x1 },
            NumberSpan::Field { name: n2, number: x2 },
        ) => bytes_eq(n1, n2) && x1 == x2,
        (
            NumberSpan::EnumValue { name: n1, number: x1 },
            NumberSpan::EnumValue { name: n2, number: x2 },
        ) => bytes_eq(n1, n2) && x1 == x2,
        (
            NumberSpan::ReservedRange { start: s1, end: e1 },
            NumberSpan::ReservedRange { start: s2, end: e2 },
        ) => s1 == s2 && e1 == e2,
        (
            NumberSpan::ExtensionRange { start: s1, end: e1 },
            NumberSpan::ExtensionRange { start: s2, end: e2 },
        ) => s1 == s2 && e1 == e2,
        _ => false,
    };
    proof {
        if r {
            assert(a.dv() =~= b.dv());
        }
    }
    r
}

/// Structural equality of two conditions, matching spec-level equality of
/// their mirrors.
pub fn condition_eq(a: &Condition, b: &Condition) -> (r: bool)
    ensures
        r == (a.dv() == b.dv()),
{
    let r = match (a, b) {
        (
            Condition::DuplicateName { name: n1, first: f1, second: s1 },
            Condition::DuplicateName { name: n2, first: f2, second: s2 },
        ) => bytes_eq(n1, n2) && site_eq(f1, f2) && site_eq(s1, s2),
        (
            Condition::TypeNameNotFound { name: n1 },
            Condition::TypeNameNotFound { name: n2 },
        ) => bytes_eq(n1, n2),
        (
            Condition::InvalidRange { container: c1, start: s1, end: e1 },
            Condition::InvalidRange { container: c2, start: s2, end: e2 },
        ) => bytes_eq(c1, c2) && s1 == s2 && e1 == e2,
        (
            Condition::DuplicateNumber { container: c1, first: f1, second: s1 },
            Condition::DuplicateNumber { container: c2, first: f2, second: s2 },
        ) => bytes_eq(c1, c2) && span_eq(f1, f2) && span_eq(s1, s2),
        (
            Condition::InvalidExtensionNumber { number: x1, message_name: m1, help: h1 },
            Condition::InvalidExtensionNumber { number: x2, message_name: m2, help: h2 },
        ) => x1 == x2 && bytes_eq(m1, m2) && bytes_eq(h1, h2),
        (
            Condition::InvalidDefault { field: f1 },
            Condition::InvalidDefault { field: f2 },
        ) => bytes_eq(f1, f2),
        (
            Condition::InvalidEnumValue { field: f1, value: v1, help: h1 },
            Condition::InvalidEnumValue { field: f2, value: v2, help: h2 },
        ) => bytes_eq(f1, f2) && bytes_eq(v1, v2) && bytes_eq(h1, h2),
        (
            Condition::ValueInvalidType { field: f1, expected: e1, actual: a1 },
            Condition::ValueInvalidType { field: f2, expected: e2, actual: a2 },
        ) => bytes_eq(f1, f2) && bytes_eq(e1, e2) && bytes_eq(a1, a2),
        (
            Condition::OptionAlreadySet { owner: o1, name: n1, first: f1, second: s1 },
            Condition::OptionAlreadySet { owner: o2, name: n2, first: f2, second: s2 },
        ) => bytes_eq(o1, o2) && bytes_eq(n1, n2) && f1 == f2 && s1 == s2,
        (
            Condition::UnknownOptionField { owner: o1, name: n1 },
            Condition::UnknownOptionField { owner: o2, name: n2 },
        ) => bytes_eq(o1, o2) && bytes_eq(n1, n2),
        (
            Condition::MissingDependency { file: f1, dependency: d1 },
            Condition::MissingDependency { file: f2, dependency: d2 },
        ) => bytes_eq(f1, f2) && bytes_eq(d1, d2),
        _ => false,
    };
    proof {
        if r {
            assert(a.dv() =~= b.dv());
        }
    }
    r
}

/// The order-preserving removal of exact repeats: each condition keeps its
/// first occurrence.
pub open spec fn spec_dedup(s: Seq<ConditionV>) -> Seq<ConditionV>
    decreases s,
{
    if s.len() == 0 {
        Seq::empty()
    } else {
        let pre = spec_dedup(s.drop_last());
        if s.drop_last().contains(s.last()) {
            pre
        } else {
            pre.push(s.last())
        }
    }
}

/// Removes exact repeats from a diagnostic list, keeping first occurrences
/// in order.
pub fn dedup_conditions(conds: Vec<Condition>) -> (r: Vec<Condition>)
    ensures
        dv_conditions(r@) == spec_dedup(dv_conditions(conds@)),
{
    let mut out: Vec<Condition> = Vec::new();
    let mut i: usize = 0;
    while i < conds.len()
        invariant
            i <= conds.len(),
            dv_conditions(out@) == spec_dedup(dv_conditions(conds@).take(i as int)),
        decreases conds.len() - i,
    {
        let mut seen = false;
        let mut j: usize = 0;
        while j < i
            invariant
                j <= i,
                i < conds.len(),
                seen == exists|k: int| 0 <= k < j && conds@[k].dv() == conds@[i as int].dv(),
            decreases i - j,
        {
            if condition_eq(&conds[j], &conds[i]) {
                seen = true;
            }
            j += 1;
        }
        proof {
            let full = dv_conditions(conds@);
            let pre = full.take(i as int);
            let cur = full.take(i + 1);
            assert(cur.drop_last() =~= pre);
            assert(cur.last() == conds@[i as int].dv());
            assert(seen == pre.contains(conds@[i as int].dv())) by {
                if seen {
                    let k = choose|k: int| 0 <= k < i && conds@[k].dv() == conds@[i as int].dv();
                    assert(pre[k] == conds@[k].dv());
                } else {
                    if pre.contains(conds@[i as int].dv()) {
                        let k = choose|k: int|
                            0 <= k < pre.len() && pre[k] == conds@[i as int].dv();
                        assert(conds@[k].dv() == conds@[i as int].dv());
                    }
                }
            }
        }
        if !seen {
            let c = conds[i].clone();
            out.push(c);
            proof {
                assert(dv_conditions(out@) =~= spec_dedup(
                    dv_conditions(conds@).take(i + 1),
                ));
            }
        } else {
            proof {
                assert(dv_conditions(out@) =~= spec_dedup(
                    dv_conditions(conds@).take(i + 1),
                ));
            }
        }
        i += 1;
    }
    proof {
        assert(dv_conditions(conds@).take(conds@.len() as int) =~= dv_conditions(conds@));
    }
    out
}

} // verus!
