//! Construction, validation and diagnostic scenarios for the descriptor
//! pool, driven through the public record model.

use descriptor_pool::{
    Cardinality, Condition, EnumRecord, EnumValueRecord, FieldRecord, FieldTypeRecord,
    FileDescriptor, FileRecord, MessageRecord, NumberRange, ScalarKind, Syntax,
};

fn b(s: &str) -> Vec<u8> {
    s.as_bytes().to_vec()
}

fn file(name: &str, package: &str, syntax: Syntax) -> FileRecord {
    FileRecord {
        name: b(name),
        package: b(package),
        dependencies: Vec::new(),
        syntax,
        messages: Vec::new(),
        enums: Vec::new(),
        services: Vec::new(),
        extensions: Vec::new(),
        options: Vec::new(),
    }
}

fn message(name: &str) -> MessageRecord {
    MessageRecord {
        name: b(name),
        fields: Vec::new(),
        oneofs: Vec::new(),
        messages: Vec::new(),
        enums: Vec::new(),
        extensions: Vec::new(),
        extension_ranges: Vec::new(),
        reserved_ranges: Vec::new(),
        reserved_names: Vec::new(),
        map_entry: false,
        options: Vec::new(),
    }
}

fn field(name: &str, number: i32, cardinality: Cardinality, ty: FieldTypeRecord) -> FieldRecord {
    FieldRecord {
        name: b(name),
        number,
        cardinality,
        field_type: ty,
        json_name: Vec::new(),
        default_literal: None,
        oneof_index: None,
        proto3_optional: false,
        packed: None,
        extendee: Vec::new(),
        options: Vec::new(),
    }
}

fn enum_record(name: &str, values: &[(&str, i32)]) -> EnumRecord {
    EnumRecord {
        name: b(name),
        values: values
            .iter()
            .map(|(n, x)| EnumValueRecord { name: b(n), number: *x, options: Vec::new() })
            .collect(),
        reserved_ranges: Vec::new(),
        reserved_names: Vec::new(),
        allow_alias: false,
        options: Vec::new(),
    }
}

#[test]
fn empty_batch_constructs() {
    let pool = FileDescriptor::new(Vec::new()).unwrap();
    assert_eq!(pool.file_descriptor_set().len(), 0);
}

#[test]
fn simple_message_constructs() {
    let mut f = file("a.proto", "", Syntax::Proto2);
    let mut m = message("M");
    m.fields.push(field("x", 1, Cardinality::Optional, FieldTypeRecord::Scalar(ScalarKind::Int32)));
    f.messages.push(m);
    let pool = FileDescriptor::new(vec![f]).unwrap();
    let d = pool.get_message_by_name(&b("M")).unwrap();
    let fields = d.fields();
    assert_eq!(fields.len(), 1);
    assert_eq!(fields[0].tag(), 1);
    assert_eq!(fields[0].name(), &b("x"));
    assert!(!d.is_map_entry());
}

#[test]
fn lookup_accepts_leading_dot() {
    let mut f = file("a.proto", "foo.bar", Syntax::Proto2);
    f.messages.push(message("FooBar"));
    let pool = FileDescriptor::new(vec![f]).unwrap();
    assert!(pool.get_message_by_name(&b(".foo.bar.FooBar")).is_some());
    assert!(pool.get_message_by_name(&b("foo.bar.FooBar")).is_some());
    assert!(pool.get_message_by_name(&b("FooBar")).is_none());
}

#[test]
fn duplicate_message_name_fails() {
    let mut f = file("a.proto", "", Syntax::Proto2);
    f.messages.push(message("M"));
    f.messages.push(message("M"));
    let err = FileDescriptor::new(vec![f]).unwrap_err();
    assert!(err
        .conditions
        .iter()
        .any(|c| matches!(c, Condition::DuplicateName { name, .. } if name == &b("M"))));
}

#[test]
fn duplicate_name_across_files_reports_both_sites() {
    let mut f1 = file("a.proto", "", Syntax::Proto2);
    f1.messages.push(message("M"));
    let mut f2 = file("b.proto", "", Syntax::Proto2);
    f2.messages.push(message("M"));
    let err = FileDescriptor::new(vec![f1, f2]).unwrap_err();
    let found = err.conditions.iter().any(|c| match c {
        Condition::DuplicateName { name, first, second } => {
            name == &b("M") && first.file == b("a.proto") && second.file == b("b.proto")
        }
        _ => false,
    });
    assert!(found);
}

#[test]
fn package_shared_by_files_is_no_conflict() {
    let mut f1 = file("a.proto", "foo.bar", Syntax::Proto2);
    f1.messages.push(message("A"));
    let mut f2 = file("b.proto", "foo.bar", Syntax::Proto2);
    f2.messages.push(message("B"));
    assert!(FileDescriptor::new(vec![f1, f2]).is_ok());
}

#[test]
fn package_name_conflicts_with_message() {
    let mut f1 = file("a.proto", "foo", Syntax::Proto2);
    f1.messages.push(message("A"));
    let mut f2 = file("b.proto", "", Syntax::Proto2);
    f2.messages.push(message("foo"));
    let err = FileDescriptor::new(vec![f1, f2]).unwrap_err();
    assert!(err
        .conditions
        .iter()
        .any(|c| matches!(c, Condition::DuplicateName { name, .. } if name == &b("foo"))));
}

#[test]
fn missing_dependency_fails() {
    let mut f = file("a.proto", "", Syntax::Proto2);
    f.dependencies.push(b("gone.proto"));
    let err = FileDescriptor::new(vec![f]).unwrap_err();
    assert_eq!(err.conditions.len(), 1);
    match &err.conditions[0] {
        Condition::MissingDependency { file, dependency } => {
            assert_eq!(file, &b("a.proto"));
            assert_eq!(dependency, &b("gone.proto"));
        }
        c => panic!("unexpected condition {:?}", c),
    }
}

#[test]
fn dependency_inside_batch_resolves() {
    let mut f1 = file("a.proto", "", Syntax::Proto2);
    f1.messages.push(message("A"));
    let mut f2 = file("b.proto", "", Syntax::Proto2);
    f2.dependencies.push(b("a.proto"));
    let mut m = message("B");
    m.fields.push(field("a", 1, Cardinality::Optional, FieldTypeRecord::Named(b(".A"))));
    f2.messages.push(m);
    assert!(FileDescriptor::new(vec![f1, f2]).is_ok());
}

#[test]
fn unresolved_reference_fails_with_literal_text() {
    let mut f = file("a.proto", "", Syntax::Proto2);
    let mut m = message("M");
    m.fields.push(field("x", 1, Cardinality::Optional, FieldTypeRecord::Named(b("Nope"))));
    f.messages.push(m);
    let err = FileDescriptor::new(vec![f]).unwrap_err();
    assert!(err
        .conditions
        .iter()
        .any(|c| matches!(c, Condition::TypeNameNotFound { name } if name == &b("Nope"))));
}

#[test]
fn scoped_resolution_prefers_inner_scope() {
    // package p holds E at top level and message Outer with a nested E;
    // a relative reference E inside Outer resolves to the nested one.
    let mut f = file("a.proto", "p", Syntax::Proto2);
    f.messages.push(message("E"));
    let mut outer = message("Outer");
    outer.messages.push(message("E"));
    outer
        .fields
        .push(field("e", 1, Cardinality::Optional, FieldTypeRecord::Named(b("E"))));
    f.messages.push(outer);
    let pool = FileDescriptor::new(vec![f]).unwrap();
    let outer_d = pool.get_message_by_name(&b("p.Outer")).unwrap();
    let fd = outer_d.get_field_by_name(&b("e")).unwrap();
    match fd.kind() {
        descriptor_pool::FieldDescriptorKind::Message(m) => {
            assert_eq!(m.full_name(), &b("p.Outer.E"));
        }
        k => panic!("unexpected kind {:?}", k),
    }
}

#[test]
fn absolute_reference_resolves_from_any_scope() {
    // given package foo.bar containing FooBar, the rooted reference
    // .foo.bar.FooBar resolves from an unrelated package's scope.
    let mut f1 = file("a.proto", "foo.bar", Syntax::Proto2);
    f1.messages.push(message("FooBar"));
    let mut f2 = file("b.proto", "other.pkg", Syntax::Proto2);
    let mut m = message("User");
    m.fields.push(field(
        "r",
        1,
        Cardinality::Optional,
        FieldTypeRecord::Named(b(".foo.bar.FooBar")),
    ));
    f2.messages.push(m);
    let pool = FileDescriptor::new(vec![f1, f2]).unwrap();
    let user = pool.get_message_by_name(&b("other.pkg.User")).unwrap();
    let fd = user.get_field(1).unwrap();
    match fd.kind() {
        descriptor_pool::FieldDescriptorKind::Message(m) => {
            assert_eq!(m.full_name(), &b("foo.bar.FooBar"));
        }
        k => panic!("unexpected kind {:?}", k),
    }
}

#[test]
fn wrongly_rooted_reference_fails_naming_the_reference() {
    // the rooted reference .FooBar does not resolve even where a
    // relative FooBar would; the condition carries the literal text.
    let mut f1 = file("a.proto", "foo.bar", Syntax::Proto2);
    f1.messages.push(message("FooBar"));
    let mut f2 = file("b.proto", "foo.bar", Syntax::Proto2);
    let mut m = message("User");
    m.fields
        .push(field("r", 1, Cardinality::Optional, FieldTypeRecord::Named(b(".FooBar"))));
    f2.messages.push(m);
    let err = FileDescriptor::new(vec![f1, f2]).unwrap_err();
    assert_eq!(err.conditions.len(), 1);
    match &err.conditions[0] {
        Condition::TypeNameNotFound { name } => assert_eq!(name, &b(".FooBar")),
        c => panic!("unexpected condition {:?}", c),
    }
}

#[test]
fn reserved_overlapping_extension_range_fails() {
    // message M { reserved 2; extensions 1 to 5; } must fail: the
    // extension range overlaps the reserved number.
    let mut f = file("a.proto", "", Syntax::Proto2);
    let mut m = message("M");
    m.reserved_ranges.push(NumberRange { start: 2, end: 2 });
    m.extension_ranges.push(NumberRange { start: 1, end: 5 });
    f.messages.push(m);
    let err = FileDescriptor::new(vec![f]).unwrap_err();
    assert_eq!(err.conditions.len(), 1);
    match &err.conditions[0] {
        Condition::DuplicateNumber { container, first, second } => {
            assert_eq!(container, &b("M"));
            assert!(matches!(
                first,
                descriptor_pool::NumberSpan::ExtensionRange { start: 1, end: 5 }
            ));
            assert!(matches!(
                second,
                descriptor_pool::NumberSpan::ReservedRange { start: 2, end: 2 }
            ));
        }
        c => panic!("unexpected condition {:?}", c),
    }
}

#[test]
fn field_overlapping_reserved_range_reports_range_first() {
    // on a tie, declaration order decides the sides; ranges register
    // ahead of fields, so the reserved range is the first side.
    let mut f = file("a.proto", "", Syntax::Proto2);
    let mut m = message("M");
    m.fields
        .push(field("x", 2, Cardinality::Optional, FieldTypeRecord::Scalar(ScalarKind::Int32)));
    m.reserved_ranges.push(NumberRange { start: 2, end: 2 });
    f.messages.push(m);
    let err = FileDescriptor::new(vec![f]).unwrap_err();
    assert_eq!(err.conditions.len(), 1);
    match &err.conditions[0] {
        Condition::DuplicateNumber { first, second, .. } => {
            assert!(matches!(
                first,
                descriptor_pool::NumberSpan::ReservedRange { start: 2, end: 2 }
            ));
            assert!(
                matches!(second, descriptor_pool::NumberSpan::Field { name, number: 2 } if name == &b("x"))
            );
        }
        c => panic!("unexpected condition {:?}", c),
    }
}

#[test]
fn overlap_report_is_symmetric_in_declaration_order() {
    // two overlapping reserved ranges are reported as one pair with the
    // smaller start first, whichever of the two was declared first.
    let build = |swapped: bool| {
        let mut f = file("a.proto", "", Syntax::Proto2);
        let mut m = message("M");
        let lo = NumberRange { start: 1, end: 3 };
        let hi = NumberRange { start: 2, end: 4 };
        if swapped {
            m.reserved_ranges.push(hi);
            m.reserved_ranges.push(lo);
        } else {
            m.reserved_ranges.push(lo);
            m.reserved_ranges.push(hi);
        }
        f.messages.push(m);
        FileDescriptor::new(vec![f]).unwrap_err()
    };
    let e1 = build(false);
    let e2 = build(true);
    assert_eq!(e1.conditions.len(), 1);
    assert_eq!(e2.conditions.len(), 1);
    assert!(descriptor_pool::condition::condition_eq(&e1.conditions[0], &e2.conditions[0]));
    match &e1.conditions[0] {
        Condition::DuplicateNumber { first, second, .. } => {
            assert!(matches!(
                first,
                descriptor_pool::NumberSpan::ReservedRange { start: 1, end: 3 }
            ));
            assert!(matches!(
                second,
                descriptor_pool::NumberSpan::ReservedRange { start: 2, end: 4 }
            ));
        }
        c => panic!("unexpected condition {:?}", c),
    }
}

#[test]
fn three_way_overlap_reports_every_pair_once() {
    // three fields all claiming one number: one condition per distinct
    // pair, first declared first.
    let mut f = file("a.proto", "", Syntax::Proto2);
    let mut m = message("M");
    m.fields
        .push(field("a", 5, Cardinality::Optional, FieldTypeRecord::Scalar(ScalarKind::Int32)));
    m.fields
        .push(field("b", 5, Cardinality::Optional, FieldTypeRecord::Scalar(ScalarKind::Int32)));
    m.fields
        .push(field("c", 5, Cardinality::Optional, FieldTypeRecord::Scalar(ScalarKind::Int32)));
    f.messages.push(m);
    let err = FileDescriptor::new(vec![f]).unwrap_err();
    assert_eq!(err.conditions.len(), 3);
    let pair = |c: &Condition| match c {
        Condition::DuplicateNumber { first, second, .. } => {
            let n = |s: &descriptor_pool::NumberSpan| match s {
                descriptor_pool::NumberSpan::Field { name, .. } => name.clone(),
                _ => panic!("unexpected span"),
            };
            (n(first), n(second))
        }
        c => panic!("unexpected condition {:?}", c),
    };
    assert_eq!(pair(&err.conditions[0]), (b("a"), b("b")));
    assert_eq!(pair(&err.conditions[1]), (b("a"), b("c")));
    assert_eq!(pair(&err.conditions[2]), (b("b"), b("c")));
}

#[test]
fn invalid_range_reported_before_overlaps() {
    let mut f = file("a.proto", "", Syntax::Proto2);
    let mut m = message("M");
    m.reserved_ranges.push(NumberRange { start: 5, end: 1 });
    f.messages.push(m);
    let err = FileDescriptor::new(vec![f]).unwrap_err();
    assert_eq!(err.conditions.len(), 1);
    assert!(matches!(
        err.conditions[0],
        Condition::InvalidRange { start: 5, end: 1, .. }
    ));
}

#[test]
fn field_number_zero_is_invalid() {
    let mut f = file("a.proto", "", Syntax::Proto2);
    let mut m = message("M");
    m.fields
        .push(field("x", 0, Cardinality::Optional, FieldTypeRecord::Scalar(ScalarKind::Int32)));
    f.messages.push(m);
    let err = FileDescriptor::new(vec![f]).unwrap_err();
    assert!(err
        .conditions
        .iter()
        .any(|c| matches!(c, Condition::InvalidRange { start: 0, end: 0, .. })));
}

#[test]
fn field_number_in_implementation_block_is_invalid() {
    let mut f = file("a.proto", "", Syntax::Proto2);
    let mut m = message("M");
    m.fields.push(field(
        "x",
        19500,
        Cardinality::Optional,
        FieldTypeRecord::Scalar(ScalarKind::Int32),
    ));
    f.messages.push(m);
    assert!(FileDescriptor::new(vec![f]).is_err());
}

#[test]
fn enum_duplicate_number_fails_without_alias() {
    let mut f = file("a.proto", "", Syntax::Proto3);
    f.enums.push(enum_record("E", &[("ZERO", 0), ("ZERO2", 0)]));
    let err = FileDescriptor::new(vec![f]).unwrap_err();
    assert_eq!(err.conditions.len(), 1);
    match &err.conditions[0] {
        Condition::DuplicateNumber { container, first, second } => {
            assert_eq!(container, &b("E"));
            assert!(
                matches!(first, descriptor_pool::NumberSpan::EnumValue { name, number: 0 } if name == &b("ZERO"))
            );
            assert!(
                matches!(second, descriptor_pool::NumberSpan::EnumValue { name, number: 0 } if name == &b("ZERO2"))
            );
        }
        c => panic!("unexpected condition {:?}", c),
    }
}

#[test]
fn enum_duplicate_number_allowed_with_alias() {
    // enum E { option allow_alias = true; ZERO = 0; ZERO2 = 0; }
    let mut f = file("a.proto", "", Syntax::Proto3);
    let mut e = enum_record("E", &[("ZERO", 0), ("ZERO2", 0)]);
    e.allow_alias = true;
    f.enums.push(e);
    let pool = FileDescriptor::new(vec![f]).unwrap();
    let ed = pool.get_enum_by_name(&b("E")).unwrap();
    let values = ed.values();
    assert_eq!(values.len(), 2);
    assert_eq!(values[0].number(), 0);
    assert_eq!(values[1].number(), 0);
    assert_eq!(ed.default_value().number(), 0);
    assert_eq!(values[0].name(), &b("ZERO"));
}

#[test]
fn enum_value_overlapping_reserved_fails_even_with_alias() {
    let mut f = file("a.proto", "", Syntax::Proto3);
    let mut e = enum_record("E", &[("ZERO", 0), ("FIVE", 5)]);
    e.allow_alias = true;
    e.reserved_ranges.push(NumberRange { start: 5, end: 5 });
    f.enums.push(e);
    assert!(FileDescriptor::new(vec![f]).is_err());
}

#[test]
fn enum_negative_reserved_range_is_valid() {
    let mut f = file("a.proto", "", Syntax::Proto3);
    let mut e = enum_record("E", &[("ZERO", 0)]);
    e.reserved_ranges.push(NumberRange { start: -5, end: -1 });
    f.enums.push(e);
    assert!(FileDescriptor::new(vec![f]).is_ok());
}

#[test]
fn construction_is_deterministic_on_errors() {
    let build = || {
        let mut f = file("a.proto", "", Syntax::Proto2);
        f.dependencies.push(b("gone.proto"));
        let mut m = message("M");
        m.reserved_ranges.push(NumberRange { start: 5, end: 1 });
        m.fields
            .push(field("x", 0, Cardinality::Optional, FieldTypeRecord::Named(b("Nope"))));
        f.messages.push(m.clone());
        f.messages.push(m);
        FileDescriptor::new(vec![f]).unwrap_err()
    };
    let e1 = build();
    let e2 = build();
    assert_eq!(e1.conditions.len(), e2.conditions.len());
    for (c1, c2) in e1.conditions.iter().zip(e2.conditions.iter()) {
        assert!(descriptor_pool::condition::condition_eq(c1, c2));
    }
}

#[test]
fn diagnostics_are_deduplicated() {
    // two identical reserved ranges in two identical containers would
    // repeat the same condition; the returned list holds it once per
    // distinct content.
    let mut f = file("a.proto", "", Syntax::Proto2);
    let mut m = message("M");
    m.reserved_ranges.push(NumberRange { start: 3, end: 1 });
    m.reserved_ranges.push(NumberRange { start: 3, end: 1 });
    f.messages.push(m);
    let err = FileDescriptor::new(vec![f]).unwrap_err();
    assert_eq!(err.conditions.len(), 1);
}
