//! Derived metadata, defaults, synthesized declarations, extensions,
//! services, option merging, and the pool-level round-trip and
//! extension behaviors.

use descriptor_pool::{
    Cardinality, Condition, DefaultValue, EnumRecord, EnumValueRecord, FieldDescriptorKind,
    FieldRecord, FieldTypeRecord, FileDescriptor, FileRecord, MapValueRecord, MessageRecord,
    MethodRecord, NumberRange, OptionPathSegment, OptionRecord, OptionValue, ScalarKind,
    ServiceRecord, Syntax,
};

fn b(s: &str) -> Vec<u8> {
    s.as_bytes().to_vec()
}

fn file(name: &str, package: &str, syntax: Syntax) -> FileRecord {
    FileRecord {
        name: b(name),
        package: b(package),
        dependencies: Vec::new(),
        syntax,
        messages: Vec::new(),
        enums: Vec::new(),
        services: Vec::new(),
        extensions: Vec::new(),
        options: Vec::new(),
    }
}

fn message(name: &str) -> MessageRecord {
    MessageRecord {
        name: b(name),
        fields: Vec::new(),
        oneofs: Vec::new(),
        messages: Vec::new(),
        enums: Vec::new(),
        extensions: Vec::new(),
        extension_ranges: Vec::new(),
        reserved_ranges: Vec::new(),
        reserved_names: Vec::new(),
        map_entry: false,
        options: Vec::new(),
    }
}

fn field(name: &str, number: i32, cardinality: Cardinality, ty: FieldTypeRecord) -> FieldRecord {
    FieldRecord {
        name: b(name),
        number,
        cardinality,
        field_type: ty,
        json_name: Vec::new(),
        default_literal: None,
        oneof_index: None,
        proto3_optional: false,
        packed: None,
        extendee: Vec::new(),
        options: Vec::new(),
    }
}

fn enum_record(name: &str, values: &[(&str, i32)]) -> EnumRecord {
    EnumRecord {
        name: b(name),
        values: values
            .iter()
            .map(|(n, x)| EnumValueRecord { name: b(n), number: *x, options: Vec::new() })
            .collect(),
        reserved_ranges: Vec::new(),
        reserved_names: Vec::new(),
        allow_alias: false,
        options: Vec::new(),
    }
}

#[test]
fn json_name_is_camel_cased() {
    let mut f = file("a.proto", "", Syntax::Proto3);
    let mut m = message("M");
    m.fields.push(field(
        "foo_bar_baz",
        1,
        Cardinality::Optional,
        FieldTypeRecord::Scalar(ScalarKind::Int32),
    ));
    f.messages.push(m);
    let pool = FileDescriptor::new(vec![f]).unwrap();
    let d = pool.get_message_by_name(&b("M")).unwrap();
    let fd = d.get_field(1).unwrap();
    assert_eq!(fd.json_name(), &b("fooBarBaz"));
}

#[test]
fn declared_json_name_is_kept() {
    let mut f = file("a.proto", "", Syntax::Proto3);
    let mut m = message("M");
    let mut x = field("foo", 1, Cardinality::Optional, FieldTypeRecord::Scalar(ScalarKind::Int32));
    x.json_name = b("customName");
    m.fields.push(x);
    f.messages.push(m);
    let pool = FileDescriptor::new(vec![f]).unwrap();
    let d = pool.get_message_by_name(&b("M")).unwrap();
    assert_eq!(d.get_field(1).unwrap().json_name(), &b("customName"));
}

#[test]
fn camel_case_conflict_fails_in_proto3() {
    let mut f = file("a.proto", "", Syntax::Proto3);
    let mut m = message("M");
    m.fields.push(field(
        "foo_bar",
        1,
        Cardinality::Optional,
        FieldTypeRecord::Scalar(ScalarKind::Int32),
    ));
    m.fields.push(field(
        "fooBar",
        2,
        Cardinality::Optional,
        FieldTypeRecord::Scalar(ScalarKind::Int32),
    ));
    f.messages.push(m);
    assert!(FileDescriptor::new(vec![f]).is_err());
}

#[test]
fn camel_case_conflict_tolerated_in_proto2() {
    let mut f = file("a.proto", "", Syntax::Proto2);
    let mut m = message("M");
    m.fields.push(field(
        "foo_bar",
        1,
        Cardinality::Optional,
        FieldTypeRecord::Scalar(ScalarKind::Int32),
    ));
    m.fields.push(field(
        "fooBar",
        2,
        Cardinality::Optional,
        FieldTypeRecord::Scalar(ScalarKind::Int32),
    ));
    f.messages.push(m);
    assert!(FileDescriptor::new(vec![f]).is_ok());
}

#[test]
fn packed_defaults_follow_the_dialect() {
    let mut f3 = file("a.proto", "", Syntax::Proto3);
    let mut m = message("M");
    m.fields.push(field(
        "nums",
        1,
        Cardinality::Repeated,
        FieldTypeRecord::Scalar(ScalarKind::Int32),
    ));
    m.fields.push(field(
        "names",
        2,
        Cardinality::Repeated,
        FieldTypeRecord::Scalar(ScalarKind::String),
    ));
    f3.messages.push(m.clone());
    let pool3 = FileDescriptor::new(vec![f3]).unwrap();
    let d3 = pool3.get_message_by_name(&b("M")).unwrap();
    assert!(d3.get_field(1).unwrap().is_packed());
    assert!(!d3.get_field(2).unwrap().is_packed());

    let mut f2 = file("a.proto", "", Syntax::Proto2);
    f2.messages.push(m);
    let pool2 = FileDescriptor::new(vec![f2]).unwrap();
    let d2 = pool2.get_message_by_name(&b("M")).unwrap();
    assert!(!d2.get_field(1).unwrap().is_packed());
}

#[test]
fn explicit_packed_option_wins() {
    let mut f = file("a.proto", "", Syntax::Proto2);
    let mut m = message("M");
    let mut x = field("nums", 1, Cardinality::Repeated, FieldTypeRecord::Scalar(ScalarKind::Int32));
    x.packed = Some(true);
    m.fields.push(x);
    f.messages.push(m);
    let pool = FileDescriptor::new(vec![f]).unwrap();
    assert!(pool.get_message_by_name(&b("M")).unwrap().get_field(1).unwrap().is_packed());
}

#[test]
fn presence_semantics() {
    let mut f = file("a.proto", "", Syntax::Proto3);
    let mut m = message("M");
    m.fields.push(field(
        "plain",
        1,
        Cardinality::Optional,
        FieldTypeRecord::Scalar(ScalarKind::Int32),
    ));
    let mut opt = field(
        "explicit",
        2,
        Cardinality::Optional,
        FieldTypeRecord::Scalar(ScalarKind::Int32),
    );
    opt.proto3_optional = true;
    m.fields.push(opt);
    f.messages.push(m);
    let pool = FileDescriptor::new(vec![f]).unwrap();
    let d = pool.get_message_by_name(&b("M")).unwrap();
    assert!(!d.get_field(1).unwrap().supports_presence());
    assert!(d.get_field(2).unwrap().supports_presence());
}

#[test]
fn synthetic_oneof_is_materialized() {
    let mut f = file("a.proto", "", Syntax::Proto3);
    let mut m = message("M");
    let mut opt =
        field("color", 1, Cardinality::Optional, FieldTypeRecord::Scalar(ScalarKind::Int32));
    opt.proto3_optional = true;
    m.fields.push(opt);
    f.messages.push(m);
    let pool = FileDescriptor::new(vec![f]).unwrap();
    let d = pool.get_message_by_name(&b("M")).unwrap();
    let oneofs = d.oneofs();
    assert_eq!(oneofs.len(), 1);
    assert_eq!(&oneofs[0].name, &b("_color"));
    // the synthesized oneof is part of the retained records too
    let raw = pool.file_descriptor_set();
    assert_eq!(raw[0].messages[0].oneofs.len(), 1);
    assert_eq!(&raw[0].messages[0].oneofs[0].name, &b("_color"));
    assert_eq!(raw[0].messages[0].fields[0].oneof_index, Some(0));
}

#[test]
fn synthetic_oneof_name_collision_fails() {
    let mut f = file("a.proto", "", Syntax::Proto3);
    let mut m = message("M");
    let mut opt =
        field("color", 1, Cardinality::Optional, FieldTypeRecord::Scalar(ScalarKind::Int32));
    opt.proto3_optional = true;
    m.fields.push(opt);
    m.fields.push(field(
        "_color",
        2,
        Cardinality::Optional,
        FieldTypeRecord::Scalar(ScalarKind::Int32),
    ));
    f.messages.push(m);
    assert!(FileDescriptor::new(vec![f]).is_err());
}

#[test]
fn map_field_synthesizes_entry_message() {
    let mut f = file("a.proto", "", Syntax::Proto3);
    let mut m = message("M");
    m.fields.push(field(
        "scores",
        1,
        Cardinality::Repeated,
        FieldTypeRecord::MapSugar {
            key: ScalarKind::String,
            value: MapValueRecord::Scalar(ScalarKind::Int32),
        },
    ));
    f.messages.push(m);
    let pool = FileDescriptor::new(vec![f]).unwrap();
    let entry = pool.get_message_by_name(&b("M.ScoresEntry")).unwrap();
    assert!(entry.is_map_entry());
    let key = entry.get_field(1).unwrap();
    let value = entry.get_field(2).unwrap();
    assert_eq!(key.name(), &b("key"));
    assert_eq!(value.name(), &b("value"));
    let d = pool.get_message_by_name(&b("M")).unwrap();
    let fd = d.get_field(1).unwrap();
    assert!(fd.is_map());
    assert!(!fd.is_list());
    match fd.kind() {
        FieldDescriptorKind::Message(e) => assert_eq!(e.full_name(), &b("M.ScoresEntry")),
        k => panic!("unexpected kind {:?}", k),
    }
}

#[test]
fn map_entry_name_collision_fails() {
    let mut f = file("a.proto", "", Syntax::Proto3);
    let mut m = message("M");
    m.fields.push(field(
        "scores",
        1,
        Cardinality::Repeated,
        FieldTypeRecord::MapSugar {
            key: ScalarKind::String,
            value: MapValueRecord::Scalar(ScalarKind::Int32),
        },
    ));
    m.messages.push(message("ScoresEntry"));
    f.messages.push(m);
    assert!(FileDescriptor::new(vec![f]).is_err());
}

#[test]
fn repeated_message_field_is_list_not_map() {
    let mut f = file("a.proto", "", Syntax::Proto2);
    f.messages.push(message("Item"));
    let mut m = message("M");
    m.fields.push(field("items", 1, Cardinality::Repeated, FieldTypeRecord::Named(b("Item"))));
    f.messages.push(m);
    let pool = FileDescriptor::new(vec![f]).unwrap();
    let fd = pool.get_message_by_name(&b("M")).unwrap().get_field(1).unwrap();
    assert!(fd.is_list());
    assert!(!fd.is_map());
}

#[test]
fn fields_are_ordered_by_number() {
    let mut f = file("a.proto", "", Syntax::Proto2);
    let mut m = message("M");
    m.fields.push(field("c", 7, Cardinality::Optional, FieldTypeRecord::Scalar(ScalarKind::Int32)));
    m.fields.push(field("a", 2, Cardinality::Optional, FieldTypeRecord::Scalar(ScalarKind::Int32)));
    m.fields.push(field("b", 5, Cardinality::Optional, FieldTypeRecord::Scalar(ScalarKind::Int32)));
    f.messages.push(m);
    let pool = FileDescriptor::new(vec![f]).unwrap();
    let d = pool.get_message_by_name(&b("M")).unwrap();
    let numbers: Vec<u32> = d.fields().iter().map(|fd| fd.tag()).collect();
    assert_eq!(numbers, vec![2, 5, 7]);
    assert!(d.get_field(5).is_some());
    assert!(d.get_field(4).is_none());
    assert_eq!(d.get_field_by_name(&b("b")).unwrap().tag(), 5);
    assert!(d.get_field_by_name(&b("zz")).is_none());
}

#[test]
fn scalar_defaults_parse_and_validate() {
    let mut f = file("a.proto", "", Syntax::Proto2);
    let mut m = message("M");
    let mut x = field("i", 1, Cardinality::Optional, FieldTypeRecord::Scalar(ScalarKind::Int32));
    x.default_literal = Some(b("-42"));
    m.fields.push(x);
    let mut y = field("u", 2, Cardinality::Optional, FieldTypeRecord::Scalar(ScalarKind::Uint64));
    y.default_literal = Some(b("18446744073709551615"));
    m.fields.push(y);
    let mut z = field("t", 3, Cardinality::Optional, FieldTypeRecord::Scalar(ScalarKind::Bool));
    z.default_literal = Some(b("true"));
    m.fields.push(z);
    let mut w = field("s", 4, Cardinality::Optional, FieldTypeRecord::Scalar(ScalarKind::String));
    w.default_literal = Some(b("hello"));
    m.fields.push(w);
    let mut v = field("by", 5, Cardinality::Optional, FieldTypeRecord::Scalar(ScalarKind::Bytes));
    v.default_literal = Some(b("a\\n\\0b"));
    m.fields.push(v);
    let mut d = field("d", 6, Cardinality::Optional, FieldTypeRecord::Scalar(ScalarKind::Double));
    d.default_literal = Some(b("-1.25e3"));
    m.fields.push(d);
    f.messages.push(m);
    let pool = FileDescriptor::new(vec![f]).unwrap();
    let md = pool.get_message_by_name(&b("M")).unwrap();
    assert!(matches!(md.get_field(1).unwrap().default_value(), Some(DefaultValue::I32(-42))));
    assert!(matches!(
        md.get_field(2).unwrap().default_value(),
        Some(DefaultValue::U64(18446744073709551615))
    ));
    assert!(matches!(md.get_field(3).unwrap().default_value(), Some(DefaultValue::Bool(true))));
    match md.get_field(4).unwrap().default_value() {
        Some(DefaultValue::Text(t)) => assert_eq!(t, &b("hello")),
        d => panic!("unexpected default {:?}", d),
    }
    match md.get_field(5).unwrap().default_value() {
        Some(DefaultValue::Bytes(t)) => assert_eq!(t, &vec![97u8, 10, 0, 98]),
        d => panic!("unexpected default {:?}", d),
    }
    match md.get_field(6).unwrap().default_value() {
        Some(DefaultValue::FloatLiteral(t)) => assert_eq!(t, &b("-1.25e3")),
        d => panic!("unexpected default {:?}", d),
    }
    assert!(md.get_field(1).unwrap().cardinality() == Cardinality::Optional);
}

#[test]
fn out_of_range_integer_default_fails() {
    let mut f = file("a.proto", "", Syntax::Proto2);
    let mut m = message("M");
    let mut x = field("i", 1, Cardinality::Optional, FieldTypeRecord::Scalar(ScalarKind::Int32));
    x.default_literal = Some(b("2147483648"));
    m.fields.push(x);
    f.messages.push(m);
    let err = FileDescriptor::new(vec![f]).unwrap_err();
    assert!(err.conditions.iter().any(|c| matches!(
        c,
        Condition::ValueInvalidType { expected, .. } if expected == &b("integer")
    )));
}

#[test]
fn malformed_float_default_fails() {
    let mut f = file("a.proto", "", Syntax::Proto2);
    let mut m = message("M");
    let mut x = field("d", 1, Cardinality::Optional, FieldTypeRecord::Scalar(ScalarKind::Double));
    x.default_literal = Some(b("1.2.3"));
    m.fields.push(x);
    f.messages.push(m);
    assert!(FileDescriptor::new(vec![f]).is_err());
}

#[test]
fn message_field_never_accepts_a_default() {
    let mut f = file("a.proto", "", Syntax::Proto2);
    f.messages.push(message("Item"));
    let mut m = message("M");
    let mut x = field("item", 1, Cardinality::Optional, FieldTypeRecord::Named(b("Item")));
    x.default_literal = Some(b("whatever"));
    m.fields.push(x);
    f.messages.push(m);
    let err = FileDescriptor::new(vec![f]).unwrap_err();
    assert!(err
        .conditions
        .iter()
        .any(|c| matches!(c, Condition::InvalidDefault { field } if field == &b("M.item"))));
}

#[test]
fn enum_default_names_a_declared_value() {
    let mut f = file("a.proto", "", Syntax::Proto2);
    f.enums.push(enum_record("Color", &[("RED", 0), ("BLUE", 4)]));
    let mut m = message("M");
    let mut x = field("c", 1, Cardinality::Optional, FieldTypeRecord::Named(b("Color")));
    x.default_literal = Some(b("BLUE"));
    m.fields.push(x);
    f.messages.push(m);
    let pool = FileDescriptor::new(vec![f]).unwrap();
    let fd = pool.get_message_by_name(&b("M")).unwrap().get_field(1).unwrap();
    assert!(matches!(fd.default_value(), Some(DefaultValue::EnumNumber(4))));
    match fd.kind() {
        FieldDescriptorKind::Enum(e) => assert_eq!(e.full_name(), &b("Color")),
        k => panic!("unexpected kind {:?}", k),
    }
}

#[test]
fn invalid_enum_default_lists_possible_values() {
    // for enum Foo { ZERO = 0; TWO = 2; }, the invalid default ONE names
    // the values that exist, sorted, with the conjunction before the last.
    let mut f = file("a.proto", "", Syntax::Proto2);
    f.enums.push(enum_record("Foo", &[("ZERO", 0), ("TWO", 2)]));
    let mut m = message("M");
    let mut x = field("f", 1, Cardinality::Optional, FieldTypeRecord::Named(b("Foo")));
    x.default_literal = Some(b("ONE"));
    m.fields.push(x);
    f.messages.push(m);
    let err = FileDescriptor::new(vec![f]).unwrap_err();
    assert_eq!(err.conditions.len(), 1);
    match &err.conditions[0] {
        Condition::InvalidEnumValue { field, value, help } => {
            assert_eq!(field, &b("M.f"));
            assert_eq!(value, &b("ONE"));
            assert_eq!(help, &b("possible values are 'TWO' and 'ZERO'"));
        }
        c => panic!("unexpected condition {:?}", c),
    }
}

#[test]
fn extension_number_must_lie_in_target_ranges() {
    let mut f = file("a.proto", "", Syntax::Proto2);
    let mut m = message("Message");
    m.extension_ranges.push(NumberRange { start: 2, end: 5 });
    f.messages.push(m);
    let mut a = field("a", 1, Cardinality::Optional, FieldTypeRecord::Scalar(ScalarKind::Int32));
    a.extendee = b("Message");
    f.extensions.push(a);
    let mut bb = field("b", 6, Cardinality::Repeated, FieldTypeRecord::Scalar(ScalarKind::Int32));
    bb.extendee = b("Message");
    f.extensions.push(bb);
    let err = FileDescriptor::new(vec![f]).unwrap_err();
    assert_eq!(err.conditions.len(), 2);
    match &err.conditions[0] {
        Condition::InvalidExtensionNumber { number, message_name, help } => {
            assert_eq!(*number, 1);
            assert_eq!(message_name, &b("Message"));
            assert_eq!(help, &b("available extension numbers are 2 to 5"));
        }
        c => panic!("unexpected condition {:?}", c),
    }
    match &err.conditions[1] {
        Condition::InvalidExtensionNumber { number, .. } => assert_eq!(*number, 6),
        c => panic!("unexpected condition {:?}", c),
    }
}

#[test]
fn extension_in_range_registers_against_target() {
    let mut f = file("a.proto", "", Syntax::Proto2);
    let mut m = message("Message");
    m.extension_ranges.push(NumberRange { start: 2, end: 5 });
    f.messages.push(m);
    let mut a = field("a", 3, Cardinality::Optional, FieldTypeRecord::Scalar(ScalarKind::Int32));
    a.extendee = b("Message");
    f.extensions.push(a);
    let pool = FileDescriptor::new(vec![f]).unwrap();
    let d = pool.get_message_by_name(&b("Message")).unwrap();
    let exts = pool.extensions_of(&d);
    assert_eq!(exts.len(), 1);
    assert_eq!(exts[0].field.number, 3);
    assert_eq!(&exts[0].full_name, &b("a"));
}

#[test]
fn service_methods_resolve_to_messages() {
    let mut f = file("a.proto", "pkg", Syntax::Proto3);
    f.messages.push(message("In"));
    f.messages.push(message("Out"));
    f.services.push(ServiceRecord {
        name: b("Svc"),
        methods: vec![MethodRecord {
            name: b("Call"),
            input_type: b(".pkg.In"),
            output_type: b("Out"),
            client_streaming: false,
            server_streaming: true,
            options: Vec::new(),
        }],
        options: Vec::new(),
    });
    let pool = FileDescriptor::new(vec![f]).unwrap();
    let services = pool.services();
    assert_eq!(services.len(), 1);
    assert_eq!(services[0].full_name(), &b("pkg.Svc"));
    let methods = services[0].methods();
    assert_eq!(methods.len(), 1);
    assert_eq!(methods[0].name(), &b("Call"));
    assert!(!methods[0].client_streaming());
    assert!(methods[0].server_streaming());
    assert_eq!(methods[0].input().unwrap().full_name(), &b("pkg.In"));
    assert_eq!(methods[0].output().unwrap().full_name(), &b("pkg.Out"));
}

#[test]
fn service_lookup_by_name() {
    let mut f = file("a.proto", "pkg", Syntax::Proto3);
    f.messages.push(message("In"));
    f.services.push(ServiceRecord {
        name: b("Svc"),
        methods: vec![MethodRecord {
            name: b("Call"),
            input_type: b("In"),
            output_type: b("In"),
            client_streaming: false,
            server_streaming: false,
            options: Vec::new(),
        }],
        options: Vec::new(),
    });
    let pool = FileDescriptor::new(vec![f]).unwrap();
    assert!(pool.get_service_by_name(&b(".pkg.Svc")).is_some());
    assert!(pool.get_service_by_name(&b("pkg.Svc")).is_some());
    assert!(pool.get_service_by_name(&b("pkg.Nope")).is_none());
    assert_eq!(pool.extensions().len(), 0);
}

#[test]
fn service_method_with_enum_io_fails() {
    let mut f = file("a.proto", "", Syntax::Proto3);
    f.enums.push(enum_record("E", &[("Z", 0)]));
    f.messages.push(message("Out"));
    f.services.push(ServiceRecord {
        name: b("Svc"),
        methods: vec![MethodRecord {
            name: b("Call"),
            input_type: b("E"),
            output_type: b("Out"),
            client_streaming: false,
            server_streaming: false,
            options: Vec::new(),
        }],
        options: Vec::new(),
    });
    let err = FileDescriptor::new(vec![f]).unwrap_err();
    assert!(err
        .conditions
        .iter()
        .any(|c| matches!(c, Condition::TypeNameNotFound { name } if name == &b("E"))));
}

fn options_fixture(repeated_leaf: bool, second_value: i64) -> Vec<FileRecord> {
    // a miniature well-known-options file providing
    // google.protobuf.FileOptions with an extension range, an extension
    // (a) of message type Foo against it, and a file setting (a).foo.
    let mut wkt = file("google/protobuf/descriptor.proto", "google.protobuf", Syntax::Proto2);
    let mut fo = message("FileOptions");
    fo.extension_ranges.push(NumberRange { start: 1000, end: 2000 });
    wkt.messages.push(fo);

    let mut user = file("user.proto", "", Syntax::Proto2);
    user.dependencies.push(b("google/protobuf/descriptor.proto"));
    let mut foo = message("Foo");
    foo.fields.push(field(
        "foo",
        1,
        if repeated_leaf { Cardinality::Repeated } else { Cardinality::Optional },
        FieldTypeRecord::Scalar(ScalarKind::Int32),
    ));
    user.messages.push(foo);
    let mut a = field("a", 1001, Cardinality::Optional, FieldTypeRecord::Named(b("Foo")));
    a.extendee = b(".google.protobuf.FileOptions");
    user.extensions.push(a);
    user.options.push(OptionRecord {
        path: vec![OptionPathSegment::Extension(b("a")), OptionPathSegment::Plain(b("foo"))],
        value: OptionValue::Int(1),
    });
    user.options.push(OptionRecord {
        path: vec![OptionPathSegment::Extension(b("a")), OptionPathSegment::Plain(b("foo"))],
        value: OptionValue::Int(second_value),
    });
    vec![wkt, user]
}

#[test]
fn option_reassigning_a_non_repeated_leaf_fails() {
    // option (a).foo = 1; option (a).foo = 2; on a non-repeated leaf
    // reports the colliding statements by position.
    let err = FileDescriptor::new(options_fixture(false, 2)).unwrap_err();
    assert_eq!(err.conditions.len(), 1);
    match &err.conditions[0] {
        Condition::OptionAlreadySet { owner, name, first, second } => {
            assert_eq!(owner, &b("user.proto"));
            assert_eq!(name, &b("(a).foo"));
            assert_eq!(*first, 0);
            assert_eq!(*second, 1);
        }
        c => panic!("unexpected condition {:?}", c),
    }
}

#[test]
fn option_repeated_leaf_appends_in_order() {
    let pool = FileDescriptor::new(options_fixture(true, 2)).unwrap();
    let opts = pool.merged_options(&b("user.proto")).unwrap();
    assert_eq!(opts.entries.len(), 1);
    assert_eq!(&opts.entries[0].path, &b("(a).foo"));
    assert_eq!(opts.entries[0].values.len(), 2);
    assert!(matches!(opts.entries[0].values[0], OptionValue::Int(1)));
    assert!(matches!(opts.entries[0].values[1], OptionValue::Int(2)));
}

#[test]
fn unknown_option_extension_is_reported() {
    let mut user = file("user.proto", "", Syntax::Proto2);
    user.options.push(OptionRecord {
        path: vec![OptionPathSegment::Extension(b("nope"))],
        value: OptionValue::Int(1),
    });
    let err = FileDescriptor::new(vec![user]).unwrap_err();
    assert!(err
        .conditions
        .iter()
        .any(|c| matches!(c, Condition::UnknownOptionField { name, .. } if name == &b("nope"))));
}

#[test]
fn unknown_field_in_option_path_is_reported() {
    let mut files = options_fixture(false, 2);
    files[1].options = vec![OptionRecord {
        path: vec![OptionPathSegment::Extension(b("a")), OptionPathSegment::Plain(b("bar"))],
        value: OptionValue::Int(1),
    }];
    let err = FileDescriptor::new(files).unwrap_err();
    assert!(err
        .conditions
        .iter()
        .any(|c| matches!(c, Condition::UnknownOptionField { name, .. } if name == &b("bar"))));
}

#[test]
fn builtin_option_duplicate_fails() {
    let mut f = file("a.proto", "", Syntax::Proto2);
    let mut m = message("M");
    let mut x = field("foo", 1, Cardinality::Optional, FieldTypeRecord::Scalar(ScalarKind::Int32));
    x.options.push(OptionRecord {
        path: vec![OptionPathSegment::Plain(b("deprecated"))],
        value: OptionValue::Bool(true),
    });
    x.options.push(OptionRecord {
        path: vec![OptionPathSegment::Plain(b("deprecated"))],
        value: OptionValue::Bool(false),
    });
    m.fields.push(x);
    f.messages.push(m);
    let err = FileDescriptor::new(vec![f]).unwrap_err();
    assert_eq!(err.conditions.len(), 1);
    match &err.conditions[0] {
        Condition::OptionAlreadySet { owner, name, .. } => {
            assert_eq!(owner, &b("M.foo"));
            assert_eq!(name, &b("deprecated"));
        }
        c => panic!("unexpected condition {:?}", c),
    }
}

fn observable_fingerprint(pool: &FileDescriptor) -> Vec<(Vec<u8>, Vec<(u32, Vec<u8>, bool)>)> {
    // names, numbers and derived flags of every message, in id order,
    // as a structural summary for equality checks.
    let mut out = Vec::new();
    let raw = pool.file_descriptor_set();
    for f in raw.iter() {
        for m in f.messages.iter() {
            let name = if f.package.is_empty() {
                m.name.clone()
            } else {
                let mut n = f.package.clone();
                n.push(b'.');
                n.extend_from_slice(&m.name);
                n
            };
            let d = pool.get_message_by_name(&name).unwrap();
            let fields = d
                .fields()
                .iter()
                .map(|fd| (fd.tag(), fd.name().clone(), fd.is_packed()))
                .collect();
            out.push((name, fields));
        }
    }
    out
}

#[test]
fn reconstruction_from_retained_records_is_identical() {
    // build a pool, take its retained records, construct a fresh pool
    // from them: the graphs agree structurally.
    let mut f = file("a.proto", "p", Syntax::Proto3);
    let mut m = message("M");
    m.fields.push(field(
        "scores",
        1,
        Cardinality::Repeated,
        FieldTypeRecord::MapSugar {
            key: ScalarKind::String,
            value: MapValueRecord::Scalar(ScalarKind::Int32),
        },
    ));
    let mut opt = field("c", 2, Cardinality::Optional, FieldTypeRecord::Scalar(ScalarKind::Bool));
    opt.proto3_optional = true;
    m.fields.push(opt);
    f.messages.push(m);
    let pool = FileDescriptor::new(vec![f]).unwrap();
    let retained: Vec<FileRecord> = pool.file_descriptor_set().iter().map(|x| x.clone()).collect();
    let rebuilt = FileDescriptor::new(retained).unwrap();
    assert_eq!(observable_fingerprint(&pool), observable_fingerprint(&rebuilt));
    assert_eq!(pool.file_descriptor_set().len(), rebuilt.file_descriptor_set().len());
}

#[test]
fn extending_with_empty_batch_is_observably_equal() {
    let mut f = file("a.proto", "p", Syntax::Proto3);
    let mut m = message("M");
    m.fields.push(field(
        "x",
        3,
        Cardinality::Optional,
        FieldTypeRecord::Scalar(ScalarKind::Sint64),
    ));
    f.messages.push(m);
    f.enums.push(enum_record("E", &[("Z", 0)]));
    let pool = FileDescriptor::new(vec![f]).unwrap();
    let extended = pool.extend(&Vec::new()).unwrap();
    assert_eq!(observable_fingerprint(&pool), observable_fingerprint(&extended));
    assert_eq!(pool.file_descriptor_set().len(), extended.file_descriptor_set().len());
    assert!(extended.get_enum_by_name(&b("p.E")).is_some());
}

#[test]
fn extending_adds_files_and_resolves_against_the_base() {
    let mut f1 = file("a.proto", "base", Syntax::Proto2);
    f1.messages.push(message("A"));
    let pool = FileDescriptor::new(vec![f1]).unwrap();
    let mut f2 = file("b.proto", "more", Syntax::Proto2);
    f2.dependencies.push(b("a.proto"));
    let mut m = message("B");
    m.fields.push(field("a", 1, Cardinality::Optional, FieldTypeRecord::Named(b(".base.A"))));
    f2.messages.push(m);
    let extended = pool.extend(&vec![f2]).unwrap();
    assert!(extended.get_message_by_name(&b("more.B")).is_some());
    // the original handle is untouched
    assert!(pool.get_message_by_name(&b("more.B")).is_none());
}

#[test]
fn extension_conflict_reports_imported_site() {
    let mut f1 = file("a.proto", "", Syntax::Proto2);
    f1.messages.push(message("M"));
    let pool = FileDescriptor::new(vec![f1]).unwrap();
    let mut f2 = file("b.proto", "", Syntax::Proto2);
    f2.messages.push(message("M"));
    let err = pool.extend(&vec![f2]).unwrap_err();
    let found = err.conditions.iter().any(|c| match c {
        Condition::DuplicateName { first, second, .. } => first.imported && !second.imported,
        _ => false,
    });
    assert!(found);
}

#[test]
fn group_field_resolves_to_nested_message() {
    let mut f = file("a.proto", "", Syntax::Proto2);
    let mut m = message("M");
    m.messages.push(message("A"));
    m.fields.push(field("a", 1, Cardinality::Optional, FieldTypeRecord::Group(b("A"))));
    f.messages.push(m);
    let pool = FileDescriptor::new(vec![f]).unwrap();
    let fd = pool.get_message_by_name(&b("M")).unwrap().get_field(1).unwrap();
    assert!(fd.is_group());
    assert!(!fd.is_packed());
    match fd.kind() {
        FieldDescriptorKind::Message(d) => assert_eq!(d.full_name(), &b("M.A")),
        k => panic!("unexpected kind {:?}", k),
    }
}

#[test]
fn bool_default_must_be_lowercase_keyword() {
    let mut f = file("a.proto", "", Syntax::Proto2);
    let mut m = message("M");
    let mut x = field("t", 1, Cardinality::Optional, FieldTypeRecord::Scalar(ScalarKind::Bool));
    x.default_literal = Some(b("False"));
    m.fields.push(x);
    f.messages.push(m);
    let err = FileDescriptor::new(vec![f]).unwrap_err();
    assert!(err.conditions.iter().any(|c| matches!(
        c,
        Condition::ValueInvalidType { expected, actual, .. }
            if expected == &b("boolean") && actual == &b("False")
    )));
}

#[test]
fn unsigned_default_rejects_a_sign() {
    let mut f = file("a.proto", "", Syntax::Proto2);
    let mut m = message("M");
    let mut x = field("u", 1, Cardinality::Optional, FieldTypeRecord::Scalar(ScalarKind::Uint32));
    x.default_literal = Some(b("-1"));
    m.fields.push(x);
    f.messages.push(m);
    let err = FileDescriptor::new(vec![f]).unwrap_err();
    assert!(err.conditions.iter().any(|c| matches!(
        c,
        Condition::ValueInvalidType { expected, .. } if expected == &b("unsigned integer")
    )));
}

#[test]
fn extreme_signed_defaults_parse_exactly() {
    let mut f = file("a.proto", "", Syntax::Proto2);
    let mut m = message("M");
    let mut x = field("lo", 1, Cardinality::Optional, FieldTypeRecord::Scalar(ScalarKind::Int64));
    x.default_literal = Some(b("-9223372036854775808"));
    m.fields.push(x);
    let mut y = field("hi", 2, Cardinality::Optional, FieldTypeRecord::Scalar(ScalarKind::Int64));
    y.default_literal = Some(b("9223372036854775807"));
    m.fields.push(y);
    f.messages.push(m);
    let pool = FileDescriptor::new(vec![f]).unwrap();
    let d = pool.get_message_by_name(&b("M")).unwrap();
    assert!(matches!(
        d.get_field(1).unwrap().default_value(),
        Some(DefaultValue::I64(-9223372036854775808))
    ));
    assert!(matches!(
        d.get_field(2).unwrap().default_value(),
        Some(DefaultValue::I64(9223372036854775807))
    ));
}

#[test]
fn float_special_words_are_accepted() {
    let mut f = file("a.proto", "", Syntax::Proto2);
    let mut m = message("M");
    for (i, lit) in [("a", "inf"), ("b", "-inf"), ("c", "nan"), ("d", "+1.5E-7")]
        .iter()
        .enumerate()
    {
        let mut x = field(
            lit.0,
            (i + 1) as i32,
            Cardinality::Optional,
            FieldTypeRecord::Scalar(ScalarKind::Float),
        );
        x.default_literal = Some(b(lit.1));
        m.fields.push(x);
    }
    f.messages.push(m);
    assert!(FileDescriptor::new(vec![f]).is_ok());
}

#[test]
fn single_value_suggestion_text() {
    let mut f = file("a.proto", "", Syntax::Proto2);
    f.enums.push(enum_record("Foo", &[("ZERO", 0)]));
    let mut m = message("M");
    let mut x = field("f", 1, Cardinality::Optional, FieldTypeRecord::Named(b("Foo")));
    x.default_literal = Some(b("ONE"));
    m.fields.push(x);
    f.messages.push(m);
    let err = FileDescriptor::new(vec![f]).unwrap_err();
    match &err.conditions[0] {
        Condition::InvalidEnumValue { help, .. } => {
            assert_eq!(help, &b("possible values are 'ZERO'"));
        }
        c => panic!("unexpected condition {:?}", c),
    }
}

#[test]
fn oneof_name_collides_with_field_name() {
    let mut f = file("a.proto", "", Syntax::Proto2);
    let mut m = message("M");
    m.fields.push(field("x", 1, Cardinality::Optional, FieldTypeRecord::Scalar(ScalarKind::Int32)));
    m.oneofs.push(descriptor_pool::OneofRecord { name: b("x"), options: Vec::new() });
    f.messages.push(m);
    let err = FileDescriptor::new(vec![f]).unwrap_err();
    assert!(err
        .conditions
        .iter()
        .any(|c| matches!(c, Condition::DuplicateName { name, .. } if name == &b("M.x"))));
}

#[test]
fn enum_value_name_scopes_to_parent() {
    // enum values live in the enum's enclosing scope: a sibling message
    // of the same name collides with a value, not with the enum.
    let mut f = file("a.proto", "", Syntax::Proto2);
    f.enums.push(enum_record("E", &[("CLASH", 0)]));
    f.messages.push(message("CLASH"));
    let err = FileDescriptor::new(vec![f]).unwrap_err();
    assert!(err
        .conditions
        .iter()
        .any(|c| matches!(c, Condition::DuplicateName { name, .. } if name == &b("CLASH"))));
}

fn options_message_fixture() -> Vec<FileRecord> {
    // a miniature well-known-options file whose FileOptions declares one
    // plain singular field and one plain repeated field.
    let mut wkt = file("google/protobuf/descriptor.proto", "google.protobuf", Syntax::Proto2);
    let mut fo = message("FileOptions");
    fo.fields.push(field(
        "java_package",
        1,
        Cardinality::Optional,
        FieldTypeRecord::Scalar(ScalarKind::String),
    ));
    fo.fields.push(field(
        "tags",
        2,
        Cardinality::Repeated,
        FieldTypeRecord::Scalar(ScalarKind::Int32),
    ));
    wkt.messages.push(fo);
    let mut user = file("user.proto", "", Syntax::Proto2);
    user.dependencies.push(b("google/protobuf/descriptor.proto"));
    vec![wkt, user]
}

#[test]
fn plain_option_checked_against_present_options_message() {
    let mut files = options_message_fixture();
    files[1].options.push(OptionRecord {
        path: vec![OptionPathSegment::Plain(b("java_package"))],
        value: OptionValue::Text(b("com.example")),
    });
    let pool = FileDescriptor::new(files).unwrap();
    let opts = pool.merged_options(&b("user.proto")).unwrap();
    assert_eq!(opts.entries.len(), 1);
    assert_eq!(&opts.entries[0].path, &b("java_package"));
}

#[test]
fn unknown_plain_option_reported_when_options_message_present() {
    let mut files = options_message_fixture();
    files[1].options.push(OptionRecord {
        path: vec![OptionPathSegment::Plain(b("no_such_option"))],
        value: OptionValue::Bool(true),
    });
    let err = FileDescriptor::new(files).unwrap_err();
    assert_eq!(err.conditions.len(), 1);
    match &err.conditions[0] {
        Condition::UnknownOptionField { owner, name } => {
            assert_eq!(owner, &b("user.proto"));
            assert_eq!(name, &b("no_such_option"));
        }
        c => panic!("unexpected condition {:?}", c),
    }
}

#[test]
fn plain_repeated_option_appends_in_order() {
    let mut files = options_message_fixture();
    files[1].options.push(OptionRecord {
        path: vec![OptionPathSegment::Plain(b("tags"))],
        value: OptionValue::Int(7),
    });
    files[1].options.push(OptionRecord {
        path: vec![OptionPathSegment::Plain(b("tags"))],
        value: OptionValue::Int(9),
    });
    let pool = FileDescriptor::new(files).unwrap();
    let opts = pool.merged_options(&b("user.proto")).unwrap();
    assert_eq!(opts.entries.len(), 1);
    assert_eq!(opts.entries[0].values.len(), 2);
    assert!(matches!(opts.entries[0].values[0], OptionValue::Int(7)));
    assert!(matches!(opts.entries[0].values[1], OptionValue::Int(9)));
}

#[test]
fn plain_singular_option_reassignment_fails_when_message_present() {
    let mut files = options_message_fixture();
    for _ in 0..2 {
        files[1].options.push(OptionRecord {
            path: vec![OptionPathSegment::Plain(b("java_package"))],
            value: OptionValue::Text(b("x")),
        });
    }
    let err = FileDescriptor::new(files).unwrap_err();
    assert_eq!(err.conditions.len(), 1);
    assert!(matches!(
        &err.conditions[0],
        Condition::OptionAlreadySet { name, .. } if name == &b("java_package")
    ));
}

#[test]
fn merged_options_is_none_for_an_owner_without_statements() {
    let mut f = file("a.proto", "", Syntax::Proto2);
    f.messages.push(message("M"));
    let pool = FileDescriptor::new(vec![f]).unwrap();
    assert!(pool.merged_options(&b("M")).is_none());
    assert!(pool.merged_options(&b("a.proto")).is_none());
}
