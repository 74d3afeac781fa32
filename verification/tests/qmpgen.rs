use windows_gaming_driver::qmpgen::{Description, Rest, Doc, Part, Object, Enum, Struct, Union, Event, Include, Command,
    JsonValue, Type, TypeTable, Outcome, SchemaError, parse_desc, to_types, to_sections, string_to_type,
    value_to_type, object_to_type, render_sections, indent, clone_type};

fn s(v: &str) -> String {
    v.to_string()
}

fn desc(name: &str, rest: Vec<Rest>) -> Description {
    Description { name: s(name), documentation: s("Some doc"), example: s("\n# -> { \"x\": 1 }\n#\n# <- {}"), rest }
}

fn part(object: Object) -> Part {
    Part { description: Doc::Parsed(desc("X", vec![Rest::Since(s("2.0"))])), object }
}

fn is_existing(t: &Type, name: &str) -> bool {
    matches!(t, Type::Existing(n) if n == name)
}

#[test]
fn documentation_sections_sorted() {
    let d = desc("BLOCK_IO_ERROR", vec![
        Rest::Parameter((s("device"), s("the device"))),
        Rest::Since(s("1.0")),
        Rest::Note(s("first")),
        Rest::Returns(s("nothing")),
        Rest::Parameter((s("action"), s("what happened"))),
        Rest::Since(s("2.1")),
        Rest::Note(s("second")),
    ]);
    let doc = parse_desc(&d);
    assert_eq!(doc.name, "BLOCK_IO_ERROR");
    assert_eq!(doc.parameters, vec![(s("device"), s("the device")), (s("action"), s("what happened"))]);
    assert_eq!(doc.since, "2.1");
    assert_eq!(doc.notes, vec![s("first"), s("second")]);
    assert_eq!(doc.returns_doc, Some(s("nothing")));
}

#[test]
fn builtin_names_and_references() {
    let mut table = TypeTable::new();
    let left = to_types(&vec![], &mut table).unwrap();
    assert!(left.is_empty());
    assert!(matches!(string_to_type("int8", &table), Some(Type::I8)));
    assert!(matches!(string_to_type("size", &table), Some(Type::U64)));
    assert!(matches!(string_to_type("any", &table), Some(Type::String)));
    assert!(string_to_type("Missing", &table).is_none());
    table.insert(s("Color"), Type::Enum(vec![s("red")]));
    assert!(is_existing(&string_to_type("Color", &table).unwrap(), "Color"));
}

#[test]
fn values_convert_to_types() {
    let mut table = TypeTable::new();
    to_types(&vec![], &mut table).unwrap();
    let v = JsonValue::Object(vec![
        (s("a"), JsonValue::Str(s("str"))),
        (s("b"), JsonValue::Array(vec![JsonValue::Str(s("int"))])),
    ]);
    match value_to_type(&v, &table) {
        Outcome::Done(Type::Record(m)) => {
            assert_eq!(m.len(), 2);
            assert_eq!(m[0].0, "a");
            assert!(matches!(m[0].1, Type::String));
            assert!(matches!(&m[1].1, Type::List(b) if matches!(**b, Type::I64)));
        }
        other => panic!("unexpected {:?}", other),
    }
    assert!(matches!(value_to_type(&JsonValue::Str(s("Later")), &table), Outcome::Retry));
    assert!(matches!(value_to_type(&JsonValue::Other, &table), Outcome::Malformed));
    assert!(matches!(value_to_type(&JsonValue::Array(vec![]), &table), Outcome::Malformed));
}

#[test]
fn definitions_wait_for_their_types() {
    let parts = vec![
        part(Object::Struct(Struct { name: s("Outer"), data: Some(JsonValue::Object(vec![(s("inner"), JsonValue::Str(s("Inner")))])), base: None, gen: None })),
        part(Object::Enum(Enum { name: s("Inner"), data: vec![s("a"), s("b")], gen: None })),
        part(Object::Include(Include { file: s("common.json") })),
        part(Object::Event(Event { event: s("NEVER"), data: Some(JsonValue::Str(s("Unknown"))) })),
    ];
    let mut table = TypeTable::new();
    let left = to_types(&parts, &mut table).unwrap();
    assert_eq!(left, vec![3]);
    match table.get("Outer") {
        Some(Type::Record(m)) => assert!(is_existing(&m[0].1, "Inner")),
        _ => panic!("Outer missing"),
    }
}

#[test]
fn struct_inherits_base_members() {
    let mut table = TypeTable::new();
    to_types(&vec![], &mut table).unwrap();
    table.insert(s("Base"), Type::Record(vec![(s("id"), Type::U32)]));
    let o = Object::Struct(Struct { name: s("Derived"), data: Some(JsonValue::Object(vec![(s("extra"), JsonValue::Str(s("bool")))])), base: Some(s("Base")), gen: None });
    match object_to_type(&o, &table) {
        Outcome::Done(Some((name, Type::Record(m)))) => {
            assert_eq!(name, "Derived");
            assert_eq!(m.len(), 2);
            assert_eq!(m[0].0, "id");
            assert!(matches!(m[1].1, Type::Bool));
        }
        other => panic!("unexpected {:?}", other),
    }
    let bad = Object::Struct(Struct { name: s("Bad"), data: None, base: Some(s("str")), gen: None });
    assert!(matches!(object_to_type(&bad, &table), Outcome::Malformed));
    let cmd = Object::Command(Command { command: s("quit"), data: None, return_type: None, gen: None });
    assert!(matches!(object_to_type(&cmd, &table), Outcome::Done(None)));
}

#[test]
fn unions_take_whole_branch_types() {
    let mut table = TypeTable::new();
    to_types(&vec![], &mut table).unwrap();
    table.insert(s("Opts"), Type::Record(vec![(s("x"), Type::I8)]));
    let u = Object::Union(Union { union: s("U"), base: None, discriminator: None, data: Some(vec![(s("o"), s("Opts"))]), gen: None });
    match object_to_type(&u, &table) {
        Outcome::Done(Some((_, Type::Union((None, m))))) => assert!(matches!(&m[0].1, Type::Record(r) if r.len() == 1)),
        other => panic!("unexpected {:?}", other),
    }
    let flat = Object::Union(Union { union: s("F"), base: None, discriminator: Some(s("type")), data: None, gen: None });
    assert!(matches!(object_to_type(&flat, &table), Outcome::Done(None)));
}

#[test]
fn sections_and_generated_docs() {
    let parts = vec![Part {
        description: Doc::Parsed(Description {
            name: s("SHUTDOWN"),
            documentation: s("Emitted when the VM is shut down"),
            example: s("\n# <- { \"event\": \"SHUTDOWN\" }\n## more"),
            rest: vec![Rest::Since(s("0.13")), Rest::Note(s("careful")), Rest::Parameter((s("guest"), s("who")))],
        }),
        object: Object::Event(Event { event: s("SHUTDOWN"), data: None }),
    }];
    let mut table = TypeTable::new();
    let secs = to_sections(&parts, &mut table).unwrap();
    assert_eq!(secs.len(), 1);
    assert_eq!(secs[0].name, "SHUTDOWN");
    assert!(matches!(secs[0].typ, Type::Empty));
    let text = render_sections(&secs, 2);
    let expected = "  /// Emitted when the VM is shut down\n  ///\n  /// Since qemu version 0.13\n  ///\n  /// Note: careful\n  ///\n  /// # Parameters\n  ///\n  /// * guest: who\n  ///\n  /// # Example\n  ///\n  /// ```\n  /// <- { \"event\": \"SHUTDOWN\" } more\n  /// ```\n\n";
    assert_eq!(text, expected);
    assert_eq!(indent(3), "   ");
}

#[test]
fn schema_errors() {
    let unparsed = vec![Part { description: Doc::Unparsed(s("??")), object: Object::Include(Include { file: s("x") }) }];
    let mut table = TypeTable::new();
    assert_eq!(to_sections(&unparsed, &mut table).unwrap_err(), SchemaError::Unparsed);
    let no_since = vec![Part { description: Doc::Parsed(desc("E", vec![])), object: Object::Include(Include { file: s("x") }) }];
    let mut table = TypeTable::new();
    assert_eq!(to_sections(&no_since, &mut table).unwrap_err(), SchemaError::NoSince);
    let bad = vec![part(Object::Event(Event { event: s("E"), data: Some(JsonValue::Other) }))];
    let mut table = TypeTable::new();
    assert!(to_types(&bad, &mut table).is_err());
}

#[test]
fn cloned_types_are_equal_in_shape() {
    let t = Type::Record(vec![(s("l"), Type::List(Box::new(Type::Existing(s("X")))))]);
    match clone_type(&t) {
        Type::Record(m) => assert!(matches!(&m[0].1, Type::List(b) if is_existing(b, "X"))),
        _ => panic!("shape changed"),
    }
}
