use graph_schema::ast::{
    Definition, Entries, Float, Pos, Type, TypeDefinition, TypeExtension, Value,
};
use graph_schema::block_strings::has_safe_block_strings;
use graph_schema::parser::parse_schema;

fn named(name: &str) -> Type {
    Type::NamedType(name.to_owned())
}

#[test]
fn all_kinds_of_definitions_are_read() {
    let doc = parse_schema(
        "schema { query: Q }
         \"a date\" scalar Date @s
         type A implements I & J @t(x: 1) { \"the b\" b(c: Int = 3 @d, e: [E!]): [Int!]! @f }
         interface I { b: Int }
         union U = A | B
         enum E @e { ONE @one TWO }
         input N { n: Int! = 5 }
         extend type A { z: Int }
         directive @d on FIELD",
    )
    .unwrap();
    assert_eq!(doc.definitions.len(), 9);
    match &doc.definitions[0] {
        Definition::SchemaDefinition(d) => {
            assert_eq!(d.query, Some("Q".to_owned()));
            assert_eq!(d.mutation, None);
            assert_eq!(d.subscription, None);
            assert_eq!(d.position, Pos { line: 1, column: 1 });
        }
        other => panic!("unexpected definition {:?}", other),
    }
    match &doc.definitions[1] {
        Definition::TypeDefinition(TypeDefinition::Scalar(t)) => {
            assert_eq!(t.description, Some("a date".to_owned()));
            assert_eq!(t.name, "Date");
            assert_eq!(t.directives[0].name, "s");
        }
        other => panic!("unexpected definition {:?}", other),
    }
    match &doc.definitions[2] {
        Definition::TypeDefinition(TypeDefinition::Object(t)) => {
            assert_eq!(t.description, None);
            assert_eq!(t.implements_interfaces, vec!["I".to_owned(), "J".to_owned()]);
            assert_eq!(t.directives[0].argument("x"), Some(&Value::Int(1)));
            let b = &t.fields[0];
            assert_eq!(b.description, Some("the b".to_owned()));
            assert_eq!(b.name, "b");
            assert_eq!(
                b.field_type,
                Type::NonNullType(Box::new(Type::ListType(Box::new(Type::NonNullType(
                    Box::new(named("Int"))
                )))))
            );
            assert_eq!(b.arguments.len(), 2);
            assert_eq!(b.arguments[0].name, "c");
            assert_eq!(b.arguments[0].default_value, Some(Value::Int(3)));
            assert_eq!(b.arguments[0].directives[0].name, "d");
            assert_eq!(
                b.arguments[1].value_type,
                Type::ListType(Box::new(Type::NonNullType(Box::new(named("E")))))
            );
            assert_eq!(b.arguments[1].default_value, None);
            assert_eq!(b.directives[0].name, "f");
            assert_eq!(b.text, "\"the b\"\nb(c: Int = 3 @d, e: [E!]): [Int!]! @f\n");
        }
        other => panic!("unexpected definition {:?}", other),
    }
    match &doc.definitions[3] {
        Definition::TypeDefinition(TypeDefinition::Interface(t)) => {
            assert_eq!(t.name, "I");
            assert_eq!(t.fields[0].text, "b: Int\n");
        }
        other => panic!("unexpected definition {:?}", other),
    }
    match &doc.definitions[4] {
        Definition::TypeDefinition(TypeDefinition::Union(t)) => {
            assert_eq!(t.types, vec!["A".to_owned(), "B".to_owned()]);
        }
        other => panic!("unexpected definition {:?}", other),
    }
    match &doc.definitions[5] {
        Definition::TypeDefinition(TypeDefinition::Enum(t)) => {
            assert_eq!(t.directives[0].name, "e");
            assert_eq!(t.values[0].name, "ONE");
            assert_eq!(t.values[0].directives[0].name, "one");
            assert_eq!(t.values[1].name, "TWO");
        }
        other => panic!("unexpected definition {:?}", other),
    }
    match &doc.definitions[6] {
        Definition::TypeDefinition(TypeDefinition::InputObject(t)) => {
            assert_eq!(t.fields[0].name, "n");
            assert_eq!(t.fields[0].default_value, Some(Value::Int(5)));
        }
        other => panic!("unexpected definition {:?}", other),
    }
    match &doc.definitions[7] {
        Definition::TypeExtension(TypeExtension::Object(t)) => {
            assert_eq!(t.name, "A");
            assert_eq!(t.fields[0].text, "z: Int\n");
        }
        other => panic!("unexpected definition {:?}", other),
    }
    match &doc.definitions[8] {
        Definition::DirectiveDefinition(d) => {
            assert_eq!(d.name, "d");
            assert_eq!(d.description, None);
            assert!(!d.repeatable);
            assert_eq!(d.locations, vec!["FIELD".to_owned()]);
        }
        other => panic!("unexpected definition {:?}", other),
    }
}

#[test]
fn all_kinds_of_extensions_are_read() {
    let doc = parse_schema(
        "extend scalar S @s extend type A implements I @t { x: Int } extend interface I { y: Int }
         extend union U = B extend enum E @e { TWO @two } extend input N { n: Int! = 5 }
         \"help\" directive @d(a: Int = 1) on FIELD_DEFINITION | ENUM_VALUE",
    )
    .unwrap();
    let extensions: Vec<&TypeExtension> = doc
        .definitions
        .iter()
        .filter_map(|d| match d {
            Definition::TypeExtension(t) => Some(t),
            _ => None,
        })
        .collect();
    assert_eq!(extensions.len(), 6);
    assert!(matches!(extensions[0], TypeExtension::Scalar(t)
        if t.name == "S" && t.directives[0].name == "s"));
    assert!(matches!(extensions[1], TypeExtension::Object(t)
        if t.implements_interfaces == vec!["I".to_owned()] && t.fields[0].name == "x"));
    assert!(matches!(extensions[2], TypeExtension::Interface(t)
        if t.name == "I" && t.fields[0].name == "y"));
    assert!(matches!(extensions[3], TypeExtension::Union(t) if t.types == vec!["B".to_owned()]));
    assert!(matches!(extensions[4], TypeExtension::Enum(t)
        if t.values[0].name == "TWO" && t.values[0].directives[0].name == "two"));
    assert!(matches!(extensions[5], TypeExtension::InputObject(t)
        if t.fields[0].default_value == Some(Value::Int(5))));
    match &doc.definitions[6] {
        Definition::DirectiveDefinition(d) => {
            assert_eq!(d.description, Some("help".to_owned()));
            assert_eq!(d.arguments[0].name, "a");
            assert_eq!(
                d.locations,
                vec!["FIELD_DEFINITION".to_owned(), "ENUM_VALUE".to_owned()]
            );
        }
        other => panic!("unexpected definition {:?}", other),
    }
    assert_eq!(doc.clone(), doc);
    for (a, b) in [
        ("extend scalar S @s", " extend scalar S @s"),
        ("schema { query: Q }", "schema { query: R }"),
        ("directive @d on FIELD", "directive @d on QUERY"),
    ] {
        assert_ne!(parse_schema(a).unwrap(), parse_schema(b).unwrap());
    }
}

#[test]
fn all_kinds_of_values_are_read() {
    let doc = parse_schema(
        "scalar S @d(variable: $v, int: -7, float: 1.5, string: \"s\", yes: true, no: false,
                     nothing: null, word: rank, list: [1, [\"x\"]], object: { b: 1, a: { c: 2 } })",
    )
    .unwrap();
    let directive = match &doc.definitions[0] {
        Definition::TypeDefinition(t) => &t.directives()[0],
        other => panic!("unexpected definition {:?}", other),
    };
    let argument = |name: &str| directive.argument(name).unwrap().clone();
    assert_eq!(argument("variable"), Value::Variable("v".to_owned()));
    assert_eq!(argument("int"), Value::Int(-7));
    assert_eq!(argument("float"), Value::Float(Float { bits: 1.5f64.to_bits() }));
    assert_eq!(argument("string"), Value::String("s".to_owned()));
    assert_eq!(argument("yes"), Value::Boolean(true));
    assert_eq!(argument("no"), Value::Boolean(false));
    assert_eq!(argument("nothing"), Value::Null);
    assert_eq!(argument("word"), Value::Enum("rank".to_owned()));
    assert_eq!(
        argument("list"),
        Value::List(vec![
            Value::Int(1),
            Value::List(vec![Value::String("x".to_owned())])
        ])
    );
    assert_eq!(
        argument("object"),
        Value::Object(
            Entries::new().with("b".to_owned(), Value::Int(1)).with(
                "a".to_owned(),
                Value::Object(Entries::new().with("c".to_owned(), Value::Int(2)))
            )
        )
    );
    assert_eq!(directive.argument("missing"), None);
}

#[test]
fn what_is_no_document_is_refused() {
    let message = parse_schema("type {").unwrap_err();
    assert!(message.starts_with("schema parse error: "), "{}", message);
    assert!(parse_schema("").is_err());
}

#[test]
fn block_strings_lose_their_indentation() {
    let raw = "\"\"\"\n    one\n      two\n\"\"\"\nscalar S";
    assert!(has_safe_block_strings(raw));
    let doc = parse_schema(raw).unwrap();
    match &doc.definitions[0] {
        Definition::TypeDefinition(TypeDefinition::Scalar(t)) => {
            assert_eq!(t.description, Some("one\n  two".to_owned()));
        }
        other => panic!("unexpected definition {:?}", other),
    }
}

#[test]
fn safe_block_strings_are_read() {
    fn description(raw: &str) -> String {
        assert!(has_safe_block_strings(raw));
        match &parse_schema(raw).unwrap().definitions[0] {
            Definition::TypeDefinition(TypeDefinition::Scalar(t)) => t.description.clone().unwrap(),
            other => panic!("unexpected definition {:?}", other),
        }
    }
    assert_eq!(description("\"\"\"a\n \u{a0}b\"\"\" scalar S"), "a\nb");
    assert_eq!(description("\"\"\"\n\u{3000}a\nb\"\"\" scalar S"), "\u{3000}a\nb");
    assert_eq!(
        description("\"\"\"\n\u{a0}\u{a0}a\n\u{a0}b\n\"\"\" scalar S"),
        "\u{a0}a\nb"
    );
    assert_eq!(description("\"\"\"\n\u{a0}a\n\n\u{a0}b\"\"\" scalar S"), "a\n\nb");
    assert_eq!(description("\"\"\"\n a\r\n\r\n b\n\u{3000}\"\"\" scalar S"), "a\n\nb");
    assert_eq!(description("\"\"\"\u{3000}\n\u{3000}\n a\"\"\" scalar S"), "a");
    assert_eq!(description("\"\"\"a \\\"\"\" b\"\"\" scalar S"), "a \"\"\" b");
}

#[test]
fn unsafe_indentation_is_told_apart() {
    assert!(has_safe_block_strings(""));
    assert!(has_safe_block_strings("\"\""));
    assert!(has_safe_block_strings("\"\"\""));
    assert!(has_safe_block_strings("\u{a0}scalar S"));
    assert!(has_safe_block_strings("\u{2003}\"\"\"a\"\"\" scalar S"));
    assert!(has_safe_block_strings("\"\"\"\n\u{a0}a\n b"));
    let cut = "\"\"\"\n\u{a0}a\n b\"\"\" scalar S";
    assert!(!has_safe_block_strings(cut));
    assert!(!has_safe_block_strings(&format!("# \"\"\"\r{}", cut)));
    assert!(!has_safe_block_strings(&format!("scalar T @d(x: \"\\\"#\") {}", cut)));
    assert!(!has_safe_block_strings(&format!("\"\"\"x\"\"\" scalar T {}", cut)));
    for refused in [
        format!("scalar T \u{3000} {}", cut),
        format!("scalar T % {}", cut),
        format!("scalar T \"x\n {}", cut),
        "\"\"\"a\"\"\" scalar T\n\u{a0}x\n y\n\"\"\"b\"\"\" scalar S".to_owned(),
    ] {
        assert!(has_safe_block_strings(&refused));
        assert!(parse_schema(&refused).is_err());
    }
    let commented = format!("# {}\nscalar S", cut.replace('\n', " "));
    assert!(has_safe_block_strings(&commented));
    assert!(parse_schema(&commented).is_ok());
    assert!(!has_safe_block_strings("\"\"\"x\n a\n\u{3000}\n b\"\"\" scalar S"));
    assert!(!has_safe_block_strings("\"\"\"\\\"\"\"\n\u{a0}a\n b\"\"\" scalar S"));
    assert!(!has_safe_block_strings("scalar T \"\"\"\n  a\n \u{2003}b\"\"\" scalar S"));
}

#[test]
fn definitions_stand_somewhere() {
    let doc = parse_schema("scalar A\n  type B @d(x: 1) { c: Int\n d(e: Int): Int }").unwrap();
    match &doc.definitions[0] {
        Definition::TypeDefinition(TypeDefinition::Scalar(t)) => {
            assert_eq!(t.position, Pos { line: 1, column: 1 });
        }
        other => panic!("unexpected definition {:?}", other),
    }
    let b = doc.get_object_type_definition("B").unwrap();
    assert_eq!(b.position, Pos { line: 2, column: 3 });
    assert_eq!(b.directives[0].position, Pos { line: 2, column: 10 });
    assert_eq!(b.fields[0].position, Pos { line: 2, column: 21 });
    assert_eq!(b.fields[1].position, Pos { line: 3, column: 2 });
    assert_eq!(b.fields[1].arguments[0].position, Pos { line: 3, column: 4 });
    assert_ne!(parse_schema("scalar A").unwrap(), parse_schema(" scalar A").unwrap());
    assert_eq!(Pos::default(), Pos { line: 0, column: 0 });
}

#[test]
fn floating_point_numbers_are_equal_by_value() {
    let float = |x: f64| Value::Float(Float { bits: x.to_bits() });
    assert_eq!(float(0.0), float(-0.0));
    assert_eq!(float(1.5), float(1.5));
    assert_ne!(float(1.5), float(-1.5));
    assert_eq!(float(f64::INFINITY), float(f64::INFINITY));
    assert_ne!(float(f64::NAN), float(f64::NAN));
    assert_ne!(float(0.0), float(f64::NAN));
}

#[test]
fn definitions_are_found_by_name() {
    let doc = parse_schema(
        "type A { x: Int } interface A { y: Int } type A { z: Int } enum E { P }
         type Query { q: Int } type Subscription { s: Int }",
    )
    .unwrap();
    assert_eq!(doc.get_object_type_definitions().len(), 4);
    assert_eq!(doc.get_interface_type_definitions().len(), 1);
    assert_eq!(doc.get_enum_definitions().len(), 1);
    assert_eq!(doc.get_object_type_definition("A").unwrap().fields[0].name, "x");
    assert_eq!(doc.find_interface("A").unwrap().fields[0].name, "y");
    assert_eq!(doc.get_named_type("E").unwrap().name(), "E");
    assert!(doc.get_named_type("F").is_none());
    assert_eq!(doc.get_root_query_type().unwrap().name, "Query");
    assert_eq!(doc.get_root_subscription_type().unwrap().name, "Subscription");
    let types = doc.get_object_and_interface_type_fields();
    let names: Vec<&str> = types.iter().map(|t| t.name.as_str()).collect();
    assert_eq!(names, vec!["A", "Query", "Subscription"]);
    assert_eq!(types[0].fields[0].name, "z");
}

#[test]
fn base_types_are_inside_lists_and_marks() {
    let inner = Type::NonNullType(Box::new(named("A")));
    let list = Type::NonNullType(Box::new(Type::ListType(Box::new(inner.clone()))));
    assert_eq!(list.get_base_type(), "A");
    assert!(list.same_type(&list.clone()));
    assert!(!list.same_type(&inner));
}

#[test]
fn entries_stand_in_the_order_of_their_keys() {
    let entry = |key: &str, n: i64| (key.to_owned(), Value::Int(n));
    let add = |entries: Entries, key: &str, n: i64| entries.with(key.to_owned(), Value::Int(n));
    let forth = add(add(add(Entries::new(), "a", 1), "b", 2), "\u{3000}", 3);
    let back = add(add(add(Entries::new(), "\u{3000}", 3), "b", 2), "a", 1);
    assert_eq!(forth, back);
    assert_eq!(*forth.as_vec(), vec![entry("a", 1), entry("b", 2), entry("\u{3000}", 3)]);
    let replaced = add(back, "b", 7);
    assert_eq!(
        *replaced.as_vec(),
        vec![entry("a", 1), entry("b", 7), entry("\u{3000}", 3)]
    );
    assert_ne!(forth, replaced);
    assert_eq!(
        Entries::from_ascending(vec![entry("a", 1), entry("b", 2)]),
        add(add(Entries::new(), "b", 2), "a", 1)
    );
}
