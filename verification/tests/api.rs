use graph_schema::api_schema::ApiSchema;
use graph_schema::ast::{Pos, Type, TypeDefinition};
use graph_schema::document::ObjectOrInterface;
use graph_schema::ids::{DeploymentHash, EntityType};
use graph_schema::parser::parse_schema;
use graph_schema::schema::Schema;

const RAW: &str = "type Query { a(x: In): A b: [A!]! }
                   type Subscription { a: A }
                   interface I { n: Int }
                   type A implements I { n: Int d: Date e: [Color!]! }
                   enum Color { RED } scalar Date input In { x: Int }";

fn schema() -> Schema {
    Schema::parse(RAW, DeploymentHash::new("sub").unwrap()).unwrap()
}

fn api() -> ApiSchema {
    ApiSchema::from_api_schema(schema()).unwrap()
}

#[test]
fn queries_can_ask_about_the_schema() {
    let api = api();
    let names: Vec<&str> = api.query_type.fields.iter().map(|f| f.name.as_str()).collect();
    assert_eq!(names, vec!["a", "b", "__schema", "__type"]);
    let asks = &api.query_type.fields[2];
    assert_eq!(
        asks.field_type,
        Type::NonNullType(Box::new(Type::NamedType("__Schema".to_owned())))
    );
    let by_name = &api.query_type.fields[3];
    assert_eq!(by_name.field_type, Type::NamedType("__Type".to_owned()));
    assert_eq!(by_name.arguments[0].name, "name");
    assert_eq!(
        by_name.arguments[0].value_type,
        Type::NonNullType(Box::new(Type::NamedType("String".to_owned())))
    );
    assert_eq!(api.subscription_type().unwrap().name, "Subscription");
    assert_eq!(api.subscription_type.as_ref(), api.subscription_type());
    for name in ["__Schema", "__Type", "__Field", "__InputValue", "__EnumValue", "__Directive"] {
        assert!(matches!(
            api.object_or_interface(name),
            Some(ObjectOrInterface::Object(t)) if t.name == name
        ));
    }
}

#[test]
fn other_types_stay_and_come_first() {
    let schema = schema();
    let api = api();
    let own = schema.document.definitions.len();
    assert_eq!(api.definitions()[1..own], schema.document.definitions[1..]);
    assert!(api.definitions().len() > own);
    assert_eq!(api.document().definitions.len(), api.definitions().len());
    assert_eq!(api.get_named_type("A"), schema.document.get_named_type("A"));
    assert_eq!(api.id().as_str(), "sub");
    assert_eq!(api.schema().interfaces_for_type, schema.interfaces_for_type);
    assert_eq!(api.types_for_interface().len(), 1);
    let a = EntityType::new("A".to_owned());
    assert_eq!(api.interfaces_for_type(&a).unwrap()[0].name, "I");
    assert!(api.interfaces_for_type(&EntityType::new("Query".to_owned())).is_none());
}

#[test]
fn fields_with_introspection_print_like_parsed_ones() {
    let parsed = parse_schema("type Query { __schema: __Schema! __type(name: String!): __Type }").unwrap();
    let expected = &parsed.get_root_query_type().unwrap().fields;
    let fields = &api().query_type.fields[2..];
    for i in 0..2 {
        assert_eq!(fields[i].text, expected[i].text);
        assert_eq!(fields[i].name, expected[i].name);
        assert_eq!(fields[i].field_type, expected[i].field_type);
        assert_eq!(fields[i].position, Pos::default());
    }
}

#[test]
fn input_types_may_be_wrapped() {
    let api = api();
    let named = |name: &str| Type::NamedType(name.to_owned());
    let wrapped = |t: Type| Type::NonNullType(Box::new(Type::ListType(Box::new(t))));
    for (name, expected) in [
        ("Date", true),
        ("Color", true),
        ("In", true),
        ("A", false),
        ("I", false),
        ("Nobody", false),
    ] {
        assert_eq!(api.is_input_type(&named(name)), expected);
        assert_eq!(api.is_input_type(&wrapped(named(name))), expected);
        assert_eq!(
            api.get_type_definition_from_type(&wrapped(named(name))),
            api.get_named_type(name)
        );
    }
    let a = api.object_type(&schema().document.get_object_type_definition("A").unwrap());
    assert_eq!(
        api.get_type_definition_from_field(&a.fields[2]).unwrap().name(),
        "Color"
    );
}

#[test]
fn object_types_are_held_ready() {
    let api = api();
    let doc = schema().document;
    let a = doc.get_object_type_definition("A").unwrap();
    assert_eq!(*api.object_type(a), *a);
    let query = doc.get_object_type_definition("Query").unwrap();
    assert_eq!(api.object_type(query).fields.len(), 4);
}

#[test]
fn the_root_query_type_has_a_definition() {
    let api = api();
    match api.get_root_query_type_def() {
        Some(TypeDefinition::Object(t)) => assert_eq!(t, &**api.query_type()),
        other => panic!("unexpected definition {:?}", other),
    }
}

#[test]
fn interfaces_are_found_by_name() {
    let api = api();
    assert!(matches!(
        api.object_or_interface("I"),
        Some(ObjectOrInterface::Interface(t)) if t.name == "I"
    ));
    assert!(matches!(api.object_or_interface("A"), Some(ObjectOrInterface::Object(_))));
    assert!(api.object_or_interface("Color").is_none());
    assert!(api.object_or_interface("__Nobody").is_none());
    assert!(api.object_or_interface("__TypeKind").is_none());
}

#[test]
fn other_introspection_types_can_be_mixed_in() {
    let other = parse_schema("type __Only { x: Int }").unwrap();
    let api = ApiSchema::with_introspection(schema(), other);
    assert_eq!(api.query_type.fields.len(), 4);
    assert!(api.object_or_interface("__Only").is_some());
    assert!(api.object_or_interface("__Schema").is_none());
    assert_eq!(api.definitions().len(), schema().document.definitions.len() + 1);
}
