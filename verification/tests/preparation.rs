use graph_schema::ast::{Definition, Value};
use graph_schema::errors::{SchemaValidationError, Strings};
use graph_schema::ids::{DeploymentHash, EntityKey, EntityType};
use graph_schema::parser::parse_schema;
use graph_schema::schema::{IdError, Schema, SchemaError};
use graph_schema::store;
use graph_schema::store::{Bytes, HexError, ValueType};

fn hash(id: &str) -> DeploymentHash {
    DeploymentHash::new(id).unwrap()
}

fn schema(raw: &str) -> Schema {
    Schema::parse(raw, hash("subgraph")).unwrap()
}

fn entity(name: &str) -> EntityType {
    EntityType::new(name.to_owned())
}

const MAPS: &str = "interface Z { x: Int } interface B { x: Int } interface Empty { x: Int }
                    type P implements Z & B @entity { id: ID! x: Int }
                    type Q implements B @entity(immutable: true) { id: ID! x: Int }
                    type R @entity(immutable: false) { id: ID! }";

#[test]
fn each_interface_has_an_entry_in_order() {
    let schema = schema(MAPS);
    let map = schema.types_for_interface();
    let keys: Vec<&str> = (0..map.len()).map(|i| map.key(i).as_str()).collect();
    assert_eq!(keys, vec!["B", "Empty", "Z"]);
    let names = |key: &str| -> Vec<String> {
        map.get(&entity(key)).unwrap().iter().map(|t| t.name.clone()).collect()
    };
    assert_eq!(names("B"), vec!["P", "Q"]);
    assert_eq!(names("Empty"), Vec::<String>::new());
    assert_eq!(names("Z"), vec!["P"]);
    assert!(map.get(&entity("P")).is_none());
}

#[test]
fn types_without_interfaces_have_no_list() {
    let schema = schema(MAPS);
    let names = |key: &str| -> Option<Vec<String>> {
        schema
            .interfaces_for_type(&entity(key))
            .map(|is| is.iter().map(|i| i.name.clone()).collect())
    };
    assert_eq!(names("P"), Some(vec!["Z".to_owned(), "B".to_owned()]));
    assert_eq!(names("Q"), Some(vec!["B".to_owned()]));
    assert_eq!(names("R"), None);
    assert_eq!(names("Nobody"), None);
}

#[test]
fn the_maps_agree() {
    let schema = schema(MAPS);
    for t in ["P", "Q", "R"] {
        for i in ["Z", "B", "Empty"] {
            let listed = schema
                .types_for_interface()
                .get(&entity(i))
                .unwrap()
                .iter()
                .any(|x| x.name == t);
            let back = schema
                .interfaces_for_type(&entity(t))
                .map_or(false, |is| is.iter().any(|x| x.name == i));
            assert_eq!(listed, back);
        }
    }
}

#[test]
fn immutable_types_are_known() {
    let schema = schema(MAPS);
    assert!(schema.is_immutable(&entity("Q")));
    assert!(!schema.is_immutable(&entity("P")));
    assert!(!schema.is_immutable(&entity("R")));
    assert!(!schema.is_immutable(&entity("Nobody")));
    assert_eq!(schema.immutable_types.len(), 1);
}

fn subgraph_ids(schema: &Schema) -> Vec<Option<Value>> {
    schema
        .document
        .definitions
        .iter()
        .map(|d| match d {
            Definition::TypeDefinition(t) => t
                .directives()
                .iter()
                .find(|d| d.name == "subgraphId")
                .map(|d| d.argument("id").unwrap().clone()),
            _ => None,
        })
        .collect()
}

#[test]
fn types_say_to_which_subgraph_they_belong() {
    let mut schema = schema(
        "type _Schema_ type A @entity { id: ID! } interface I { x: Int } enum E { P } scalar S
         input N { x: Int } union U = A type B @subgraphId(id: \"own\") @entity { id: ID! }
         directive @d on FIELD",
    );
    let new = || Some(Value::String("subgraph".to_owned()));
    let expected = vec![
        None,
        new(),
        new(),
        new(),
        new(),
        new(),
        new(),
        Some(Value::String("own".to_owned())),
        None,
    ];
    assert_eq!(subgraph_ids(&schema), expected);
    let before = schema.clone();
    schema.add_subgraph_id_directives(hash("another"));
    assert_eq!(schema, before);
    assert_eq!(schema.id.as_str(), "subgraph");
}

#[test]
fn subgraph_ids_change_nothing_of_validity() {
    let raw = "type _Schema_ { x: Int } type A { id: ID! b: Missing } type Query @entity { id: ID! }";
    let one = Schema::parse(raw, hash("one")).unwrap();
    let mut two = Schema::new(hash("two"), parse_schema(raw).unwrap()).unwrap();
    two.document = parse_schema(raw).unwrap();
    assert_eq!(one.validate(), two.validate());
    assert_eq!(one.validate().unwrap_err().len(), 4);
}

#[test]
fn the_first_wrong_implementation_is_reported() {
    let parse = |raw: &str| Schema::parse(raw, hash("x")).unwrap_err();
    assert_eq!(
        parse("interface I { a: Int b(c: Int): [Int!]! } type A implements I & J { a: Int b: Int }"),
        SchemaError::Validation(SchemaValidationError::InterfaceFieldsMissing(
            "A".to_owned(),
            "I".to_owned(),
            Strings(vec!["b(c: Int): [Int!]!".to_owned()])
        ))
    );
    assert_eq!(
        parse("interface I { a: Int } type A implements J & I { b: Int }"),
        SchemaError::Validation(SchemaValidationError::InterfaceUndefined("J".to_owned()))
    );
    match parse("type A {") {
        SchemaError::Syntax(message) => assert!(message.starts_with("schema parse error")),
        other => panic!("unexpected error {:?}", other),
    }
}

#[test]
fn implementations_need_the_same_types() {
    let doc = parse_schema("interface I { a: Int! } type A { a: Int! } type B { a: Int }").unwrap();
    let interface = doc.find_interface("I").unwrap();
    let a = doc.get_object_type_definition("A").unwrap();
    let b = doc.get_object_type_definition("B").unwrap();
    assert_eq!(Schema::validate_interface_implementation(a, interface), Ok(()));
    assert_eq!(
        Schema::validate_interface_implementation(b, interface)
            .unwrap_err()
            .message(),
        "Entity type `B` does not satisfy interface `I` because it is missing the following fields: a: Int!"
    );
}

fn id_value(t: &str, id: &str) -> Result<store::Value, IdError> {
    schema(
        "type A @entity { id: ID! } type B @entity { id: Bytes! } type C @entity { id: Int! }
         type D @entity { id: String! }",
    )
    .id_value(&EntityKey {
        entity_type: entity(t),
        entity_id: id.to_owned(),
    })
}

fn bytes(r: Result<store::Value, IdError>) -> Vec<u8> {
    match r {
        Ok(store::Value::Bytes(bytes)) => bytes.as_slice().to_vec(),
        other => panic!("unexpected value {:?}", other),
    }
}

#[test]
fn ids_are_stored_by_their_types() {
    let text = |s: &str| Ok(store::Value::String(s.to_owned()));
    assert_eq!(id_value("A", "0xff"), text("0xff"));
    assert_eq!(id_value("D", "x"), text("x"));
    assert_eq!(bytes(id_value("B", "0x00fF")), vec![0x00, 0xff]);
    assert_eq!(bytes(id_value("B", "1a2B")), vec![0x1a, 0x2b]);
    assert_eq!(bytes(id_value("B", "0x0xab")), vec![0xab]);
    assert_eq!(bytes(id_value("B", "0x")), Vec::<u8>::new());
    assert_eq!(
        id_value("B", "0xabc"),
        Err(IdError::Hex(HexError::OddLength))
    );
    assert_eq!(
        id_value("B", "0xab0g"),
        Err(IdError::Hex(HexError::InvalidHexCharacter { c: b'g', index: 3 }))
    );
    assert_eq!(
        id_value("C", "1"),
        Err(IdError::IllegalType(
            "Entity type C uses illegal type Int for id column".to_owned()
        ))
    );
    assert_eq!(
        id_value("Z", "1"),
        Err(IdError::UnknownType(
            "Entity Z[1]: unknown entity type `Z`".to_owned()
        ))
    );
}

#[test]
fn hexadecimal_text_gives_the_bytes_back() {
    let all: Vec<u8> = (0..=255).collect();
    let text: String = all.iter().map(|b| format!("{:02x}", b)).collect();
    assert_eq!(Bytes::from_hex(&text).unwrap().as_slice(), all.as_slice());
    assert_eq!(
        Bytes::from_hex(&format!("0x{}", text)).unwrap().as_slice(),
        all.as_slice()
    );
    assert_eq!(
        Bytes::from_hex("\u{e9}"),
        Err(HexError::InvalidHexCharacter { c: 0xc3, index: 0 })
    );
}

#[test]
fn scalars_are_known() {
    assert_eq!(ValueType::of_scalar("ID"), Some(ValueType::String));
    assert_eq!(ValueType::of_scalar("BigDecimal"), Some(ValueType::BigDecimal));
    assert_eq!(ValueType::of_scalar("Date"), None);
    for name in ["Boolean", "BigInt", "Bytes", "BigDecimal", "Int", "String", "ID"] {
        assert!(ValueType::is_scalar(name));
    }
}

#[test]
fn deployments_have_plain_names() {
    assert!(DeploymentHash::new("QmAbc_09").is_ok());
    assert!(DeploymentHash::new("").is_ok());
    assert_eq!(DeploymentHash::new("subgraphs"), Err("subgraphs".to_owned()));
    assert_eq!(DeploymentHash::new("a-b"), Err("a-b".to_owned()));
    assert!(DeploymentHash::new(&"a".repeat(46)).is_ok());
    assert!(DeploymentHash::new(&"a".repeat(47)).is_err());
}
