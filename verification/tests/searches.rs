use graph_schema::document::NonDeterministicFulltext;
use graph_schema::fulltext::{
    defines_search, has_defined_searches, FulltextAlgorithm, FulltextDefinition, FulltextLanguage,
};
use graph_schema::names::NameSet;
use graph_schema::parser::parse_schema;
use graph_schema::ids::DeploymentHash;
use graph_schema::schema::Schema;

const CODES: [&str; 16] = [
    "simple", "da", "nl", "en", "fi", "fr", "de", "hu", "it", "no", "pt", "ro", "ru", "es", "sv",
    "tr",
];

#[test]
fn languages_have_codes_and_names_in_sql() {
    let languages: Vec<FulltextLanguage> = CODES
        .iter()
        .map(|code| FulltextLanguage::try_from(*code).unwrap())
        .collect();
    let sql: Vec<&str> = languages.iter().map(|l| l.as_sql()).collect();
    assert_eq!(
        sql,
        vec![
            "'simple'", "'danish'", "'dutch'", "'english'", "'finnish'", "'french'", "'german'",
            "'hungarian'", "'italian'", "'norwegian'", "'portugese'", "'romanian'", "'russian'",
            "'spanish'", "'swedish'", "'turkish'",
        ]
    );
    for i in 0..sql.len() {
        for j in 0..i {
            assert_ne!(sql[i], sql[j]);
        }
        let inner = &sql[i][1..sql[i].len() - 1];
        assert!(inner.bytes().all(|b| b.is_ascii_lowercase()));
    }
}

#[test]
fn other_languages_are_refused() {
    assert_eq!(
        FulltextLanguage::try_from("xx"),
        Err("Provided language for fulltext search is invalid: xx".to_owned())
    );
    assert!(FulltextLanguage::try_from("EN").is_err());
}

#[test]
fn algorithms_have_names() {
    assert_eq!(FulltextAlgorithm::try_from("rank"), Ok(FulltextAlgorithm::Rank));
    assert_eq!(
        FulltextAlgorithm::try_from("proximityRank"),
        Ok(FulltextAlgorithm::ProximityRank)
    );
    assert_eq!(
        FulltextAlgorithm::try_from("x"),
        Err("The provided fulltext search algorithm x is invalid. It must be one of: rank, proximityRank".to_owned())
    );
}

fn schema() -> Schema {
    Schema::parse(
        "type _Schema_
           @fulltext(name: \"one\", language: de, algorithm: proximityRank,
                     include: [{ entity: \"A\", fields: [{ name: \"x\" }, { name: \"y\" }, { name: \"x\" }] }])
           @fulltext(name: \"two\", language: simple, algorithm: rank,
                     include: [{ entity: \"B\", fields: [{ name: \"z\" }] }])
         type A @entity { id: ID! x: String y: String }
         type B @entity { id: ID! z: String }",
        DeploymentHash::new("x").unwrap(),
    )
    .unwrap()
}

#[test]
fn valid_directives_define_searches() {
    let schema = schema();
    assert_eq!(schema.validate(), Ok(()));
    let found = Schema::entity_fulltext_definitions("A", &schema.document, true).unwrap();
    assert_eq!(found.len(), 1);
    assert_eq!(found[0].name, "one");
    assert_eq!(found[0].config.language, FulltextLanguage::German);
    assert_eq!(found[0].config.algorithm, FulltextAlgorithm::ProximityRank);
    assert_eq!(found[0].included_fields.len(), 2);
    assert!(found[0].included_fields.contains("x"));
    assert!(found[0].included_fields.contains("y"));
    assert!(!found[0].included_fields.contains("z"));
    let found = Schema::entity_fulltext_definitions("B", &schema.document, true).unwrap();
    assert_eq!(found.len(), 1);
    assert_eq!(found[0].name, "two");
    let found = Schema::entity_fulltext_definitions("C", &schema.document, true).unwrap();
    assert!(found.is_empty());
}

#[test]
fn searches_may_be_forbidden() {
    let schema = schema();
    assert!(matches!(
        Schema::entity_fulltext_definitions("A", &schema.document, false),
        Err(NonDeterministicFulltext)
    ));
    let plain = Schema::parse(
        "type A @entity { id: ID! }",
        DeploymentHash::new("x").unwrap(),
    )
    .unwrap();
    let found = Schema::entity_fulltext_definitions("A", &plain.document, false).unwrap();
    assert!(found.is_empty());
}

#[test]
fn a_directive_gives_one_definition() {
    let schema = schema();
    let directives = &schema.subgraph_schema_object_type().unwrap().directives;
    let definition = FulltextDefinition::from(&directives[1]);
    assert_eq!(definition.name, "two");
    assert_eq!(definition.config.language, FulltextLanguage::Simple);
    assert!(definition.included_fields.contains("z"));
}

#[test]
fn directives_that_define_no_search_are_told_apart() {
    fn defines(arguments: &str) -> bool {
        let raw = format!("type _Schema_ @fulltext({})", arguments);
        let doc = parse_schema(&raw).unwrap();
        let schema_type = doc.get_object_type_definition("_Schema_").unwrap();
        let defines = defines_search(&schema_type.directives[0]);
        assert_eq!(has_defined_searches(&doc, "A"), defines || !arguments.contains("\"A\""));
        defines
    }
    let object = "{ entity: \"A\", fields: [{ name: \"x\" }] }";
    let rest = "language: en algorithm: rank";
    assert!(defines(&format!("name: \"a\" {} include: [{}]", rest, object)));
    assert!(!defines(&format!("{} include: [{}]", rest, object)));
    assert!(!defines(&format!("name: \"a\" language: xx algorithm: rank include: [{}]", object)));
    assert!(!defines(&format!("name: \"a\" language: en algorithm: x include: [{}]", object)));
    assert!(!defines(&format!("name: \"a\" {} include: []", rest)));
    assert!(!defines(&format!("name: \"a\" {} include: [{{ entity: \"A\" }}]", rest)));
    assert!(!defines(&format!(
        "name: \"a\" {} include: [{{ entity: \"A\", fields: [{{ name: 1 }}] }}]",
        rest
    )));
}

#[test]
fn sets_of_names_are_equal_in_any_order() {
    let set = |names: &[&str]| {
        names
            .iter()
            .fold(NameSet::new(), |set, name| set.with(name.to_string()))
    };
    assert_eq!(set(&["a", "b"]), set(&["b", "a", "b"]));
    assert_ne!(set(&["a", "b"]), set(&["a"]));
    assert_ne!(set(&["a"]), set(&["a", "b"]));
    assert_eq!(set(&[]), NameSet::new());
    assert_eq!(set(&["a", "b", "a"]).len(), 2);
}
