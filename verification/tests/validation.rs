use graph_schema::errors::SchemaValidationError as E;
use graph_schema::errors::{SchemaValidationError, Strings};
use graph_schema::ids::DeploymentHash;
use graph_schema::schema::Schema;

fn schema(raw: &str) -> Schema {
    Schema::parse(raw, DeploymentHash::new("dummy").unwrap()).unwrap()
}

fn errors(raw: &str) -> Vec<SchemaValidationError> {
    schema(raw).validate().unwrap_err()
}

fn fulltext(arguments: &str) -> Vec<SchemaValidationError> {
    let raw = format!(
        "type _Schema_ @fulltext({})
         type Gravatar @entity {{ id: ID! owner: Bytes! displayName: String! tags: [String!]! }}",
        arguments
    );
    schema(&raw).validate_fulltext_directives()
}

const NAME: &str = "name: \"search\"";
const LANGUAGE: &str = "language: en";
const ALGORITHM: &str = "algorithm: rank";
const INCLUDE: &str = "include: [{ entity: \"Gravatar\", fields: [{ name: \"displayName\" }] }]";

fn with_objects(objects: &str) -> Vec<SchemaValidationError> {
    fulltext(&format!("{} {} {} {}", NAME, LANGUAGE, ALGORITHM, objects))
}

#[test]
fn a_valid_schema_has_no_errors() {
    let valid = schema(
        "type _Schema_ @fulltext(name: \"search\", language: en, algorithm: proximityRank,
                                 include: [{ entity: \"User\", fields: [{ name: \"nick\" }] }])
         enum Color { RED }
         interface Named { nick: String }
         type User implements Named @entity { id: ID! nick: String color: Color posts: [Post!]! @derivedFrom(field: \"author\") }
         type Post @entity { id: Bytes! author: User! size: BigInt score: BigDecimal n: Int ok: Boolean }",
    );
    assert_eq!(valid.validate(), Ok(()));
}

#[test]
fn the_empty_schema_is_valid() {
    assert_eq!(schema("scalar Date").validate(), Ok(()));
}

#[test]
fn entity_directives_are_required() {
    assert_eq!(
        errors("type A { id: ID! } type B @entity { id: ID! } type C { id: ID! }"),
        vec![SchemaValidationError::EntityDirectivesMissing(Strings(vec![
            "A".to_owned(),
            "C".to_owned()
        ]))]
    );
}

#[test]
fn field_types_must_be_known() {
    assert_eq!(
        errors("type A @entity { id: ID! b: [Missing!]! } interface I { c: Other d: A }"),
        vec![
            SchemaValidationError::FieldTypeUnknown(
                "A".to_owned(),
                "b".to_owned(),
                "Missing".to_owned()
            ),
            SchemaValidationError::FieldTypeUnknown(
                "I".to_owned(),
                "c".to_owned(),
                "Other".to_owned()
            ),
        ]
    );
}

#[test]
fn of_types_with_one_name_the_last_counts() {
    assert_eq!(
        schema("type A @entity { x: Missing } type A @entity { y: Int }").validate_fields(),
        vec![]
    );
}

#[test]
fn scalars_and_unions_are_no_field_types() {
    assert_eq!(
        errors("scalar Date union U = A type A @entity { d: Date u: U }").len(),
        2
    );
}

#[test]
fn errors_come_in_the_order_of_the_checks() {
    let found = errors(
        "type _Schema_ @other { x: Missing }
         interface I { y: Int }
         type A implements I { id: ID! y: Int b: Int @derivedFrom }
         type B implements I @entity { id: Bytes! y: Int }
         type A_filter @entity { id: ID! }",
    );
    let messages: Vec<String> = found.iter().map(|e| e.message()).collect();
    assert_eq!(
        messages,
        vec![
            "@entity directive missing on the following types: `A`",
            "Field `b` in type `A` has invalid @derivedFrom: the @derivedFrom directive must have a `field` argument",
            "_Schema_ type is only for @fulltext and must not have any fields",
            "The _Schema_ type only allows @fulltext directives",
            "The following type names are reserved: `A_filter`",
            "Implementors of interface `I` use different id types `String, Bytes`. They must all use the same type",
            "Type `_Schema_`, field `x`: type `Missing` is not defined",
        ]
    );
}

#[test]
fn reserved_names_come_in_order() {
    let found = errors(
        "enum String { A } type Query @entity { id: ID! }
         interface I { x: Int } union I_orderBy = A input A_filter { x: Int }
         type A @entity { id: ID! } scalar Bytes",
    );
    assert_eq!(
        found,
        vec![SchemaValidationError::UsageOfReservedTypes(Strings(vec![
            "String".to_owned(),
            "Bytes".to_owned(),
            "Query".to_owned(),
            "A_filter".to_owned(),
            "I_orderBy".to_owned(),
        ]))]
    );
}

#[test]
fn ids_are_compared_per_interface() {
    let found = errors(
        "interface Z { x: Int } interface B { x: Int } interface C { x: Int }
         type P implements Z & B @entity { id: ID! x: Int }
         type Q implements Z & B @entity { id: Int! x: Int }
         type R implements C @entity { id: Bytes! x: Int }
         type S implements B @entity { x: Int }",
    );
    assert_eq!(
        found,
        vec![SchemaValidationError::InterfaceImplementorsMixId(
            "B".to_owned(),
            "String, Int".to_owned()
        )]
    );
}

#[test]
fn derived_fields_may_point_to_interfaces() {
    let found = schema(
        "interface Owner { things: [Thing!]! @derivedFrom(field: \"owner\") }
         interface Other { other: Int }
         type User implements Owner & Other @entity { id: ID! other: Int things: [Thing!]! @derivedFrom(field: \"owner\") }
         type Thing @entity { id: ID! owner: Int }",
    )
    .validate_derived_from()
    .unwrap_err();
    assert_eq!(
        found,
        SchemaValidationError::InvalidDerivedFrom(
            "User".to_owned(),
            "things".to_owned(),
            "field `owner` on type `Thing` must have one of the following types: \
             User, User!, [User!], [User!]!, Owner, Owner!, [Owner!], [Owner!]!"
                .to_owned()
        )
    );
}

#[test]
fn fulltext_arguments_are_checked() {
    let rest = format!("{} {} {}", LANGUAGE, ALGORITHM, INCLUDE);
    assert_eq!(fulltext(&format!("{} {}", NAME, rest)), vec![]);
    assert_eq!(
        fulltext(&rest),
        vec![SchemaValidationError::FulltextNameUndefined]
    );
    assert_eq!(
        fulltext(&format!("name: 1 {}", rest)),
        vec![SchemaValidationError::FulltextNameUndefined]
    );
    assert_eq!(
        fulltext(&format!("{} {} {}", NAME, ALGORITHM, INCLUDE)),
        vec![SchemaValidationError::FulltextLanguageUndefined]
    );
    assert_eq!(
        fulltext(&format!("{} language: xx {} {}", NAME, ALGORITHM, INCLUDE)),
        vec![SchemaValidationError::FulltextLanguageInvalid("xx".to_owned())]
    );
    assert_eq!(
        fulltext(&format!("{} {} {}", NAME, LANGUAGE, INCLUDE)),
        vec![SchemaValidationError::FulltextAlgorithmUndefined]
    );
    assert_eq!(
        fulltext(&format!("{} {} algorithm: best {}", NAME, LANGUAGE, INCLUDE)),
        vec![SchemaValidationError::FulltextAlgorithmInvalid("best".to_owned())]
    );
    assert_eq!(
        fulltext("x: 1"),
        vec![
            SchemaValidationError::FulltextNameUndefined,
            SchemaValidationError::FulltextLanguageUndefined,
            SchemaValidationError::FulltextAlgorithmUndefined,
            SchemaValidationError::FulltextIncludeUndefined,
        ]
    );
}

#[test]
fn fulltext_includes_are_checked() {
    assert_eq!(
        with_objects("include: []"),
        vec![SchemaValidationError::FulltextIncludeUndefined]
    );
    assert_eq!(
        with_objects("include: [1]"),
        vec![SchemaValidationError::FulltextIncludeObjectMissing]
    );
    assert_eq!(
        with_objects("include: [{ entity: Gravatar, fields: [] }]"),
        vec![SchemaValidationError::FulltextIncludeEntityMissingOrIncorrectAttributes]
    );
    assert_eq!(
        with_objects("include: [{ entity: \"Gravatar\", fields: 1 }]"),
        vec![SchemaValidationError::FulltextIncludeEntityMissingOrIncorrectAttributes]
    );
    assert_eq!(
        with_objects("include: [{ entity: \"Nobody\", fields: [] }]"),
        vec![SchemaValidationError::FulltextIncludedEntityNotFound]
    );
    assert_eq!(
        with_objects("include: [{ entity: \"Gravatar\", fields: [1] }]"),
        vec![SchemaValidationError::FulltextIncludeEntityMissingOrIncorrectAttributes]
    );
    assert_eq!(
        with_objects("include: [{ entity: \"Gravatar\", fields: [{ x: 1 }] }]"),
        vec![SchemaValidationError::FulltextIncludedFieldMissingRequiredProperty]
    );
    assert_eq!(
        with_objects("include: [{ entity: \"Gravatar\", fields: [{ name: \"id\" }, { name: \"owner\" }] }]"),
        vec![SchemaValidationError::FulltextIncludedFieldInvalid("owner".to_owned())]
    );
    assert_eq!(
        with_objects("include: [{ entity: \"Gravatar\", fields: [{ name: \"tags\" }] }]"),
        vec![]
    );
}

#[test]
fn fulltext_names_must_not_be_taken() {
    fn name_errors(name: &str, field: &str) -> Vec<SchemaValidationError> {
        let raw = format!(
            "type _Schema_ @fulltext(name: \"{}\", language: en, algorithm: rank,
                                     include: [{{ entity: \"A\", fields: [{{ name: \"text\" }}] }}])
             type A @entity {{ id: ID! text: String {}: Int }}",
            name, field
        );
        schema(&raw).validate_fulltext_directives()
    }
    let taken = |name: &str| vec![SchemaValidationError::FulltextNameCollision(name.to_owned())];
    assert_eq!(name_errors("search", "other_name"), vec![]);
    assert_eq!(name_errors("other_name", "other_name"), taken("other_name"));
    assert_eq!(name_errors("otherName", "other_name"), taken("otherName"));
    assert_eq!(name_errors("otherNames", "other_name"), taken("otherNames"));
    assert_eq!(name_errors("boxes", "box"), taken("boxes"));
    assert_eq!(name_errors("other_names", "other_name"), vec![]);
}

#[test]
fn fulltext_names_must_be_distinct() {
    let one = "@fulltext(name: \"twice\", language: en, algorithm: rank,
                         include: [{ entity: \"A\", fields: [{ name: \"text\" }] }])";
    let raw = format!(
        "type _Schema_ {} {} type A @entity {{ id: ID! text: String }}",
        one, one
    );
    assert_eq!(
        schema(&raw).validate_fulltext_directives(),
        vec![
            SchemaValidationError::FulltextNameConflict("twice".to_owned()),
            SchemaValidationError::FulltextNameConflict("twice".to_owned()),
        ]
    );
}

#[test]
fn names_that_queries_know_decide_about_searches() {
    let schema = schema(
        "type _Schema_ @fulltext(name: \"search\", language: en, algorithm: rank,
                                 include: [{ entity: \"A\", fields: [{ name: \"text\" }] }])
         type A @entity { id: ID! text: String }",
    );
    assert_eq!(schema.validate_against(&vec!["text".to_owned()]), Ok(()));
    assert_eq!(
        schema.validate_against(&vec!["search".to_owned()]),
        Err(vec![SchemaValidationError::FulltextNameCollision(
            "search".to_owned()
        )])
    );
    let directive = &schema.subgraph_schema_object_type().unwrap().directives[0];
    assert_eq!(schema.validate_fulltext_directive_name(directive), vec![]);
    assert_eq!(schema.validate_fulltext_directive_language(directive), vec![]);
    assert_eq!(schema.validate_fulltext_directive_algorithm(directive), vec![]);
    assert_eq!(schema.validate_fulltext_directive_includes(directive), vec![]);
}

#[test]
fn errors_are_told_to_the_user() {
    let s = |x: &str| x.to_owned();
    let cases = vec![
        (E::InterfaceUndefined(s("I")), "Interface `I` not defined"),
        (
            E::EntityDirectivesMissing(Strings(vec![s("A"), s("B")])),
            "@entity directive missing on the following types: `A, B`",
        ),
        (
            E::InterfaceFieldsMissing(s("A"), s("I"), Strings(vec![s("x: Int")])),
            "Entity type `A` does not satisfy interface `I` because it is missing the following fields: x: Int",
        ),
        (
            E::InvalidDerivedFrom(s("A"), s("f"), s("why")),
            "Field `f` in type `A` has invalid @derivedFrom: why",
        ),
        (
            E::UsageOfReservedTypes(Strings(vec![])),
            "The following type names are reserved: ``",
        ),
        (
            E::ImportedTypeUndefined(s("A"), s("S")),
            "Imported type `A` does not exist in the `S` schema",
        ),
        (E::FulltextNameUndefined, "Fulltext directive name undefined"),
        (
            E::FulltextNameConflict(s("n")),
            "Fulltext directive name overlaps with type: n",
        ),
        (
            E::FulltextNameCollision(s("n")),
            "Fulltext directive name overlaps with an existing entity field or a top-level query field: n",
        ),
        (E::FulltextLanguageUndefined, "Fulltext language is undefined"),
        (E::FulltextLanguageInvalid(s("x")), "Fulltext language is invalid: x"),
        (E::FulltextAlgorithmUndefined, "Fulltext algorithm is undefined"),
        (E::FulltextAlgorithmInvalid(s("x")), "Fulltext algorithm is invalid: x"),
        (E::FulltextIncludeInvalid, "Fulltext include is invalid"),
        (
            E::FulltextIncludeUndefined,
            "Fulltext directive requires an 'include' list",
        ),
        (
            E::FulltextIncludeObjectMissing,
            "Fulltext 'include' list must contain an object",
        ),
        (
            E::FulltextIncludeEntityMissingOrIncorrectAttributes,
            "Fulltext 'include' object must contain 'entity' (String) and 'fields' (List) attributes",
        ),
        (
            E::FulltextIncludedEntityNotFound,
            "Fulltext directive includes an entity not found on the subgraph schema",
        ),
        (
            E::FulltextIncludedFieldMissingRequiredProperty,
            "Fulltext include field must have a 'name' attribute",
        ),
        (
            E::FulltextIncludedFieldInvalid(s("f")),
            "Fulltext entity field, f, not found or not a string",
        ),
    ];
    for (error, message) in cases {
        assert_eq!(error.message(), message);
    }
    assert_eq!(Strings(vec![s("a"), s("b"), s("c")]).clone().text(), "a, b, c");
}

#[test]
fn fulltext_names_must_not_be_those_of_generated_query_fields() {
    fn name_errors(name: &str) -> Vec<SchemaValidationError> {
        let raw = format!(
            "type _Schema_ @fulltext(name: \"{}\")
             type Gravatar @entity {{ id: ID! displayName: String! }}
             type UserBox @entity {{ id: ID! }}",
            name
        );
        let schema = schema(&raw);
        let directive = &schema.subgraph_schema_object_type().unwrap().directives[0];
        schema.validate_fulltext_directive_name(directive)
    }
    for name in ["gravatar", "gravatars", "userBox", "userBoxes", "displayNames", "id"] {
        assert_eq!(
            name_errors(name),
            vec![SchemaValidationError::FulltextNameCollision(name.to_owned())]
        );
    }
    for name in ["Gravatar", "gravatarSearch", "schema", "schemas", "_Schema_"] {
        assert_eq!(name_errors(name), vec![]);
    }
}

#[test]
fn fulltext_names_can_be_checked_without_a_schema_type() {
    let with = schema("type _Schema_ @fulltext(name: \"as\")");
    let directive = &with.subgraph_schema_object_type().unwrap().directives[0];
    assert_eq!(
        schema("type A @entity { as: Int }").validate_fulltext_directive_name(directive),
        vec![SchemaValidationError::FulltextNameCollision("as".to_owned())]
    );
}
