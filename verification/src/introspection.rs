//! The types through which a query asks about the schema itself.
use vstd::prelude::*;
use crate::ast::{
    Definition, DefinitionView, Document, Field, FieldView, InputValue, InputValueView, ObjectType,
    ObjectTypeView, Pos, Type, TypeDefinition, TypeDefinitionView, TypeView,
};
use crate::document;
use crate::seqs;
use crate::text::same;

verus! {

broadcast use crate::seqs::lemma_deep_push;

/// The types that describe a schema, in the schema language.
pub const INTROSPECTION_TYPES: &'static str = "type __Schema {
  types: [__Type!]!
  queryType: __Type!
  mutationType: __Type
  subscriptionType: __Type
  directives: [__Directive!]!
}

type __Type {
  kind: __TypeKind!
  name: String
  description: String
  fields(includeDeprecated: Boolean = false): [__Field!]
  interfaces: [__Type!]
  possibleTypes: [__Type!]
  enumValues(includeDeprecated: Boolean = false): [__EnumValue!]
  inputFields: [__InputValue!]
  ofType: __Type
}

type __Field {
  name: String!
  description: String
  args: [__InputValue!]!
  type: __Type!
  isDeprecated: Boolean!
  deprecationReason: String
}

type __InputValue {
  name: String!
  description: String
  type: __Type!
  defaultValue: String
}

type __EnumValue {
  name: String!
  description: String
  isDeprecated: Boolean!
  deprecationReason: String
}

enum __TypeKind {
  SCALAR
  OBJECT
  INTERFACE
  UNION
  ENUM
  INPUT_OBJECT
  LIST
  NON_NULL
}

type __Directive {
  name: String!
  description: String
  locations: [__DirectiveLocation!]!
  args: [__InputValue!]!
}

enum __DirectiveLocation {
  QUERY
  MUTATION
  SUBSCRIPTION
  FIELD
  FRAGMENT_DEFINITION
  FRAGMENT_SPREAD
  INLINE_FRAGMENT
  SCHEMA
  SCALAR
  OBJECT
  FIELD_DEFINITION
  ARGUMENT_DEFINITION
  INTERFACE
  UNION
  ENUM
  ENUM_VALUE
  INPUT_OBJECT
  INPUT_FIELD_DEFINITION
}
";

/// The argument `name: String!`.
pub open spec fn name_argument() -> InputValueView {
    InputValueView {
        position: Pos::nowhere(),
        description: None,
        name: "name"@,
        value_type: TypeView::NonNullType(Box::new(TypeView::NamedType("String"@))),
        default_value: None,
        directives: Seq::empty(),
    }
}

/// The field `__schema: __Schema!`.
pub open spec fn schema_field() -> FieldView {
    FieldView {
        position: Pos::nowhere(),
        description: None,
        name: "__schema"@,
        arguments: Seq::empty(),
        field_type: TypeView::NonNullType(Box::new(TypeView::NamedType("__Schema"@))),
        directives: Seq::empty(),
        text: "__schema: __Schema!\n"@,
    }
}

/// The field `__type(name: String!): __Type`.
pub open spec fn type_field() -> FieldView {
    FieldView {
        position: Pos::nowhere(),
        description: None,
        name: "__type"@,
        arguments: seq![name_argument()],
        field_type: TypeView::NamedType("__Type"@),
        directives: Seq::empty(),
        text: "__type(name: String!): __Type\n"@,
    }
}

/// The object type that a definition defines, if it is `Query`.
pub open spec fn pick_query() -> spec_fn(DefinitionView) -> Option<ObjectTypeView> {
    document::object_defined("Query"@)
}

/// Whether the definition at `i` is the first of `Query`.
pub open spec fn is_first_query(defs: Seq<DefinitionView>, i: int) -> bool {
    &&& 0 <= i < defs.len()
    &&& pick_query()(defs[i]) is Some
    &&& forall|j: int| 0 <= j < i ==> (#[trigger] pick_query()(defs[j])) is None
}

/// An object type with the fields through which a query asks about the schema.
pub open spec fn with_introspection_fields(t: ObjectTypeView) -> ObjectTypeView {
    ObjectTypeView { fields: t.fields.push(schema_field()).push(type_field()), ..t }
}

/// Whether `after` is a document with the types that describe a schema behind its
/// own, in which the first `Query` has the fields that ask about the schema.
pub open spec fn has_introspection(
    after: Seq<DefinitionView>,
    doc: Seq<DefinitionView>,
    introspection: Seq<DefinitionView>,
) -> bool {
    let defs = doc + introspection;
    exists|i: int| #[trigger]
        is_first_query(defs, i) && after == defs.update(
            i,
            DefinitionView::TypeDefinition(
                TypeDefinitionView::Object(
                    with_introspection_fields(pick_query()(defs[i])->0),
                ),
            ),
        )
}

/// The field `__schema: __Schema!`.
fn make_schema_field() -> (r: Field)
    ensures
        r@ == schema_field(),
{
    let named = Type::NamedType("__Schema".to_owned());
    assert(named@ == TypeView::NamedType("__Schema"@));
    let r = Field {
        position: Pos::default(),
        description: None,
        name: "__schema".to_owned(),
        arguments: Vec::new(),
        field_type: Type::NonNullType(Box::new(named)),
        directives: Vec::new(),
        text: "__schema: __Schema!\n".to_owned(),
    };
    assert(r@ =~= schema_field());
    r
}

/// The field `__type(name: String!): __Type`.
fn make_type_field() -> (r: Field)
    ensures
        r@ == type_field(),
{
    let named = Type::NamedType("String".to_owned());
    assert(named@ == TypeView::NamedType("String"@));
    let name = InputValue {
        position: Pos::default(),
        description: None,
        name: "name".to_owned(),
        value_type: Type::NonNullType(Box::new(named)),
        default_value: None,
        directives: Vec::new(),
    };
    assert(name@ =~= name_argument());
    let mut arguments: Vec<InputValue> = Vec::new();
    arguments.push(name);
    let r = Field {
        position: Pos::default(),
        description: None,
        name: "__type".to_owned(),
        arguments,
        field_type: Type::NamedType("__Type".to_owned()),
        directives: Vec::new(),
        text: "__type(name: String!): __Type\n".to_owned(),
    };
    assert(r@ =~= type_field());
    r
}

/// Puts the fields that ask about the schema behind those of an object type.
fn push_introspection_fields(t: &mut ObjectType)
    ensures
        final(t)@ == with_introspection_fields(old(t)@),
{
    t.fields.push(make_schema_field());
    t.fields.push(make_type_field());
    assert(t@ =~= with_introspection_fields(old(t)@));
}

/// Mixes the types that describe a schema into a document.
pub fn add_introspection_schema(doc: &mut Document, introspection: &Document)
    requires
        document::object_type(old(doc)@ + introspection@, "Query"@) is Some,
    ensures
        has_introspection(final(doc)@, old(doc)@, introspection@),
{
    let ghost before = doc@;
    let ghost defs = doc@ + introspection@;
    let ghost f = pick_query();
    let mut k: usize = 0;
    assert(before + introspection@.take(0) =~= before);
    while k < introspection.definitions.len()
        invariant
            k <= introspection.definitions@.len(),
            doc@ == before + introspection@.take(k as int),
        decreases introspection.definitions@.len() - k,
    {
        doc.definitions.push(introspection.definitions[k].clone());
        assert(doc@ =~= before + introspection@.take(k + 1));
        k += 1;
    }
    assert(doc@ =~= defs);
    proof {
        document::lemma_object_defined(defs, "Query"@);
    }
    let mut i: usize = 0;
    while i < doc.definitions.len()
        invariant
            i <= doc.definitions@.len(),
            doc@ == defs,
            f == pick_query(),
            defs == before + introspection@,
            before == old(doc)@,
            seqs::find_map(defs, f) is Some,
            seqs::find_map(defs.take(i as int), f) is None,
            forall|j: int| 0 <= j < i ==> (#[trigger] f(defs[j])) is None,
        decreases doc.definitions@.len() - i,
    {
        proof {
            seqs::lemma_find_map_step(defs, f, i as int);
            assert(defs[i as int] == doc.definitions@[i as int]@);
        }
        let found: bool = match &doc.definitions[i] {
            Definition::TypeDefinition(TypeDefinition::Object(t)) => same(t.name.as_str(), "Query"),
            _ => false,
        };
        if found {
            if let Definition::TypeDefinition(TypeDefinition::Object(t)) = &mut doc.definitions[i] {
                push_introspection_fields(t);
            }
            proof {
                assert(is_first_query(defs, i as int));
                assert(doc@ =~= defs.update(
                    i as int,
                    DefinitionView::TypeDefinition(
                        TypeDefinitionView::Object(
                            with_introspection_fields(f(defs[i as int])->0),
                        ),
                    ),
                ));
            }
            return;
        }
        i += 1;
    }
    proof {
        seqs::lemma_take_all(defs);
    }
}

} // verus!
