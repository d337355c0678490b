//! What holds of the schema of an API.
use vstd::prelude::*;
use crate::api_schema;
use crate::api_schema::{ApiSchema, ApiSchemaView};
use crate::ast::{DefinitionView, ObjectTypeView, Pos, TypeDefinitionView, TypeView};
use crate::document;
use crate::document::{
    BLOCK_FIELD_TYPE, META_FIELD_NAME, META_FIELD_TYPE, ObjectOrInterfaceView,
};
use crate::document_laws;
use crate::introspection;
use crate::schema::Schema;
use crate::seqs;

verus! {

/// Where `Query` stands, and what comes of it.
proof fn lemma_place(
    after: Seq<DefinitionView>,
    doc: Seq<DefinitionView>,
    introspection: Seq<DefinitionView>,
) -> (i: int)
    requires
        introspection::has_introspection(after, doc, introspection),
    ensures
        introspection::is_first_query(doc + introspection, i),
        after == (doc + introspection).update(
            i,
            DefinitionView::TypeDefinition(
                TypeDefinitionView::Object(
                    introspection::with_introspection_fields(
                        introspection::pick_query()((doc + introspection)[i])->0,
                    ),
                ),
            ),
        ),
{
    choose|i: int| #[trigger]
        introspection::is_first_query(doc + introspection, i) && after == (doc
            + introspection).update(
            i,
            DefinitionView::TypeDefinition(
                TypeDefinitionView::Object(
                    introspection::with_introspection_fields(
                        introspection::pick_query()((doc + introspection)[i])->0,
                    ),
                ),
            ),
        )
}

/// The document of an API schema is determined by that of the schema and by the
/// types that are mixed in.
pub proof fn law_document_is_determined(
    a: Seq<DefinitionView>,
    b: Seq<DefinitionView>,
    doc: Seq<DefinitionView>,
    introspection: Seq<DefinitionView>,
)
    requires
        introspection::has_introspection(a, doc, introspection),
        introspection::has_introspection(b, doc, introspection),
    ensures
        a == b,
{
    let f = introspection::pick_query();
    let defs = doc + introspection;
    let i = lemma_place(a, doc, introspection);
    let j = lemma_place(b, doc, introspection);
    if i < j {
        assert(f(defs[i]) is None);
    }
    if j < i {
        assert(f(defs[j]) is None);
    }
}

/// The root query type of an API schema is that of the schema with the fields
/// `__schema` and `__type` behind its own.
pub proof fn law_query_asks_about_the_schema(
    api: ApiSchema,
    schema: Schema,
    introspection: Seq<DefinitionView>,
)
    requires
        api.is_for(schema, introspection),
    ensures
        document::object_type(schema.document@ + introspection, "Query"@) matches Some(t)
            && api@.query_type == introspection::with_introspection_fields(t),
        document::field(api@.query_type.fields, "__schema"@) is Some,
        document::field(api@.query_type.fields, "__type"@) is Some,
{
    let f = introspection::pick_query();
    let defs = schema.document@ + introspection;
    let after = api@.schema.document@;
    let i = lemma_place(after, schema.document@, introspection);
    document::lemma_object_defined(defs, "Query"@);
    document::lemma_object_defined(after, "Query"@);
    seqs::lemma_find_map_at(defs, f, i);
    assert forall|j: int| 0 <= j < i implies (#[trigger] f(after[j])) is None by {
        assert(f(defs[j]) is None);
    }
    seqs::lemma_find_map_at(after, f, i);
    let t = f(defs[i])->0;
    let fields = api@.query_type.fields;
    assert(api@.query_type == introspection::with_introspection_fields(t));
    assert(fields[fields.len() - 1] == introspection::type_field());
    assert(fields[fields.len() - 2] == introspection::schema_field());
    let p = document::field_named("__schema"@);
    let q = document::field_named("__type"@);
    seqs::lemma_find_map_some(fields, p);
    seqs::lemma_find_map_some(fields, q);
    assert(p(fields[fields.len() - 2]) is Some);
    assert(q(fields[fields.len() - 1]) is Some);
}

/// All types but `Query` stay as they are, and the types that are mixed in come
/// behind those of the schema.
pub proof fn law_other_types_stay(
    after: Seq<DefinitionView>,
    doc: Seq<DefinitionView>,
    introspection: Seq<DefinitionView>,
    name: Seq<char>,
)
    requires
        introspection::has_introspection(after, doc, introspection),
        name != "Query"@,
    ensures
        document::named_type(after, name) == document::named_type(doc + introspection, name),
        document::object_type(after, name) == document::object_type(doc + introspection, name),
        document::interface_type(after, name) == document::interface_type(
            doc + introspection,
            name,
        ),
{
    let defs = doc + introspection;
    let i = lemma_place(after, doc, introspection);
    document::lemma_object_defined(defs, name);
    document::lemma_object_defined(after, name);
    seqs::lemma_find_map_same(
        defs,
        after,
        document::object_defined(name),
        document::object_defined(name),
    );
    seqs::lemma_find_map_same(
        defs,
        after,
        document::interface_named(name),
        document::interface_named(name),
    );
    seqs::lemma_find_map_same(
        defs,
        after,
        document::type_named(name),
        document::type_named(name),
    );
}

/// A type of the schema is found under its name as it was before the others were
/// mixed in.
pub proof fn law_types_of_the_schema_come_first(
    after: Seq<DefinitionView>,
    doc: Seq<DefinitionView>,
    introspection: Seq<DefinitionView>,
    name: Seq<char>,
)
    requires
        introspection::has_introspection(after, doc, introspection),
        name != "Query"@,
        document::named_type(doc, name) is Some,
    ensures
        document::named_type(after, name) == document::named_type(doc, name),
{
    let defs = doc + introspection;
    law_other_types_stay(after, doc, introspection, name);
    assert(defs.take(doc.len() as int) =~= doc);
    seqs::lemma_find_map_prefix(defs, document::type_named(name), doc.len() as int);
}

/// The definition of the root query type is that of the root query type.
pub proof fn law_root_query_definition(doc: Seq<DefinitionView>)
    ensures
        seqs::find_map(doc, api_schema::query_definition()) == seqs::mapped(
            document::object_type(doc, "Query"@),
            |t: ObjectTypeView| TypeDefinitionView::Object(t),
        ),
{
    document::lemma_object_defined(doc, "Query"@);
    seqs::lemma_find_map_mapped(
        doc,
        doc,
        introspection::pick_query(),
        api_schema::query_definition(),
        |t: ObjectTypeView| TypeDefinitionView::Object(t),
    );
}

/// Lists and non-null marks change nothing of whether a type is one that
/// arguments can have.
pub proof fn law_input_types_may_be_wrapped(doc: Seq<DefinitionView>, t: TypeView)
    ensures
        api_schema::is_input_type(doc, TypeView::ListType(Box::new(t)))
            == api_schema::is_input_type(doc, t),
        api_schema::is_input_type(doc, TypeView::NonNullType(Box::new(t)))
            == api_schema::is_input_type(doc, t),
{
}

/// Lists and non-null marks change nothing of which definition a type has.
pub proof fn law_definitions_may_be_wrapped(doc: Seq<DefinitionView>, t: TypeView)
    ensures
        document::named_type(doc, TypeView::ListType(Box::new(t)).base()) == document::named_type(
            doc,
            t.base(),
        ),
        document::named_type(doc, TypeView::NonNullType(Box::new(t)).base())
            == document::named_type(doc, t.base()),
{
}

/// Each object type of a document is held ready under its name; where no other
/// has the name, it is the type itself.
pub proof fn law_object_types_are_held(objects: Seq<ObjectTypeView>, i: int)
    requires
        0 <= i < objects.len(),
    ensures
        api_schema::last_named(objects, objects[i].name) is Some,
        (forall|j: int| 0 <= j < objects.len() && j != i ==> #[trigger] objects[j].name
            != objects[i].name) ==> api_schema::last_named(objects, objects[i].name) == Some(
            objects[i],
        ),
    decreases objects.len(),
{
    let front = objects.drop_last();
    if i < front.len() {
        law_object_types_are_held(front, i);
        if forall|j: int| 0 <= j < objects.len() && j != i ==> #[trigger] objects[j].name
            != objects[i].name {
            assert forall|j: int| 0 <= j < front.len() && j != i implies #[trigger] front[j].name
                != front[i].name by {
                assert(objects[j].name != objects[i].name);
            }
            assert(objects[objects.len() - 1].name != objects[i].name);
        }
    }
}

/// A name that does not have two underscores as its first two characters is looked
/// up in the document of the schema: the object type or interface that is found is
/// the first type with the name there, and none is found where that is another kind
/// of type or where there is none.
pub proof fn law_names_of_the_schema(api: ApiSchemaView, name: Seq<char>, i: int)
    requires
        name.len() < 2 || name[0] != '_' || name[1] != '_',
    ensures
        ({
            let doc = api.schema.document@;
            let found = api_schema::looked_up(api, name);
            &&& found == document::object_or_interface(doc, name)
            &&& (forall|j: int| 0 <= j < doc.len() ==> !document_laws::defines_type(
                #[trigger] doc[j],
                name,
            )) ==> found is None
            &&& 0 <= i < doc.len() && document_laws::defines_type(doc[i], name) && (forall|j: int|
                0 <= j < i ==> !document_laws::defines_type(#[trigger] doc[j], name)) ==> found
                == match doc[i] {
                DefinitionView::TypeDefinition(TypeDefinitionView::Object(t)) => Some(
                    ObjectOrInterfaceView::Object(t),
                ),
                DefinitionView::TypeDefinition(TypeDefinitionView::Interface(t)) => Some(
                    ObjectOrInterfaceView::Interface(t),
                ),
                _ => None,
            }
        }),
{
    lemma_looked_up(api.schema.document@, name, i);
}

/// A name that has two underscores as its first two characters is looked up among
/// the types that describe a schema, and nowhere else.
pub proof fn law_names_of_introspection(api: ApiSchemaView, name: Seq<char>, i: int)
    requires
        name.len() >= 2,
        name[0] == '_',
        name[1] == '_',
    ensures
        ({
            let doc = api.introspection;
            let found = api_schema::looked_up(api, name);
            &&& found == document::object_or_interface(doc, name)
            &&& (forall|j: int| 0 <= j < doc.len() ==> !document_laws::defines_type(
                #[trigger] doc[j],
                name,
            )) ==> found is None
            &&& 0 <= i < doc.len() && document_laws::defines_type(doc[i], name) && (forall|j: int|
                0 <= j < i ==> !document_laws::defines_type(#[trigger] doc[j], name)) ==> found
                == match doc[i] {
                DefinitionView::TypeDefinition(TypeDefinitionView::Object(t)) => Some(
                    ObjectOrInterfaceView::Object(t),
                ),
                DefinitionView::TypeDefinition(TypeDefinitionView::Interface(t)) => Some(
                    ObjectOrInterfaceView::Interface(t),
                ),
                _ => None,
            }
        }),
{
    lemma_looked_up(api.introspection, name, i);
}

proof fn lemma_looked_up(doc: Seq<DefinitionView>, name: Seq<char>, i: int)
    ensures
        ({
            let found = document::object_or_interface(doc, name);
            &&& (forall|j: int| 0 <= j < doc.len() ==> !document_laws::defines_type(
                #[trigger] doc[j],
                name,
            )) ==> found is None
            &&& 0 <= i < doc.len() && document_laws::defines_type(doc[i], name) && (forall|j: int|
                0 <= j < i ==> !document_laws::defines_type(#[trigger] doc[j], name)) ==> found
                == match doc[i] {
                DefinitionView::TypeDefinition(TypeDefinitionView::Object(t)) => Some(
                    ObjectOrInterfaceView::Object(t),
                ),
                DefinitionView::TypeDefinition(TypeDefinitionView::Interface(t)) => Some(
                    ObjectOrInterfaceView::Interface(t),
                ),
                _ => None,
            }
        }),
{
    document_laws::law_first_named_type(doc, name);
    document_laws::law_object_or_interface(doc, name);
    if let Some(t) = document::named_type(doc, name) {
        let k = choose|k: int|
            0 <= k < doc.len() && #[trigger] doc[k] == DefinitionView::TypeDefinition(t)
                && document_laws::defines_type(doc[k], name) && forall|j: int|
                0 <= j < k ==> !document_laws::defines_type(#[trigger] doc[j], name);
        if 0 <= i < doc.len() && document_laws::defines_type(doc[i], name) && (forall|j: int|
            0 <= j < i ==> !document_laws::defines_type(#[trigger] doc[j], name)) {
            assert(!(i < k) && !(k < i));
        }
    }
}

/// Arguments can have the type with a name exactly where the first definition of a
/// type with the name is that of a scalar, an enum type or an input object type.
pub proof fn law_input_types(doc: Seq<DefinitionView>, name: Seq<char>)
    ensures
        api_schema::is_input_type(doc, TypeView::NamedType(name)) <==> exists|i: int|
            0 <= i < doc.len() && document_laws::defines_type(#[trigger] doc[i], name) && {
                ||| doc[i] matches DefinitionView::TypeDefinition(TypeDefinitionView::Scalar(_))
                ||| doc[i] matches DefinitionView::TypeDefinition(TypeDefinitionView::Enum(_))
                ||| doc[i] matches DefinitionView::TypeDefinition(
                    TypeDefinitionView::InputObject(_),
                )
            } && forall|j: int| 0 <= j < i ==> !document_laws::defines_type(#[trigger] doc[j], name),
{
    document_laws::law_first_named_type(doc, name);
    if let Some(t) = document::named_type(doc, name) {
        let k = choose|k: int|
            0 <= k < doc.len() && #[trigger] doc[k] == DefinitionView::TypeDefinition(t)
                && document_laws::defines_type(doc[k], name) && forall|j: int|
                0 <= j < k ==> !document_laws::defines_type(#[trigger] doc[j], name);
        assert(document_laws::defines_type(doc[k], name));
    }
}

/// Of the object types with a name the last is the one that is held ready.
pub proof fn law_last_is_held(objects: Seq<ObjectTypeView>, name: Seq<char>)
    ensures
        match api_schema::last_named(objects, name) {
            Some(t) => exists|i: int|
                0 <= i < objects.len() && #[trigger] objects[i] == t && t.name == name && forall|
                    j: int,
                |
                    i < j < objects.len() ==> (#[trigger] objects[j]).name != name,
            None => forall|i: int| 0 <= i < objects.len() ==> (#[trigger] objects[i]).name != name,
        },
    decreases objects.len(),
{
    if objects.len() > 0 {
        let front = objects.drop_last();
        law_last_is_held(front, name);
        assert forall|i: int| 0 <= i < front.len() implies front[i] == objects[i] by {}
        if objects.last().name == name {
            assert(objects[objects.len() - 1] == objects.last());
        } else if let Some(t) = api_schema::last_named(front, name) {
            let i = choose|i: int|
                0 <= i < front.len() && #[trigger] front[i] == t && t.name == name && forall|j: int|
                    i < j < front.len() ==> (#[trigger] front[j]).name != name;
            assert(objects[i] == t);
            assert forall|j: int| i < j < objects.len() implies (#[trigger] objects[j]).name
                != name by {
                if j < front.len() {
                    assert(front[j].name != name);
                }
            }
        } else {
            assert forall|j: int| 0 <= j < objects.len() implies (#[trigger] objects[j]).name
                != name by {
                if j < front.len() {
                    assert(front[j].name != name);
                }
            }
        }
    }
}

/// With the types that describe a schema mixed in a document has its own definitions
/// and then those, each as it was, but for the first definition of an object type
/// `Query`.
pub proof fn law_definitions_stay(
    after: Seq<DefinitionView>,
    doc: Seq<DefinitionView>,
    introspection: Seq<DefinitionView>,
) -> (q: int)
    requires
        introspection::has_introspection(after, doc, introspection),
    ensures
        after.len() == doc.len() + introspection.len(),
        0 <= q < after.len(),
        document_laws::defines_object((doc + introspection)[q], "Query"@),
        forall|j: int|
            0 <= j < q ==> !document_laws::defines_object(
                #[trigger] (doc + introspection)[j],
                "Query"@,
            ),
        forall|j: int|
            0 <= j < after.len() && j != q ==> #[trigger] after[j] == (doc + introspection)[j],
        document_laws::defines_object(after[q], "Query"@),
{
    let defs = doc + introspection;
    let i = lemma_place(after, doc, introspection);
    assert forall|j: int| 0 <= j < i implies !document_laws::defines_object(
        #[trigger] defs[j],
        "Query"@,
    ) by {
        assert(introspection::pick_query()(defs[j]) is None);
    }
    i
}

/// The fields that ask about the schema are `__schema: __Schema!` and
/// `__type(name: String!): __Type`, come behind those of the type, in this order,
/// and nothing else of the type changes.
pub proof fn law_introspection_fields(t: ObjectTypeView)
    ensures
        ({
            let u = introspection::with_introspection_fields(t);
            let n = t.fields.len() as int;
            let f = u.fields[n];
            let g = u.fields[n + 1];
            &&& u.name == t.name
            &&& u.position == t.position
            &&& u.description == t.description
            &&& u.implements_interfaces == t.implements_interfaces
            &&& u.directives == t.directives
            &&& u.fields.len() == n + 2
            &&& u.fields.take(n) == t.fields
            &&& f.name == "__schema"@
            &&& f.arguments.len() == 0
            &&& f.field_type == TypeView::NonNullType(
                Box::new(TypeView::NamedType("__Schema"@)),
            )
            &&& f.text == "__schema: __Schema!\n"@
            &&& f.directives.len() == 0 && f.description is None
            &&& g.name == "__type"@
            &&& g.arguments.len() == 1
            &&& g.arguments[0].name == "name"@
            &&& g.arguments[0].value_type == TypeView::NonNullType(
                Box::new(TypeView::NamedType("String"@)),
            )
            &&& g.arguments[0].default_value is None
            &&& g.arguments[0].directives.len() == 0 && g.arguments[0].description is None
            &&& g.field_type == TypeView::NamedType("__Type"@)
            &&& g.text == "__type(name: String!): __Type\n"@
            &&& g.directives.len() == 0 && g.description is None
            &&& f.position == (Pos { line: 0, column: 0 })
            &&& g.position == (Pos { line: 0, column: 0 })
            &&& g.arguments[0].position == (Pos { line: 0, column: 0 })
        }),
{
    assert(introspection::with_introspection_fields(t).fields.take(t.fields.len() as int)
        =~= t.fields);
}

/// The schema of an API is that of the subgraph but for its document, and has the
/// root types of its document.
pub proof fn law_api_schema_is_that_of_the_subgraph(
    api: ApiSchema,
    schema: Schema,
    introspection: Seq<DefinitionView>,
)
    requires
        api.is_for(schema, introspection),
    ensures
        api@.schema.id@ == schema.id@,
        api@.schema.interfaces_for_type@ == schema.interfaces_for_type@,
        api@.schema.types_for_interface@ == schema.types_for_interface@,
        api@.schema.immutable_types@ == schema.immutable_types@,
        api@.introspection == introspection,
        api@.schema.document@.len() == schema.document@.len() + introspection.len(),
        document::object_type(api@.schema.document@, "Query"@) == Some(api@.query_type),
        document::object_type(schema.document@ + introspection, "Subscription"@)
            == api@.subscription_type,
{
    let after = api@.schema.document@;
    let q = law_definitions_stay(after, schema.document@, introspection);
    reveal_strlit("Query");
    reveal_strlit("Subscription");
    assert("Query"@.len() == 5 && "Subscription"@.len() == 12);
    law_other_types_stay(after, schema.document@, introspection, "Subscription"@);
}

/// The types of the metadata about a subgraph, `_Meta_` and `_Block_`, are types of
/// the schema, and are looked up there.
pub proof fn law_metadata_is_of_the_schema(api: ApiSchemaView)
    ensures
        META_FIELD_TYPE@ == "_Meta_"@,
        META_FIELD_NAME@ == "_meta"@,
        BLOCK_FIELD_TYPE@ == "_Block_"@,
        api_schema::looked_up(api, META_FIELD_TYPE@) == document::object_or_interface(
            api.schema.document@,
            "_Meta_"@,
        ),
        api_schema::looked_up(api, BLOCK_FIELD_TYPE@) == document::object_or_interface(
            api.schema.document@,
            "_Block_"@,
        ),
{
    reveal_strlit("_Meta_");
    reveal_strlit("_Block_");
    assert("_Meta_"@[1] == 'M' && "_Block_"@[1] == 'B');
    law_names_of_the_schema(api, "_Meta_"@, 0);
    law_names_of_the_schema(api, "_Block_"@, 0);
}

} // verus!
