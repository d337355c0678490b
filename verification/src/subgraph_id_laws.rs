//! What the `@subgraphId` directives change of a document, and what they leave.
use vstd::prelude::*;
use crate::ast::{
    DefinitionView, DirectiveView, EnumTypeView, InterfaceTypeView, ObjectTypeView, Pos,
    TypeDefinitionView, ValueView,
};
use crate::derived;
use crate::document;
use crate::document::SCHEMA_TYPE_NAME;
use crate::document_laws;
use crate::fulltext_validation;
use crate::parser;
use crate::schema;
use crate::schema::Schema;
use crate::seqs;
use crate::type_map::Groups;
use crate::validation;

verus! {

/// Directives with one more behind them.
proof fn lemma_directive_pushed(ds: Seq<DirectiveView>, d: DirectiveView, name: Seq<char>)
    ensures
        document::directive(ds.push(d), name) == match document::directive(ds, name) {
            Some(found) => Some(found),
            None => if d.name == name {
                Some(d)
            } else {
                None
            },
        },
{
    assert(ds.push(d).drop_last() =~= ds);
}

/// The directives that a type gets.
spec fn stamped_directives(name: Seq<char>, ds: Seq<DirectiveView>, id: Seq<char>) -> Seq<
    DirectiveView,
> {
    if name == SCHEMA_TYPE_NAME@ || document::directive(ds, "subgraphId"@) is Some {
        ds
    } else {
        ds.push(schema::subgraph_id_directive(id))
    }
}

spec fn stamp_object(id: Seq<char>) -> spec_fn(ObjectTypeView) -> ObjectTypeView {
    |t: ObjectTypeView|
        ObjectTypeView { directives: stamped_directives(t.name, t.directives, id), ..t }
}

spec fn stamp_interface(id: Seq<char>) -> spec_fn(InterfaceTypeView) -> InterfaceTypeView {
    |t: InterfaceTypeView|
        InterfaceTypeView { directives: stamped_directives(t.name, t.directives, id), ..t }
}

spec fn stamp_enum(id: Seq<char>) -> spec_fn(EnumTypeView) -> EnumTypeView {
    |t: EnumTypeView| EnumTypeView { directives: stamped_directives(t.name, t.directives, id), ..t }
}

spec fn stamp_type(id: Seq<char>) -> spec_fn(TypeDefinitionView) -> TypeDefinitionView {
    |t: TypeDefinitionView| schema::type_with_subgraph_id(t, id)
}

/// No type has a `@subgraphId` directive put on it twice, and `_Schema_` has none
/// put on it at all: doing it again, with whatever id, changes nothing.
pub proof fn law_subgraph_ids_once(doc: Seq<DefinitionView>, id: Seq<char>, other: Seq<char>)
    ensures
        schema::with_subgraph_ids(schema::with_subgraph_ids(doc, id), other)
            == schema::with_subgraph_ids(doc, id),
{
    let once = schema::with_subgraph_ids(doc, id);
    assert forall|i: int| 0 <= i < doc.len() implies schema::with_subgraph_id(once[i], other)
        == once[i] by {
        if let DefinitionView::TypeDefinition(t) = doc[i] {
            lemma_directive_pushed(
                t.directives(),
                schema::subgraph_id_directive(id),
                "subgraphId"@,
            );
        }
    }
    assert(schema::with_subgraph_ids(once, other) =~= once);
}

/// Each type but `_Schema_` says to which subgraph it belongs, keeps the
/// directives that it had, and stays as it is but for its directives; `_Schema_`
/// and what defines no type stay as they are altogether.
pub proof fn law_subgraph_ids_present(doc: Seq<DefinitionView>, id: Seq<char>, i: int)
    requires
        0 <= i < doc.len(),
    ensures
        schema::with_subgraph_ids(doc, id).len() == doc.len(),
        match doc[i] {
            DefinitionView::TypeDefinition(t) => {
                &&& schema::with_subgraph_ids(doc, id)[i] matches DefinitionView::TypeDefinition(u)
                &&& u.name() == t.name()
                &&& u == t.with_directives(u.directives())
                &&& t.name() == SCHEMA_TYPE_NAME@ ==> u == t
                &&& t.name() != SCHEMA_TYPE_NAME@ ==> document::directive(
                    u.directives(),
                    "subgraphId"@,
                ) == match document::directive(t.directives(), "subgraphId"@) {
                    Some(d) => Some(d),
                    None => Some(schema::subgraph_id_directive(id)),
                }
                &&& forall|name: Seq<char>|
                    name != "subgraphId"@ ==> #[trigger] document::directive(u.directives(), name)
                        == document::directive(t.directives(), name)
            },
            other => schema::with_subgraph_ids(doc, id)[i] == other,
        },
{
    if let DefinitionView::TypeDefinition(t) = doc[i] {
        let d = schema::subgraph_id_directive(id);
        let u = schema::type_with_subgraph_id(t, id);
        lemma_directive_pushed(t.directives(), d, "subgraphId"@);
        assert forall|name: Seq<char>| name != "subgraphId"@ implies #[trigger] document::directive(
            u.directives(),
            name,
        ) == document::directive(t.directives(), name) by {
            lemma_directive_pushed(t.directives(), d, name);
        }
    }
}

proof fn lemma_stamped_directive(
    owner: Seq<char>,
    ds: Seq<DirectiveView>,
    id: Seq<char>,
    name: Seq<char>,
)
    requires
        name != "subgraphId"@,
    ensures
        document::directive(stamped_directives(owner, ds, id), name) == document::directive(
            ds,
            name,
        ),
{
    lemma_directive_pushed(ds, schema::subgraph_id_directive(id), name);
}

/// How the definitions of each kind come out.
proof fn lemma_stamped_types(doc: Seq<DefinitionView>, id: Seq<char>)
    ensures
        document::object_types(schema::with_subgraph_ids(doc, id)) == document::object_types(
            doc,
        ).map_values(stamp_object(id)),
        document::interface_types(schema::with_subgraph_ids(doc, id)) == document::interface_types(
            doc,
        ).map_values(stamp_interface(id)),
        document::enum_types(schema::with_subgraph_ids(doc, id)) == document::enum_types(
            doc,
        ).map_values(stamp_enum(id)),
        document::type_fields(schema::with_subgraph_ids(doc, id)) == document::type_fields(doc),
{
    let after = schema::with_subgraph_ids(doc, id);
    seqs::lemma_collect_mapped(
        doc,
        after,
        document::pick_object(),
        document::pick_object(),
        stamp_object(id),
    );
    seqs::lemma_collect_mapped(
        doc,
        after,
        document::pick_interface(),
        document::pick_interface(),
        stamp_interface(id),
    );
    seqs::lemma_collect_mapped(
        doc,
        after,
        document::pick_enum(),
        document::pick_enum(),
        stamp_enum(id),
    );
    seqs::lemma_collect_same(doc, after, document::pick_fields(), document::pick_fields());
}

/// How a definition that is looked up by its name comes out.
proof fn lemma_stamped_named(doc: Seq<DefinitionView>, id: Seq<char>, name: Seq<char>)
    ensures
        document::object_type(schema::with_subgraph_ids(doc, id), name) == seqs::mapped(
            document::object_type(doc, name),
            stamp_object(id),
        ),
        document::interface_type(schema::with_subgraph_ids(doc, id), name) == seqs::mapped(
            document::interface_type(doc, name),
            stamp_interface(id),
        ),
        document::named_type(schema::with_subgraph_ids(doc, id), name) == seqs::mapped(
            document::named_type(doc, name),
            stamp_type(id),
        ),
{
    let after = schema::with_subgraph_ids(doc, id);
    lemma_stamped_types(doc, id);
    seqs::lemma_find_map_mapped(
        document::object_types(doc),
        document::object_types(after),
        document::object_named(name),
        document::object_named(name),
        stamp_object(id),
    );
    seqs::lemma_find_map_mapped(
        doc,
        after,
        document::interface_named(name),
        document::interface_named(name),
        stamp_interface(id),
    );
    seqs::lemma_find_map_mapped(
        doc,
        after,
        document::type_named(name),
        document::type_named(name),
        stamp_type(id),
    );
}

/// A type is immutable with its `@subgraphId` directive exactly where it is
/// without.
pub proof fn law_subgraph_ids_keep_immutability(doc: Seq<DefinitionView>, id: Seq<char>)
    ensures
        schema::immutable_names(schema::with_subgraph_ids(doc, id)) == schema::immutable_names(doc),
{
    let after = schema::with_subgraph_ids(doc, id);
    let all = document::object_types(doc);
    lemma_stamped_types(doc, id);
    lemma_literals();
    assert forall|name: Seq<char>|
        seqs::some(document::object_types(after), schema::immutable_named(name)) == seqs::some(
            all,
            schema::immutable_named(name),
        ) by {
        let p = schema::immutable_named(name);
        assert forall|i: int| 0 <= i < all.len() implies p(#[trigger] all[i]) == p(
            document::object_types(after)[i],
        ) by {
            lemma_stamped_directive(all[i].name, all[i].directives, id, "entity"@);
        }
        seqs::lemma_some_same(all, document::object_types(after), p, p);
    }
    assert(schema::immutable_names(after) =~= schema::immutable_names(doc));
}

/// The names of the directives are different.
proof fn lemma_literals()
    ensures
        "entity"@ != "subgraphId"@,
        "fulltext"@ != "subgraphId"@,
        "derivedFrom"@ != "subgraphId"@,
{
    reveal_strlit("entity");
    reveal_strlit("fulltext");
    reveal_strlit("derivedFrom");
    reveal_strlit("subgraphId");
    assert("entity"@[0] != "subgraphId"@[0]);
    assert("fulltext"@[0] != "subgraphId"@[0]);
    assert("derivedFrom"@[0] != "subgraphId"@[0]);
}

/// Whether the entity directives are missing does not change.
proof fn lemma_schema_types_error(doc: Seq<DefinitionView>, id: Seq<char>)
    ensures
        validation::schema_types_error(schema::with_subgraph_ids(doc, id))
            == validation::schema_types_error(doc),
{
    let after = schema::with_subgraph_ids(doc, id);
    let all = document::object_types(doc);
    let f = validation::lacks_entity();
    lemma_stamped_types(doc, id);
    lemma_literals();
    assert forall|i: int| 0 <= i < all.len() implies f(#[trigger] all[i]) == f(
        document::object_types(after)[i],
    ) by {
        lemma_stamped_directive(all[i].name, all[i].directives, id, "entity"@);
    }
    seqs::lemma_collect_same(all, document::object_types(after), f, f);
}

/// The interfaces that can be used do not change.
proof fn lemma_usable_interfaces(
    doc: Seq<DefinitionView>,
    id: Seq<char>,
    object: ObjectTypeView,
    name: Seq<char>,
)
    ensures
        derived::usable_interfaces(
            schema::with_subgraph_ids(doc, id),
            stamp_object(id)(object),
            name,
        ) == derived::usable_interfaces(doc, object, name),
{
    let after = schema::with_subgraph_ids(doc, id);
    let names = object.implements_interfaces;
    let f = derived::interface_with_field(doc, name);
    let g = derived::interface_with_field(after, name);
    assert forall|i: int| 0 <= i < names.len() implies f(#[trigger] names[i]) == g(names[i]) by {
        lemma_stamped_named(doc, id, names[i]);
    }
    seqs::lemma_collect_same(names, names, f, g);
}

/// What is wrong with `@derivedFrom` directives does not change.
proof fn lemma_derived_from_error(doc: Seq<DefinitionView>, id: Seq<char>)
    ensures
        derived::derived_from_error(schema::with_subgraph_ids(doc, id))
            == derived::derived_from_error(doc),
{
    let after = schema::with_subgraph_ids(doc, id);
    let all = document::object_types(doc);
    let f = derived::object_error(doc);
    let g = derived::object_error(after);
    lemma_stamped_types(doc, id);
    assert forall|i: int| 0 <= i < all.len() implies f(#[trigger] all[i]) == g(
        document::object_types(after)[i],
    ) by {
        let t = all[i];
        let u = stamp_object(id)(t);
        let p = derived::field_error(doc, t);
        let q = derived::field_error(after, u);
        assert forall|j: int| 0 <= j < t.fields.len() implies p(#[trigger] t.fields[j]) == q(
            u.fields[j],
        ) by {
            lemma_usable_interfaces(doc, id, t, t.fields[j].name);
        }
        seqs::lemma_find_map_same(t.fields, u.fields, p, q);
    }
    seqs::lemma_find_map_same(all, document::object_types(after), f, g);
}

/// The `_Schema_` type does not change.
proof fn lemma_schema_type(doc: Seq<DefinitionView>, id: Seq<char>)
    ensures
        validation::schema_type(schema::with_subgraph_ids(doc, id)) == validation::schema_type(doc),
        document::fulltext_directives(schema::with_subgraph_ids(doc, id))
            == document::fulltext_directives(doc),
{
    lemma_stamped_named(doc, id, SCHEMA_TYPE_NAME@);
    match document::object_type(doc, SCHEMA_TYPE_NAME@) {
        Some(t) => {
            seqs::lemma_find_map_first(
                document::object_types(doc),
                document::object_named(SCHEMA_TYPE_NAME@),
            );
            assert(stamp_object(id)(t) == t);
        },
        None => {},
    }
}

/// The reserved names that are used do not change.
proof fn lemma_reserved_types_error(doc: Seq<DefinitionView>, id: Seq<char>)
    ensures
        validation::reserved_types_error(schema::with_subgraph_ids(doc, id))
            == validation::reserved_types_error(doc),
{
    let after = schema::with_subgraph_ids(doc, id);
    lemma_stamped_types(doc, id);
    assert(validation::entity_names(after) =~= validation::entity_names(doc));
    let names = validation::reserved_names(doc);
    let f = validation::used_in(doc);
    let g = validation::used_in(after);
    assert forall|i: int| 0 <= i < names.len() implies f(#[trigger] names[i]) == g(names[i]) by {
        lemma_stamped_named(doc, id, names[i]);
    }
    seqs::lemma_collect_same(names, names, f, g);
}

/// The types that are known do not change.
proof fn lemma_field_errors(doc: Seq<DefinitionView>, id: Seq<char>)
    ensures
        validation::field_errors(schema::with_subgraph_ids(doc, id)) == validation::field_errors(
            doc,
        ),
{
    let after = schema::with_subgraph_ids(doc, id);
    lemma_stamped_types(doc, id);
    let types = document::type_fields(doc);
    let f = validation::unknown_field_types(doc);
    let g = validation::unknown_field_types(after);
    assert forall|i: int| 0 <= i < types.len() implies f(#[trigger] types[i]) == g(types[i]) by {
        let t = types[i];
        let p = validation::unknown_field_type(doc, t.name);
        let q = validation::unknown_field_type(after, t.name);
        assert forall|j: int| 0 <= j < t.fields.len() implies p(#[trigger] t.fields[j]) == q(
            t.fields[j],
        ) by {
            let name = t.fields[j].field_type.base();
            seqs::lemma_some_same(
                document::enum_types(doc),
                document::enum_types(after),
                validation::enum_named(name),
                validation::enum_named(name),
            );
        }
        seqs::lemma_collect_same(t.fields, t.fields, p, q);
    }
    seqs::lemma_flat_map_same(types, types, f, g);
}

/// What is wrong with `@fulltext` directives does not change.
proof fn lemma_fulltext_errors(doc: Seq<DefinitionView>, id: Seq<char>, taken: Seq<Seq<char>>)
    ensures
        fulltext_validation::fulltext_errors(schema::with_subgraph_ids(doc, id), taken)
            == fulltext_validation::fulltext_errors(doc, taken),
{
    let after = schema::with_subgraph_ids(doc, id);
    lemma_schema_type(doc, id);
    let ds = document::fulltext_directives(doc);
    let f = fulltext_validation::directive_errors(doc, ds, taken);
    let g = fulltext_validation::directive_errors(after, ds, taken);
    assert forall|i: int| 0 <= i < ds.len() implies f(#[trigger] ds[i]) == g(ds[i]) by {
        if let Some(ValueView::List(objects)) = ds[i].argument("include"@) {
            let p = fulltext_validation::included_entity_error(doc);
            let q = fulltext_validation::included_entity_error(after);
            assert forall|j: int| 0 <= j < objects.len() implies p(#[trigger] objects[j]) == q(
                objects[j],
            ) by {
                lemma_included_entity_error(doc, id, objects[j]);
            }
            seqs::lemma_find_map_same(objects, objects, p, q);
        }
    }
    seqs::lemma_flat_map_same(ds, ds, f, g);
}

proof fn lemma_included_entity_error(doc: Seq<DefinitionView>, id: Seq<char>, v: ValueView)
    ensures
        fulltext_validation::included_entity_error(schema::with_subgraph_ids(doc, id))(v)
            == fulltext_validation::included_entity_error(doc)(v),
{
    if let ValueView::Object(entries) = v {
        if let (
            Some(ValueView::String(entity)),
            Some(ValueView::List(fields)),
        ) = (document::entry(entries, "entity"@), document::entry(entries, "fields"@)) {
            lemma_stamped_named(doc, id, entity);
            if let Some(t) = document::object_type(doc, entity) {
                let p = fulltext_validation::included_field_error(t);
                let q = fulltext_validation::included_field_error(stamp_object(id)(t));
                seqs::lemma_find_map_same(fields, fields, p, q);
            }
        }
    }
}

/// The names that are taken do not change.
pub proof fn law_subgraph_ids_keep_query_names(doc: Seq<DefinitionView>, id: Seq<char>)
    ensures
        fulltext_validation::query_names(schema::with_subgraph_ids(doc, id))
            == fulltext_validation::query_names(doc),
{
    let after = schema::with_subgraph_ids(doc, id);
    let f = fulltext_validation::object_query_names();
    lemma_stamped_types(doc, id);
    seqs::lemma_flat_map_same(document::object_types(doc), document::object_types(after), f, f);
}

/// A document with `@subgraphId` directives is valid exactly where it is valid
/// without them, and the same is wrong with both.
pub proof fn law_subgraph_ids_keep_validity(
    doc: Seq<DefinitionView>,
    id: Seq<char>,
    types_for_interface: Groups<ObjectTypeView>,
    taken: Seq<Seq<char>>,
)
    ensures
        schema::schema_errors(schema::with_subgraph_ids(doc, id), types_for_interface, taken)
            == schema::schema_errors(doc, types_for_interface, taken),
{
    lemma_schema_types_error(doc, id);
    lemma_derived_from_error(doc, id);
    lemma_schema_type(doc, id);
    lemma_reserved_types_error(doc, id);
    lemma_field_errors(doc, id);
    lemma_fulltext_errors(doc, id, taken);
}

/// What is wrong with a schema is what is wrong with the document that it was made
/// from.
pub proof fn law_validation_is_of_the_document(
    schema: Schema,
    id: Seq<char>,
    doc: Seq<DefinitionView>,
)
    requires
        schema.is_for(id, doc),
    ensures
        schema::schema_errors(
            schema.document@,
            schema.types_for_interface@,
            fulltext_validation::query_names(schema.document@),
        ) == schema::schema_errors(
            doc,
            schema.types_for_interface@,
            fulltext_validation::query_names(doc),
        ),
{
    law_subgraph_ids_keep_query_names(doc, id);
    law_subgraph_ids_keep_validity(
        doc,
        id,
        schema.types_for_interface@,
        fulltext_validation::query_names(doc),
    );
}

/// The texts of the fields fit with `@subgraphId` directives exactly where they fit
/// without.
pub proof fn law_subgraph_ids_keep_texts(doc: Seq<DefinitionView>, id: Seq<char>)
    ensures
        parser::texts_fit(schema::with_subgraph_ids(doc, id)) <==> parser::texts_fit(doc),
{
    let after = schema::with_subgraph_ids(doc, id);
    assert forall|i: int| 0 <= i < doc.len() implies parser::definition_texts_fit(after[i])
        == parser::definition_texts_fit(#[trigger] doc[i]) by {}
    if parser::texts_fit(after) {
        assert forall|i: int| 0 <= i < doc.len() implies parser::definition_texts_fit(
            #[trigger] doc[i],
        ) by {
            assert(parser::definition_texts_fit(after[i]));
        }
    }
}

/// A type other than `_Schema_` on which no directive is a `@subgraphId` gets one,
/// behind the directives that it has: with the id as its argument `id`, and no other
/// argument. Any other type stays as it is, and so does what defines no type.
pub proof fn law_subgraph_ids_come_last(doc: Seq<DefinitionView>, id: Seq<char>, i: int)
    requires
        0 <= i < doc.len(),
    ensures
        match doc[i] {
            DefinitionView::TypeDefinition(t) => if t.name() != "_Schema_"@ && (forall|k: int|
                0 <= k < t.directives().len() ==> (#[trigger] t.directives()[k]).name
                    != "subgraphId"@) {
                &&& schema::with_subgraph_ids(doc, id)[i] matches DefinitionView::TypeDefinition(u)
                &&& u == t.with_directives(u.directives())
                &&& u.directives().len() == t.directives().len() + 1
                &&& u.directives().drop_last() == t.directives()
                &&& u.directives().last().name == "subgraphId"@
                &&& u.directives().last().arguments.len() == 1
                &&& u.directives().last().arguments[0] == ("id"@, ValueView::String(id))
                &&& u.directives().last().position == (Pos { line: 0, column: 0 })
            } else {
                schema::with_subgraph_ids(doc, id)[i] == doc[i]
            },
            _ => schema::with_subgraph_ids(doc, id)[i] == doc[i],
        },
{
    if let DefinitionView::TypeDefinition(t) = doc[i] {
        let ds = t.directives();
        document_laws::law_first_directive(ds, "subgraphId"@);
        let more = ds.push(schema::subgraph_id_directive(id));
        document_laws::law_type_definitions(t, more);
        assert(more.drop_last() =~= ds);
    }
}

/// A type never changes its entities exactly where one of the object types with its
/// name is immutable.
pub proof fn law_immutable_names(doc: Seq<DefinitionView>, name: Seq<char>)
    ensures
        schema::immutable_names(doc).contains(name) <==> exists|i: int|
            0 <= i < document::object_types(doc).len() && (#[trigger] document::object_types(
                doc,
            )[i]).name == name && document::object_types(doc)[i].is_immutable(),
{
    let all = document::object_types(doc);
    let p = schema::immutable_named(name);
    if seqs::some(all, p) {
        let i = choose|i: int| 0 <= i < all.len() && #[trigger] p(all[i]);
        assert(all[i].name == name);
    }
    if exists|i: int|
        0 <= i < all.len() && (#[trigger] all[i]).name == name && all[i].is_immutable() {
        let i = choose|i: int|
            0 <= i < all.len() && (#[trigger] all[i]).name == name && all[i].is_immutable();
        assert(p(all[i]));
    }
}

/// A schema is that of its subgraph: it has its id, its types say so, and the types
/// whose entities never change are those of the document.
pub proof fn law_schema_is_that_of_the_document(
    schema: Schema,
    id: Seq<char>,
    doc: Seq<DefinitionView>,
)
    requires
        schema.is_for(id, doc),
    ensures
        schema.id@ == id,
        schema.document@ == schema::with_subgraph_ids(doc, id),
        schema.immutable_types@ == schema::immutable_names(doc),
        schema.immutable_types@ == schema::immutable_names(schema.document@),
{
    law_subgraph_ids_keep_immutability(doc, id);
}

} // verus!
