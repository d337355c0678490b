//! What holds of a schema with which nothing is wrong.
use vstd::prelude::*;
use crate::ast::{DefinitionView, FieldView, InterfaceTypeView, ObjectTypeView, ValueView};
use crate::derived;
use crate::document;
use crate::document::{SCHEMA_TYPE_NAME, TypeFieldsView};
use crate::document_laws;
use crate::errors::SchemaValidationErrorView;
use crate::fulltext_validation;
use crate::schema;
use crate::seqs;
use crate::text;
use crate::type_map::Groups;
use crate::validation;

verus! {

/// Nothing is wrong with a schema exactly where none of the checks finds
/// anything.
pub proof fn law_valid_where_all_checks_pass(
    doc: Seq<DefinitionView>,
    types_for_interface: Groups<ObjectTypeView>,
    taken: Seq<Seq<char>>,
)
    ensures
        schema::schema_errors(doc, types_for_interface, taken).len() == 0 <==> {
            &&& validation::schema_types_error(doc) is None
            &&& derived::derived_from_error(doc) is None
            &&& validation::schema_type_fields_error(doc) is None
            &&& validation::schema_type_directives_error(doc) is None
            &&& validation::reserved_types_error(doc) is None
            &&& validation::interface_id_error(types_for_interface) is None
            &&& validation::field_errors(doc).len() == 0
            &&& fulltext_validation::fulltext_errors(doc, taken).len() == 0
        },
{
    let all = seq![
        validation::schema_types_error(doc),
        derived::derived_from_error(doc),
        validation::schema_type_fields_error(doc),
        validation::schema_type_directives_error(doc),
        validation::reserved_types_error(doc),
        validation::interface_id_error(types_for_interface),
    ];
    let f = |e: Option<SchemaValidationErrorView>| e;
    seqs::lemma_collect_empty(all, f);
    assert(f(all[0]) == validation::schema_types_error(doc));
    assert(f(all[1]) == derived::derived_from_error(doc));
    assert(f(all[2]) == validation::schema_type_fields_error(doc));
    assert(f(all[3]) == validation::schema_type_directives_error(doc));
    assert(f(all[4]) == validation::reserved_types_error(doc));
    assert(f(all[5]) == validation::interface_id_error(types_for_interface));
}

/// Each object type but `_Schema_` is an entity type.
pub proof fn law_entities(doc: Seq<DefinitionView>)
    ensures
        validation::schema_types_error(doc) is None <==> forall|i: int|
            0 <= i < document::object_types(doc).len() ==> {
                let t = #[trigger] document::object_types(doc)[i];
                t.name == SCHEMA_TYPE_NAME@ || document::directive(t.directives, "entity"@) is Some
            },
{
    let all = document::object_types(doc);
    let f = validation::lacks_entity();
    seqs::lemma_collect_empty(all, f);
    if validation::schema_types_error(doc) is None {
        assert forall|i: int| 0 <= i < all.len() implies ({
            let t = #[trigger] all[i];
            t.name == SCHEMA_TYPE_NAME@ || document::directive(t.directives, "entity"@) is Some
        }) by {
            assert(f(all[i]) is None);
        }
    }
}

/// No type has a reserved name.
pub proof fn law_reserved_names_are_unused(doc: Seq<DefinitionView>)
    ensures
        validation::reserved_types_error(doc) is None <==> forall|i: int|
            0 <= i < validation::reserved_names(doc).len() ==> document::named_type(
                doc,
                #[trigger] validation::reserved_names(doc)[i],
            ) is None,
{
    let names = validation::reserved_names(doc);
    let f = validation::used_in(doc);
    seqs::lemma_collect_empty(names, f);
    if validation::reserved_types_error(doc) is None {
        assert forall|i: int| 0 <= i < names.len() implies document::named_type(
            doc,
            #[trigger] names[i],
        ) is None by {
            assert(f(names[i]) is None);
        }
    }
}

/// The names that an error reports as reserved are those that are reserved and in
/// use.
pub proof fn law_reported_names(doc: Seq<DefinitionView>, name: Seq<char>)
    ensures
        validation::used_reserved_names(doc).contains(name) <==> (validation::reserved_names(
            doc,
        ).contains(name) && document::named_type(doc, name) is Some),
{
    let names = validation::reserved_names(doc);
    let f = validation::used_in(doc);
    seqs::lemma_collect_contains(names, f, name);
    if names.contains(name) && document::named_type(doc, name) is Some {
        let i = choose|i: int| 0 <= i < names.len() && names[i] == name;
        assert(f(names[i]) == Some(name));
    }
    if exists|i: int| 0 <= i < names.len() && #[trigger] f(names[i]) == Some(name) {
        let i = choose|i: int| 0 <= i < names.len() && #[trigger] f(names[i]) == Some(name);
        assert(names[i] == name);
    }
}

/// The type of each field of each object type and interface is known.
pub proof fn law_field_types_are_known(doc: Seq<DefinitionView>)
    ensures
        validation::field_errors(doc).len() == 0 <==> forall|i: int, j: int|
            #![trigger document::type_fields(doc)[i].fields[j]]
            0 <= i < document::type_fields(doc).len() && 0 <= j < document::type_fields(
                doc,
            )[i].fields.len() ==> validation::is_known_type(
                doc,
                document::type_fields(doc)[i].fields[j].field_type.base(),
            ),
{
    let types = document::type_fields(doc);
    let f = validation::unknown_field_types(doc);
    seqs::lemma_flat_map_empty(types, f);
    if validation::field_errors(doc).len() == 0 {
        assert forall|i: int, j: int|
            #![trigger types[i].fields[j]]
            0 <= i < types.len() && 0 <= j < types[i].fields.len() implies validation::is_known_type(
            doc,
            types[i].fields[j].field_type.base(),
        ) by {
            let g = validation::unknown_field_type(doc, types[i].name);
            assert(f(types[i]).len() == 0);
            seqs::lemma_collect_empty(types[i].fields, g);
            assert(g(types[i].fields[j]) is None);
        }
    }
    if forall|i: int, j: int|
        #![trigger types[i].fields[j]]
        0 <= i < types.len() && 0 <= j < types[i].fields.len() ==> validation::is_known_type(
            doc,
            types[i].fields[j].field_type.base(),
        ) {
        assert forall|i: int| 0 <= i < types.len() implies (#[trigger] f(types[i])).len() == 0 by {
            let g = validation::unknown_field_type(doc, types[i].name);
            assert forall|j: int| 0 <= j < types[i].fields.len() implies (#[trigger] g(
                types[i].fields[j],
            )) is None by {
                assert(validation::is_known_type(doc, types[i].fields[j].field_type.base()));
            }
            seqs::lemma_collect_empty(types[i].fields, g);
        }
    }
}

/// A sequence and its distinct items hold the same items.
proof fn lemma_distinct(s: Seq<Seq<char>>, x: Seq<char>)
    ensures
        s.contains(x) <==> validation::distinct(s).contains(x),
    decreases s.len(),
{
    if s.len() > 0 {
        let front = s.drop_last();
        let some = validation::distinct(front);
        lemma_distinct(front, x);
        if s.contains(x) {
            let i = choose|i: int| 0 <= i < s.len() && s[i] == x;
            if i < front.len() {
                assert(front[i] == x);
                let k = choose|k: int| 0 <= k < some.len() && some[k] == x;
                assert(some.push(s.last())[k] == x);
            } else {
                assert(some.push(s.last())[some.len() as int] == x);
            }
        }
        if validation::distinct(s).contains(x) {
            if some.contains(x) {
                let i = choose|i: int| 0 <= i < front.len() && front[i] == x;
                assert(s[i] == x);
            } else {
                let k = choose|k: int|
                    0 <= k < validation::distinct(s).len() && validation::distinct(s)[k] == x;
                assert(k == some.len());
                assert(s[s.len() - 1] == x);
            }
        }
    }
}

/// Types that implement one interface have ids of one type, where `ID` counts as
/// `String`.
pub proof fn law_implementors_share_id_type(
    types_for_interface: Groups<ObjectTypeView>,
    k: int,
    a: ObjectTypeView,
    b: ObjectTypeView,
)
    requires
        validation::interface_id_error(types_for_interface) is None,
        0 <= k < types_for_interface.len(),
        types_for_interface[k].1.contains(a),
        types_for_interface[k].1.contains(b),
        document::field(a.fields, "id"@) is Some,
        document::field(b.fields, "id"@) is Some,
    ensures
        validation::id_type()(a) == validation::id_type()(b),
{
    let f = validation::mixed_ids();
    seqs::lemma_find_map_some(types_for_interface, f);
    assert(f(types_for_interface[k]) is None);
    let objects = types_for_interface[k].1;
    let g = validation::id_type();
    let all = seqs::collect(objects, g);
    let x = g(a)->0;
    let y = g(b)->0;
    let i = choose|i: int| 0 <= i < objects.len() && objects[i] == a;
    let j = choose|j: int| 0 <= j < objects.len() && objects[j] == b;
    assert(g(objects[i]) == Some(x));
    assert(g(objects[j]) == Some(y));
    seqs::lemma_collect_contains(objects, g, x);
    seqs::lemma_collect_contains(objects, g, y);
    lemma_distinct(all, x);
    lemma_distinct(all, y);
}

/// A field with a `@derivedFrom` directive names a field of an object type or
/// interface that points back to the type, to one of its interfaces that has the
/// field, or to an id.
pub proof fn law_derived_fields_point_back(
    doc: Seq<DefinitionView>,
    object: ObjectTypeView,
    field: FieldView,
)
    requires
        derived::derived_from_error(doc) is None,
        document::object_types(doc).contains(object),
        object.fields.contains(field),
        document::directive(field.directives, "derivedFrom"@) is Some,
    ensures
        ({
            let d = document::directive(field.directives, "derivedFrom"@)->0;
            &&& d.argument("field"@) matches Some(ValueView::String(name))
            &&& document::fields_of(doc, field.field_type.base()) matches Some(fields)
            &&& document::field(fields, name) matches Some(target)
            &&& {
                ||| target.field_type.base() == object.name
                ||| target.field_type.base() == "ID"@
                ||| derived::usable_interfaces(doc, object, field.name).contains(
                    target.field_type.base(),
                )
            }
        }),
{
    let all = document::object_types(doc);
    let f = derived::object_error(doc);
    let i = choose|i: int| 0 <= i < all.len() && all[i] == object;
    seqs::lemma_find_map_some(all, f);
    assert(f(all[i]) is None);
    let g = derived::field_error(doc, object);
    let j = choose|j: int| 0 <= j < object.fields.len() && object.fields[j] == field;
    seqs::lemma_find_map_some(object.fields, g);
    assert(g(object.fields[j]) is None);
}

/// The `_Schema_` type has no fields, and no directives but `@fulltext`.
pub proof fn law_schema_type_is_bare(doc: Seq<DefinitionView>, t: ObjectTypeView, i: int)
    requires
        validation::schema_type_fields_error(doc) is None,
        validation::schema_type_directives_error(doc) is None,
        validation::schema_type(doc) == Some(t),
        0 <= i < t.directives.len(),
    ensures
        t.fields.len() == 0,
        t.directives[i].name == "fulltext"@,
{
    if t.directives[i].name != "fulltext"@ {
        assert(validation::not_fulltext()(t.directives[i]));
    }
}

/// The object types that are reported to lack an `@entity` directive are those,
/// in their order, on which none of the directives is one; `_Schema_` needs none.
pub proof fn law_types_without_entity(doc: Seq<DefinitionView>)
    ensures
        ({
            let names = document::object_types(doc).filter(
                |t: ObjectTypeView|
                    t.name != "_Schema_"@ && forall|k: int|
                        0 <= k < t.directives.len() ==> (#[trigger] t.directives[k]).name
                            != "entity"@,
            ).map_values(|t: ObjectTypeView| t.name);
            validation::schema_types_error(doc) == if names.len() == 0 {
                None
            } else {
                Some(SchemaValidationErrorView::EntityDirectivesMissing(names))
            }
        }),
{
    let all = document::object_types(doc);
    let p = |t: ObjectTypeView|
        t.name != "_Schema_"@ && forall|k: int|
            0 <= k < t.directives.len() ==> (#[trigger] t.directives[k]).name != "entity"@;
    let f = validation::lacks_entity();
    assert forall|i: int| 0 <= i < all.len() implies f(#[trigger] all[i]) == if p(all[i]) {
        Some(all[i].name)
    } else {
        None
    } by {
        document_laws::law_first_directive(all[i].directives, "entity"@);
    }
    seqs::lemma_collect_filter(all, f, p, |t: ObjectTypeView| t.name);
}

/// The `_Schema_` type is reported exactly where it has a field, and exactly where
/// it has a directive other than `@fulltext`.
pub proof fn law_schema_type_errors(doc: Seq<DefinitionView>)
    ensures
        validation::schema_type_fields_error(doc) == match document::object_type(
            doc,
            "_Schema_"@,
        ) {
            Some(t) => if t.fields.len() > 0 {
                Some(SchemaValidationErrorView::SchemaTypeWithFields)
            } else {
                None
            },
            None => None,
        },
        validation::schema_type_directives_error(doc) == match document::object_type(
            doc,
            "_Schema_"@,
        ) {
            Some(t) => if exists|k: int|
                0 <= k < t.directives.len() && (#[trigger] t.directives[k]).name != "fulltext"@ {
                Some(SchemaValidationErrorView::InvalidSchemaTypeDirectives)
            } else {
                None
            },
            None => None,
        },
{
    if let Some(t) = document::object_type(doc, "_Schema_"@) {
        let p = validation::not_fulltext();
        if exists|k: int|
            0 <= k < t.directives.len() && (#[trigger] t.directives[k]).name != "fulltext"@ {
            let k = choose|k: int|
                0 <= k < t.directives.len() && (#[trigger] t.directives[k]).name != "fulltext"@;
            assert(p(t.directives[k]));
        }
        if seqs::some(t.directives, p) {
            let k = choose|k: int| 0 <= k < t.directives.len() && #[trigger] p(t.directives[k]);
            assert(t.directives[k].name != "fulltext"@);
        }
    }
}

/// Whether a document has an object type or an interface with a name.
pub open spec fn has_entity(doc: Seq<DefinitionView>, name: Seq<char>) -> bool {
    ||| exists|i: int|
        0 <= i < document::object_types(doc).len() && (#[trigger] document::object_types(
            doc,
        )[i]).name == name
    ||| exists|i: int|
        0 <= i < document::interface_types(doc).len() && (#[trigger] document::interface_types(
            doc,
        )[i]).name == name
}

/// Whether a name is that of a built-in scalar or a root type.
pub open spec fn is_builtin(name: Seq<char>) -> bool {
    ||| name == "Boolean"@
    ||| name == "ID"@
    ||| name == "Int"@
    ||| name == "BigDecimal"@
    ||| name == "String"@
    ||| name == "Bytes"@
    ||| name == "BigInt"@
    ||| name == "Query"@
    ||| name == "Subscription"@
}

/// A name is reserved exactly where it is that of a built-in scalar or a root
/// type, or that of an object type or interface with `_filter` or `_orderBy`
/// behind it.
pub proof fn law_reserved_names(doc: Seq<DefinitionView>, name: Seq<char>)
    ensures
        validation::reserved_names(doc).contains(name) <==> (is_builtin(name) || exists|
            entity: Seq<char>,
        |
            #[trigger] has_entity(doc, entity) && (name == entity + "_filter"@ || name == entity
                + "_orderBy"@)),
{
    let own = validation::builtin_names();
    let names = validation::entity_names(doc);
    let filters = validation::with_suffix(names, "_filter"@);
    let orders = validation::with_suffix(names, "_orderBy"@);
    let all = own + filters + orders;
    let objects = document::object_types(doc);
    let interfaces = document::interface_types(doc);
    if is_builtin(name) {
        assert(own[0] == "Boolean"@ && own[1] == "ID"@ && own[2] == "Int"@ && own[3]
            == "BigDecimal"@ && own[4] == "String"@ && own[5] == "Bytes"@ && own[6] == "BigInt"@
            && own[7] == "Query"@ && own[8] == "Subscription"@);
        let i = choose|i: int| 0 <= i < own.len() && own[i] == name;
        assert(all[i] == name);
    }
    if exists|entity: Seq<char>|
        #[trigger] has_entity(doc, entity) && (name == entity + "_filter"@ || name == entity
            + "_orderBy"@) {
        let entity = choose|entity: Seq<char>|
            #[trigger] has_entity(doc, entity) && (name == entity + "_filter"@ || name == entity
                + "_orderBy"@);
        let k = if exists|i: int| 0 <= i < objects.len() && (#[trigger] objects[i]).name == entity {
            choose|i: int| 0 <= i < objects.len() && (#[trigger] objects[i]).name == entity
        } else {
            objects.len() + choose|i: int|
                0 <= i < interfaces.len() && (#[trigger] interfaces[i]).name == entity
        };
        assert(names[k] == entity);
        if name == entity + "_filter"@ {
            assert(all[own.len() + k] == name);
        } else {
            assert(all[own.len() + filters.len() + k] == name);
        }
    }
    if all.contains(name) {
        let i = choose|i: int| 0 <= i < all.len() && all[i] == name;
        if i >= own.len() {
            let k = if i < own.len() + filters.len() {
                i - own.len()
            } else {
                i - own.len() - filters.len()
            };
            let entity = names[k];
            if k < objects.len() {
                assert(objects[k].name == entity);
            } else {
                assert(interfaces[k - objects.len()].name == entity);
            }
            assert(has_entity(doc, entity));
        }
    }
}

/// The reserved names come in this order: those of the built-in types, then those
/// with `_filter`, of the object types and then of the interfaces, and then those
/// with `_orderBy`.
pub proof fn law_order_of_reserved_names(doc: Seq<DefinitionView>)
    ensures
        validation::reserved_names(doc) == seq![
            "Boolean"@,
            "ID"@,
            "Int"@,
            "BigDecimal"@,
            "String"@,
            "Bytes"@,
            "BigInt"@,
            "Query"@,
            "Subscription"@,
        ] + document::object_types(doc).map_values(|t: ObjectTypeView| t.name + "_filter"@)
            + document::interface_types(doc).map_values(|t: InterfaceTypeView| t.name + "_filter"@)
            + document::object_types(doc).map_values(|t: ObjectTypeView| t.name + "_orderBy"@)
            + document::interface_types(doc).map_values(|t: InterfaceTypeView| t.name + "_orderBy"@),
{
    assert(validation::reserved_names(doc) =~= seq![
        "Boolean"@,
        "ID"@,
        "Int"@,
        "BigDecimal"@,
        "String"@,
        "Bytes"@,
        "BigInt"@,
        "Query"@,
        "Subscription"@,
    ] + document::object_types(doc).map_values(|t: ObjectTypeView| t.name + "_filter"@)
        + document::interface_types(doc).map_values(|t: InterfaceTypeView| t.name + "_filter"@)
        + document::object_types(doc).map_values(|t: ObjectTypeView| t.name + "_orderBy"@)
        + document::interface_types(doc).map_values(|t: InterfaceTypeView| t.name + "_orderBy"@));
}

/// What is reported are the reserved names, in their order, under which the
/// document has a type of whatever kind.
pub proof fn law_reserved_types_are_reported(doc: Seq<DefinitionView>)
    ensures
        ({
            let used = validation::reserved_names(doc).filter(
                |name: Seq<char>|
                    exists|i: int|
                        0 <= i < doc.len() && document_laws::defines_type(#[trigger] doc[i], name),
            );
            validation::reserved_types_error(doc) == if used.len() == 0 {
                None
            } else {
                Some(SchemaValidationErrorView::UsageOfReservedTypes(used))
            }
        }),
{
    let names = validation::reserved_names(doc);
    let f = validation::used_in(doc);
    let p = |name: Seq<char>|
        exists|i: int|
            0 <= i < doc.len() && document_laws::defines_type(#[trigger] doc[i], name);
    assert forall|i: int| 0 <= i < names.len() implies f(#[trigger] names[i]) == if p(names[i]) {
        Some(names[i])
    } else {
        None
    } by {
        document_laws::law_first_named_type(doc, names[i]);
    }
    seqs::lemma_collect_is_filter(names, f, p);
}

/// Whether a name is that of a scalar whose values are stored, or that under which
/// a document defines an object type, an interface or an enum type.
pub open spec fn is_field_type(doc: Seq<DefinitionView>, name: Seq<char>) -> bool {
    ||| name == "Boolean"@
    ||| name == "BigInt"@
    ||| name == "Bytes"@
    ||| name == "BigDecimal"@
    ||| name == "Int"@
    ||| name == "String"@
    ||| name == "ID"@
    ||| exists|i: int|
        0 <= i < doc.len() && {
            ||| document_laws::defines_object(#[trigger] doc[i], name)
            ||| document_laws::defines_interface(doc[i], name)
            ||| document_laws::defines_enum(doc[i], name)
        }
}

proof fn lemma_has_enum(doc: Seq<DefinitionView>, name: Seq<char>)
    ensures
        seqs::some(document::enum_types(doc), validation::enum_named(name)) <==> exists|i: int|
            0 <= i < doc.len() && document_laws::defines_enum(#[trigger] doc[i], name),
    decreases doc.len(),
{
    let p = validation::enum_named(name);
    if doc.len() > 0 {
        let front = doc.drop_last();
        let before = document::enum_types(front);
        lemma_has_enum(front, name);
        assert forall|i: int| 0 <= i < front.len() implies front[i] == doc[i] by {}
        if seqs::some(before, p) {
            let i = choose|i: int|
                0 <= i < front.len() && document_laws::defines_enum(#[trigger] front[i], name);
            assert(document_laws::defines_enum(doc[i], name));
        }
        if exists|i: int|
            0 <= i < doc.len() && document_laws::defines_enum(#[trigger] doc[i], name) {
            let i = choose|i: int|
                0 <= i < doc.len() && document_laws::defines_enum(#[trigger] doc[i], name);
            if i < front.len() {
                assert(document_laws::defines_enum(front[i], name));
            }
        }
        match document::pick_enum()(doc.last()) {
            Some(t) => {
                let all = before.push(t);
                assert(document::enum_types(doc) == all);
                seqs::lemma_some_step(all, p, before.len() as int);
                assert(all.take(before.len() as int) =~= before);
                assert(all.take(before.len() as int + 1) =~= all);
                if p(t) {
                    assert(document_laws::defines_enum(doc[doc.len() - 1], name));
                }
            },
            None => {},
        }
    }
}

/// A type is known exactly where a field can have it.
pub proof fn law_known_types(doc: Seq<DefinitionView>, name: Seq<char>)
    ensures
        validation::is_known_type(doc, name) == is_field_type(doc, name),
{
    lemma_has_enum(doc, name);
    document_laws::law_fields_of_the_last(doc, name);
    if let Some(fields) = document::fields_of(doc, name) {
        let i = choose|i: int|
            0 <= i < doc.len() && document_laws::fields_defined(#[trigger] doc[i]) == Some(
                TypeFieldsView { name, fields },
            ) && forall|j: int|
                i < j < doc.len() ==> !(document_laws::fields_defined(
                    #[trigger] doc[j],
                ) matches Some(t) && t.name == name);
        assert(document_laws::defines_object(doc[i], name) || document_laws::defines_interface(
            doc[i],
            name,
        ));
    }
    if seqs::some(document::enum_types(doc), validation::enum_named(name)) {
        let i = choose|i: int|
            0 <= i < doc.len() && document_laws::defines_enum(#[trigger] doc[i], name);
        assert(document_laws::defines_object(doc[i], name) || document_laws::defines_enum(
            doc[i],
            name,
        ));
    }
    if exists|i: int|
        0 <= i < doc.len() && {
            ||| document_laws::defines_object(#[trigger] doc[i], name)
            ||| document_laws::defines_interface(doc[i], name)
            ||| document_laws::defines_enum(doc[i], name)
        } {
        let i = choose|i: int|
            0 <= i < doc.len() && {
                ||| document_laws::defines_object(#[trigger] doc[i], name)
                ||| document_laws::defines_interface(doc[i], name)
                ||| document_laws::defines_enum(doc[i], name)
            };
        if document::fields_of(doc, name) is None {
            assert(!(document_laws::fields_defined(doc[i]) matches Some(t) && t.name == name));
        }
    }
}

/// The fields whose types are unknown are reported type by type and in their
/// order, each with the type that has it and the name of its own type.
pub proof fn law_unknown_field_types(doc: Seq<DefinitionView>)
    ensures
        validation::field_errors(doc) == seqs::flat_map(
            document::type_fields(doc),
            |t: TypeFieldsView|
                t.fields.filter(
                    |f: FieldView| !is_field_type(doc, f.field_type.base()),
                ).map_values(
                    |f: FieldView|
                        SchemaValidationErrorView::FieldTypeUnknown(
                            t.name,
                            f.name,
                            f.field_type.base(),
                        ),
                ),
        ),
{
    let types = document::type_fields(doc);
    let f = validation::unknown_field_types(doc);
    let g = |t: TypeFieldsView|
        t.fields.filter(|f: FieldView| !is_field_type(doc, f.field_type.base())).map_values(
            |f: FieldView|
                SchemaValidationErrorView::FieldTypeUnknown(t.name, f.name, f.field_type.base()),
        );
    assert forall|i: int| 0 <= i < types.len() implies f(#[trigger] types[i]) == g(types[i]) by {
        let t = types[i];
        let wrong = validation::unknown_field_type(doc, t.name);
        let p = |f: FieldView| !is_field_type(doc, f.field_type.base());
        let e = |f: FieldView|
            SchemaValidationErrorView::FieldTypeUnknown(t.name, f.name, f.field_type.base());
        assert forall|j: int| 0 <= j < t.fields.len() implies wrong(#[trigger] t.fields[j]) == if p(
            t.fields[j],
        ) {
            Some(e(t.fields[j]))
        } else {
            None
        } by {
            law_known_types(doc, t.fields[j].field_type.base());
        }
        seqs::lemma_collect_filter(t.fields, wrong, p, e);
    }
    seqs::lemma_flat_map_same(types, types, f, g);
}

/// Whether an object type has an id, and of which type: `ID` is `String`.
pub open spec fn id_of(t: ObjectTypeView, name: Seq<char>) -> bool {
    document::field(t.fields, "id"@) matches Some(f) && {
        ||| f.field_type.base() == "ID"@ && name == "String"@
        ||| f.field_type.base() != "ID"@ && name == f.field_type.base()
    }
}

/// Whether two types in a list have ids of different types.
pub open spec fn mixes_ids(objects: Seq<ObjectTypeView>) -> bool {
    exists|i: int, j: int, a: Seq<char>, b: Seq<char>|
        0 <= i < objects.len() && 0 <= j < objects.len() && #[trigger] id_of(objects[i], a)
            && #[trigger] id_of(objects[j], b) && a != b
}

proof fn lemma_id_type(t: ObjectTypeView, name: Seq<char>)
    ensures
        validation::id_type()(t) == Some(name) <==> id_of(t, name),
{
}

/// One item more is one more of the distinct items exactly where it was not among
/// them before.
pub proof fn law_distinct(s: Seq<Seq<char>>, x: Seq<char>)
    ensures
        validation::distinct(Seq::empty()) == Seq::<Seq<char>>::empty(),
        validation::distinct(s.push(x)) == if s.contains(x) {
            validation::distinct(s)
        } else {
            validation::distinct(s).push(x)
        },
{
    lemma_distinct(s, x);
    assert(s.push(x).drop_last() =~= s);
}

proof fn lemma_distinct_no_duplicates(s: Seq<Seq<char>>)
    ensures
        validation::distinct(s).no_duplicates(),
    decreases s.len(),
{
    if s.len() > 0 {
        lemma_distinct_no_duplicates(s.drop_last());
    }
}

proof fn lemma_mixed(g: (Seq<char>, Seq<ObjectTypeView>))
    ensures
        validation::mixed_ids()(g) is Some <==> mixes_ids(g.1),
{
    let objects = g.1;
    let f = validation::id_type();
    let all = seqs::collect(objects, f);
    let some = validation::distinct(all);
    if mixes_ids(objects) {
        let (i, j, a, b) = choose|i: int, j: int, a: Seq<char>, b: Seq<char>|
            0 <= i < objects.len() && 0 <= j < objects.len() && #[trigger] id_of(objects[i], a)
                && #[trigger] id_of(objects[j], b) && a != b;
        lemma_id_type(objects[i], a);
        lemma_id_type(objects[j], b);
        assert(f(objects[i]) == Some(a) && f(objects[j]) == Some(b));
        seqs::lemma_collect_contains(objects, f, a);
        seqs::lemma_collect_contains(objects, f, b);
        lemma_distinct(all, a);
        lemma_distinct(all, b);
        let m = choose|m: int| 0 <= m < some.len() && some[m] == a;
        let n = choose|n: int| 0 <= n < some.len() && some[n] == b;
        assert(m != n);
    }
    if some.len() > 1 {
        lemma_distinct_no_duplicates(all);
        let a = some[0];
        let b = some[1];
        assert(some.contains(a) && some.contains(b));
        lemma_distinct(all, a);
        lemma_distinct(all, b);
        seqs::lemma_collect_contains(objects, f, a);
        seqs::lemma_collect_contains(objects, f, b);
        let i = choose|i: int| 0 <= i < objects.len() && #[trigger] f(objects[i]) == Some(a);
        let j = choose|j: int| 0 <= j < objects.len() && #[trigger] f(objects[j]) == Some(b);
        lemma_id_type(objects[i], a);
        lemma_id_type(objects[j], b);
        assert(id_of(objects[i], a) && id_of(objects[j], b) && a != b);
    }
}

/// The types of ids are reported exactly where two types that implement one
/// interface have ids of different types.
pub proof fn law_mixed_ids(types_for_interface: Groups<ObjectTypeView>)
    ensures
        validation::interface_id_error(types_for_interface) is None <==> forall|k: int|
            0 <= k < types_for_interface.len() ==> !mixes_ids(
                (#[trigger] types_for_interface[k]).1,
            ),
{
    let f = validation::mixed_ids();
    seqs::lemma_find_map_some(types_for_interface, f);
    assert forall|k: int| 0 <= k < types_for_interface.len() implies f(
        #[trigger] types_for_interface[k],
    ) is Some == mixes_ids(types_for_interface[k].1) by {
        lemma_mixed(types_for_interface[k]);
    }
    if validation::interface_id_error(types_for_interface) is None {
        assert forall|k: int| 0 <= k < types_for_interface.len() implies !mixes_ids(
            (#[trigger] types_for_interface[k]).1,
        ) by {
            assert(f(types_for_interface[k]) is None);
        }
    }
}

/// The first interface whose types mix their ids is reported with the types of the
/// ids, each once and in the order in which they first occur.
pub proof fn law_first_mixed_ids(types_for_interface: Groups<ObjectTypeView>, k: int)
    requires
        0 <= k < types_for_interface.len(),
        mixes_ids(types_for_interface[k].1),
        forall|m: int| 0 <= m < k ==> !mixes_ids((#[trigger] types_for_interface[m]).1),
    ensures
        validation::interface_id_error(types_for_interface) == Some(
            SchemaValidationErrorView::InterfaceImplementorsMixId(
                types_for_interface[k].0,
                text::joined(
                    validation::distinct(
                        types_for_interface[k].1.filter(
                            |t: ObjectTypeView| document::field(t.fields, "id"@) is Some,
                        ).map_values(
                            |t: ObjectTypeView|
                                {
                                    let base = document::field(
                                        t.fields,
                                        "id"@,
                                    )->0.field_type.base();
                                    if base == "ID"@ {
                                        "String"@
                                    } else {
                                        base
                                    }
                                },
                        ),
                    ),
                    ", "@,
                ),
            ),
        ),
{
    let f = validation::mixed_ids();
    let objects = types_for_interface[k].1;
    lemma_mixed(types_for_interface[k]);
    assert forall|m: int| 0 <= m < k implies (#[trigger] f(types_for_interface[m])) is None by {
        lemma_mixed(types_for_interface[m]);
        assert(!mixes_ids(types_for_interface[m].1));
    }
    seqs::lemma_find_map_at(types_for_interface, f, k);
    seqs::lemma_collect_filter(
        objects,
        validation::id_type(),
        |t: ObjectTypeView| document::field(t.fields, "id"@) is Some,
        |t: ObjectTypeView|
            {
                let base = document::field(t.fields, "id"@)->0.field_type.base();
                if base == "ID"@ {
                    "String"@
                } else {
                    base
                }
            },
    );
}

/// What a check that finds one error at most adds.
pub open spec fn if_any(e: Option<SchemaValidationErrorView>) -> Seq<SchemaValidationErrorView> {
    if e is Some {
        seq![e->0]
    } else {
        Seq::empty()
    }
}

/// All that is wrong comes out, in the order of the checks: missing `@entity`
/// directives, `@derivedFrom` directives, fields of the `_Schema_` type, its
/// directives, reserved names, types of ids, types of fields and fulltext searches.
pub proof fn law_order_of_errors(
    doc: Seq<DefinitionView>,
    types_for_interface: Groups<ObjectTypeView>,
    taken: Seq<Seq<char>>,
)
    ensures
        schema::schema_errors(doc, types_for_interface, taken) == if_any(
            validation::schema_types_error(doc),
        ) + if_any(derived::derived_from_error(doc)) + if_any(
            validation::schema_type_fields_error(doc),
        ) + if_any(validation::schema_type_directives_error(doc)) + if_any(
            validation::reserved_types_error(doc),
        ) + if_any(validation::interface_id_error(types_for_interface)) + validation::field_errors(
            doc,
        ) + fulltext_validation::fulltext_errors(doc, taken),
{
    let all = seq![
        validation::schema_types_error(doc),
        derived::derived_from_error(doc),
        validation::schema_type_fields_error(doc),
        validation::schema_type_directives_error(doc),
        validation::reserved_types_error(doc),
        validation::interface_id_error(types_for_interface),
    ];
    let f = |e: Option<SchemaValidationErrorView>| e;
    seqs::lemma_collect_step(all, f, 0);
    seqs::lemma_collect_step(all, f, 1);
    seqs::lemma_collect_step(all, f, 2);
    seqs::lemma_collect_step(all, f, 3);
    seqs::lemma_collect_step(all, f, 4);
    seqs::lemma_collect_step(all, f, 5);
    seqs::lemma_take_all(all);
    assert(all.take(0) =~= Seq::empty());
    assert(seqs::collect(all, f) =~= if_any(all[0]) + if_any(all[1]) + if_any(all[2]) + if_any(
        all[3],
    ) + if_any(all[4]) + if_any(all[5]));
}

} // verus!
