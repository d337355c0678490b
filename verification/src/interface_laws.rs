//! What holds of the maps between types and the interfaces that they implement.
use vstd::prelude::*;
use crate::ast::{DefinitionView, FieldView, InterfaceTypeView, ObjectTypeView};
use crate::document;
use crate::errors::SchemaValidationErrorView;
use crate::interfaces;
use crate::parser;
use crate::schema::Schema;
use crate::seqs;
use crate::text;
use crate::type_map;

verus! {

/// A type and a name are an implementation exactly where a document has the type
/// and the type says that it implements an interface with the name.
proof fn lemma_implementation(
    doc: Seq<DefinitionView>,
    object: ObjectTypeView,
    name: Seq<char>,
)
    ensures
        interfaces::implementations(doc).contains((object, name)) <==> (document::object_types(
            doc,
        ).contains(object) && object.implements_interfaces.contains(name)),
{
    let all = document::object_types(doc);
    let f = interfaces::object_implementations();
    let p = (object, name);
    seqs::lemma_flat_map_contains(all, f, p);
    if interfaces::implementations(doc).contains(p) {
        let i = choose|i: int| 0 <= i < all.len() && (#[trigger] f(all[i])).contains(p);
        let here = f(all[i]);
        let j = choose|j: int| 0 <= j < here.len() && here[j] == p;
        assert(all[i].implements_interfaces[j] == name);
        assert(all[i] == object);
    }
    if all.contains(object) && object.implements_interfaces.contains(name) {
        let i = choose|i: int| 0 <= i < all.len() && all[i] == object;
        let j = choose|j: int|
            0 <= j < object.implements_interfaces.len() && object.implements_interfaces[j] == name;
        assert(f(all[i])[j] == p);
        assert(f(all[i]).contains(p));
    }
}

/// What is found under a name has it.
proof fn lemma_interface_name(doc: Seq<DefinitionView>, name: Seq<char>)
    ensures
        document::interface_type(doc, name) matches Some(t) ==> t.name == name,
{
    if document::interface_type(doc, name) is Some {
        seqs::lemma_find_map_first(doc, document::interface_named(name));
    }
}

/// Where a schema comes about, each type has all fields of each interface that it
/// says it implements, with the same names and types.
pub proof fn law_types_have_the_fields_of_interfaces(
    doc: Seq<DefinitionView>,
    object: ObjectTypeView,
    name: Seq<char>,
)
    requires
        interfaces::interfaces_error(doc) is None,
        document::object_types(doc).contains(object),
        object.implements_interfaces.contains(name),
    ensures
        document::interface_type(doc, name) matches Some(interface) && forall|i: int|
            0 <= i < interface.fields.len() ==> seqs::some(
                object.fields,
                interfaces::like(#[trigger] interface.fields[i]),
            ),
{
    let all = document::object_types(doc);
    let wrong = interfaces::object_interfaces_error(doc);
    let i = choose|i: int| 0 <= i < all.len() && all[i] == object;
    seqs::lemma_find_map_some(all, wrong);
    assert(wrong(all[i]) is None);
    let names = object.implements_interfaces;
    let wrong_here = interfaces::named_implementation_error(doc, object);
    let j = choose|j: int| 0 <= j < names.len() && names[j] == name;
    seqs::lemma_find_map_some(names, wrong_here);
    assert(wrong_here(names[j]) is None);
    let interface = document::interface_type(doc, name)->0;
    let f = interfaces::missing_from(object.fields);
    seqs::lemma_collect_empty(interface.fields, f);
    assert forall|k: int| 0 <= k < interface.fields.len() implies seqs::some(
        object.fields,
        interfaces::like(#[trigger] interface.fields[k]),
    ) by {
        assert(f(interface.fields[k]) is None);
    }
}

/// A type that lacks a field of an interface which it says it implements keeps a
/// schema from coming about.
pub proof fn law_missing_fields_are_refused(
    doc: Seq<DefinitionView>,
    object: ObjectTypeView,
    name: Seq<char>,
)
    requires
        document::object_types(doc).contains(object),
        object.implements_interfaces.contains(name),
        document::interface_type(doc, name) matches Some(interface) ==> exists|i: int|
            0 <= i < interface.fields.len() && !seqs::some(
                object.fields,
                interfaces::like(#[trigger] interface.fields[i]),
            ),
    ensures
        interfaces::interfaces_error(doc) is Some,
{
    if interfaces::interfaces_error(doc) is None {
        law_types_have_the_fields_of_interfaces(doc, object, name);
    }
}

/// The map of the types that implement each interface has an entry for each
/// interface of the document, and for nothing else.
pub proof fn law_each_interface_has_an_entry(
    schema: Schema,
    id: Seq<char>,
    doc: Seq<DefinitionView>,
    name: Seq<char>,
)
    requires
        schema.is_for(id, doc),
    ensures
        type_map::group(schema.types_for_interface@, name) is Some <==> document::interface_type(
            doc,
            name,
        ) is Some,
{
}

/// A type is listed under an interface exactly where the document has both and
/// the type says that it implements the interface.
pub proof fn law_implementors(
    schema: Schema,
    id: Seq<char>,
    doc: Seq<DefinitionView>,
    object: ObjectTypeView,
    name: Seq<char>,
)
    requires
        schema.is_for(id, doc),
    ensures
        (type_map::group(schema.types_for_interface@, name) matches Some(objects)
            && objects.contains(object)) <==> (document::interface_type(doc, name) is Some
            && document::object_types(doc).contains(object)
            && object.implements_interfaces.contains(name)),
{
    let pairs = interfaces::implementations(doc);
    let f = interfaces::implementor_of(name);
    assert(type_map::group(schema.types_for_interface@, name) == interfaces::implementors_of(
        doc,
        pairs,
        name,
    ));
    seqs::lemma_collect_contains(pairs, f, object);
    lemma_implementation(doc, object, name);
    if pairs.contains((object, name)) {
        let i = choose|i: int| 0 <= i < pairs.len() && pairs[i] == (object, name);
        assert(f(pairs[i]) == Some(object));
    }
    if exists|i: int| 0 <= i < pairs.len() && #[trigger] f(pairs[i]) == Some(object) {
        let i = choose|i: int| 0 <= i < pairs.len() && #[trigger] f(pairs[i]) == Some(object);
        assert(pairs[i] == (object, name));
    }
}

/// An interface is listed under a type name exactly where the document has a type
/// with the name that says that it implements the interface.
pub proof fn law_interfaces(
    schema: Schema,
    id: Seq<char>,
    doc: Seq<DefinitionView>,
    interface: InterfaceTypeView,
    name: Seq<char>,
)
    requires
        schema.is_for(id, doc),
    ensures
        (type_map::group(schema.interfaces_for_type@, name) matches Some(interfaces)
            && interfaces.contains(interface)) <==> (document::interface_type(doc, interface.name)
            == Some(interface) && exists|object: ObjectTypeView| #[trigger]
            document::object_types(doc).contains(object) && object.name == name
                && object.implements_interfaces.contains(interface.name)),
{
    let pairs = interfaces::implementations(doc);
    let f = interfaces::interface_of(doc, name);
    assert(type_map::group(schema.interfaces_for_type@, name) == interfaces::interfaces_of(
        doc,
        pairs,
        name,
    ));
    seqs::lemma_collect_contains(pairs, f, interface);
    if exists|i: int| 0 <= i < pairs.len() && #[trigger] f(pairs[i]) == Some(interface) {
        let i = choose|i: int| 0 <= i < pairs.len() && #[trigger] f(pairs[i]) == Some(interface);
        lemma_interface_name(doc, pairs[i].1);
        assert(pairs.contains((pairs[i].0, pairs[i].1)));
        lemma_implementation(doc, pairs[i].0, pairs[i].1);
        assert(document::object_types(doc).contains(pairs[i].0));
    }
    if document::interface_type(doc, interface.name) == Some(interface) && exists|
        object: ObjectTypeView,
    | #[trigger]
        document::object_types(doc).contains(object) && object.name == name
            && object.implements_interfaces.contains(interface.name) {
        let object = choose|object: ObjectTypeView| #[trigger]
            document::object_types(doc).contains(object) && object.name == name
                && object.implements_interfaces.contains(interface.name);
        lemma_implementation(doc, object, interface.name);
        let i = choose|i: int| 0 <= i < pairs.len() && pairs[i] == (object, interface.name);
        assert(f(pairs[i]) == Some(interface));
        assert(seqs::collect(pairs, f).contains(interface));
    }
}

/// There is no list of interfaces for a type name exactly where no type with the
/// name says that it implements an interface.
pub proof fn law_no_list_without_interfaces(
    schema: Schema,
    id: Seq<char>,
    doc: Seq<DefinitionView>,
    name: Seq<char>,
)
    requires
        schema.is_for(id, doc),
        interfaces::interfaces_error(doc) is None,
    ensures
        type_map::group(schema.interfaces_for_type@, name) is None <==> forall|
            object: ObjectTypeView,
        |
            #[trigger] document::object_types(doc).contains(object) && object.name == name
                ==> object.implements_interfaces.len() == 0,
{
    let pairs = interfaces::implementations(doc);
    let f = interfaces::interface_of(doc, name);
    assert(type_map::group(schema.interfaces_for_type@, name) == interfaces::interfaces_of(
        doc,
        pairs,
        name,
    ));
    seqs::lemma_collect_empty(pairs, f);
    if type_map::group(schema.interfaces_for_type@, name) is None {
        assert forall|object: ObjectTypeView| #[trigger]
            document::object_types(doc).contains(object) && object.name
                == name implies object.implements_interfaces.len() == 0 by {
            if object.implements_interfaces.len() > 0 {
                let interface = object.implements_interfaces[0];
                assert(object.implements_interfaces.contains(interface));
                law_types_have_the_fields_of_interfaces(doc, object, interface);
                lemma_implementation(doc, object, interface);
                let i = choose|i: int| 0 <= i < pairs.len() && pairs[i] == (object, interface);
                assert(f(pairs[i]) is Some);
            }
        }
    }
    if forall|object: ObjectTypeView|
        #[trigger] document::object_types(doc).contains(object) && object.name == name
            ==> object.implements_interfaces.len() == 0 {
        assert forall|i: int| 0 <= i < pairs.len() implies (#[trigger] f(pairs[i])) is None by {
            assert(pairs.contains((pairs[i].0, pairs[i].1)));
            lemma_implementation(doc, pairs[i].0, pairs[i].1);
        }
    }
}

/// The two maps agree: a type with one name is listed under an interface exactly
/// where the interface is listed under the name of the type.
pub proof fn law_maps_agree(
    schema: Schema,
    id: Seq<char>,
    doc: Seq<DefinitionView>,
    object_name: Seq<char>,
    interface_name: Seq<char>,
)
    requires
        schema.is_for(id, doc),
    ensures
        (exists|object: ObjectTypeView|
            object.name == object_name && type_map::group_or_empty(
                schema.types_for_interface@,
                interface_name,
            ).contains(object)) <==> (exists|interface: InterfaceTypeView|
            interface.name == interface_name && type_map::group_or_empty(
                schema.interfaces_for_type@,
                object_name,
            ).contains(interface)),
{
    let objects = type_map::group_or_empty(schema.types_for_interface@, interface_name);
    let listed = type_map::group_or_empty(schema.interfaces_for_type@, object_name);
    lemma_interface_name(doc, interface_name);
    if exists|object: ObjectTypeView| object.name == object_name && objects.contains(object) {
        let object = choose|object: ObjectTypeView|
            object.name == object_name && objects.contains(object);
        law_implementors(schema, id, doc, object, interface_name);
        let interface = document::interface_type(doc, interface_name)->0;
        assert(document::object_types(doc).contains(object));
        law_interfaces(schema, id, doc, interface, object_name);
        assert(listed.contains(interface));
    }
    if exists|interface: InterfaceTypeView|
        interface.name == interface_name && listed.contains(interface) {
        let interface = choose|interface: InterfaceTypeView|
            interface.name == interface_name && listed.contains(interface);
        law_interfaces(schema, id, doc, interface, object_name);
        let object = choose|object: ObjectTypeView| #[trigger]
            document::object_types(doc).contains(object) && object.name == object_name
                && object.implements_interfaces.contains(interface_name);
        law_implementors(schema, id, doc, object, interface_name);
        assert(objects.contains(object));
    }
}

/// The maps of a schema are determined by the document.
pub proof fn law_maps_are_determined(
    a: Schema,
    b: Schema,
    id: Seq<char>,
    other: Seq<char>,
    doc: Seq<DefinitionView>,
)
    requires
        a.is_for(id, doc),
        b.is_for(other, doc),
    ensures
        a.types_for_interface@ == b.types_for_interface@,
        a.interfaces_for_type@ == b.interfaces_for_type@,
{
    let pairs = interfaces::implementations(doc);
    assert forall|name: Seq<char>| #[trigger]
        type_map::group(a.types_for_interface@, name) == type_map::group(
            b.types_for_interface@,
            name,
        ) by {
        assert(type_map::group(b.types_for_interface@, name) == interfaces::implementors_of(
            doc,
            pairs,
            name,
        ));
    }
    assert forall|name: Seq<char>| #[trigger]
        type_map::group(a.interfaces_for_type@, name) == type_map::group(
            b.interfaces_for_type@,
            name,
        ) by {
        assert(type_map::group(b.interfaces_for_type@, name) == interfaces::interfaces_of(
            doc,
            pairs,
            name,
        ));
    }
    type_map::lemma_determined(a.types_for_interface@, b.types_for_interface@);
    type_map::lemma_determined(a.interfaces_for_type@, b.interfaces_for_type@);
}

/// A field as it is printed, if none of `fields` has its name and type.
pub open spec fn printed_missing_from(fields: Seq<FieldView>) -> spec_fn(FieldView) -> Option<
    Seq<char>,
> {
    |f: FieldView|
        if seqs::some(fields, interfaces::like(f)) {
            None
        } else {
            Some(
                text::trimmed(
                    parser::printed_field(
                        f.description,
                        f.name,
                        f.arguments,
                        f.field_type,
                        f.directives,
                    ),
                ),
            )
        }
}

/// In a document in which the text of each field fits, as it does in one that was
/// read, the fields that an object type lacks are reported as they are printed.
pub proof fn law_missing_fields_are_printed(
    doc: Seq<DefinitionView>,
    object: ObjectTypeView,
    name: Seq<char>,
)
    requires
        parser::texts_fit(doc),
    ensures
        document::interface_type(doc, name) matches Some(interface) ==> interfaces::missing_fields(
            object,
            interface,
        ) == seqs::collect(interface.fields, printed_missing_from(object.fields)),
{
    if let Some(interface) = document::interface_type(doc, name) {
        let i = seqs::lemma_find_map_first(doc, document::interface_named(name));
        assert(parser::definition_texts_fit(doc[i]));
        seqs::lemma_collect_same(
            interface.fields,
            interface.fields,
            interfaces::missing_from(object.fields),
            printed_missing_from(object.fields),
        );
    }
}

/// Whether an object type has a field with the name and the type of `f`.
pub open spec fn has_field(object: ObjectTypeView, f: FieldView) -> bool {
    exists|j: int|
        0 <= j < object.fields.len() && (#[trigger] object.fields[j]).name == f.name
            && object.fields[j].field_type == f.field_type
}

/// Whether an object type has a field with the name and the type of each field of
/// an interface.
pub open spec fn has_fields_of(object: ObjectTypeView, interface: InterfaceTypeView) -> bool {
    forall|i: int| 0 <= i < interface.fields.len() ==> has_field(object, #[trigger] interface.fields[i])
}

proof fn lemma_has_field(object: ObjectTypeView, f: FieldView)
    ensures
        seqs::some(object.fields, interfaces::like(f)) == has_field(object, f),
{
    let p = interfaces::like(f);
    if seqs::some(object.fields, p) {
        let j = choose|j: int| 0 <= j < object.fields.len() && #[trigger] p(object.fields[j]);
        assert(object.fields[j].name == f.name && object.fields[j].field_type == f.field_type);
    }
    if has_field(object, f) {
        let j = choose|j: int|
            0 <= j < object.fields.len() && (#[trigger] object.fields[j]).name == f.name
                && object.fields[j].field_type == f.field_type;
        assert(p(object.fields[j]));
    }
}

/// An object type implements an interface exactly where it has a field with the
/// name and the type of each field of the interface; nothing else of the fields
/// counts. Otherwise the fields are reported, in their order, that it does not
/// have.
pub proof fn law_implements(object: ObjectTypeView, interface: InterfaceTypeView)
    ensures
        interfaces::implementation_error(object, interface) is None <==> has_fields_of(
            object,
            interface,
        ),
        !has_fields_of(object, interface) ==> interfaces::implementation_error(object, interface)
            == Some(
            SchemaValidationErrorView::InterfaceFieldsMissing(
                object.name,
                interface.name,
                interface.fields.filter(|f: FieldView| !has_field(object, f)).map_values(
                    |f: FieldView| text::trimmed(f.text),
                ),
            ),
        ),
{
    let f = interfaces::missing_from(object.fields);
    let all = interface.fields;
    seqs::lemma_collect_empty(all, f);
    assert forall|i: int| 0 <= i < all.len() implies f(#[trigger] all[i]) == if !has_field(
        object,
        all[i],
    ) {
        Some(text::trimmed(all[i].text))
    } else {
        None
    } by {
        lemma_has_field(object, all[i]);
    }
    seqs::lemma_collect_filter(
        all,
        f,
        |f: FieldView| !has_field(object, f),
        |f: FieldView| text::trimmed(f.text),
    );
    if !has_fields_of(object, interface) {
        let i = choose|i: int| 0 <= i < all.len() && !has_field(object, #[trigger] all[i]);
        assert(f(all[i]) is Some);
    } else {
        assert forall|i: int| 0 <= i < all.len() implies (#[trigger] f(all[i])) is None by {
            assert(has_field(object, all[i]));
        }
    }
}

/// Whether an object type implements the interface with a name: the document
/// defines it, and the type has its fields.
pub open spec fn implements(
    doc: Seq<DefinitionView>,
    object: ObjectTypeView,
    name: Seq<char>,
) -> bool {
    document::interface_type(doc, name) matches Some(interface) && has_fields_of(object, interface)
}

proof fn lemma_implements(doc: Seq<DefinitionView>, object: ObjectTypeView, name: Seq<char>)
    ensures
        interfaces::named_implementation_error(doc, object)(name) is None <==> implements(
            doc,
            object,
            name,
        ),
{
    if let Some(interface) = document::interface_type(doc, name) {
        law_implements(object, interface);
    }
}

/// A document gives a schema exactly where each of its object types implements
/// each interface that it says it implements.
pub proof fn law_schemas_come_about(doc: Seq<DefinitionView>)
    ensures
        interfaces::interfaces_error(doc) is None <==> forall|i: int, j: int|
            #![trigger document::object_types(doc)[i].implements_interfaces[j]]
            0 <= i < document::object_types(doc).len() && 0 <= j < document::object_types(
                doc,
            )[i].implements_interfaces.len() ==> implements(
                doc,
                document::object_types(doc)[i],
                document::object_types(doc)[i].implements_interfaces[j],
            ),
{
    let all = document::object_types(doc);
    let wrong = interfaces::object_interfaces_error(doc);
    seqs::lemma_find_map_some(all, wrong);
    if interfaces::interfaces_error(doc) is None {
        assert forall|i: int, j: int|
            #![trigger all[i].implements_interfaces[j]]
            0 <= i < all.len() && 0 <= j < all[i].implements_interfaces.len() implies implements(
            doc,
            all[i],
            all[i].implements_interfaces[j],
        ) by {
            assert(wrong(all[i]) is None);
            let names = all[i].implements_interfaces;
            let f = interfaces::named_implementation_error(doc, all[i]);
            seqs::lemma_find_map_some(names, f);
            assert(f(names[j]) is None);
            lemma_implements(doc, all[i], names[j]);
        }
    }
    if forall|i: int, j: int|
        #![trigger all[i].implements_interfaces[j]]
        0 <= i < all.len() && 0 <= j < all[i].implements_interfaces.len() ==> implements(
            doc,
            all[i],
            all[i].implements_interfaces[j],
        ) {
        assert forall|i: int| 0 <= i < all.len() implies (#[trigger] wrong(all[i])) is None by {
            let names = all[i].implements_interfaces;
            let f = interfaces::named_implementation_error(doc, all[i]);
            seqs::lemma_find_map_some(names, f);
            assert forall|j: int| 0 <= j < names.len() implies (#[trigger] f(names[j])) is None by {
                lemma_implements(doc, all[i], all[i].implements_interfaces[j]);
            }
        }
    }
}

/// Where the object type at `i` does not implement the interface at `j` of those
/// it says it implements, and nothing before is wrong, that is what is reported:
/// the interface is not defined, or fields of it are missing.
pub proof fn law_first_wrong_implementation(doc: Seq<DefinitionView>, i: int, j: int)
    requires
        0 <= i < document::object_types(doc).len(),
        0 <= j < document::object_types(doc)[i].implements_interfaces.len(),
        !implements(
            doc,
            document::object_types(doc)[i],
            document::object_types(doc)[i].implements_interfaces[j],
        ),
        forall|a: int, b: int|
            #![trigger document::object_types(doc)[a].implements_interfaces[b]]
            0 <= a < document::object_types(doc).len() && 0 <= b < document::object_types(
                doc,
            )[a].implements_interfaces.len() && (a < i || (a == i && b < j)) ==> implements(
                doc,
                document::object_types(doc)[a],
                document::object_types(doc)[a].implements_interfaces[b],
            ),
    ensures
        ({
            let object = document::object_types(doc)[i];
            let name = object.implements_interfaces[j];
            match document::interface_type(doc, name) {
                None => interfaces::interfaces_error(doc) == Some(
                    SchemaValidationErrorView::InterfaceUndefined(name),
                ),
                Some(interface) => interfaces::interfaces_error(doc)
                    == interfaces::implementation_error(object, interface),
            }
        }),
{
    let all = document::object_types(doc);
    let wrong = interfaces::object_interfaces_error(doc);
    let object = all[i];
    let names = object.implements_interfaces;
    let f = interfaces::named_implementation_error(doc, object);
    lemma_implements(doc, object, names[j]);
    assert forall|b: int| 0 <= b < j implies (#[trigger] f(names[b])) is None by {
        lemma_implements(doc, object, all[i].implements_interfaces[b]);
    }
    seqs::lemma_find_map_at(names, f, j);
    assert forall|a: int| 0 <= a < i implies (#[trigger] wrong(all[a])) is None by {
        let before = all[a].implements_interfaces;
        let g = interfaces::named_implementation_error(doc, all[a]);
        seqs::lemma_find_map_some(before, g);
        assert forall|b: int| 0 <= b < before.len() implies (#[trigger] g(before[b])) is None by {
            lemma_implements(doc, all[a], all[a].implements_interfaces[b]);
        }
    }
    seqs::lemma_find_map_at(all, wrong, i);
}

/// The types that are listed under an interface come in the order of the document,
/// each as often as it names the interface.
pub proof fn law_implementors_in_order(
    schema: Schema,
    id: Seq<char>,
    doc: Seq<DefinitionView>,
    name: Seq<char>,
)
    requires
        schema.is_for(id, doc),
        document::interface_type(doc, name) is Some,
    ensures
        type_map::group(schema.types_for_interface@, name) == Some(
            seqs::flat_map(
                document::object_types(doc),
                |t: ObjectTypeView|
                    t.implements_interfaces.filter(|n: Seq<char>| n == name).map_values(
                        |n: Seq<char>| t,
                    ),
            ),
        ),
{
    let pairs = interfaces::implementations(doc);
    let all = document::object_types(doc);
    let g = |t: ObjectTypeView|
        t.implements_interfaces.filter(|n: Seq<char>| n == name).map_values(|n: Seq<char>| t);
    assert(type_map::group(schema.types_for_interface@, name) == interfaces::implementors_of(
        doc,
        pairs,
        name,
    ));
    lemma_implementors_listed(all, name, g);
}

proof fn lemma_implementors_listed(
    all: Seq<ObjectTypeView>,
    name: Seq<char>,
    g: spec_fn(ObjectTypeView) -> Seq<ObjectTypeView>,
)
    requires
        forall|t: ObjectTypeView| #[trigger]
            g(t) == t.implements_interfaces.filter(|n: Seq<char>| n == name).map_values(
                |n: Seq<char>| t,
            ),
    ensures
        seqs::collect(
            seqs::flat_map(all, interfaces::object_implementations()),
            interfaces::implementor_of(name),
        ) == seqs::flat_map(all, g),
    decreases all.len(),
{
    let h = interfaces::object_implementations();
    let f = interfaces::implementor_of(name);
    if all.len() > 0 {
        let t = all.last();
        let names = t.implements_interfaces;
        lemma_implementors_listed(all.drop_last(), name, g);
        seqs::lemma_collect_add(seqs::flat_map(all.drop_last(), h), h(t), f);
        let k = |n: Seq<char>|
            if n == name {
                Some(t)
            } else {
                None
            };
        seqs::lemma_collect_same(names, h(t), k, f);
        seqs::lemma_collect_filter(names, k, |n: Seq<char>| n == name, |n: Seq<char>| t);
    }
}

/// The interfaces that are listed under a type name are those that the types with
/// the name say they implement, in their order.
pub proof fn law_interfaces_in_order(
    schema: Schema,
    id: Seq<char>,
    doc: Seq<DefinitionView>,
    name: Seq<char>,
)
    requires
        schema.is_for(id, doc),
        interfaces::interfaces_error(doc) is None,
    ensures
        type_map::group_or_empty(schema.interfaces_for_type@, name) == seqs::flat_map(
            document::object_types(doc),
            |t: ObjectTypeView|
                if t.name == name {
                    t.implements_interfaces.map_values(
                        |n: Seq<char>| document::interface_type(doc, n)->0,
                    )
                } else {
                    Seq::empty()
                },
        ),
{
    let pairs = interfaces::implementations(doc);
    let all = document::object_types(doc);
    let g = |t: ObjectTypeView|
        if t.name == name {
            t.implements_interfaces.map_values(|n: Seq<char>| document::interface_type(doc, n)->0)
        } else {
            Seq::empty()
        };
    assert(type_map::group(schema.interfaces_for_type@, name) == interfaces::interfaces_of(
        doc,
        pairs,
        name,
    ));
    law_schemas_come_about(doc);
    assert forall|i: int, j: int|
        #![trigger all[i].implements_interfaces[j]]
        0 <= i < all.len() && 0 <= j
            < all[i].implements_interfaces.len() implies document::interface_type(
        doc,
        all[i].implements_interfaces[j],
    ) is Some by {
        assert(implements(doc, all[i], document::object_types(doc)[i].implements_interfaces[j]));
    }
    lemma_interfaces_listed(doc, all, name, g);
    if seqs::collect(pairs, interfaces::interface_of(doc, name)).len() == 0 {
        assert(seqs::collect(pairs, interfaces::interface_of(doc, name)) =~= Seq::empty());
    }
}

proof fn lemma_interfaces_listed(
    doc: Seq<DefinitionView>,
    all: Seq<ObjectTypeView>,
    name: Seq<char>,
    g: spec_fn(ObjectTypeView) -> Seq<InterfaceTypeView>,
)
    requires
        forall|t: ObjectTypeView| #[trigger]
            g(t) == if t.name == name {
                t.implements_interfaces.map_values(
                    |n: Seq<char>| document::interface_type(doc, n)->0,
                )
            } else {
                Seq::empty()
            },
        forall|i: int, j: int|
            #![trigger all[i].implements_interfaces[j]]
            0 <= i < all.len() && 0 <= j < all[i].implements_interfaces.len()
                ==> document::interface_type(doc, all[i].implements_interfaces[j]) is Some,
    ensures
        seqs::collect(
            seqs::flat_map(all, interfaces::object_implementations()),
            interfaces::interface_of(doc, name),
        ) == seqs::flat_map(all, g),
    decreases all.len(),
{
    let h = interfaces::object_implementations();
    let f = interfaces::interface_of(doc, name);
    if all.len() > 0 {
        let t = all.last();
        let front = all.drop_last();
        assert forall|i: int, j: int|
            #![trigger front[i].implements_interfaces[j]]
            0 <= i < front.len() && 0 <= j
                < front[i].implements_interfaces.len() implies document::interface_type(
            doc,
            front[i].implements_interfaces[j],
        ) is Some by {
            assert(document::interface_type(doc, all[i].implements_interfaces[j]) is Some);
        }
        lemma_interfaces_listed(doc, front, name, g);
        seqs::lemma_collect_add(seqs::flat_map(front, h), h(t), f);
        let names = t.implements_interfaces;
        assert forall|j: int| 0 <= j < names.len() implies document::interface_type(
            doc,
            #[trigger] names[j],
        ) is Some by {
            assert(document::interface_type(
                doc,
                all[all.len() - 1].implements_interfaces[j],
            ) is Some);
        }
        let wanted = |p: (ObjectTypeView, Seq<char>)| p.0.name == name;
        let found = |p: (ObjectTypeView, Seq<char>)| document::interface_type(doc, p.1)->0;
        assert forall|j: int| 0 <= j < h(t).len() implies f(#[trigger] h(t)[j]) == if wanted(
            h(t)[j],
        ) {
            Some(found(h(t)[j]))
        } else {
            None
        } by {
            assert(h(t)[j] == (t, names[j]));
        }
        seqs::lemma_collect_filter(h(t), f, wanted, found);
        lemma_filter_all(h(t), wanted, t.name == name);
        assert(seqs::collect(h(t), f) =~= g(t));
    }
}

/// A filter that lets everything or nothing through.
proof fn lemma_filter_all<A>(s: Seq<A>, p: spec_fn(A) -> bool, all: bool)
    requires
        forall|i: int| 0 <= i < s.len() ==> p(#[trigger] s[i]) == all,
    ensures
        s.filter(p) == if all {
            s
        } else {
            Seq::empty()
        },
    decreases s.len(),
{
    reveal(Seq::filter);
    if s.len() > 0 {
        let front = s.drop_last();
        assert forall|i: int| 0 <= i < front.len() implies p(#[trigger] front[i]) == all by {
            assert(p(s[i]) == all);
        }
        lemma_filter_all(front, p, all);
        assert(p(s[s.len() - 1]) == all);
        assert(front.push(s.last()) =~= s);
    } else {
        assert(s =~= Seq::empty());
    }
}

/// The maps of a schema list types and interfaces in the order of their names, each
/// once.
pub proof fn law_names_in_order(
    schema: Schema,
    id: Seq<char>,
    doc: Seq<DefinitionView>,
    i: int,
    j: int,
)
    requires
        schema.is_for(id, doc),
        i < j,
    ensures
        0 <= i && j < schema.types_for_interface@.len() ==> text::precedes(
            schema.types_for_interface@[i].0,
            schema.types_for_interface@[j].0,
        ),
        0 <= i && j < schema.interfaces_for_type@.len() ==> text::precedes(
            schema.interfaces_for_type@[i].0,
            schema.interfaces_for_type@[j].0,
        ),
{
}

} // verus!
