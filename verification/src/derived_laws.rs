//! What `@derivedFrom` directives have to say, and what is reported where they do
//! not.
use vstd::prelude::*;
use crate::ast::{
    DefinitionView, DirectiveView, FieldView, InterfaceTypeView, ObjectTypeView,
    TypeDefinitionView, ValueView,
};
use crate::derived;
use crate::document;
use crate::document_laws;
use crate::errors::SchemaValidationErrorView;
use crate::seqs;
use crate::text;

verus! {

/// Whether the document defines the interface with a name and gives it a field
/// with another.
pub open spec fn interface_has(
    doc: Seq<DefinitionView>,
    interface: Seq<char>,
    name: Seq<char>,
) -> bool {
    document::interface_type(doc, interface) matches Some(t) && document::field(t.fields, name)
        is Some
}

/// Whether a field leads back to an object type from its field with a name: the
/// type inside all lists and non-null marks is the object type, `ID`, or one of
/// its interfaces that has that field too.
pub open spec fn leads_back(
    doc: Seq<DefinitionView>,
    object: ObjectTypeView,
    name: Seq<char>,
    target: FieldView,
) -> bool {
    ||| target.field_type.base() == object.name
    ||| target.field_type.base() == "ID"@
    ||| exists|k: int|
        0 <= k < object.implements_interfaces.len() && #[trigger] object.implements_interfaces[k]
            == target.field_type.base() && interface_has(
            doc,
            object.implements_interfaces[k],
            name,
        )
}

/// Whether a field without a `@derivedFrom` directive is given, or one whose
/// directive names, by a string, a field of its type that leads back.
pub open spec fn is_derived_well(
    doc: Seq<DefinitionView>,
    object: ObjectTypeView,
    field: FieldView,
) -> bool {
    document::directive(field.directives, "derivedFrom"@) matches Some(d) ==> {
        &&& d.argument("field"@) matches Some(ValueView::String(name))
        &&& document::fields_of(doc, field.field_type.base()) matches Some(fields)
        &&& document::field(fields, name) matches Some(target)
        &&& leads_back(doc, object, field.name, target)
    }
}

proof fn lemma_leads_back(
    doc: Seq<DefinitionView>,
    object: ObjectTypeView,
    name: Seq<char>,
    back: Seq<char>,
)
    ensures
        derived::usable_interfaces(doc, object, name).contains(back) <==> exists|k: int|
            0 <= k < object.implements_interfaces.len()
                && #[trigger] object.implements_interfaces[k] == back && interface_has(
                doc,
                object.implements_interfaces[k],
                name,
            ),
        derived::usable_interfaces(doc, object, name) == object.implements_interfaces.filter(
            |n: Seq<char>| interface_has(doc, n, name),
        ),
{
    let names = object.implements_interfaces;
    let f = derived::interface_with_field(doc, name);
    seqs::lemma_collect_contains(names, f, back);
    seqs::lemma_collect_is_filter(names, f, |n: Seq<char>| interface_has(doc, n, name));
    if exists|k: int| 0 <= k < names.len() && #[trigger] f(names[k]) == Some(back) {
        let k = choose|k: int| 0 <= k < names.len() && #[trigger] f(names[k]) == Some(back);
        assert(names[k] == back && interface_has(doc, names[k], name));
    }
    if exists|k: int|
        0 <= k < names.len() && #[trigger] names[k] == back && interface_has(doc, names[k], name) {
        let k = choose|k: int|
            0 <= k < names.len() && #[trigger] names[k] == back && interface_has(
                doc,
                names[k],
                name,
            );
        assert(f(names[k]) == Some(back));
    }
}

proof fn lemma_derived_well(
    doc: Seq<DefinitionView>,
    object: ObjectTypeView,
    field: FieldView,
)
    ensures
        derived::field_error(doc, object)(field) is None <==> is_derived_well(doc, object, field),
{
    if let Some(d) = document::directive(field.directives, "derivedFrom"@) {
        if let Some(ValueView::String(name)) = d.argument("field"@) {
            if let Some(fields) = document::fields_of(doc, field.field_type.base()) {
                if let Some(target) = document::field(fields, name) {
                    lemma_leads_back(doc, object, field.name, target.field_type.base());
                }
            }
        }
    }
}

/// Nothing is wrong with the `@derivedFrom` directives of a document exactly where
/// each of them names a field that leads back.
pub proof fn law_derived_fields(doc: Seq<DefinitionView>)
    ensures
        derived::derived_from_error(doc) is None <==> forall|i: int, j: int|
            #![trigger document::object_types(doc)[i].fields[j]]
            0 <= i < document::object_types(doc).len() && 0 <= j < document::object_types(
                doc,
            )[i].fields.len() ==> is_derived_well(
                doc,
                document::object_types(doc)[i],
                document::object_types(doc)[i].fields[j],
            ),
{
    let all = document::object_types(doc);
    let wrong = derived::object_error(doc);
    seqs::lemma_find_map_some(all, wrong);
    if derived::derived_from_error(doc) is None {
        assert forall|i: int, j: int|
            #![trigger all[i].fields[j]]
            0 <= i < all.len() && 0 <= j < all[i].fields.len() implies is_derived_well(
            doc,
            all[i],
            all[i].fields[j],
        ) by {
            assert(wrong(all[i]) is None);
            let f = derived::field_error(doc, all[i]);
            seqs::lemma_find_map_some(all[i].fields, f);
            assert(f(all[i].fields[j]) is None);
            lemma_derived_well(doc, all[i], all[i].fields[j]);
        }
    }
    if forall|i: int, j: int|
        #![trigger all[i].fields[j]]
        0 <= i < all.len() && 0 <= j < all[i].fields.len() ==> is_derived_well(
            doc,
            all[i],
            all[i].fields[j],
        ) {
        assert forall|i: int| 0 <= i < all.len() implies (#[trigger] wrong(all[i])) is None by {
            let f = derived::field_error(doc, all[i]);
            seqs::lemma_find_map_some(all[i].fields, f);
            assert forall|j: int| 0 <= j < all[i].fields.len() implies (#[trigger] f(
                all[i].fields[j],
            )) is None by {
                lemma_derived_well(doc, all[i], all[i].fields[j]);
            }
        }
    }
}

/// The first field whose `@derivedFrom` directive is wrong is reported with its
/// object type and the first of these that holds: there is no `field` argument, it
/// is no string, the type of the field is no object type or interface, that has no
/// field with the name, or the field with the name does not lead back.
pub proof fn law_first_wrong_derived_field(
    doc: Seq<DefinitionView>,
    i: int,
    j: int,
    d: DirectiveView,
)
    requires
        0 <= i < document::object_types(doc).len(),
        0 <= j < document::object_types(doc)[i].fields.len(),
        document::directive(document::object_types(doc)[i].fields[j].directives, "derivedFrom"@)
            == Some(d),
        !is_derived_well(
            doc,
            document::object_types(doc)[i],
            document::object_types(doc)[i].fields[j],
        ),
        forall|a: int, b: int|
            #![trigger document::object_types(doc)[a].fields[b]]
            0 <= a < document::object_types(doc).len() && 0 <= b < document::object_types(
                doc,
            )[a].fields.len() && (a < i || (a == i && b < j)) ==> is_derived_well(
                doc,
                document::object_types(doc)[a],
                document::object_types(doc)[a].fields[b],
            ),
    ensures
        ({
            let object = document::object_types(doc)[i];
            let field = object.fields[j];
            let base = field.field_type.base();
            &&& derived::derived_from_error(doc) matches Some(
                SchemaValidationErrorView::InvalidDerivedFrom(object_name, field_name, reason),
            )
            &&& object_name == object.name
            &&& field_name == field.name
            &&& d.argument("field"@) is None ==> reason
                == "the @derivedFrom directive must have a `field` argument"@
            &&& (d.argument("field"@) matches Some(v) && !(v is String)) ==> reason
                == "the @derivedFrom `field` argument must be a string"@
            &&& d.argument("field"@) matches Some(ValueView::String(name)) ==> {
                &&& document::fields_of(doc, base) is None ==> reason
                    == "type must be an existing entity or interface"@
                &&& document::fields_of(doc, base) matches Some(fields) ==> {
                    &&& document::field(fields, name) is None ==> reason == "field `"@ + name
                        + "` does not exist on type `"@ + base + "`"@
                    &&& document::field(fields, name) is Some ==> reason == "field `"@ + name
                        + "` on type `"@ + base + "` must have one of the following types: "@
                        + text::joined(
                        seqs::flat_map(
                            seq![object.name] + object.implements_interfaces.filter(
                                |n: Seq<char>| interface_has(doc, n, field.name),
                            ),
                            |n: Seq<char>|
                                seq![n, n + "!"@, "["@ + n + "!]"@, "["@ + n + "!]!"@],
                        ),
                        ", "@,
                    )
                }
            }
        }),
{
    let all = document::object_types(doc);
    let wrong = derived::object_error(doc);
    let object = all[i];
    let field = object.fields[j];
    let f = derived::field_error(doc, object);
    lemma_derived_well(doc, object, field);
    assert forall|b: int| 0 <= b < j implies (#[trigger] f(object.fields[b])) is None by {
        lemma_derived_well(doc, object, all[i].fields[b]);
    }
    seqs::lemma_find_map_at(object.fields, f, j);
    assert forall|a: int| 0 <= a < i implies (#[trigger] wrong(all[a])) is None by {
        let g = derived::field_error(doc, all[a]);
        seqs::lemma_find_map_some(all[a].fields, g);
        assert forall|b: int| 0 <= b < all[a].fields.len() implies (#[trigger] g(
            all[a].fields[b],
        )) is None by {
            lemma_derived_well(doc, all[a], all[a].fields[b]);
        }
    }
    seqs::lemma_find_map_at(all, wrong, i);
    if let Some(ValueView::String(name)) = d.argument("field"@) {
        if let Some(fields) = document::fields_of(doc, field.field_type.base()) {
            if let Some(target) = document::field(fields, name) {
                document_laws::law_first_field(fields, name);
                lemma_leads_back(doc, object, field.name, target.field_type.base());
                let own = seq![object.name];
                let usable = object.implements_interfaces.filter(
                    |n: Seq<char>| interface_has(doc, n, field.name),
                );
                let forms = |n: Seq<char>|
                    seq![n, n + "!"@, "["@ + n + "!]"@, "["@ + n + "!]!"@];
                seqs::lemma_flat_map_add(own, usable, forms);
                seqs::lemma_flat_map_one(object.name, forms);
                assert forall|n: Seq<char>| forms(n) == #[trigger] derived::type_signatures()(
                    n,
                ) by {}
                seqs::lemma_flat_map_same(usable, usable, forms, derived::type_signatures());
            }
        }
    }
}

/// Whether two fields have the same name and directives, and types that differ in
/// their lists and non-null marks alone.
pub open spec fn alike_field(a: FieldView, b: FieldView) -> bool {
    a.name == b.name && a.directives == b.directives && a.field_type.base() == b.field_type.base()
}

/// Whether the fields of two lists are alike, one by one.
pub open spec fn alike_fields(a: Seq<FieldView>, b: Seq<FieldView>) -> bool {
    a.len() == b.len() && forall|i: int| 0 <= i < a.len() ==> alike_field(#[trigger] a[i], b[i])
}

/// Whether two definitions are those of object types or interfaces that differ in
/// the lists and non-null marks of their fields alone, or the same.
pub open spec fn alike(a: DefinitionView, b: DefinitionView) -> bool {
    match (a, b) {
        (
            DefinitionView::TypeDefinition(TypeDefinitionView::Object(x)),
            DefinitionView::TypeDefinition(TypeDefinitionView::Object(y)),
        ) => alike_object()(x, y),
        (
            DefinitionView::TypeDefinition(TypeDefinitionView::Interface(x)),
            DefinitionView::TypeDefinition(TypeDefinitionView::Interface(y)),
        ) => x.name == y.name && alike_fields(x.fields, y.fields),
        _ => a == b,
    }
}

/// Whether two object types differ in the lists and non-null marks of their fields
/// alone.
pub open spec fn alike_object() -> spec_fn(ObjectTypeView, ObjectTypeView) -> bool {
    |x: ObjectTypeView, y: ObjectTypeView|
        x.name == y.name && x.implements_interfaces == y.implements_interfaces && alike_fields(
            x.fields,
            y.fields,
        )
}

proof fn lemma_alike_field(a: Seq<FieldView>, b: Seq<FieldView>, name: Seq<char>)
    requires
        alike_fields(a, b),
    ensures
        match (document::field(a, name), document::field(b, name)) {
            (Some(x), Some(y)) => alike_field(x, y),
            (None, None) => true,
            _ => false,
        },
{
    let f = document::field_named(name);
    seqs::lemma_find_map_some(a, f);
    seqs::lemma_find_map_some(b, f);
    if document::field(a, name) is Some {
        let i = seqs::lemma_find_map_first(a, f);
        assert(alike_field(a[i], b[i]));
        assert forall|j: int| 0 <= j < i implies (#[trigger] f(b[j])) is None by {
            assert(f(a[j]) is None);
            assert(alike_field(a[j], b[j]));
        }
        seqs::lemma_find_map_at(b, f, i);
    } else if document::field(b, name) is Some {
        let i = seqs::lemma_find_map_first(b, f);
        assert(alike_field(a[i], b[i]));
        assert(f(a[i]) is Some);
    }
}

proof fn lemma_alike_interface(
    a: Seq<DefinitionView>,
    b: Seq<DefinitionView>,
    interface: Seq<char>,
    name: Seq<char>,
)
    requires
        a.len() == b.len(),
        forall|i: int| 0 <= i < a.len() ==> alike(#[trigger] a[i], b[i]),
    ensures
        interface_has(a, interface, name) == interface_has(b, interface, name),
{
    let f = document::interface_named(interface);
    seqs::lemma_find_map_some(a, f);
    seqs::lemma_find_map_some(b, f);
    if document::interface_type(a, interface) is Some {
        let i = seqs::lemma_find_map_first(a, f);
        assert(alike(a[i], b[i]));
        assert forall|j: int| 0 <= j < i implies (#[trigger] f(b[j])) is None by {
            assert(f(a[j]) is None);
            assert(alike(a[j], b[j]));
        }
        seqs::lemma_find_map_at(b, f, i);
        lemma_alike_field(f(a[i])->0.fields, f(b[i])->0.fields, name);
    } else if document::interface_type(b, interface) is Some {
        let i = seqs::lemma_find_map_first(b, f);
        assert(alike(a[i], b[i]));
        assert(f(a[i]) is Some);
    }
}

proof fn lemma_alike_fields_of(
    a: Seq<DefinitionView>,
    b: Seq<DefinitionView>,
    name: Seq<char>,
)
    requires
        a.len() == b.len(),
        forall|i: int| 0 <= i < a.len() ==> alike(#[trigger] a[i], b[i]),
    ensures
        match (document::fields_of(a, name), document::fields_of(b, name)) {
            (Some(x), Some(y)) => alike_fields(x, y),
            (None, None) => true,
            _ => false,
        },
    decreases a.len(),
{
    if a.len() > 0 {
        let x = a.drop_last();
        let y = b.drop_last();
        assert forall|i: int| 0 <= i < x.len() implies alike(#[trigger] x[i], y[i]) by {
            assert(alike(a[i], b[i]));
        }
        lemma_alike_fields_of(x, y, name);
        assert(alike(a[a.len() - 1], b[a.len() - 1]));
        document_laws::lemma_fields_of_push(x, a.last(), name);
        document_laws::lemma_fields_of_push(y, b.last(), name);
        assert(x.push(a.last()) =~= a);
        assert(y.push(b.last()) =~= b);
    }
}

/// Lists and non-null marks around the types of fields change nothing of what is
/// wrong with the `@derivedFrom` directives.
pub proof fn law_marks_do_not_count(a: Seq<DefinitionView>, b: Seq<DefinitionView>)
    requires
        a.len() == b.len(),
        forall|i: int| 0 <= i < a.len() ==> alike(#[trigger] a[i], b[i]),
    ensures
        derived::derived_from_error(a) == derived::derived_from_error(b),
{
    let x = document::object_types(a);
    let y = document::object_types(b);
    let pick = document::pick_object();
    assert forall|i: int| 0 <= i < a.len() implies seqs::related(
        pick(#[trigger] a[i]),
        pick(b[i]),
        alike_object(),
    ) by {
        assert(alike(a[i], b[i]));
    }
    seqs::lemma_collect_related(a, b, pick, pick, alike_object());
    let f = derived::object_error(a);
    let g = derived::object_error(b);
    assert forall|i: int| 0 <= i < x.len() implies f(#[trigger] x[i]) == g(y[i]) by {
        assert(alike_object()(x[i], y[i]));
        let p = derived::field_error(a, x[i]);
        let q = derived::field_error(b, y[i]);
        assert forall|j: int| 0 <= j < x[i].fields.len() implies p(#[trigger] x[i].fields[j]) == q(
            y[i].fields[j],
        ) by {
            assert(alike_field(x[i].fields[j], y[i].fields[j]));
            lemma_alike_error(a, b, x[i], y[i], x[i].fields[j], y[i].fields[j]);
        }
        seqs::lemma_find_map_same(x[i].fields, y[i].fields, p, q);
    }
    seqs::lemma_find_map_same(x, y, f, g);
}

proof fn lemma_alike_error(
    a: Seq<DefinitionView>,
    b: Seq<DefinitionView>,
    s: ObjectTypeView,
    t: ObjectTypeView,
    u: FieldView,
    v: FieldView,
)
    requires
        a.len() == b.len(),
        forall|i: int| 0 <= i < a.len() ==> alike(#[trigger] a[i], b[i]),
        alike_object()(s, t),
        alike_field(u, v),
    ensures
        derived::field_error(a, s)(u) == derived::field_error(b, t)(v),
{
    let names = s.implements_interfaces;
    let f = derived::interface_with_field(a, u.name);
    let g = derived::interface_with_field(b, u.name);
    assert forall|i: int| 0 <= i < names.len() implies f(#[trigger] names[i]) == g(names[i]) by {
        lemma_alike_interface(a, b, names[i], u.name);
    }
    seqs::lemma_collect_same(names, names, f, g);
    lemma_alike_fields_of(a, b, u.field_type.base());
    if let Some(d) = document::directive(u.directives, "derivedFrom"@) {
        if let Some(ValueView::String(name)) = d.argument("field"@) {
            if let Some(fields) = document::fields_of(a, u.field_type.base()) {
                let others = document::fields_of(b, u.field_type.base())->0;
                lemma_alike_field(fields, others, name);
                document_laws::law_first_field(fields, name);
                document_laws::law_first_field(others, name);
            }
        }
    }
}

} // verus!
