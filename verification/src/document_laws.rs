//! What the lookups in a document find, said by places and names, and which of its
//! numbers are equal.
use vstd::prelude::*;
use crate::ast::{
    DefinitionView, DirectiveView, EnumTypeView, FieldView, Float, InterfaceTypeView,
    ObjectTypeView, TypeDefinitionView, TypeView, ValueView,
};
use crate::document;
use crate::document::{ObjectOrInterfaceView, TypeFieldsView};
use crate::seqs;

verus! {

/// A name stands for itself, and lists and non-null marks around a type change
/// nothing of the name inside them.
pub proof fn law_base_types(name: Seq<char>, t: TypeView)
    ensures
        TypeView::NamedType(name).base() == name,
        TypeView::ListType(Box::new(t)).base() == t.base(),
        TypeView::NonNullType(Box::new(t)).base() == t.base(),
{
}

/// The field that is found is the first that has the name, and none is found
/// exactly where none has it.
pub proof fn law_first_field(fields: Seq<FieldView>, name: Seq<char>)
    ensures
        match document::field(fields, name) {
            Some(f) => exists|i: int|
                0 <= i < fields.len() && #[trigger] fields[i] == f && f.name == name && forall|j: int|
                    0 <= j < i ==> (#[trigger] fields[j]).name != name,
            None => forall|i: int| 0 <= i < fields.len() ==> (#[trigger] fields[i]).name != name,
        },
{
    let f = document::field_named(name);
    seqs::lemma_find_map_some(fields, f);
    if document::field(fields, name) is Some {
        let i = seqs::lemma_find_map_first(fields, f);
        assert(fields[i] == document::field(fields, name)->0);
        assert forall|j: int| 0 <= j < i implies (#[trigger] fields[j]).name != name by {
            assert(f(fields[j]) is None);
        }
    } else {
        assert forall|i: int| 0 <= i < fields.len() implies (#[trigger] fields[i]).name != name by {
            assert(f(fields[i]) is None);
        }
    }
}

/// The directive that is found is the first that has the name, and none is found
/// exactly where none has it.
pub proof fn law_first_directive(directives: Seq<DirectiveView>, name: Seq<char>)
    ensures
        match document::directive(directives, name) {
            Some(d) => exists|i: int|
                0 <= i < directives.len() && #[trigger] directives[i] == d && d.name == name
                    && forall|j: int| 0 <= j < i ==> (#[trigger] directives[j]).name != name,
            None => forall|i: int|
                0 <= i < directives.len() ==> (#[trigger] directives[i]).name != name,
        },
{
    let f = document::directive_named(name);
    seqs::lemma_find_map_some(directives, f);
    if document::directive(directives, name) is Some {
        let i = seqs::lemma_find_map_first(directives, f);
        assert(directives[i] == document::directive(directives, name)->0);
        assert forall|j: int| 0 <= j < i implies (#[trigger] directives[j]).name != name by {
            assert(f(directives[j]) is None);
        }
    } else {
        assert forall|i: int| 0 <= i < directives.len() implies (#[trigger] directives[i]).name
            != name by {
            assert(f(directives[i]) is None);
        }
    }
}

/// The value that is found under a name is that of the first entry with it, and
/// none is found exactly where no entry has it.
pub proof fn law_first_entry(entries: Seq<(Seq<char>, ValueView)>, name: Seq<char>)
    ensures
        match document::entry(entries, name) {
            Some(v) => exists|i: int|
                0 <= i < entries.len() && #[trigger] entries[i] == (name, v) && forall|j: int|
                    0 <= j < i ==> (#[trigger] entries[j]).0 != name,
            None => forall|i: int| 0 <= i < entries.len() ==> (#[trigger] entries[i]).0 != name,
        },
{
    let f = document::entry_named(name);
    seqs::lemma_find_map_some(entries, f);
    if document::entry(entries, name) is Some {
        let i = seqs::lemma_find_map_first(entries, f);
        assert(entries[i] == (name, document::entry(entries, name)->0));
        assert forall|j: int| 0 <= j < i implies (#[trigger] entries[j]).0 != name by {
            assert(f(entries[j]) is None);
        }
    } else {
        assert forall|i: int| 0 <= i < entries.len() implies (#[trigger] entries[i]).0 != name by {
            assert(f(entries[i]) is None);
        }
    }
}

/// The value of an argument is that of the first argument with the name.
pub proof fn law_first_argument(d: DirectiveView, name: Seq<char>)
    ensures
        match d.argument(name) {
            Some(v) => exists|i: int|
                0 <= i < d.arguments.len() && #[trigger] d.arguments[i] == (name, v) && forall|j: int|
                    0 <= j < i ==> (#[trigger] d.arguments[j]).0 != name,
            None => forall|i: int|
                0 <= i < d.arguments.len() ==> (#[trigger] d.arguments[i]).0 != name,
        },
{
    law_first_entry(d.arguments, name);
}

/// Whether a definition is that of an object type with a name.
pub open spec fn defines_object(d: DefinitionView, name: Seq<char>) -> bool {
    d matches DefinitionView::TypeDefinition(TypeDefinitionView::Object(t)) && t.name == name
}

/// Whether a definition is that of an interface with a name.
pub open spec fn defines_interface(d: DefinitionView, name: Seq<char>) -> bool {
    d matches DefinitionView::TypeDefinition(TypeDefinitionView::Interface(t)) && t.name == name
}

/// Whether a definition is that of an enum type with a name.
pub open spec fn defines_enum(d: DefinitionView, name: Seq<char>) -> bool {
    d matches DefinitionView::TypeDefinition(TypeDefinitionView::Enum(t)) && t.name == name
}

/// Whether a definition is that of a type with a name, of whatever kind.
pub open spec fn defines_type(d: DefinitionView, name: Seq<char>) -> bool {
    ||| defines_object(d, name)
    ||| defines_interface(d, name)
    ||| defines_enum(d, name)
    ||| (d matches DefinitionView::TypeDefinition(TypeDefinitionView::Scalar(t)) && t.name == name)
    ||| (d matches DefinitionView::TypeDefinition(TypeDefinitionView::Union(t)) && t.name == name)
    ||| (d matches DefinitionView::TypeDefinition(TypeDefinitionView::InputObject(t)) && t.name
        == name)
}

/// The object type that is found is the first of the document with the name.
pub proof fn law_first_object_type(doc: Seq<DefinitionView>, name: Seq<char>)
    ensures
        match document::object_type(doc, name) {
            Some(t) => t.name == name && exists|i: int|
                0 <= i < doc.len() && #[trigger] doc[i] == DefinitionView::TypeDefinition(
                    TypeDefinitionView::Object(t),
                ) && forall|j: int| 0 <= j < i ==> !defines_object(#[trigger] doc[j], name),
            None => forall|i: int| 0 <= i < doc.len() ==> !defines_object(#[trigger] doc[i], name),
        },
{
    let f = document::object_defined(name);
    document::lemma_object_defined(doc, name);
    seqs::lemma_find_map_some(doc, f);
    if document::object_type(doc, name) is Some {
        let i = seqs::lemma_find_map_first(doc, f);
        let t = document::object_type(doc, name)->0;
        assert(doc[i] == DefinitionView::TypeDefinition(TypeDefinitionView::Object(t)));
        assert forall|j: int| 0 <= j < i implies !defines_object(#[trigger] doc[j], name) by {
            assert(f(doc[j]) is None);
        }
    } else {
        assert forall|i: int| 0 <= i < doc.len() implies !defines_object(#[trigger] doc[i], name) by {
            assert(f(doc[i]) is None);
        }
    }
}

/// The interface that is found is the first of the document with the name.
pub proof fn law_first_interface_type(doc: Seq<DefinitionView>, name: Seq<char>)
    ensures
        match document::interface_type(doc, name) {
            Some(t) => t.name == name && exists|i: int|
                0 <= i < doc.len() && #[trigger] doc[i] == DefinitionView::TypeDefinition(
                    TypeDefinitionView::Interface(t),
                ) && forall|j: int| 0 <= j < i ==> !defines_interface(#[trigger] doc[j], name),
            None => forall|i: int|
                0 <= i < doc.len() ==> !defines_interface(#[trigger] doc[i], name),
        },
{
    let f = document::interface_named(name);
    seqs::lemma_find_map_some(doc, f);
    if document::interface_type(doc, name) is Some {
        let i = seqs::lemma_find_map_first(doc, f);
        let t = document::interface_type(doc, name)->0;
        assert(doc[i] == DefinitionView::TypeDefinition(TypeDefinitionView::Interface(t)));
        assert forall|j: int| 0 <= j < i implies !defines_interface(#[trigger] doc[j], name) by {
            assert(f(doc[j]) is None);
        }
    } else {
        assert forall|i: int| 0 <= i < doc.len() implies !defines_interface(
            #[trigger] doc[i],
            name,
        ) by {
            assert(f(doc[i]) is None);
        }
    }
}

/// The type that is found is the first of the document with the name, of whatever
/// kind.
pub proof fn law_first_named_type(doc: Seq<DefinitionView>, name: Seq<char>)
    ensures
        match document::named_type(doc, name) {
            Some(t) => exists|i: int|
                0 <= i < doc.len() && #[trigger] doc[i] == DefinitionView::TypeDefinition(t)
                    && defines_type(doc[i], name) && forall|j: int|
                    0 <= j < i ==> !defines_type(#[trigger] doc[j], name),
            None => forall|i: int| 0 <= i < doc.len() ==> !defines_type(#[trigger] doc[i], name),
        },
{
    let f = document::type_named(name);
    seqs::lemma_find_map_some(doc, f);
    if document::named_type(doc, name) is Some {
        let i = seqs::lemma_find_map_first(doc, f);
        let t = document::named_type(doc, name)->0;
        assert(doc[i] == DefinitionView::TypeDefinition(t));
        assert(defines_type(doc[i], name));
        assert forall|j: int| 0 <= j < i implies !defines_type(#[trigger] doc[j], name) by {
            assert(f(doc[j]) is None);
        }
    } else {
        assert forall|i: int| 0 <= i < doc.len() implies !defines_type(#[trigger] doc[i], name) by {
            assert(f(doc[i]) is None);
        }
    }
}

/// An object type or interface is found under a name exactly where the first type
/// with the name is one.
pub proof fn law_object_or_interface(doc: Seq<DefinitionView>, name: Seq<char>)
    ensures
        match document::named_type(doc, name) {
            Some(TypeDefinitionView::Object(t)) => document::object_or_interface(doc, name) == Some(
                ObjectOrInterfaceView::Object(t),
            ),
            Some(TypeDefinitionView::Interface(t)) => document::object_or_interface(doc, name)
                == Some(ObjectOrInterfaceView::Interface(t)),
            Some(TypeDefinitionView::Scalar(_)) => document::object_or_interface(doc, name) is None,
            Some(TypeDefinitionView::Union(_)) => document::object_or_interface(doc, name) is None,
            Some(TypeDefinitionView::Enum(_)) => document::object_or_interface(doc, name) is None,
            Some(TypeDefinitionView::InputObject(_)) => document::object_or_interface(doc, name)
                is None,
            None => document::object_or_interface(doc, name) is None,
        },
{
}

/// The object types of a document are those of its definitions that are object types, in
/// their order.
pub proof fn law_object_types(a: Seq<DefinitionView>, b: Seq<DefinitionView>, d: DefinitionView)
    ensures
        document::object_types(Seq::empty()) == Seq::<ObjectTypeView>::empty(),
        document::object_types(a + b) == document::object_types(a) + document::object_types(b),
        document::object_types(seq![d]) == match d {
            DefinitionView::TypeDefinition(TypeDefinitionView::Object(t)) => seq![t],
            _ => Seq::empty(),
        },
{
    seqs::lemma_collect_add(a, b, document::pick_object());
    seqs::lemma_collect_one(d, document::pick_object());
}

/// The interfaces of a document are those of its definitions that are interfaces, in
/// their order.
pub proof fn law_interface_types(a: Seq<DefinitionView>, b: Seq<DefinitionView>, d: DefinitionView)
    ensures
        document::interface_types(Seq::empty()) == Seq::<InterfaceTypeView>::empty(),
        document::interface_types(a + b) == document::interface_types(a) + document::interface_types(b),
        document::interface_types(seq![d]) == match d {
            DefinitionView::TypeDefinition(TypeDefinitionView::Interface(t)) => seq![t],
            _ => Seq::empty(),
        },
{
    seqs::lemma_collect_add(a, b, document::pick_interface());
    seqs::lemma_collect_one(d, document::pick_interface());
}

/// The enum types of a document are those of its definitions that are enum types, in
/// their order.
pub proof fn law_enum_types(a: Seq<DefinitionView>, b: Seq<DefinitionView>, d: DefinitionView)
    ensures
        document::enum_types(Seq::empty()) == Seq::<EnumTypeView>::empty(),
        document::enum_types(a + b) == document::enum_types(a) + document::enum_types(b),
        document::enum_types(seq![d]) == match d {
            DefinitionView::TypeDefinition(TypeDefinitionView::Enum(t)) => seq![t],
            _ => Seq::empty(),
        },
{
    seqs::lemma_collect_add(a, b, document::pick_enum());
    seqs::lemma_collect_one(d, document::pick_enum());
}

/// The name and the fields of the object type or interface that a definition
/// defines.
pub open spec fn fields_defined(d: DefinitionView) -> Option<TypeFieldsView> {
    match d {
        DefinitionView::TypeDefinition(TypeDefinitionView::Object(t)) => Some(
            TypeFieldsView { name: t.name, fields: t.fields },
        ),
        DefinitionView::TypeDefinition(TypeDefinitionView::Interface(t)) => Some(
            TypeFieldsView { name: t.name, fields: t.fields },
        ),
        _ => None,
    }
}

proof fn lemma_unshadowed_push(all: Seq<TypeFieldsView>, x: TypeFieldsView, n: int)
    requires
        0 <= n <= all.len(),
    ensures
        document::unshadowed(all.push(x), n) == document::unshadowed(all, n).filter(
            |t: TypeFieldsView| t.name != x.name,
        ),
    decreases n,
{
    reveal(Seq::filter);
    let p = |t: TypeFieldsView| t.name != x.name;
    let more = all.push(x);
    if n > 0 {
        lemma_unshadowed_push(all, x, n - 1);
        let before = document::unshadowed(all, n - 1);
        let t = all[n - 1];
        assert(more[n - 1] == t);
        if document::shadowed(all, n - 1) {
            let j = choose|j: int| n - 1 < j < all.len() && #[trigger] all[j].name == all[n - 1].name;
            assert(more[j].name == more[n - 1].name);
            assert(document::shadowed(more, n - 1));
        } else {
            assert(before.push(t).drop_last() =~= before);
            if t.name == x.name {
                assert(more[all.len() as int].name == more[n - 1].name);
                assert(document::shadowed(more, n - 1));
            } else {
                assert(!document::shadowed(more, n - 1)) by {
                    if document::shadowed(more, n - 1) {
                        let j = choose|j: int|
                            n - 1 < j < more.len() && #[trigger] more[j].name == more[n - 1].name;
                        if j < all.len() {
                            assert(all[j].name == all[n - 1].name);
                        }
                    }
                }
            }
        }
    }
    assert(document::unshadowed(more, n) =~= document::unshadowed(all, n).filter(p));
}

/// One more definition of an object type or interface comes behind the others and
/// puts an earlier one with the same name out.
pub proof fn law_type_fields(doc: Seq<DefinitionView>, d: DefinitionView)
    ensures
        document::type_fields(Seq::empty()) == Seq::<TypeFieldsView>::empty(),
        document::type_fields(doc.push(d)) == match fields_defined(d) {
            Some(x) => document::type_fields(doc).filter(
                |t: TypeFieldsView| t.name != x.name,
            ).push(x),
            None => document::type_fields(doc),
        },
{
    let f = document::pick_fields();
    let all = seqs::collect(doc, f);
    assert(doc.push(d).drop_last() =~= doc);
    if let Some(x) = fields_defined(d) {
        let more = all.push(x);
        assert(seqs::collect(doc.push(d), f) == more);
        lemma_unshadowed_push(all, x, all.len() as int);
        assert(!document::shadowed(more, all.len() as int));
        assert(more[all.len() as int] == x);
    }
}

/// The fields that are found under a name are those of the last object type or
/// interface with it.
pub proof fn law_fields_of_the_last(doc: Seq<DefinitionView>, name: Seq<char>)
    ensures
        match document::fields_of(doc, name) {
            Some(fields) => exists|i: int|
                0 <= i < doc.len() && fields_defined(#[trigger] doc[i]) == Some(
                    TypeFieldsView { name, fields },
                ) && forall|j: int|
                    i < j < doc.len() ==> !(fields_defined(#[trigger] doc[j]) matches Some(t)
                        && t.name == name),
            None => forall|i: int|
                0 <= i < doc.len() ==> !(fields_defined(#[trigger] doc[i]) matches Some(t) && t.name
                    == name),
        },
    decreases doc.len(),
{
    let f = document::fields_named(name);
    if doc.len() > 0 {
        let front = doc.drop_last();
        let d = doc.last();
        law_fields_of_the_last(front, name);
        assert(front.push(d) =~= doc);
        law_type_fields(front, d);
        let before = document::type_fields(front);
        if let Some(x) = fields_defined(d) {
            let p = |t: TypeFieldsView| t.name != x.name;
            lemma_find_in_filtered(before, p, name, x.name);
            let kept = before.filter(p);
            assert(kept.push(x).drop_last() =~= kept);
            if x.name == name {
                assert(fields_defined(doc[doc.len() - 1]) == Some(x));
            }
        }
        if let Some(fields) = document::fields_of(doc, name) {
            if !(fields_defined(d) matches Some(x) && x.name == name) {
                let i = choose|i: int|
                    0 <= i < front.len() && fields_defined(#[trigger] front[i]) == Some(
                        TypeFieldsView { name, fields },
                    ) && forall|j: int|
                        i < j < front.len() ==> !(fields_defined(#[trigger] front[j]) matches Some(t)
                            && t.name == name);
                assert(fields_defined(doc[i]) == Some(TypeFieldsView { name, fields }));
                assert forall|j: int| i < j < doc.len() implies !(fields_defined(
                    #[trigger] doc[j],
                ) matches Some(t) && t.name == name) by {
                    if j < front.len() {
                        assert(front[j] == doc[j]);
                    }
                }
            }
        } else {
            assert forall|i: int| 0 <= i < doc.len() implies !(fields_defined(
                #[trigger] doc[i],
            ) matches Some(t) && t.name == name) by {
                if i < front.len() {
                    assert(front[i] == doc[i]);
                }
            }
        }
    }
}

/// Taking the types with one name away changes what is found under that name
/// alone.
proof fn lemma_find_in_filtered(
    types: Seq<TypeFieldsView>,
    p: spec_fn(TypeFieldsView) -> bool,
    name: Seq<char>,
    gone: Seq<char>,
)
    requires
        forall|t: TypeFieldsView| #[trigger] p(t) == (t.name != gone),
    ensures
        seqs::find_map(types.filter(p), document::fields_named(name)) == if name == gone {
            None
        } else {
            seqs::find_map(types, document::fields_named(name))
        },
    decreases types.len(),
{
    reveal(Seq::filter);
    if types.len() > 0 {
        let front = types.drop_last();
        lemma_find_in_filtered(front, p, name, gone);
        assert(front.filter(p).push(types.last()).drop_last() =~= front.filter(p));
    }
}

/// One more definition decides of what is found under the name that it defines.
pub proof fn lemma_fields_of_push(doc: Seq<DefinitionView>, d: DefinitionView, name: Seq<char>)
    ensures
        document::fields_of(doc.push(d), name) == match fields_defined(d) {
            Some(x) => if x.name == name {
                Some(x.fields)
            } else {
                document::fields_of(doc, name)
            },
            None => document::fields_of(doc, name),
        },
{
    law_type_fields(doc, d);
    if let Some(x) = fields_defined(d) {
        let p = |t: TypeFieldsView| t.name != x.name;
        let kept = document::type_fields(doc).filter(p);
        lemma_find_in_filtered(document::type_fields(doc), p, name, x.name);
        assert(kept.push(x).drop_last() =~= kept);
    }
}

/// A type is immutable exactly where its first `@entity` directive has `true` as
/// its first `immutable` argument.
pub proof fn law_immutable(t: ObjectTypeView)
    ensures
        t.is_immutable() <==> exists|i: int, k: int|
            #![trigger t.directives[i].arguments[k]]
            {
                &&& 0 <= i < t.directives.len()
                &&& t.directives[i].name == "entity"@
                &&& forall|j: int| 0 <= j < i ==> (#[trigger] t.directives[j]).name != "entity"@
                &&& 0 <= k < t.directives[i].arguments.len()
                &&& t.directives[i].arguments[k] == ("immutable"@, ValueView::Boolean(true))
                &&& forall|m: int|
                    0 <= m < k ==> (#[trigger] t.directives[i].arguments[m]).0 != "immutable"@
            },
{
    let ds = t.directives;
    law_first_directive(ds, "entity"@);
    if let Some(d) = document::directive(ds, "entity"@) {
        law_first_argument(d, "immutable"@);
        let i = choose|i: int|
            0 <= i < ds.len() && #[trigger] ds[i] == d && d.name == "entity"@ && forall|j: int|
                0 <= j < i ==> (#[trigger] ds[j]).name != "entity"@;
        if t.is_immutable() {
            let v = ValueView::Boolean(true);
            let k = choose|k: int|
                0 <= k < d.arguments.len() && #[trigger] d.arguments[k] == ("immutable"@, v)
                    && forall|j: int| 0 <= j < k ==> (#[trigger] d.arguments[j]).0 != "immutable"@;
            assert(t.directives[i].arguments[k] == ("immutable"@, ValueView::Boolean(true)));
        }
    }
}

/// The `@fulltext` directives of a document are those on its first `_Schema_`
/// type, in their order.
pub proof fn law_fulltext_directives(doc: Seq<DefinitionView>)
    ensures
        document::fulltext_directives(doc) == match document::object_type(doc, "_Schema_"@) {
            Some(t) => t.directives.filter(|d: DirectiveView| d.name == "fulltext"@),
            None => Seq::empty(),
        },
{
    if let Some(t) = document::object_type(doc, "_Schema_"@) {
        seqs::lemma_collect_is_filter(
            t.directives,
            document::pick_fulltext(),
            |d: DirectiveView| d.name == "fulltext"@,
        );
    }
}

/// The name and the directives of a type are those of its definition, and giving
/// it other directives changes nothing else.
pub proof fn law_type_definitions(t: TypeDefinitionView, ds: Seq<DirectiveView>)
    ensures
        match t {
            TypeDefinitionView::Scalar(x) => t.name() == x.name && t.directives() == x.directives,
            TypeDefinitionView::Object(x) => t.name() == x.name && t.directives() == x.directives
                && (t.with_directives(ds) matches TypeDefinitionView::Object(y) && y.fields
                == x.fields && y.implements_interfaces == x.implements_interfaces && y.description
                == x.description && y.position == x.position),
            TypeDefinitionView::Interface(x) => t.name() == x.name && t.directives() == x.directives
                && (t.with_directives(ds) matches TypeDefinitionView::Interface(y) && y.fields
                == x.fields && y.implements_interfaces == x.implements_interfaces && y.description
                == x.description && y.position == x.position),
            TypeDefinitionView::Union(x) => t.name() == x.name && t.directives() == x.directives && (
            t.with_directives(ds) matches TypeDefinitionView::Union(y) && y.types == x.types),
            TypeDefinitionView::Enum(x) => t.name() == x.name && t.directives() == x.directives && (
            t.with_directives(ds) matches TypeDefinitionView::Enum(y) && y.values == x.values),
            TypeDefinitionView::InputObject(x) => t.name() == x.name && t.directives()
                == x.directives && (t.with_directives(ds) matches TypeDefinitionView::InputObject(y)
                && y.fields == x.fields),
        },
        t.with_directives(ds).name() == t.name(),
        t.with_directives(ds).directives() == ds,
        t.with_directives(t.directives()) == t,
{
}

/// Whether the bits are those of no number: the exponent is the largest, and the
/// fraction is not zero.
pub open spec fn is_nan(x: Float) -> bool {
    ||| 0x7ff0_0000_0000_0000 < x.bits < 0x8000_0000_0000_0000
    ||| 0xfff0_0000_0000_0000 < x.bits
}

/// Whether the bits are those of zero, with or without a sign.
pub open spec fn is_zero(x: Float) -> bool {
    x.bits == 0 || x.bits == 0x8000_0000_0000_0000
}

/// Two numbers are equal exactly where both are numbers, and their bits are equal or
/// both are zero.
pub proof fn law_equal_numbers(a: Float, b: Float)
    ensures
        a.equals(b) <==> !is_nan(a) && !is_nan(b) && (a.bits == b.bits || (is_zero(a) && is_zero(
            b,
        ))),
        a.equals(b) == b.equals(a),
{
}

} // verus!
