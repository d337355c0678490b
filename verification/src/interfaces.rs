//! Which types implement which interfaces.
use vstd::prelude::*;
use crate::ast::{
    DefinitionView, Document, FieldView, Field, InterfaceType, InterfaceTypeView, ObjectType,
    ObjectTypeView,
};
use crate::document;
use crate::errors;
use crate::errors::{SchemaValidationError, SchemaValidationErrorView, Strings};
use crate::ids::EntityType;
use crate::schema::Schema;
use crate::seqs;
use crate::text;
use crate::text::{same, trim};
use crate::type_map;
use crate::type_map::{Groups, TypeMap};

verus! {

broadcast use crate::seqs::lemma_deep_push;

/// Whether a field has the name and the type of `f`.
pub open spec fn like(f: FieldView) -> spec_fn(FieldView) -> bool {
    |o: FieldView| o.name == f.name && o.field_type == f.field_type
}

/// A field as it is written, if none of `fields` has its name and type.
pub open spec fn missing_from(fields: Seq<FieldView>) -> spec_fn(FieldView) -> Option<Seq<char>> {
    |f: FieldView|
        if seqs::some(fields, like(f)) {
            None
        } else {
            Some(text::trimmed(f.text))
        }
}

/// The fields of an interface that an object type lacks, as they are written.
pub open spec fn missing_fields(object: ObjectTypeView, interface: InterfaceTypeView) -> Seq<
    Seq<char>,
> {
    seqs::collect(interface.fields, missing_from(object.fields))
}

/// What keeps an object type from implementing an interface.
pub open spec fn implementation_error(
    object: ObjectTypeView,
    interface: InterfaceTypeView,
) -> Option<SchemaValidationErrorView> {
    let missing = missing_fields(object, interface);
    if missing.len() > 0 {
        Some(
            SchemaValidationErrorView::InterfaceFieldsMissing(object.name, interface.name, missing),
        )
    } else {
        None
    }
}

/// Decides whether one of `fields` has the name and the type of `f`.
fn has_like(fields: &Vec<Field>, f: &Field) -> (r: bool)
    ensures
        r == seqs::some(seqs::deep(fields@), like(f@)),
{
    let ghost all = seqs::deep(fields@);
    let mut i: usize = 0;
    while i < fields.len()
        invariant
            i <= fields@.len(),
            all == seqs::deep(fields@),
            forall|j: int| 0 <= j < i ==> !#[trigger] like(f@)(all[j]),
        decreases fields@.len() - i,
    {
        let o = &fields[i];
        if same(o.name.as_str(), f.name.as_str()) && o.field_type.same_type(&f.field_type) {
            assert(like(f@)(all[i as int]));
            return true;
        }
        i += 1;
    }
    false
}

impl Schema {
    /// Checks that an object type has all fields of an interface, with the same
    /// names and types.
    pub fn validate_interface_implementation(object: &ObjectType, interface: &InterfaceType) -> (r:
        Result<(), SchemaValidationError>)
        ensures
            errors::problem(r) == implementation_error(object@, interface@),
    {
        let ghost all = seqs::deep(interface.fields@);
        let ghost f = missing_from(seqs::deep(object.fields@));
        let mut missing: Vec<String> = Vec::new();
        let mut i: usize = 0;
        while i < interface.fields.len()
            invariant
                i <= interface.fields@.len(),
                all == seqs::deep(interface.fields@),
                f == missing_from(seqs::deep(object.fields@)),
                seqs::deep(missing@) == seqs::collect(all.take(i as int), f),
            decreases interface.fields@.len() - i,
        {
            proof {
                seqs::lemma_collect_step(all, f, i as int);
            }
            let field = &interface.fields[i];
            if !has_like(&object.fields, field) {
                missing.push(trim(field.text.as_str()));
            }
            i += 1;
        }
        proof {
            seqs::lemma_take_all(all);
        }
        if missing.len() > 0 {
            Err(
                SchemaValidationError::InterfaceFieldsMissing(
                    object.name.clone(),
                    interface.name.clone(),
                    Strings(missing),
                ),
            )
        } else {
            Ok(())
        }
    }
}

/// What keeps an object type from implementing the interface with a name.
pub open spec fn named_implementation_error(
    doc: Seq<DefinitionView>,
    object: ObjectTypeView,
) -> spec_fn(Seq<char>) -> Option<SchemaValidationErrorView> {
    |name: Seq<char>|
        match document::interface_type(doc, name) {
            Some(interface) => implementation_error(object, interface),
            None => Some(SchemaValidationErrorView::InterfaceUndefined(name)),
        }
}

/// What keeps an object type from implementing the first of its interfaces that
/// it cannot implement.
pub open spec fn object_interfaces_error(doc: Seq<DefinitionView>) -> spec_fn(
    ObjectTypeView,
) -> Option<SchemaValidationErrorView> {
    |object: ObjectTypeView|
        seqs::find_map(
            object.implements_interfaces,
            named_implementation_error(doc, object),
        )
}

/// The first thing that keeps an object type of a document from implementing one
/// of its interfaces.
pub open spec fn interfaces_error(doc: Seq<DefinitionView>) -> Option<SchemaValidationErrorView> {
    seqs::find_map(document::object_types(doc), object_interfaces_error(doc))
}

/// An object type with each of the interfaces that it says it implements.
pub open spec fn object_implementations() -> spec_fn(ObjectTypeView) -> Seq<
    (ObjectTypeView, Seq<char>),
> {
    |object: ObjectTypeView|
        object.implements_interfaces.map_values(|name: Seq<char>| (object, name))
}

/// The object types of a document, each with each of the interfaces that it says
/// it implements.
pub open spec fn implementations(doc: Seq<DefinitionView>) -> Seq<(ObjectTypeView, Seq<char>)> {
    seqs::flat_map(document::object_types(doc), object_implementations())
}

/// The interface of an implementation, if the type has that name.
pub open spec fn interface_of(doc: Seq<DefinitionView>, object_name: Seq<char>) -> spec_fn(
    (ObjectTypeView, Seq<char>),
) -> Option<InterfaceTypeView> {
    |p: (ObjectTypeView, Seq<char>)|
        if p.0.name == object_name {
            document::interface_type(doc, p.1)
        } else {
            None
        }
}

/// The type of an implementation, if the interface has that name.
pub open spec fn implementor_of(interface_name: Seq<char>) -> spec_fn(
    (ObjectTypeView, Seq<char>),
) -> Option<ObjectTypeView> {
    |p: (ObjectTypeView, Seq<char>)|
        if p.1 == interface_name {
            Some(p.0)
        } else {
            None
        }
}

/// The interfaces that the types with a name implement.
pub open spec fn interfaces_of(
    doc: Seq<DefinitionView>,
    implementations: Seq<(ObjectTypeView, Seq<char>)>,
    object_name: Seq<char>,
) -> Option<Seq<InterfaceTypeView>> {
    let interfaces = seqs::collect(implementations, interface_of(doc, object_name));
    if interfaces.len() > 0 {
        Some(interfaces)
    } else {
        None
    }
}

/// The types that implement the interface with a name, where there is one.
pub open spec fn implementors_of(
    doc: Seq<DefinitionView>,
    implementations: Seq<(ObjectTypeView, Seq<char>)>,
    interface_name: Seq<char>,
) -> Option<Seq<ObjectTypeView>> {
    if document::interface_type(doc, interface_name) is Some {
        Some(seqs::collect(implementations, implementor_of(interface_name)))
    } else {
        None
    }
}

/// Whether a map gives to each type name the interfaces that types with it
/// implement.
pub open spec fn gives_interfaces(
    groups: Groups<InterfaceTypeView>,
    doc: Seq<DefinitionView>,
    implementations: Seq<(ObjectTypeView, Seq<char>)>,
) -> bool {
    forall|name: Seq<char>| #[trigger]
        type_map::group(groups, name) == interfaces_of(doc, implementations, name)
}

/// Whether a map gives to each interface the types that implement it.
pub open spec fn gives_implementors(
    groups: Groups<ObjectTypeView>,
    doc: Seq<DefinitionView>,
    implementations: Seq<(ObjectTypeView, Seq<char>)>,
) -> bool {
    forall|name: Seq<char>| #[trigger]
        type_map::group(groups, name) == implementors_of(doc, implementations, name)
}

/// The interfaces of a document, each without an implementor.
fn declare_interfaces(doc: &Document) -> (r: TypeMap<ObjectType>)
    ensures
        r.wf(),
        gives_implementors(r@, doc@, Seq::empty()),
{
    let interfaces = doc.get_interface_type_definitions();
    let ghost all = seqs::deep(interfaces@);
    let mut r: TypeMap<ObjectType> = TypeMap::new();
    let mut i: usize = 0;
    while i < interfaces.len()
        invariant
            i <= interfaces@.len(),
            all == seqs::deep(interfaces@),
            r.wf(),
            forall|name: Seq<char>| #[trigger]
                type_map::group(r@, name) == if declared(all.take(i as int), name) {
                    Some(Seq::<ObjectTypeView>::empty())
                } else {
                    None
                },
        decreases interfaces@.len() - i,
    {
        proof {
            assert forall|name: Seq<char>|
                declared(all.take(i + 1), name) == (declared(all.take(i as int), name)
                    || all[i as int].name == name) by {
                lemma_declared_step(all, i as int, name);
            }
        }
        r.declare(EntityType::of_interface(interfaces[i]));
        i += 1;
    }
    proof {
        seqs::lemma_take_all(all);
        assert forall|name: Seq<char>| #[trigger]
            type_map::group(r@, name) == implementors_of(doc@, Seq::empty(), name) by {
            lemma_declared(doc@, name);
        }
    }
    r
}

/// Whether an interface of a list has that name.
spec fn declared(interfaces: Seq<InterfaceTypeView>, name: Seq<char>) -> bool {
    exists|i: int| 0 <= i < interfaces.len() && #[trigger] interfaces[i].name == name
}

proof fn lemma_declared_step(all: Seq<InterfaceTypeView>, i: int, name: Seq<char>)
    requires
        0 <= i < all.len(),
    ensures
        declared(all.take(i + 1), name) == (declared(all.take(i), name) || all[i].name == name),
{
    if declared(all.take(i), name) {
        let j = choose|j: int| 0 <= j < i && #[trigger] all.take(i)[j].name == name;
        assert(all.take(i + 1)[j].name == name);
    }
    assert(all.take(i + 1)[i] == all[i]);
    if declared(all.take(i + 1), name) {
        let j = choose|j: int| 0 <= j < i + 1 && #[trigger] all.take(i + 1)[j].name == name;
        if j < i {
            assert(all.take(i)[j].name == name);
        }
    }
}

/// An interface is found by its name exactly where one of the document has it.
proof fn lemma_declared(doc: Seq<DefinitionView>, name: Seq<char>)
    ensures
        declared(document::interface_types(doc), name) == (document::interface_type(doc, name)
            is Some),
    decreases doc.len(),
{
    if doc.len() > 0 {
        let front = doc.drop_last();
        let some = document::interface_types(front);
        let all = document::interface_types(doc);
        lemma_declared(front, name);
        match document::pick_interface()(doc.last()) {
            Some(t) => {
                assert(all == some.push(t));
                lemma_declared_step(all, some.len() as int, name);
                assert(all.take(some.len() as int) =~= some);
                assert(all.take(some.len() as int + 1) =~= all);
            },
            None => {},
        }
    }
}

/// One more implementation adds its interface for its type.
proof fn lemma_interfaces_push(
    doc: Seq<DefinitionView>,
    done: Seq<(ObjectTypeView, Seq<char>)>,
    p: (ObjectTypeView, Seq<char>),
    name: Seq<char>,
)
    requires
        document::interface_type(doc, p.1) is Some,
    ensures
        interfaces_of(doc, done.push(p), name) == if name == p.0.name {
            Some(
                match interfaces_of(doc, done, name) {
                    Some(interfaces) => interfaces,
                    None => Seq::empty(),
                }.push(document::interface_type(doc, p.1)->0),
            )
        } else {
            interfaces_of(doc, done, name)
        },
{
    assert(done.push(p).drop_last() =~= done);
    if interfaces_of(doc, done, name) is None {
        assert(seqs::collect(done, interface_of(doc, name)) =~= Seq::empty());
    }
}

/// One more implementation adds its type for its interface.
proof fn lemma_implementors_push(
    doc: Seq<DefinitionView>,
    done: Seq<(ObjectTypeView, Seq<char>)>,
    p: (ObjectTypeView, Seq<char>),
    name: Seq<char>,
)
    requires
        document::interface_type(doc, p.1) is Some,
    ensures
        implementors_of(doc, done.push(p), name) == if name == p.1 {
            Some(implementors_of(doc, done, name)->0.push(p.0))
        } else {
            implementors_of(doc, done, name)
        },
{
    assert(done.push(p).drop_last() =~= done);
}

impl Schema {
    /// The interfaces of each type, and the types that implement each interface. An
    /// interface that nothing implements has the empty list.
    pub fn collect_interfaces(doc: &Document) -> (r: Result<
        (TypeMap<InterfaceType>, TypeMap<ObjectType>),
        SchemaValidationError,
    >)
        ensures
            match r {
                Ok(maps) => {
                    &&& interfaces_error(doc@) is None
                    &&& maps.0.wf()
                    &&& maps.1.wf()
                    &&& gives_interfaces(maps.0@, doc@, implementations(doc@))
                    &&& gives_implementors(maps.1@, doc@, implementations(doc@))
                },
                Err(e) => interfaces_error(doc@) == Some(e@),
            },
    {
        let mut types_for_interface = declare_interfaces(doc);
        let mut interfaces_for_type: TypeMap<InterfaceType> = TypeMap::new();
        let objects = doc.get_object_type_definitions();
        let ghost all = seqs::deep(objects@);
        let ghost pairs = object_implementations();
        let ghost wrong = object_interfaces_error(doc@);
        let mut i: usize = 0;
        while i < objects.len()
            invariant
                i <= objects@.len(),
                all == seqs::deep(objects@),
                all == document::object_types(doc@),
                pairs == object_implementations(),
                wrong == object_interfaces_error(doc@),
                seqs::find_map(all.take(i as int), wrong) is None,
                interfaces_for_type.wf(),
                types_for_interface.wf(),
                gives_interfaces(
                    interfaces_for_type@,
                    doc@,
                    seqs::flat_map(all.take(i as int), pairs),
                ),
                gives_implementors(
                    types_for_interface@,
                    doc@,
                    seqs::flat_map(all.take(i as int), pairs),
                ),
            decreases objects@.len() - i,
        {
            let object = objects[i];
            let ghost before = seqs::flat_map(all.take(i as int), pairs);
            let ghost here = pairs(object@);
            let ghost names = object@.implements_interfaces;
            let ghost wrong_here = named_implementation_error(doc@, object@);
            assert(all[i as int] == object@);
            proof {
                seqs::lemma_find_map_step(all, wrong, i as int);
                seqs::lemma_flat_map_step(all, pairs, i as int);
            }
            assert(before + here.take(0) =~= before);
            let mut j: usize = 0;
            while j < object.implements_interfaces.len()
                invariant
                    i < objects@.len(),
                    all == seqs::deep(objects@),
                    all == document::object_types(doc@),
                    object@ == all[i as int],
                    wrong == object_interfaces_error(doc@),
                    wrong(object@) is Some ==> seqs::find_map(all, wrong) == wrong(object@),
                    wrong_here == named_implementation_error(doc@, object@),
                    names == seqs::deep(object.implements_interfaces@),
                    names == object@.implements_interfaces,
                    here == names.map_values(|name: Seq<char>| (object@, name)),
                    j <= object.implements_interfaces@.len(),
                    seqs::find_map(names.take(j as int), wrong_here) is None,
                    interfaces_for_type.wf(),
                    types_for_interface.wf(),
                    gives_interfaces(interfaces_for_type@, doc@, before + here.take(j as int)),
                    gives_implementors(types_for_interface@, doc@, before + here.take(j as int)),
                decreases object.implements_interfaces@.len() - j,
            {
                let name = &object.implements_interfaces[j];
                proof {
                    seqs::lemma_find_map_step(names, wrong_here, j as int);
                }
                let interface = match doc.find_interface(name.as_str()) {
                    Some(interface) => interface,
                    None => {
                        return Err(SchemaValidationError::InterfaceUndefined(name.clone()));
                    },
                };
                if let Err(e) = Schema::validate_interface_implementation(object, interface) {
                    return Err(e);
                }
                let ghost done = before + here.take(j as int);
                let ghost p = (object@, name@);
                proof {
                    assert(names[j as int] == name@);
                    assert(here[j as int] == p);
                    assert(before + here.take(j + 1) =~= done.push(p));
                    assert forall|n: Seq<char>| #[trigger]
                        interfaces_of(doc@, done.push(p), n) == if n == object@.name {
                            Some(
                                type_map::group_or_empty(interfaces_for_type@, n).push(interface@),
                            )
                        } else {
                            type_map::group(interfaces_for_type@, n)
                        } by {
                        lemma_interfaces_push(doc@, done, p, n);
                        assert(type_map::group(interfaces_for_type@, n) == interfaces_of(
                            doc@,
                            done,
                            n,
                        ));
                    }
                    assert forall|n: Seq<char>| #[trigger]
                        implementors_of(doc@, done.push(p), n) == if n == name@ {
                            Some(type_map::group_or_empty(types_for_interface@, n).push(object@))
                        } else {
                            type_map::group(types_for_interface@, n)
                        } by {
                        lemma_implementors_push(doc@, done, p, n);
                        assert(type_map::group(types_for_interface@, n) == implementors_of(
                            doc@,
                            done,
                            n,
                        ));
                    }
                }
                interfaces_for_type.push(EntityType::of_object(object), interface.clone());
                types_for_interface.push(EntityType::new(name.clone()), object.clone());
                j += 1;
            }
            proof {
                seqs::lemma_take_all(names);
                seqs::lemma_take_all(here);
            }
            i += 1;
        }
        proof {
            seqs::lemma_take_all(all);
        }
        Ok((interfaces_for_type, types_for_interface))
    }
}

} // verus!
